//! Which chain an ingestor reads, and where that chain is asked for its
//! latest block.

use vstd::prelude::*;

verus! {

/// The chains the provider serves.
#[derive(Clone, Copy, Debug, PartialEq, Eq, Structural)]
pub enum Chain {
    /// The Fuel main network.
    Fuel,
    /// The Fuel test network.
    FuelTestnet,
}

/// The host that answers for a chain's latest block.
pub open spec fn host_of(chain: Chain) -> Seq<char> {
    match chain {
        Chain::Fuel => "mainnet.fuel.network"@,
        Chain::FuelTestnet => "testnet.fuel.network"@,
    }
}

/// The chain that a configured name selects: `FUEL` is the main network,
/// every other name the test network.
pub fn select_chain(name: &str) -> (chain: Chain)
    ensures
        chain == if name@ == "FUEL"@ {
            Chain::Fuel
        } else {
            Chain::FuelTestnet
        },
{
    if name.to_owned() == "FUEL".to_owned() {
        Chain::Fuel
    } else {
        Chain::FuelTestnet
    }
}

/// The host that answers for the latest block of `chain`.
pub fn provider_host(chain: Chain) -> (host: &'static str)
    ensures
        host@ == host_of(chain),
{
    match chain {
        Chain::Fuel => "mainnet.fuel.network",
        Chain::FuelTestnet => "testnet.fuel.network",
    }
}

} // verus!
