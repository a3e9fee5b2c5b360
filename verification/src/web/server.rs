//! What the server adds to every response.

use vstd::prelude::*;

verus! {

/// One response header.
#[derive(Debug)]
pub struct Header {
    pub name: String,
    pub value: String,
}

/// The cross-origin policy of the query surface: any origin may read it.
#[derive(Clone, Copy, Debug)]
pub struct CORS;

impl CORS {
    /// The headers of the policy, as names and values.
    pub open spec fn policy() -> Seq<(Seq<char>, Seq<char>)> {
        seq![
            ("Access-Control-Allow-Origin"@, "*"@),
            ("Access-Control-Allow-Methods"@, "GET, POST, PUT, DELETE, OPTIONS"@),
            ("Access-Control-Allow-Headers"@, "Content-Type, Authorization"@),
        ]
    }

    /// What the policy is called where response hooks are listed.
    pub fn info(&self) -> (name: String)
        ensures
            name@ == "Add CORS headers to responses"@,
    {
        "Add CORS headers to responses".to_owned()
    }

    /// The headers to set on every response.
    pub fn headers(&self) -> (headers: Vec<Header>)
        ensures
            headers.len() == CORS::policy().len(),
            forall|i: int|
                0 <= i < headers.len() ==> ((#[trigger] headers[i]).name@, headers[i].value@)
                    == CORS::policy()[i],
    {
        let mut headers: Vec<Header> = Vec::new();
        headers.push(
            Header { name: "Access-Control-Allow-Origin".to_owned(), value: "*".to_owned() },
        );
        headers.push(
            Header {
                name: "Access-Control-Allow-Methods".to_owned(),
                value: "GET, POST, PUT, DELETE, OPTIONS".to_owned(),
            },
        );
        headers.push(
            Header {
                name: "Access-Control-Allow-Headers".to_owned(),
                value: "Content-Type, Authorization".to_owned(),
            },
        );
        headers
    }
}

} // verus!
