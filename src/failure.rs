//! Request failures and the HTTP status each one maps to.
use vstd::prelude::*;

verus! {

/// Why a request was not served.
#[derive(Debug)]
pub enum Failure {
    /// The client sent malformed, missing or invalid input (status 400).
    BadRequest(String),
    /// A transport fault or a failed dependency (status 500).
    Internal(String),
}

impl Failure {
    pub open spec fn spec_status(&self) -> u16 {
        match self {
            Failure::BadRequest(_) => 400,
            Failure::Internal(_) => 500,
        }
    }

    pub open spec fn spec_message(&self) -> Seq<char> {
        match self {
            Failure::BadRequest(m) => m@,
            Failure::Internal(m) => m@,
        }
    }

    /// The HTTP status code of the failure.
    pub fn status(&self) -> (r: u16)
        ensures
            r == self.spec_status(),
    {
        match self {
            Failure::BadRequest(_) => 400,
            Failure::Internal(_) => 500,
        }
    }

    /// The plain-text body sent with the status.
    pub fn message(&self) -> (r: &str)
        ensures
            r@ == self.spec_message(),
    {
        match self {
            Failure::BadRequest(m) => m.as_str(),
            Failure::Internal(m) => m.as_str(),
        }
    }
}

/// A failure whose message is `prefix` followed by `detail`.
pub fn failure_with(bad_request: bool, prefix: &str, detail: &str) -> (r: Failure)
    ensures
        r.spec_status() == (if bad_request { 400u16 } else { 500u16 }),
        r.spec_message() == prefix@ + detail@,
{
    let mut m = String::from_str(prefix);
    m.append(detail);
    if bad_request {
        Failure::BadRequest(m)
    } else {
        Failure::Internal(m)
    }
}

} // verus!
