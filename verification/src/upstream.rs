//! The upstream client's verifiable half: the fixed endpoint paths and the
//! failure taxonomy of a fetch. The HTTP calls themselves are not made here;
//! a caller performs them and hands the outcome to the assembler.

use vstd::prelude::*;
use vstd::string::*;

verus! {

/// Why a fetch against the upstream failed.
#[derive(Debug)]
pub enum UpstreamError {
    /// The connection could not be established or timed out.
    Transport(String),
    /// The response body did not decode into the expected shape.
    Decode(String),
}

/// The textual description an upstream failure carries.
pub open spec fn upstream_description(e: UpstreamError) -> Seq<char> {
    match e {
        UpstreamError::Transport(m) => m@,
        UpstreamError::Decode(m) => m@,
    }
}

impl UpstreamError {
    /// The carried description, unchanged.
    pub fn describe(&self) -> (s: String)
        ensures
            s@ == upstream_description(*self),
    {
        match self {
            UpstreamError::Transport(m) => m.clone(),
            UpstreamError::Decode(m) => m.clone(),
        }
    }
}

/// The status endpoint under a configured base URL.
pub fn status_url(base: &str) -> (r: String)
    ensures
        r@ == base@ + "/v1/admin/status"@,
{
    let mut s = String::from_str(base);
    s.append("/v1/admin/status");
    s
}

/// The lease endpoint under a configured base URL.
pub fn lease_url(base: &str) -> (r: String)
    ensures
        r@ == base@ + "/v1/admin/lease"@,
{
    let mut s = String::from_str(base);
    s.append("/v1/admin/lease");
    s
}

} // verus!
