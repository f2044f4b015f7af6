//! The error taxonomy of an update cycle.

use vstd::prelude::*;

verus! {

/// Everything that can abort a run. An unmatched subdomain is deliberately
/// not here: it is skipped with a diagnostic, not an error.
#[derive(Debug)]
pub enum DdnsError {
    /// The configuration file is missing or fails schema validation.
    Config,
    /// A connection, timeout or transport failure on an outbound call.
    Network,
    /// The IP echo response held no parseable `ip=` token.
    NoIpFound,
    /// The provider answered the record listing with a non-success HTTP
    /// status (an authentication failure is one of these).
    ApiFailure { status: u16 },
    /// A response body did not match the expected envelope shape.
    Decode,
    /// A record update was refused: either a non-success HTTP status
    /// (carried in `http_status`) or a `success = false` envelope
    /// (`http_status` is then `None`). `subdomain` names the entry the
    /// failure is attributable to.
    UpdateFailed { subdomain: String, http_status: Option<u16> },
}

/// An HTTP status code in the success range.
pub open spec fn spec_status_success(status: u16) -> bool {
    200 <= status < 300
}

/// Whether an HTTP status code signals success.
pub fn status_is_success(status: u16) -> (r: bool)
    ensures
        r == spec_status_success(status),
{
    200 <= status && status < 300
}

} // verus!
