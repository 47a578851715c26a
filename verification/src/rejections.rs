//! Mapping a failed or refused probe to an HTTP reply.

use vstd::prelude::*;
use vstd::string::StringExecFns;

verus! {

/// A probe that failed because the connect attempt ran out of time.
/// Carries the underlying cause for operator diagnostics.
#[derive(Debug)]
pub struct RequestTimeout(pub String);

impl RequestTimeout {
    /// The diagnostic message carried with the rejection.
    pub fn message(&self) -> (m: &String)
        ensures
            m@ == self.0@,
    {
        &self.0
    }
}

/// A probe that concluded the node must not receive traffic, or failed
/// on the way to a conclusion. Carries the underlying cause for operator
/// diagnostics.
#[derive(Debug)]
pub struct ServiceUnavailable(pub String);

impl ServiceUnavailable {
    /// The diagnostic message carried with the rejection.
    pub fn message(&self) -> (m: &String)
        ensures
            m@ == self.0@,
    {
        &self.0
    }
}

/// What a request handler can reject a probe with: one of the two named
/// rejections, or an unanticipated internal fault.
#[derive(Debug)]
pub enum Rejection {
    Timeout(RequestTimeout),
    Unavailable(ServiceUnavailable),
    Unhandled,
}

/// The HTTP status code owed to each rejection: 408 for a connect
/// timeout, 503 for a node that must not receive traffic, 500 for an
/// unanticipated fault.
pub open spec fn spec_rejection_status(r: Rejection) -> u16 {
    match r {
        Rejection::Timeout(_) => 408,
        Rejection::Unavailable(_) => 503,
        Rejection::Unhandled => 500,
    }
}

/// Turns a rejection into the HTTP reply: the status code and the
/// message of the structured error body. An unanticipated fault is not
/// detailed to the caller.
pub fn handle_rejection(r: &Rejection) -> (reply: (u16, String))
    ensures
        reply.0 == spec_rejection_status(*r),
        r matches Rejection::Timeout(t) ==> reply.1@ == "Failed to connect, connection timed out: "@
            + t.0@,
        r matches Rejection::Unavailable(u) ==> reply.1@ == "service unavailable: "@ + u.0@,
        r is Unhandled ==> reply.1@ == "Internal Server Error"@,
{
    match r {
        Rejection::Timeout(t) => {
            let mut m = String::from_str("Failed to connect, connection timed out: ");
            m.append(t.0.as_str());
            (408, m)
        },
        Rejection::Unavailable(u) => {
            let mut m = String::from_str("service unavailable: ");
            m.append(u.0.as_str());
            (503, m)
        },
        Rejection::Unhandled => (500, String::from_str("Internal Server Error")),
    }
}

} // verus!
