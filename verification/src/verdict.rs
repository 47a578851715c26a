//! The outcome of one resolution pass and its mapping to an HTTP status.

use vstd::prelude::*;

verus! {

/// Tri-state health conclusion of one resolution pass.
#[derive(Clone, Copy, PartialEq, Eq, Structural, Debug)]
pub enum ReplicationVerdict {
    /// The node reports the master role and has been up past the
    /// stability threshold.
    Healthy,
    /// The node is not a master, or is a master that is not yet stable.
    Unhealthy,
    /// The node rejected the configured credentials.
    AuthRejected,
}

/// A failure while probing the node.
#[derive(Clone, Copy, PartialEq, Eq, Structural, Debug)]
pub enum ProbeError {
    /// The raw connection attempt did not complete within its ceiling.
    ConnectTimeout,
    /// The socket could not be opened (refused, unreachable, name lookup).
    ConnectFailed,
    /// The encryption handshake failed.
    TlsFailed,
    /// A reply line was malformed or the stream closed mid-reply.
    ProtocolError,
    /// The uptime field did not hold a non-negative integer.
    ParseError,
}

/// The HTTP status code owed to each outcome: 200 only for a healthy
/// primary, 408 for a connect timeout, 503 for everything else that
/// says "do not route traffic here".
pub open spec fn spec_status_of(outcome: Result<ReplicationVerdict, ProbeError>) -> u16 {
    match outcome {
        Ok(ReplicationVerdict::Healthy) => 200,
        Ok(ReplicationVerdict::Unhealthy) => 503,
        Ok(ReplicationVerdict::AuthRejected) => 503,
        Err(ProbeError::ConnectTimeout) => 408,
        Err(ProbeError::ConnectFailed) => 503,
        Err(ProbeError::TlsFailed) => 503,
        Err(ProbeError::ProtocolError) => 503,
        Err(ProbeError::ParseError) => 503,
    }
}

/// Maps the outcome of a resolution pass to the HTTP status code the
/// probe answers with.
pub fn status_of(outcome: &Result<ReplicationVerdict, ProbeError>) -> (code: u16)
    ensures
        code == spec_status_of(*outcome),
{
    match outcome {
        Ok(ReplicationVerdict::Healthy) => 200,
        Ok(ReplicationVerdict::Unhealthy) => 503,
        Ok(ReplicationVerdict::AuthRejected) => 503,
        Err(ProbeError::ConnectTimeout) => 408,
        Err(ProbeError::ConnectFailed) => 503,
        Err(ProbeError::TlsFailed) => 503,
        Err(ProbeError::ProtocolError) => 503,
        Err(ProbeError::ParseError) => 503,
    }
}

} // verus!
