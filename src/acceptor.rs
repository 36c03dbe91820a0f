use vstd::prelude::*;

verus! {

/// Why accepting a raw connection failed, as the listener reports it.
#[derive(Clone, Copy, PartialEq, Eq, Structural, Debug)]
pub enum AcceptFailure {
    /// The peer gave up before the accept completed.
    PeerAborted,
    /// The call was interrupted or would have blocked.
    Interrupted,
    /// The process or system ran out of descriptors, buffers or memory.
    ResourceExhausted,
    /// The accept timed out.
    TimedOut,
    /// The listening socket itself is closed or unusable.
    ListenerClosed,
    /// Any other failure of the listening socket.
    Other,
}

/// What the accept loop does after a failure.
#[derive(Clone, Copy, PartialEq, Eq, Structural, Debug)]
pub enum AcceptDecision {
    /// Log the failure, wait briefly and keep listening.
    RetryAfterBackoff,
    /// Stop accepting and report a fatal error.
    Stop,
}

/// A failure after which listening can go on.
pub open spec fn is_transient(f: AcceptFailure) -> bool {
    match f {
        AcceptFailure::PeerAborted => true,
        AcceptFailure::Interrupted => true,
        AcceptFailure::ResourceExhausted => true,
        AcceptFailure::TimedOut => true,
        _ => false,
    }
}

/// Classifies an accept failure: transient ones are retried after a backoff,
/// the others stop the accept loop.
pub fn on_accept_failure(f: AcceptFailure) -> (d: AcceptDecision)
    ensures
        d == (if is_transient(f) {
            AcceptDecision::RetryAfterBackoff
        } else {
            AcceptDecision::Stop
        }),
{
    match f {
        AcceptFailure::PeerAborted => AcceptDecision::RetryAfterBackoff,
        AcceptFailure::Interrupted => AcceptDecision::RetryAfterBackoff,
        AcceptFailure::ResourceExhausted => AcceptDecision::RetryAfterBackoff,
        AcceptFailure::TimedOut => AcceptDecision::RetryAfterBackoff,
        AcceptFailure::ListenerClosed => AcceptDecision::Stop,
        AcceptFailure::Other => AcceptDecision::Stop,
    }
}

} // verus!
