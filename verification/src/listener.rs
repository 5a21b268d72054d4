//! The accept loop's one decision. The listener produces a lazy, infinite
//! sequence of inbound attempts, each either a live connection or a
//! transient failure; the loop dispatches the former and reports the
//! latter, and in neither case stops pulling the next item. That the
//! decision type has no stopping variant is itself the design rule:
//! per-item failures never end the sequence, only the process's end does.

use vstd::prelude::*;

verus! {

/// One item of the listener's accept sequence.
#[derive(Clone, Copy, Debug, PartialEq, Eq, Structural)]
pub enum AcceptEvent {
    /// An inbound attempt completed into a connection; ownership of the
    /// stream passes to a handler of its own.
    Connection,
    /// The attempt failed transiently; the listener can still produce
    /// further items.
    Failure,
}

/// What the accept loop does with one item before pulling the next.
#[derive(Clone, Copy, Debug, PartialEq, Eq, Structural)]
pub enum AcceptDecision {
    /// Hand the new connection to its own handler and keep accepting.
    Dispatch,
    /// Report the failure and keep accepting.
    Report,
}

/// Decide what to do with the next item of the accept sequence. The
/// decision is a function of that item alone: no handler's fate and no
/// earlier item can change it, so a failed connection never impairs the
/// listener's ability to accept further ones.
pub fn accept_decision(e: &AcceptEvent) -> (d: AcceptDecision)
    ensures
        (*e == AcceptEvent::Connection) ==> (d == AcceptDecision::Dispatch),
        (*e == AcceptEvent::Failure) ==> (d == AcceptDecision::Report),
{
    match e {
        AcceptEvent::Connection => AcceptDecision::Dispatch,
        AcceptEvent::Failure => AcceptDecision::Report,
    }
}

} // verus!
