//! Promises: how a suspended caller gets its outcome. The channel is that of the
//! `futures` crate; what is said of it here is taken on trust.

use futures::sync::oneshot::{Receiver, Sender};
use vstd::prelude::*;

verus! {

/// What a suspended caller is resumed with.
#[derive(Debug, PartialEq, Eq)]
pub enum Outcome {
    /// The output that aggregation gave for the request.
    Completed(Vec<u8>),
    /// Aggregation failed for the batch of the request as a whole. Nothing of the batch
    /// is known to have been done, and the caller may come again.
    AggregationFailed,
}

/// `futures::sync::oneshot::Sender`: the half of a channel that completes it, once.
#[verifier::external_type_specification]
#[verifier::external_body]
#[verifier::reject_recursive_types(T)]
pub struct ExSender<T>(Sender<T>);

/// `futures::sync::oneshot::Receiver`: the half of a channel that is the future of its
/// value.
#[verifier::external_type_specification]
#[verifier::external_body]
#[verifier::reject_recursive_types(T)]
pub struct ExReceiver<T>(Receiver<T>);

/// `futures::sync::oneshot::channel`: a fresh channel, as the half that completes it and
/// the half that waits for it. Nothing is claimed of either.
#[verifier::external_body]
pub(crate) fn promise() -> (halves: (Sender<Outcome>, Receiver<Outcome>)) {
    futures::sync::oneshot::channel::<Outcome>()
}

/// `Sender::send`: completes the channel with `outcome`, which resumes whoever waits on
/// the other half. Where the other half is gone, the outcome comes back: that a returned
/// outcome is the one that was sent is all that is claimed.
#[verifier::external_body]
pub(crate) fn fulfil(caller: Sender<Outcome>, outcome: Outcome) -> (undelivered: Option<Outcome>)
    ensures
        undelivered is Some ==> undelivered->0 == outcome,
{
    match caller.send(outcome) {
        Ok(()) => None,
        Err(outcome) => Some(outcome),
    }
}

} // verus!
