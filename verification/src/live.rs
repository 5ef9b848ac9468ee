//! Live events and the decision logic of the subscription loop.
//!
//! A subscription forwards replication events for one document to an
//! external callback. The forwarding loop itself runs outside the
//! verified core (it waits on an asynchronous stream), but every
//! decision it takes — deliver, drop, or end — is computed here, so the
//! policy of the loop is pinned down: it delivers every event the stream
//! yields, survives stream errors, and ends only when the stream ends.

use vstd::prelude::*;

use crate::error::IrohError;

verus! {

/// A replication event observed on one document.
#[derive(Clone, Copy, Debug, PartialEq, Eq, Structural)]
pub enum LiveEvent {
    /// A write committed on this node.
    InsertLocal,
    /// A write received from a peer.
    InsertRemote,
    /// A previously unavailable blob referenced by an entry has finished
    /// downloading.
    ContentReady,
}

/// The capability a subscriber hands in: called once per delivered
/// event, from a background task, possibly concurrently with the
/// subscriber's own thread.
pub trait SubscribeCallback: Send + Sync {
    /// Handles one event. A reported failure is logged by the loop and
    /// does not stop the subscription.
    fn event(&self, event: LiveEvent) -> Result<(), IrohError>;
}

/// What the forwarding loop does with one item pulled from the event
/// stream.
#[derive(Clone, Copy, Debug, PartialEq, Eq, Structural)]
pub enum SubscriptionAction {
    /// Invoke the callback with this event.
    Deliver(LiveEvent),
    /// Log a stream-level error and wait for the next item.
    DropItem,
    /// The stream has ended; the subscription is over.
    End,
}

/// The action the forwarding loop owes to one stream item.
pub open spec fn step_action(item: Option<Result<LiveEvent, IrohError>>) -> SubscriptionAction {
    match item {
        None => SubscriptionAction::End,
        Some(Ok(ev)) => SubscriptionAction::Deliver(ev),
        Some(Err(_)) => SubscriptionAction::DropItem,
    }
}

/// Decides what the forwarding loop does with one stream item: every
/// yielded event is delivered, a stream error is dropped after logging,
/// and the loop ends exactly when the stream does.
pub fn subscription_step(item: Option<Result<LiveEvent, IrohError>>) -> (a: SubscriptionAction)
    ensures
        a == step_action(item),
{
    match item {
        None => SubscriptionAction::End,
        Some(Ok(ev)) => SubscriptionAction::Deliver(ev),
        Some(Err(_)) => SubscriptionAction::DropItem,
    }
}

/// A failing callback never stops the loop: only an ended stream yields
/// `End`, whatever items came before and however the callback answered.
pub proof fn lemma_subscription_survives_errors(item: Option<Result<LiveEvent, IrohError>>)
    ensures
        step_action(item) is End <==> item is None,
        item is Some && item->0 is Ok ==> step_action(item) == SubscriptionAction::Deliver(
            item->0->Ok_0,
        ),
{
}

} // verus!
