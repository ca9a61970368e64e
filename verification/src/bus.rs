//! The change bus: a level-triggered "something changed" wakeup.
//!
//! A notification carries no data; a woken subscriber must re-read the
//! store. A slow subscriber may coalesce or miss intermediate wakeups, and
//! notifying with no subscribers left is a tolerated no-op — none of which
//! the library's contracts rest on: nothing is stated about delivery, only
//! the decision *whether* to notify is verified (in the cache).

use vstd::prelude::*;

verus! {

#[verifier::external_type_specification]
#[verifier::external_body]
#[verifier::reject_recursive_types(T)]
pub struct ExBroadcastSender<T>(tokio::sync::broadcast::Sender<T>);

#[verifier::external_type_specification]
#[verifier::external_body]
#[verifier::reject_recursive_types(T)]
pub struct ExBroadcastReceiver<T>(tokio::sync::broadcast::Receiver<T>);

/// Relies on tokio::sync::broadcast::Sender::new: the sending half of a
/// broadcast channel; the bounded depth (32) only limits how many unread
/// wakeups a lagging subscriber can buffer.
#[verifier::external_body]
fn bus_sender_new() -> tokio::sync::broadcast::Sender<()> {
    tokio::sync::broadcast::Sender::new(32)
}

/// Relies on tokio::sync::broadcast::Sender::send: delivers to however many
/// subscribers exist; the error when none do is a tolerated no-op.
#[verifier::external_body]
fn bus_send(s: &tokio::sync::broadcast::Sender<()>) {
    let _ = s.send(());
}

/// Relies on tokio::sync::broadcast::Sender::subscribe: a new receiving
/// half that sees wakeups sent from now on.
#[verifier::external_body]
fn bus_subscribe(s: &tokio::sync::broadcast::Sender<()>) -> tokio::sync::broadcast::Receiver<()> {
    s.subscribe()
}

/// The multicast wakeup signal shared by the cache and its consumers.
pub struct ChangeBus {
    sender: tokio::sync::broadcast::Sender<()>,
}

impl ChangeBus {
    /// A bus with no subscribers yet.
    pub fn new() -> Self {
        ChangeBus { sender: bus_sender_new() }
    }

    /// Fire-and-forget wakeup: never blocks, no-op with no subscribers.
    pub fn notify(&self) {
        bus_send(&self.sender);
    }

    /// A new subscription; receiving on it means "re-check current state",
    /// never "here is the delta".
    pub fn subscribe(&self) -> tokio::sync::broadcast::Receiver<()> {
        bus_subscribe(&self.sender)
    }
}

} // verus!
