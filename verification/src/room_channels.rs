//! Delivery of room updates to the parts of the client that subscribed to a
//! room.
use tokio::sync::broadcast::Sender;
use vstd::prelude::*;

verus! {

#[verifier::external_type_specification]
#[verifier::external_body]
#[verifier::reject_recursive_types(T)]
pub struct ExSender<T>(Sender<T>);

/// `tokio::sync::broadcast::Sender::receiver_count`: the number of receivers
/// that are subscribed to the channel right now. Trusted for nothing: the
/// count depends on the receivers that other tasks hold and drop.
#[verifier::external_body]
fn receiver_count<M>(tx: &Sender<M>) -> usize {
    tx.receiver_count()
}

/// `tokio::sync::broadcast::Sender::send`: hands `msg` to the receivers that
/// are subscribed. Trusted for nothing: whether any receiver is left to take
/// it depends on other tasks, and the outcome is not reported.
#[verifier::external_body]
fn broadcast<M>(tx: &Sender<M>, msg: M) {
    let _ = tx.send(msg);
}

/// Whether a room's update channel is worth keeping, given how many
/// receivers it has: a channel that nobody listens to any more is dropped.
pub fn keeps_channel(receiver_count: usize) -> (keep: bool)
    ensures
        keep == (receiver_count != 0),
{
    receiver_count != 0
}

/// Sends the update that `make_msg` builds on a room's update channel.
///
/// The channel is asked how many receivers it has. With none left, nothing
/// is built or sent and the result is `false`: the caller removes the
/// channel. With at least one, the update is built and sent, and the result
/// is `true`. Besides, the result carries the receiver count that the channel
/// reported and the update that was built and handed to it, if any.
pub fn send_room_update<M, F: FnOnce() -> M>(tx: &Sender<M>, make_msg: F) -> (res: (
    bool,
    Ghost<(usize, Option<M>)>,
))
    requires
        make_msg.requires(()),
    ensures
        res.0 == (res.1@.0 != 0),
        res.0 ==> res.1@.1 is Some && make_msg.ensures((), res.1@.1->0),
        !res.0 ==> res.1@.1 is None,
{
    let count = receiver_count(tx);
    if keeps_channel(count) {
        let msg = make_msg();
        let ghost built = msg;
        broadcast(tx, msg);
        (true, Ghost((count, Some(built))))
    } else {
        (false, Ghost((count, None)))
    }
}

} // verus!
