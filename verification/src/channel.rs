//! The bounded channels that connect an engine with its workers.
//!
//! The channels are those of `crossbeam_channel`. Verus does not look inside
//! them: the items in this module only state what a call may be handed and
//! what it hands back. What travels through a channel is decided by the
//! threads at its two ends, so nothing is claimed about which message a
//! receive returns.
use core::time::Duration;
use crossbeam_channel::{Receiver, RecvError, RecvTimeoutError, SendError, Sender};
use vstd::prelude::*;

verus! {

/// The sending half of a `crossbeam_channel` channel, opaque to Verus.
#[verifier::external_type_specification]
#[verifier::external_body]
#[verifier::reject_recursive_types(T)]
pub struct ExSender<T>(Sender<T>);

/// The receiving half of a `crossbeam_channel` channel, opaque to Verus.
#[verifier::external_type_specification]
#[verifier::external_body]
#[verifier::reject_recursive_types(T)]
pub struct ExReceiver<T>(Receiver<T>);

/// `crossbeam_channel::SendError`: a send on a channel that no receiver
/// holds any more. Its field is the message that could not be sent.
#[verifier::external_type_specification]
#[verifier::reject_recursive_types(T)]
pub struct ExSendError<T>(SendError<T>);

/// `crossbeam_channel::RecvError`: the channel is empty and no sender holds
/// it any more.
#[verifier::external_type_specification]
pub struct ExRecvError(RecvError);

/// `crossbeam_channel::RecvTimeoutError`: either the wait ran out, or the
/// channel is empty and no sender holds it any more.
#[verifier::external_type_specification]
pub struct ExRecvTimeoutError(RecvTimeoutError);

/// The largest capacity a bounded channel is created with.
///
/// `crossbeam_channel` rounds `cap + 1` up to a power of two and doubles it;
/// up to this capacity neither step leaves the range of `usize`.
pub const MAX_CAPACITY: usize = usize::MAX / 4;

/// `crossbeam_channel::bounded`: a new channel that holds up to `cap`
/// messages (none at all for `cap == 0`, where a send waits for a receive).
///
/// The call panics on a capacity whose bookkeeping does not fit in `usize`;
/// the precondition leaves those out. The slots for the messages are
/// allocated at once, and like any allocation this one is up to the memory
/// that is there; nothing is said about that. The two halves are opaque, so
/// nothing is stated about them either.
pub assume_specification<T>[ crossbeam_channel::bounded::<T> ](cap: usize) -> (ends: (
    Sender<T>,
    Receiver<T>,
))
    requires
        cap <= usize::MAX / 4,
;

/// `Sender::send`: blocks until the message is queued or every receiver is
/// gone. On failure the error carries the message back unchanged.
pub assume_specification<T>[ Sender::<T>::send ](tx: &Sender<T>, msg: T) -> (sent: Result<
    (),
    SendError<T>,
>)
    ensures
        sent matches Err(e) ==> e.0 == msg,
;

/// `Receiver::recv`: blocks until a message arrives or the channel is empty
/// with every sender gone. Which message arrives depends on the senders.
pub assume_specification<T>[ Receiver::<T>::recv ](rx: &Receiver<T>) -> (got: Result<
    T,
    RecvError,
>)
;

/// `Receiver::recv_timeout`: like `recv`, but gives up after `timeout`.
/// Which of the three outcomes occurs depends on the senders and the clock.
pub assume_specification<T>[ Receiver::<T>::recv_timeout ](
    rx: &Receiver<T>,
    timeout: Duration,
) -> (got: Result<T, RecvTimeoutError>)
;

/// `Sender::clone`: another handle to the same channel.
pub assume_specification<T>[ <Sender<T> as Clone>::clone ](tx: &Sender<T>) -> (other: Sender<T>)
;

/// `Receiver::clone`: another handle to the same channel.
pub assume_specification<T>[ <Receiver<T> as Clone>::clone ](rx: &Receiver<T>) -> (other:
    Receiver<T>)
;

/// `Duration::from_micros`: a span of that many microseconds.
pub assume_specification[ Duration::from_micros ](micros: u64) -> (span: Duration)
;

} // verus!
