//! The engine that plays the audio graph, and the channel over which
//! it is told to play or to pause.

pub mod speaker;

use vstd::prelude::*;

verus! {

/// The sending half of a bounded channel of the standard library.
#[verifier::external_type_specification]
#[verifier::external_body]
#[verifier::reject_recursive_types(T)]
pub struct ExSyncSender<T>(std::sync::mpsc::SyncSender<T>);

/// The error of a send on a channel whose receiver is gone.
#[verifier::external_type_specification]
#[verifier::external_body]
#[verifier::reject_recursive_types(T)]
pub struct ExSendError<T>(std::sync::mpsc::SendError<T>);

/// `Clone` for `std::sync::mpsc::SyncSender`: another handle to the same
/// channel.
pub assume_specification<T>[ <std::sync::mpsc::SyncSender<T> as std::clone::Clone>::clone ](
    tx: &std::sync::mpsc::SyncSender<T>,
) -> std::sync::mpsc::SyncSender<T>;

/// The receiving half of a channel of the standard library.
#[verifier::external_type_specification]
#[verifier::external_body]
#[verifier::reject_recursive_types(T)]
pub struct ExReceiver<T>(std::sync::mpsc::Receiver<T>);

/// Why nothing was received without waiting.
#[verifier::external_type_specification]
#[verifier::external_body]
pub struct ExTryRecvError(std::sync::mpsc::TryRecvError);

/// How many control operations the channel to the engine holds.
pub const CONTROL_CAPACITY: usize = 1;

/// A control operation for a running engine.
#[derive(Debug)]
pub enum ControlMsg {
    Pause,
    Play,
    Custom(String),
}

/// The handle through which control operations reach the engine. They
/// act on the engine as a whole and have nothing to do with what nodes
/// of the graph do, such as a source that is paused.
#[derive(Clone)]
pub struct EngineControls {
    tx: std::sync::mpsc::SyncSender<ControlMsg>,
}

/// An engine that runs in the background; what starting one gives back.
#[derive(Clone)]
pub struct BackgroundEngine {
    /// The output sample rate in hertz.
    pub sample_hz: u32,
    pub controls: EngineControls,
}

/// `std::sync::mpsc::SyncSender::send`: hands the message to the channel,
/// waiting while the channel is full. It fails only if the receiver is
/// gone, which the sender cannot know: nothing is promised of the outcome.
#[verifier::external_body]
fn channel_send(tx: &std::sync::mpsc::SyncSender<ControlMsg>, msg: ControlMsg) -> (sent: Result<
    (),
    std::sync::mpsc::SendError<ControlMsg>,
>) {
    tx.send(msg)
}

/// `std::sync::mpsc::sync_channel`: a channel whose buffer holds up to
/// `bound` messages. A send into a full buffer waits.
#[verifier::external_body]
fn bounded_channel(bound: usize) -> (ends: (
    std::sync::mpsc::SyncSender<ControlMsg>,
    std::sync::mpsc::Receiver<ControlMsg>,
))
    ensures
        channel_bound(ends.0) == bound,
{
    std::sync::mpsc::sync_channel(bound)
}

/// `std::sync::mpsc::Receiver::try_recv`: a message that is waiting in
/// the channel, if any. It is up to the senders whether one is.
#[verifier::external_body]
fn channel_try_recv(rx: &std::sync::mpsc::Receiver<ControlMsg>) -> (received: Result<
    ControlMsg,
    std::sync::mpsc::TryRecvError,
>) {
    rx.try_recv()
}

/// The end of the control channel that the engine holds.
pub struct ControlReceiver {
    rx: std::sync::mpsc::Receiver<ControlMsg>,
}

impl ControlReceiver {
    /// Takes the control operation that is pending, if there is one.
    pub fn poll(&self) -> (pending: Option<ControlMsg>) {
        // Never waits: what comes back is whatever waits in the channel
        // now, which is up to the senders.
        let received = channel_try_recv(&self.rx);
        Self::pending_of(received)
    }
}

impl EngineControls {
    /// A control channel of one slot: the handle for those that control
    /// the engine, and the end that the engine polls.
    pub fn channel() -> (ends: (EngineControls, ControlReceiver))
        ensures
            ends.0.capacity() == CONTROL_CAPACITY,
    {
        let (tx, rx) = bounded_channel(CONTROL_CAPACITY);
        (EngineControls { tx }, ControlReceiver { rx })
    }

    /// The handle that sends through `tx`, whatever the channel behind
    /// it holds.
    pub fn new(tx: std::sync::mpsc::SyncSender<ControlMsg>) -> (controls: EngineControls)
        ensures
            controls.sender() == tx,
    {
        EngineControls { tx }
    }

    /// Sends a control operation to the engine and says whether it was
    /// handed over. The channel holds one operation: a second one waits
    /// until the engine has taken the first. An operation is not handed
    /// over only when the engine is gone, which is not for the sender to
    /// know beforehand.
    pub fn send(&self, msg: ControlMsg) -> (delivered: bool) {
        let sent = channel_send(&self.tx, msg);
        Self::delivered(sent)
    }

    /// The sending half of the channel to the engine.
    pub closed spec fn sender(&self) -> std::sync::mpsc::SyncSender<ControlMsg> {
        self.tx
    }

    /// How many control operations the channel behind the handle holds.
    pub closed spec fn capacity(&self) -> nat {
        channel_bound(self.tx)
    }

    /// Whether a send handed its operation over: it did unless it failed,
    /// and with the failure the operation comes back.
    pub fn delivered(sent: Result<(), std::sync::mpsc::SendError<ControlMsg>>) -> (delivered: bool)
        ensures
            delivered == (sent is Ok),
    {
        match sent {
            Ok(_) => true,
            Err(_) => false,
        }
    }
}

impl ControlReceiver {
    /// What a poll makes of what the channel gave: the operation that was
    /// waiting, or nothing, be it that none was waiting or that every
    /// sender is gone.
    pub fn pending_of(received: Result<ControlMsg, std::sync::mpsc::TryRecvError>) -> (pending: Option<ControlMsg>)
        ensures
            pending == match received {
                Ok(msg) => Some(msg),
                Err(_) => None::<ControlMsg>,
            },
    {
        match received {
            Ok(msg) => Some(msg),
            Err(_) => None,
        }
    }
}

/// How many messages the buffer behind a sender holds: the bound that
/// its channel was made with.
pub uninterp spec fn channel_bound(tx: std::sync::mpsc::SyncSender<ControlMsg>) -> nat;

} // verus!
