use vstd::prelude::*;

verus! {

/// The ways in which a channel as a whole can fail.
#[derive(Debug, PartialEq, Eq, PartialOrd, Ord)]
pub enum Error {
    LockPoisoned,
    Disconnected,
}

/// A message that could not be sent because every receiver is gone.
#[derive(Debug, Copy, Clone, PartialEq, Eq)]
pub struct SendError<T>(pub T);

/// Why no message could be received.
#[derive(Copy, Clone, Debug, PartialEq, Eq)]
pub enum RecvError {
    /// All senders were dropped and no messages are waiting in the channel, so no further messages
    /// can be received.
    Disconnected,
    /// The registration of the receiving future was withdrawn.
    Cancelled,
}

} // verus!
