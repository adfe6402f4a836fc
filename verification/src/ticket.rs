//! The parts that handles have in a channel.
use crate::guard::{ReceiverSeed, SenderSeed};
use crate::lock::Lock;
use std::sync::Arc;
use vstd::prelude::*;

verus! {

/// The part that a sender has in a channel. There is one for each sender that is counted: it is made of the
/// leave that comes with the count, and given up when the sender is counted out.
pub struct SenderTicket<T> {
    lock: Arc<Lock<T>>,
}

impl<T> SenderTicket<T> {
    /// The lock of the channel.
    pub closed spec fn lock(self) -> Arc<Lock<T>> {
        self.lock
    }

    /// The mark of the channel.
    pub open spec fn mark(self) -> int {
        self.lock().pred().mark@
    }

    /// The ticket to make of a leave.
    pub(crate) fn grow(seed: SenderSeed, lock: Arc<Lock<T>>) -> (ticket: Self)
        requires
            seed.mark() == lock.pred().mark@,
        ensures
            ticket.lock() == lock,
    {
        SenderTicket { lock }
    }

    /// The lock of the channel.
    pub(crate) fn arc(&self) -> (lock: &Arc<Lock<T>>)
        ensures
            *lock == self.lock(),
    {
        &self.lock
    }
}

/// The part that a receiver has in a channel. There is one for each receiver that is counted: it is made of the
/// leave that comes with the count, and given up when the receiver is counted out.
pub struct ReceiverTicket<T> {
    lock: Arc<Lock<T>>,
}

impl<T> ReceiverTicket<T> {
    /// The lock of the channel.
    pub closed spec fn lock(self) -> Arc<Lock<T>> {
        self.lock
    }

    /// The mark of the channel.
    pub open spec fn mark(self) -> int {
        self.lock().pred().mark@
    }

    /// The ticket to make of a leave.
    pub(crate) fn grow(seed: ReceiverSeed, lock: Arc<Lock<T>>) -> (ticket: Self)
        requires
            seed.mark() == lock.pred().mark@,
        ensures
            ticket.lock() == lock,
    {
        ReceiverTicket { lock }
    }

    /// The lock of the channel.
    pub(crate) fn arc(&self) -> (lock: &Arc<Lock<T>>)
        ensures
            *lock == self.lock(),
    {
        &self.lock
    }
}

} // verus!
