//! The parts that futures have in a channel.
use crate::history::Event;
use crate::lock::Lock;
use crate::receiver::Receiver;
use crate::sender::Sender;
use vstd::prelude::*;

verus! {

/// The part that a sending future has in a channel, by the sender that made it. It gives leave to poll the
/// future and to withdraw it, and to nothing else that the sender may do, and it notes the polls.
pub struct SendPass<'s, T> {
    sender: &'s Sender<T>,
    uses: Ghost<Seq<Seq<Event<T>>>>,
}

impl<'s, T> SendPass<'s, T> {
    /// The sender that made the future.
    pub closed spec fn sender(self) -> Sender<T> {
        *self.sender
    }

    /// What had been done to the channel at each poll, up to and with that poll.
    pub closed spec fn uses(self) -> Seq<Seq<Event<T>>> {
        self.uses@
    }

    /// The mark of the channel.
    pub open spec fn mark(self) -> int {
        self.sender().channel().pred().mark@
    }

    /// The pass of a new future.
    pub(crate) fn new(sender: &'s Sender<T>) -> (pass: Self)
        ensures
            pass.sender() == *sender,
            pass.uses() == Seq::<Seq<Event<T>>>::empty(),
    {
        SendPass { sender, uses: Ghost(Seq::empty()) }
    }

    /// The lock of the channel.
    pub(crate) fn lock(&self) -> (lock: &'s Lock<T>)
        ensures
            *lock == *self.sender().channel(),
    {
        self.sender.lock()
    }

    /// Notes a poll.
    pub(crate) fn note(&mut self, log: Ghost<Seq<Event<T>>>)
        ensures
            final(self).sender() == old(self).sender(),
            final(self).uses() == old(self).uses().push(log@),
    {
        self.uses = Ghost(self.uses@.push(log@));
    }
}

/// The part that a receiving future has in a channel, by the receiver that made it. It gives leave to poll the
/// future and to withdraw it, and to nothing else that the receiver may do, and it notes the polls.
pub struct RecvPass<'s, T> {
    receiver: &'s Receiver<T>,
    uses: Ghost<Seq<Seq<Event<T>>>>,
}

impl<'s, T> RecvPass<'s, T> {
    /// The receiver that made the future.
    pub closed spec fn receiver(self) -> Receiver<T> {
        *self.receiver
    }

    /// What had been done to the channel at each poll, up to and with that poll.
    pub closed spec fn uses(self) -> Seq<Seq<Event<T>>> {
        self.uses@
    }

    /// The mark of the channel.
    pub open spec fn mark(self) -> int {
        self.receiver().channel().pred().mark@
    }

    /// The pass of a new future.
    pub(crate) fn new(receiver: &'s Receiver<T>) -> (pass: Self)
        ensures
            pass.receiver() == *receiver,
            pass.uses() == Seq::<Seq<Event<T>>>::empty(),
    {
        RecvPass { receiver, uses: Ghost(Seq::empty()) }
    }

    /// The lock of the channel.
    pub(crate) fn lock(&self) -> (lock: &'s Lock<T>)
        ensures
            *lock == *self.receiver().channel(),
    {
        self.receiver.lock()
    }

    /// Notes a poll.
    pub(crate) fn note(&mut self, log: Ghost<Seq<Event<T>>>)
        ensures
            final(self).receiver() == old(self).receiver(),
            final(self).uses() == old(self).uses().push(log@),
    {
        self.uses = Ghost(self.uses@.push(log@));
    }
}

} // verus!
