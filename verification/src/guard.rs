//! What stands under the lock of a channel, and by whose leave it is changed.
//!
//! The data of a channel can be taken and put back by anyone who has the lock. To put it back changed
//! takes the leave of someone who has a part in the channel: the ticket of a handle, or the pass of a
//! future. So whoever has no ticket of a receiver, as a sender has none, cannot count one.
use crate::channel::Shared;
use crate::history::Event;
use crate::pass::{RecvPass, SendPass};
use crate::ticket::{ReceiverTicket, SenderTicket};
use std::task::Waker;
use vstd::prelude::*;

verus! {

/// The data of a channel, with all that was done to it, and a mark by which those are known that have a
/// part in the channel.
pub struct Guarded<T> {
    shared: Shared<T>,
    log: Ghost<Seq<Event<T>>>,
    mark: Ghost<int>,
    polls: Ghost<Seq<Seq<Event<T>>>>,
}

/// The leave to make one ticket of a sender of the channel with this mark.
pub struct SenderSeed {
    mark: Ghost<int>,
}

/// The leave to make one ticket of a receiver of the channel with this mark.
pub struct ReceiverSeed {
    mark: Ghost<int>,
}

impl SenderSeed {
    /// The mark of the channel.
    pub closed spec fn mark(self) -> int {
        self.mark@
    }
}

impl ReceiverSeed {
    /// The mark of the channel.
    pub closed spec fn mark(self) -> int {
        self.mark@
    }
}

impl<T> Guarded<T> {
    /// The data.
    pub closed spec fn shared(self) -> Shared<T> {
        self.shared
    }

    /// All that was done to the channel.
    pub closed spec fn log(self) -> Seq<Event<T>> {
        self.log@
    }

    /// The mark of the channel.
    pub closed spec fn mark(self) -> int {
        self.mark@
    }

    /// The polls that a future had noted which was withdrawn last of all, and none if the last operation
    /// was another one.
    pub closed spec fn polls(self) -> Seq<Seq<Event<T>>> {
        self.polls@
    }

    /// The data of a fresh channel, with the leave to make one ticket of each kind. Nothing is said of its
    /// mark but that they share it.
    pub(crate) fn fresh(shared: Shared<T>) -> (fresh: (Self, SenderSeed, ReceiverSeed))
        ensures
            fresh.0.shared() == shared,
            fresh.0.log() == Seq::<Event<T>>::empty(),
            fresh.1.mark() == fresh.0.mark(),
            fresh.2.mark() == fresh.0.mark(),
    {
        let mark: Ghost<int> = Ghost(arbitrary());
        (
            Guarded { shared, log: Ghost(Seq::empty()), mark, polls: Ghost(Seq::empty()) },
            SenderSeed { mark },
            ReceiverSeed { mark },
        )
    }

    /// The mark of the channel, to be written down at its lock.
    pub(crate) fn copy_mark(&self) -> (mark: Ghost<int>)
        ensures
            mark@ == self.mark(),
    {
        self.mark
    }

    /// Takes the data out.
    pub(crate) fn take(self) -> (taken: (Shared<T>, Rest<T>))
        ensures
            taken.0 == self.shared(),
            taken.1.log() == self.log(),
            taken.1.mark() == self.mark(),
    {
        (self.shared, Rest { log: self.log, mark: self.mark })
    }
}

/// What is left while the data of a channel is out.
pub struct Rest<T> {
    log: Ghost<Seq<Event<T>>>,
    mark: Ghost<int>,
}

impl<T> Rest<T> {
    /// All that was done to the channel.
    pub closed spec fn log(self) -> Seq<Event<T>> {
        self.log@
    }

    /// The mark of the channel.
    pub closed spec fn mark(self) -> int {
        self.mark@
    }

    /// Puts the data back, after nothing was done to it.
    pub(crate) fn put_back(self, shared: Shared<T>) -> (guarded: Guarded<T>)
        ensures
            guarded.shared() == shared,
            guarded.mark() == self.mark(),
            guarded.log() == self.log(),
    {
        Guarded { shared, log: self.log, mark: self.mark, polls: Ghost(Seq::empty()) }
    }

    /// Puts the data back, after a sender was counted by leave of another one.
    pub(crate) fn sender_joined(self, shared: Shared<T>, by: &SenderTicket<T>) -> (joined: (
        Guarded<T>,
        SenderSeed,
    ))
        requires
            by.mark() == self.mark(),
        ensures
            joined.0.shared() == shared,
            joined.0.mark() == self.mark(),
            joined.0.log() == self.log().push(Event::AddSender),
            joined.1.mark() == self.mark(),
    {
        let log = Ghost(self.log@.push(Event::AddSender));
        (Guarded { shared, log, mark: self.mark, polls: Ghost(Seq::empty()) }, SenderSeed { mark: self.mark })
    }

    /// Puts the data back, after the sender that had this ticket was counted out.
    pub(crate) fn sender_left(self, shared: Shared<T>, ticket: SenderTicket<T>) -> (guarded: Guarded<
        T,
    >)
        requires
            ticket.mark() == self.mark(),
        ensures
            guarded.shared() == shared,
            guarded.mark() == self.mark(),
            guarded.log() == self.log().push(Event::RemoveSender),
    {
        let log = Ghost(self.log@.push(Event::RemoveSender));
        Guarded { shared, log, mark: self.mark, polls: Ghost(Seq::empty()) }
    }

    /// Puts the data back, after a receiver was counted by leave of another one.
    pub(crate) fn receiver_joined(self, shared: Shared<T>, by: &ReceiverTicket<T>) -> (joined: (
        Guarded<T>,
        ReceiverSeed,
    ))
        requires
            by.mark() == self.mark(),
        ensures
            joined.0.shared() == shared,
            joined.0.mark() == self.mark(),
            joined.0.log() == self.log().push(Event::AddReceiver),
            joined.1.mark() == self.mark(),
    {
        let log = Ghost(self.log@.push(Event::AddReceiver));
        (Guarded { shared, log, mark: self.mark, polls: Ghost(Seq::empty()) }, ReceiverSeed { mark: self.mark })
    }

    /// Puts the data back, after the receiver that had this ticket was counted out.
    pub(crate) fn receiver_left(self, shared: Shared<T>, ticket: ReceiverTicket<T>) -> (guarded:
        Guarded<T>)
        requires
            ticket.mark() == self.mark(),
        ensures
            guarded.shared() == shared,
            guarded.mark() == self.mark(),
            guarded.log() == self.log().push(Event::RemoveReceiver),
    {
        let log = Ghost(self.log@.push(Event::RemoveReceiver));
        Guarded { shared, log, mark: self.mark, polls: Ghost(Seq::empty()) }
    }

    /// Puts the data back, after the sending future that has this pass was polled. The pass notes it.
    pub(crate) fn send_polled<'s>(
        self,
        shared: Shared<T>,
        by: &mut SendPass<'s, T>,
        Ghost(event): Ghost<Event<T>>,
    ) -> (guarded: Guarded<T>)
        requires
            old(by).mark() == self.mark(),
            event is PollSend,
        ensures
            guarded.shared() == shared,
            guarded.mark() == self.mark(),
            guarded.log() == self.log().push(event),
            final(by).sender() == old(by).sender(),
            final(by).uses() == old(by).uses().push(self.log().push(event)),
    {
        let log = Ghost(self.log@.push(event));
        by.note(log);
        Guarded { shared, log, mark: self.mark, polls: Ghost(Seq::empty()) }
    }

    /// Puts the data back, after the sending future that has this pass, and is registered under `reg`,
    /// was withdrawn.
    pub(crate) fn send_withdrawn<'s>(
        self,
        shared: Shared<T>,
        by: &SendPass<'s, T>,
        Ghost(reg): Ghost<Option<Waker>>,
    ) -> (guarded: Guarded<T>)
        requires
            by.mark() == self.mark(),
        ensures
            guarded.shared() == shared,
            guarded.mark() == self.mark(),
            guarded.log() == self.log().push(Event::CancelSend(reg)),
            guarded.polls() == by.uses(),
    {
        let log = Ghost(self.log@.push(Event::CancelSend(reg)));
        Guarded { shared, log, mark: self.mark, polls: Ghost(by.uses()) }
    }

    /// Puts the data back, after the receiving future that has this pass was polled. The pass notes it.
    pub(crate) fn recv_polled<'s>(
        self,
        shared: Shared<T>,
        by: &mut RecvPass<'s, T>,
        Ghost(event): Ghost<Event<T>>,
    ) -> (guarded: Guarded<T>)
        requires
            old(by).mark() == self.mark(),
            event is PollRecv,
        ensures
            guarded.shared() == shared,
            guarded.mark() == self.mark(),
            guarded.log() == self.log().push(event),
            final(by).receiver() == old(by).receiver(),
            final(by).uses() == old(by).uses().push(self.log().push(event)),
    {
        let log = Ghost(self.log@.push(event));
        by.note(log);
        Guarded { shared, log, mark: self.mark, polls: Ghost(Seq::empty()) }
    }

    /// Puts the data back, after the receiving future that has this pass, and is registered under `reg`,
    /// was withdrawn.
    pub(crate) fn recv_withdrawn<'s>(
        self,
        shared: Shared<T>,
        by: &RecvPass<'s, T>,
        Ghost(reg): Ghost<Option<Waker>>,
    ) -> (guarded: Guarded<T>)
        requires
            by.mark() == self.mark(),
        ensures
            guarded.shared() == shared,
            guarded.mark() == self.mark(),
            guarded.log() == self.log().push(Event::CancelRecv(reg)),
            guarded.polls() == by.uses(),
    {
        let log = Ghost(self.log@.push(Event::CancelRecv(reg)));
        Guarded { shared, log, mark: self.mark, polls: Ghost(by.uses()) }
    }
}

} // verus!
