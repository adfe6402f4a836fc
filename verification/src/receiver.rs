//! The receiving half of a channel.
use crate::blocking::{block_on, Pollable};
use crate::error::RecvError;
use crate::history::Event;
use crate::lock::{close, discard, into_inner, open, Done, Lock};
use crate::model::RecvStep;
use crate::pass::RecvPass;
use crate::task::Woken;
use crate::wakeups::{wake_all, wake_one};
use crate::ticket::ReceiverTicket;
use std::sync::Arc;
use std::task::{Poll, Waker};
use vstd::prelude::*;

verus! {

/// A handle to receive messages from a channel.
pub struct Receiver<T> {
    ticket: ReceiverTicket<T>,
    record: Done<T>,
}

/// A request for a message of a channel.
pub struct RecvFut<'s, T> {
    pass: RecvPass<'s, T>,
    waker_op: Option<Waker>,
    last: Option<Done<T>>,
    woken: Option<Woken>,
}

/// What holds of a poll, by the task of `waker`, of the receiving future that is registered under
/// `reg`, if the poll leaves it registered under `after`, returns `poll` and wakes `woken`: it is the
/// step recorded by `done`, from the state that the channel was in. Where the slot that the future is
/// to take a message from has none, nothing happens.
pub open spec fn recv_polled<T>(
    done: Done<T>,
    reg: Option<Waker>,
    waker: Waker,
    after: Option<Waker>,
    poll: Poll<Result<T, RecvError>>,
    woken: Option<Woken>,
) -> bool {
    if done.before().can_recv(reg) {
        exists|slot_waker: Waker, fut_waker: Waker|
            {
                &&& cloned(waker, slot_waker)
                &&& cloned(waker, fut_waker) || cloned(slot_waker, fut_waker)
                &&& done.event() == Some(
                    Event::<T>::PollRecv { reg, waker, slot_waker, fut_waker },
                )
                &&& #[trigger] done.before().recv(reg, waker, slot_waker, fut_waker) == (RecvStep {
                    state: done.after(),
                    waker: after,
                    poll,
                    wake: done.before().recv(reg, waker, slot_waker, fut_waker).wake,
                })
                &&& crate::wakeups::woken_at(
                    done.after().sending,
                    done.before().recv(reg, waker, slot_waker, fut_waker).wake,
                    woken,
                )
            }
    } else {
        &&& done.event() is None
        &&& after == reg
        &&& poll is Pending
        &&& woken is None
    }
}

impl<T> Receiver<T> {
    /// The channel that the handle belongs to.
    pub closed spec fn channel(self) -> Arc<Lock<T>> {
        self.ticket.lock()
    }

    /// The record of how the handle came about: the channel was made, or the handle was counted as one
    /// more receiver.
    pub closed spec fn record(self) -> Done<T> {
        self.record
    }

    /// How many messages the queue of the channel may hold.
    pub open spec fn capacity(self) -> usize {
        self.channel().pred().length
    }

    /// A handle to the channel that `ticket` is for.
    pub(crate) fn new(ticket: ReceiverTicket<T>, record: Done<T>) -> (receiver: Self)
        ensures
            receiver.channel() == ticket.lock(),
            receiver.record() == record,
    {
        Receiver { ticket, record }
    }

    /// The lock of the channel.
    pub(crate) fn lock(&self) -> (lock: &Lock<T>)
        ensures
            *lock == *self.channel(),
    {
        &**self.ticket.arc()
    }

    /// A future that receives a message.
    pub fn recv_async(&self) -> (fut: RecvFut<'_, T>)
        ensures
            fut.receiver() == *self,
            fut@ is None,
            fut.last() is None,
            fut.uses() == Seq::<Seq<Event<T>>>::empty(),
    {
        RecvFut { pass: RecvPass::new(self), waker_op: None, last: None, woken: None }
    }

    /// Receives a message, and blocks the thread while the channel is empty: a future that receives one
    /// is polled until it resolves, and then withdrawn.
    pub fn recv(&self) -> (received: Result<T, RecvError>)
        ensures
            exists|fut: RecvFut<'_, T>, after: RecvFut<'_, T>, gone: Done<T>|
                {
                    &&& fut.receiver() == *self
                    &&& fut@ is None
                    &&& fut.last() is None
                    &&& #[trigger] crate::blocking::polled_until_ready(fut, after, received)
                    &&& #[trigger] gone.on(*self.channel())
                    &&& gone.event() == Some(Event::<T>::CancelRecv(after@))
                    &&& fut.uses() == Seq::<Seq<Event<T>>>::empty()
                    &&& gone.polls() == after.uses()
                },
    {
        let mut fut = self.recv_async();
        let ghost before = fut;
        let received = block_on(&mut fut);
        proof {
            lemma_receiver_kept(before, fut, received);
        }
        fut.drop();
        received
    }

    /// Gives the handle up. The last receiver to go wakes the registered senders, and the last handle of
    /// all frees what the channel holds. The results record what was done to the channel, and who was
    /// woken.
    pub fn drop(self) -> (gone: (Done<T>, Vec<Woken>))
        ensures
            gone.0.on(*self.channel()),
            gone.0.event() == Some(Event::<T>::RemoveReceiver),
            crate::wakeups::woken_all(gone.0.before().woken_by_receiver(), gone.1@),
    {
        let lock = Arc::clone(self.ticket.arc());
        let (mut shared, rest, held) = open(&*lock);
        let to_wake = shared.remove_receiver();
        let done = close(held, rest.receiver_left(shared, self.ticket));
        let woken = wake_all(&to_wake);
        if let Some(lock) = into_inner(lock) {
            let _guarded = lock.into_inner();
        }
        (done, woken)
    }
}

impl<T> Clone for Receiver<T> {
    /// One more handle to the same channel, with the record that it was counted.
    fn clone(&self) -> (receiver: Self)
        ensures
            receiver.channel() == self.channel(),
            receiver.record().on(*self.channel()),
            receiver.record().event() == Some(Event::<T>::AddReceiver),
    {
        let (mut shared, rest, held) = open(self.lock());
        shared.add_receiver();
        let (guarded, seed) = rest.receiver_joined(shared, &self.ticket);
        let record = close(held, guarded);
        Receiver { ticket: ReceiverTicket::grow(seed, Arc::clone(self.ticket.arc())), record }
    }
}

impl<'s, T> View for RecvFut<'s, T> {
    type V = Option<Waker>;

    /// The waker under which the future is registered.
    closed spec fn view(&self) -> Option<Waker> {
        self.waker_op
    }
}

impl<'s, T> RecvFut<'s, T> {
    /// The handle that the message is received by.
    pub closed spec fn receiver(self) -> Receiver<T> {
        self.pass.receiver()
    }

    /// What had been done to the channel at each poll of the future that was a step, up to and with that
    /// poll.
    pub closed spec fn uses(self) -> Seq<Seq<Event<T>>> {
        self.pass.uses()
    }

    /// The record of the last poll.
    pub closed spec fn last(self) -> Option<Done<T>> {
        self.last
    }

    /// The record of the task that the last poll woke.
    pub closed spec fn woken(self) -> Option<Woken> {
        self.woken
    }

    /// The last poll was one of `before`, by the task of `waker`, on the channel of its handle, and
    /// returned `poll`. It used the channel once.
    pub open spec fn after_poll(self, before: Self, waker: Waker, poll: Poll<Result<T, RecvError>>) -> bool {
        &&& self.receiver() == before.receiver()
        &&& self.last() matches Some(done) && {
            &&& done.on(*before.receiver().channel())
            &&& recv_polled(done, before@, waker, self@, poll, self.woken())
            &&& self.uses() == if done.event() is Some {
                before.uses().push(done.log())
            } else {
                before.uses()
            }
        }
    }

    /// Polls the future on behalf of the task of `waker`.
    ///
    /// A poll that would have to take a message from a slot without one is pending, and changes
    /// nothing. Such a slot comes of polling a sending future that has resolved.
    ///
    /// The future keeps the record of what the poll did to the channel and whom it woke. The lock is
    /// released before anyone is woken.
    pub fn poll(&mut self, waker: &Waker) -> (poll: Poll<Result<T, RecvError>>)
        ensures
            final(self).after_poll(*old(self), *waker, poll),
    {
        let ghost reg = self@;
        // A waker that the poll replaces is not dropped for good before the lock is released.
        let _kept = self.waker_op.clone();
        let (mut shared, rest, held) = open(self.pass.lock());
        let ghost pre = shared@;
        if !shared.can_recv(&self.waker_op) {
            self.last = Some(close(held, rest.put_back(shared)));
            self.woken = None;
            return Poll::Pending;
        }
        let (poll, wake) = shared.poll_recv(&mut self.waker_op, waker);
        let to_wake = match wake {
            Some(i) => Some(shared.sender_waker(i)),
            None => None,
        };
        let ghost step = RecvStep { state: shared@, waker: self@, poll, wake: crate::model::index(wake) };
        let ghost (slot_waker, fut_waker) = choose|slot_waker: Waker, fut_waker: Waker|
            {
                &&& cloned(*waker, slot_waker)
                &&& cloned(*waker, fut_waker) || cloned(slot_waker, fut_waker)
                &&& step == #[trigger] pre.recv(reg, *waker, slot_waker, fut_waker)
            };
        let ghost event = Event::PollRecv { reg, waker: *waker, slot_waker, fut_waker };
        let done = close(held, rest.recv_polled(shared, &mut self.pass, Ghost(event)));
        proof {
            crate::lock::lemma_done(done);
        }
        self.last = Some(done);
        self.woken = wake_one(&to_wake);
        poll
    }

    /// Withdraws the registration of the future, and wakes its task. The results record what was
    /// done to the channel, and who was woken, which is no one if the future was not registered.
    pub fn drop(&mut self) -> (gone: (Done<T>, Option<Woken>))
        ensures
            *final(self) == *old(self),
            gone.0.on(*old(self).receiver().channel()),
            gone.0.event() == Some(Event::<T>::CancelRecv(old(self)@)),
            gone.0.polls() == old(self).uses(),
            crate::wakeups::woken_at(
                gone.0.before().waiting,
                crate::model::find(gone.0.before().waiting, old(self)@),
                gone.1,
            ),
    {
        let (mut shared, rest, held) = open(self.pass.lock());
        let (slot_at, withdrawn) = shared.cancel_recv(&self.waker_op);
        let to_wake = match slot_at {
            Some(i) => Some(shared.receiver_waker(i)),
            None => None,
        };
        let ghost reg = self.waker_op;
        let done = close(held, rest.recv_withdrawn(shared, &self.pass, Ghost(reg)));
        discard(withdrawn);
        (done, wake_one(&to_wake))
    }
}

impl<'s, T> Pollable for RecvFut<'s, T> {
    type Output = Result<T, RecvError>;

    open spec fn polled(self, waker: Waker, after: Self, poll: Poll<Self::Output>) -> bool {
        after.after_poll(self, waker, poll)
    }

    fn poll_once(&mut self, waker: &Waker) -> (poll: Poll<Self::Output>) {
        self.poll(waker)
    }
}

proof fn lemma_same_receiver<'s, T>(trace: Seq<RecvFut<'s, T>>, waker: Waker, i: int)
    requires
        0 <= i < trace.len(),
        forall|k: int|
            0 <= k < trace.len() - 1 ==> (#[trigger] trace[k]).polled(
                waker,
                trace[k + 1],
                Poll::Pending,
            ),
    ensures
        trace[i].receiver() == trace[0].receiver(),
    decreases i,
{
    if i > 0 {
        lemma_same_receiver(trace, waker, i - 1);
        assert(trace[i - 1].polled(waker, trace[i - 1 + 1], Poll::Pending));
    }
}

/// A future that is polled until it resolves receives by the same handle all along.
pub proof fn lemma_receiver_kept<'s, T>(
    fut: RecvFut<'s, T>,
    after: RecvFut<'s, T>,
    received: Result<T, RecvError>,
)
    requires
        crate::blocking::polled_until_ready(fut, after, received),
    ensures
        after.receiver() == fut.receiver(),
{
    let (trace, waker) = choose|trace: Seq<RecvFut<'s, T>>, waker: Waker|
        crate::blocking::polled_along(trace, waker, fut, after, received);
    lemma_same_receiver(trace, waker, trace.len() - 1);
}

} // verus!
