//! The sending half of a channel.
use crate::blocking::{block_on, Pollable};
use crate::error::SendError;
use crate::history::Event;
use crate::lock::{close, discard, into_inner, open, Done, Lock};
use crate::model::{SendState, SendStep};
use crate::pass::SendPass;
use crate::task::Woken;
use crate::wakeups::{wake_all, wake_one};
use crate::ticket::SenderTicket;
use std::sync::Arc;
use std::task::{Poll, Waker};
use vstd::prelude::*;

verus! {

/// A handle to send messages into a channel.
pub struct Sender<T> {
    ticket: SenderTicket<T>,
    record: Done<T>,
}

/// A message on its way into a channel.
pub struct SendFut<'s, T> {
    pass: SendPass<'s, T>,
    msg_op: Option<T>,
    waker_op: Option<Waker>,
    last: Option<Done<T>>,
    woken: Option<Woken>,
}

/// What holds of a poll of the sending future `fut`, by the task of `waker`, that leaves `after`, returns
/// `poll` and wakes `woken`: it is the step recorded by `done`, from the state that the channel was in.
/// Where that state has no message to hand back, nothing happens.
pub open spec fn send_polled<T>(
    done: Done<T>,
    fut: SendState<T>,
    waker: Waker,
    after: SendState<T>,
    poll: Poll<Result<(), SendError<T>>>,
    woken: Option<Woken>,
) -> bool {
    if done.before().can_send(fut) {
        exists|slot_waker: Waker, fut_waker: Waker|
            {
                &&& cloned(waker, slot_waker)
                &&& cloned(slot_waker, fut_waker)
                &&& done.event() == Some(
                    Event::PollSend { fut, waker, slot_waker, fut_waker },
                )
                &&& #[trigger] done.before().send(fut, waker, slot_waker, fut_waker) == (SendStep {
                    state: done.after(),
                    fut: after,
                    poll,
                    wake: done.before().send(fut, waker, slot_waker, fut_waker).wake,
                })
                &&& crate::wakeups::woken_at(
                    done.after().waiting,
                    done.before().send(fut, waker, slot_waker, fut_waker).wake,
                    woken,
                )
            }
    } else {
        &&& done.event() is None
        &&& after == fut
        &&& poll is Pending
        &&& woken is None
    }
}

impl<T> Sender<T> {
    /// The channel that the handle belongs to.
    pub closed spec fn channel(self) -> Arc<Lock<T>> {
        self.ticket.lock()
    }

    /// The record of how the handle came about: the channel was made, or the handle was counted as one
    /// more sender.
    pub closed spec fn record(self) -> Done<T> {
        self.record
    }

    /// How many messages the queue of the channel may hold.
    pub open spec fn capacity(self) -> usize {
        self.channel().pred().length
    }

    /// A handle to the channel that `ticket` is for.
    pub(crate) fn new(ticket: SenderTicket<T>, record: Done<T>) -> (sender: Self)
        ensures
            sender.channel() == ticket.lock(),
            sender.record() == record,
    {
        Sender { ticket, record }
    }

    /// The lock of the channel.
    pub(crate) fn lock(&self) -> (lock: &Lock<T>)
        ensures
            *lock == *self.channel(),
    {
        &**self.ticket.arc()
    }

    /// A future that sends `msg`.
    pub fn send_async(&self, msg: T) -> (fut: SendFut<'_, T>)
        ensures
            fut.sender() == *self,
            fut@ == (SendState { msg: Some(msg), waker: None }),
            fut.last() is None,
            fut.uses() == Seq::<Seq<Event<T>>>::empty(),
    {
        SendFut { pass: SendPass::new(self), msg_op: Some(msg), waker_op: None, last: None, woken: None }
    }

    /// Sends `msg`, and blocks the thread while the channel is full: a future that sends it is polled
    /// until it resolves, and then withdrawn.
    pub fn send(&self, msg: T) -> (sent: Result<(), SendError<T>>)
        ensures
            exists|fut: SendFut<'_, T>, after: SendFut<'_, T>, gone: Done<T>|
                {
                    &&& fut.sender() == *self
                    &&& fut@ == (SendState { msg: Some(msg), waker: None })
                    &&& fut.last() is None
                    &&& #[trigger] crate::blocking::polled_until_ready(fut, after, sent)
                    &&& #[trigger] gone.on(*self.channel())
                    &&& gone.event() == Some(Event::<T>::CancelSend(after@.waker))
                    &&& fut.uses() == Seq::<Seq<Event<T>>>::empty()
                    &&& gone.polls() == after.uses()
                },
    {
        let mut fut = self.send_async(msg);
        let ghost before = fut;
        let sent = block_on(&mut fut);
        proof {
            lemma_sender_kept(before, fut, sent);
        }
        fut.drop();
        sent
    }

    /// Gives the handle up. The last sender to go wakes the registered receivers, and the last handle of
    /// all frees what the channel holds. The results record what was done to the channel, and who was
    /// woken.
    pub fn drop(self) -> (gone: (Done<T>, Vec<Woken>))
        ensures
            gone.0.on(*self.channel()),
            gone.0.event() == Some(Event::<T>::RemoveSender),
            crate::wakeups::woken_all(gone.0.before().woken_by_sender(), gone.1@),
    {
        let lock = Arc::clone(self.ticket.arc());
        let (mut shared, rest, held) = open(&*lock);
        let to_wake = shared.remove_sender();
        let done = close(held, rest.sender_left(shared, self.ticket));
        let woken = wake_all(&to_wake);
        if let Some(lock) = into_inner(lock) {
            let _guarded = lock.into_inner();
        }
        (done, woken)
    }
}

impl<T> Clone for Sender<T> {
    /// One more handle to the same channel, with the record that it was counted.
    fn clone(&self) -> (sender: Self)
        ensures
            sender.channel() == self.channel(),
            sender.record().on(*self.channel()),
            sender.record().event() == Some(Event::<T>::AddSender),
    {
        let (mut shared, rest, held) = open(self.lock());
        shared.add_sender();
        let (guarded, seed) = rest.sender_joined(shared, &self.ticket);
        let record = close(held, guarded);
        Sender { ticket: SenderTicket::grow(seed, Arc::clone(self.ticket.arc())), record }
    }
}

impl<'s, T> View for SendFut<'s, T> {
    type V = SendState<T>;

    closed spec fn view(&self) -> SendState<T> {
        SendState { msg: self.msg_op, waker: self.waker_op }
    }
}

impl<'s, T> SendFut<'s, T> {
    /// The handle that the message is sent by.
    pub closed spec fn sender(self) -> Sender<T> {
        self.pass.sender()
    }

    /// What had been done to the channel at each poll of the future that was a step, up to and with that
    /// poll.
    pub closed spec fn uses(self) -> Seq<Seq<Event<T>>> {
        self.pass.uses()
    }

    /// The record of the last poll.
    pub closed spec fn last(self) -> Option<Done<T>> {
        self.last
    }

    /// The record of the task that the last poll woke.
    pub closed spec fn woken(self) -> Option<Woken> {
        self.woken
    }

    /// The last poll was one of `before`, by the task of `waker`, on the channel of its handle, and
    /// returned `poll`. It used the channel once.
    pub open spec fn after_poll(self, before: Self, waker: Waker, poll: Poll<Result<(), SendError<T>>>) -> bool {
        &&& self.sender() == before.sender()
        &&& self.last() matches Some(done) && {
            &&& done.on(*before.sender().channel())
            &&& send_polled(done, before@, waker, self@, poll, self.woken())
            &&& self.uses() == if done.event() is Some {
                before.uses().push(done.log())
            } else {
                before.uses()
            }
        }
    }

    /// Polls the future on behalf of the task of `waker`.
    ///
    /// A poll that would have to hand back a message which is already gone is pending, and changes
    /// nothing: one of a future that has resolved, or of a future whose slot another future of the
    /// same task has emptied.
    ///
    /// The future keeps the record of what the poll did to the channel and whom it woke. The lock is
    /// released before anyone is woken.
    pub fn poll(&mut self, waker: &Waker) -> (poll: Poll<Result<(), SendError<T>>>)
        ensures
            final(self).after_poll(*old(self), *waker, poll),
    {
        let ghost fut = self@;
        // A waker that the poll replaces is not dropped for good before the lock is released.
        let _kept = self.waker_op.clone();
        let (mut shared, rest, held) = open(self.pass.lock());
        let ghost pre = shared@;
        if !shared.can_send(&self.msg_op, &self.waker_op) {
            self.last = Some(close(held, rest.put_back(shared)));
            self.woken = None;
            return Poll::Pending;
        }
        let (poll, wake) = shared.poll_send(&mut self.msg_op, &mut self.waker_op, waker);
        let to_wake = match wake {
            Some(i) => Some(shared.receiver_waker(i)),
            None => None,
        };
        let ghost step = SendStep { state: shared@, fut: self@, poll, wake: crate::model::index(wake) };
        let ghost (slot_waker, fut_waker) = choose|slot_waker: Waker, fut_waker: Waker|
            {
                &&& cloned(*waker, slot_waker)
                &&& cloned(slot_waker, fut_waker)
                &&& step == #[trigger] pre.send(fut, *waker, slot_waker, fut_waker)
            };
        let ghost event = Event::PollSend { fut, waker: *waker, slot_waker, fut_waker };
        let done = close(held, rest.send_polled(shared, &mut self.pass, Ghost(event)));
        proof {
            crate::lock::lemma_done(done);
        }
        self.last = Some(done);
        self.woken = wake_one(&to_wake);
        poll
    }

    /// Withdraws the registration of the future, and wakes its task. The results record what was
    /// done to the channel, and who was woken, which is no one if the future was not registered.
    pub fn drop(&mut self) -> (gone: (Done<T>, Option<Woken>))
        ensures
            *final(self) == *old(self),
            gone.0.on(*old(self).sender().channel()),
            gone.0.event() == Some(Event::<T>::CancelSend(old(self)@.waker)),
            gone.0.polls() == old(self).uses(),
            crate::wakeups::woken_at(
                gone.0.before().sending,
                crate::model::find(gone.0.before().sending, old(self)@.waker),
                gone.1,
            ),
    {
        let (mut shared, rest, held) = open(self.pass.lock());
        let (slot_at, withdrawn) = shared.cancel_send(&self.waker_op);
        let to_wake = match slot_at {
            Some(i) => Some(shared.sender_waker(i)),
            None => None,
        };
        let ghost reg = self.waker_op;
        let done = close(held, rest.send_withdrawn(shared, &self.pass, Ghost(reg)));
        discard(withdrawn);
        (done, wake_one(&to_wake))
    }
}

impl<'s, T> Pollable for SendFut<'s, T> {
    type Output = Result<(), SendError<T>>;

    open spec fn polled(self, waker: Waker, after: Self, poll: Poll<Self::Output>) -> bool {
        after.after_poll(self, waker, poll)
    }

    fn poll_once(&mut self, waker: &Waker) -> (poll: Poll<Self::Output>) {
        self.poll(waker)
    }
}

pub(crate) proof fn lemma_same_sender<'s, T>(trace: Seq<SendFut<'s, T>>, waker: Waker, i: int)
    requires
        0 <= i < trace.len(),
        forall|k: int|
            0 <= k < trace.len() - 1 ==> (#[trigger] trace[k]).polled(
                waker,
                trace[k + 1],
                Poll::Pending,
            ),
    ensures
        trace[i].sender() == trace[0].sender(),
    decreases i,
{
    if i > 0 {
        lemma_same_sender(trace, waker, i - 1);
        assert(trace[i - 1].polled(waker, trace[i - 1 + 1], Poll::Pending));
    }
}

/// A future that is polled until it resolves sends by the same handle all along.
pub proof fn lemma_sender_kept<'s, T>(
    fut: SendFut<'s, T>,
    after: SendFut<'s, T>,
    sent: Result<(), SendError<T>>,
)
    requires
        crate::blocking::polled_until_ready(fut, after, sent),
    ensures
        after.sender() == fut.sender(),
{
    let (trace, waker) = choose|trace: Seq<SendFut<'s, T>>, waker: Waker|
        crate::blocking::polled_along(trace, waker, fut, after, sent);
    lemma_same_sender(trace, waker, trace.len() - 1);
}

} // verus!
