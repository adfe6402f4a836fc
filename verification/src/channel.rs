//! The data that the handles of one channel share.
use crate::error::{RecvError, SendError};
use crate::lock::make;
use crate::model::{RecvStep, SendState, SendStep, State};
use crate::receiver::Receiver;
use crate::sender::Sender;
use crate::ticket::{ReceiverTicket, SenderTicket};
use std::collections::VecDeque;
use std::sync::Arc;
use std::task::{Poll, Waker};
use vstd::prelude::*;

verus! {

/// What a registered future is waiting with.
///
/// In the list of senders, `Occupied` holds the message on offer and `Empty` says that it was
/// taken. In the list of receivers, `Empty` asks for a message and `Occupied` holds the one that
/// was delivered. `Cancelled` says that the future is gone.
#[derive(Debug)]
pub enum Item<T> {
    Occupied(Option<T>),
    Empty,
    Cancelled,
}

/// The registered futures and the queue of a channel.
#[derive(Debug)]
pub struct Channel<T> {
    sending: Vec<(Waker, Item<T>)>,
    waiting: Vec<(Waker, Item<T>)>,
    queue: VecDeque<Option<T>>,
    length: usize,
}

/// A channel together with the number of its handles and of its registered futures.
#[derive(Debug)]
pub struct Shared<T> {
    channel: Channel<T>,
    sender_count: usize,
    receiver_count: usize,
    nsending: u8,
    nwaiting: u8,
}

impl<T> View for Shared<T> {
    type V = State<T>;

    closed spec fn view(&self) -> State<T> {
        State {
            sending: self.channel.sending@,
            waiting: self.channel.waiting@,
            queue: self.channel.queue@,
            length: self.channel.length,
            sender_count: self.sender_count,
            receiver_count: self.receiver_count,
            nsending: self.nsending,
            nwaiting: self.nwaiting,
        }
    }
}

/// The slot of a future that is registered under `waker`.
fn find<T>(slots: &Vec<(Waker, Item<T>)>, waker: &Option<Waker>) -> (found: Option<usize>)
    ensures
        crate::model::index(found) == crate::model::find(slots@, *waker),
        found matches Some(i) ==> i < slots@.len(),
{
    let ghost p = crate::model::registered_under::<T>(*waker);
    if let Some(w) = waker {
        let mut i: usize = 0;
        while i < slots.len()
            invariant
                i <= slots@.len(),
                *waker == Some(*w),
                p == crate::model::registered_under::<T>(*waker),
                forall|j: int| 0 <= j < i ==> !p(#[trigger] slots@[j]),
            decreases slots@.len() - i,
        {
            if slots[i].0.will_wake(w) {
                proof {
                    crate::model::lemma_first(slots@, p, i as int);
                }
                return Some(i);
            }
            i += 1;
        }
    }
    None
}

/// The first receiver that asks for a message.
fn first_empty<T>(slots: &Vec<(Waker, Item<T>)>) -> (found: Option<usize>)
    ensures
        crate::model::index(found) == crate::model::first_empty(slots@),
        found matches Some(i) ==> i < slots@.len() && slots@[i as int].1 is Empty,
{
    let mut i: usize = 0;
    while i < slots.len()
        invariant
            i <= slots@.len(),
            forall|j: int| 0 <= j < i ==> !crate::model::asking()(#[trigger] slots@[j]),
        decreases slots@.len() - i,
    {
        if let Item::Empty = slots[i].1 {
            proof {
                crate::model::lemma_first(slots@, crate::model::asking(), i as int);
            }
            return Some(i);
        }
        i += 1;
    }
    None
}

/// The first sender that offers a message.
fn first_occupied<T>(slots: &Vec<(Waker, Item<T>)>) -> (found: Option<usize>)
    ensures
        crate::model::index(found) == crate::model::first_occupied(slots@),
        found matches Some(i) ==> i < slots@.len() && slots@[i as int].1 is Occupied,
{
    let mut i: usize = 0;
    while i < slots.len()
        invariant
            i <= slots@.len(),
            forall|j: int| 0 <= j < i ==> !crate::model::offering()(#[trigger] slots@[j]),
        decreases slots@.len() - i,
    {
        if let Item::Occupied(_) = slots[i].1 {
            proof {
                crate::model::lemma_first(slots@, crate::model::offering(), i as int);
            }
            return Some(i);
        }
        i += 1;
    }
    None
}

/// Clones of the wakers in all slots, in order.
fn wakers<T>(slots: &Vec<(Waker, Item<T>)>) -> (wakers: Vec<Waker>)
    ensures
        crate::model::wakers_of(slots@, wakers@),
{
    let mut wakers: Vec<Waker> = Vec::new();
    let mut i: usize = 0;
    while i < slots.len()
        invariant
            i <= slots@.len(),
            wakers@.len() == i,
            forall|k: int| 0 <= k < i ==> cloned((#[trigger] slots@[k]).0, wakers@[k]),
        decreases slots@.len() - i,
    {
        wakers.push(slots[i].0.clone());
        i += 1;
    }
    wakers
}

/// Whether a queue for `cap` messages of type `T` can be asked for. That is always so for no message
/// and for one, and for an unbounded queue, which grows as it is used. Any other queue is allocated at
/// once, and must not be larger than any allocation can be.
pub open spec fn allocatable<T>(cap: usize) -> bool {
    ||| cap <= 1
    ||| cap == usize::MAX
    ||| cap * vstd::layout::size_of::<Option<T>>() <= isize::MAX
}

/// Whether a queue for `cap` messages of type `T` can be asked for.
pub fn fits<T>(cap: usize) -> (fits: bool)
    ensures
        fits == allocatable::<T>(cap),
{
    let unit: usize = core::mem::size_of::<Option<T>>();
    if cap <= 1 || cap == usize::MAX || unit == 0 {
        assert(unit == 0 ==> cap * unit == 0) by (nonlinear_arith);
        true
    } else {
        let most: usize = isize::MAX as usize / unit;
        assert(cap <= most <==> cap * unit <= isize::MAX) by (nonlinear_arith)
            requires
                unit > 0,
                most == isize::MAX as int / unit as int,
        ;
        cap <= most
    }
}

impl<T> Channel<T> {
    /// The two halves of a fresh channel whose queue holds at most `length` messages. Both have the
    /// record that the channel was made, and nothing was done to it before.
    pub(crate) fn with_capacity(length: usize) -> (halves: (Sender<T>, Receiver<T>))
        requires
            allocatable::<T>(length),
        ensures
            halves.0.channel() == halves.1.channel(),
            halves.0.capacity() == length,
            halves.0.record().fresh(*halves.0.channel()),
            halves.1.record().fresh(*halves.1.channel()),
    {
        let (lock, made, sender, receiver) = make(Shared::new(length), length);
        let lock = Arc::new(lock);
        let again = made.again();
        (
            Sender::new(SenderTicket::grow(sender, Arc::clone(&lock)), made),
            Receiver::new(ReceiverTicket::grow(receiver, lock), again),
        )
    }
}

impl<T> Shared<T> {
    /// The data of a fresh channel with one sender and one receiver.
    pub fn new(length: usize) -> (shared: Self)
        requires
            allocatable::<T>(length),
        ensures
            shared@ == State::<T>::initial(length),
    {
        let channel = Channel {
            sending: Vec::with_capacity(32),
            waiting: Vec::with_capacity(32),
            queue: if length == usize::MAX {
                VecDeque::new()
            } else {
                VecDeque::with_capacity(length)
            },
            length,
        };
        Shared { channel, sender_count: 1, receiver_count: 1, nsending: 0, nwaiting: 0 }
    }

    /// Polls a sending future, given by its message and by the waker under which it is registered,
    /// on behalf of the task of `waker`. The second result is the registered receiver to wake.
    pub fn poll_send(
        &mut self,
        msg_op: &mut Option<T>,
        waker_op: &mut Option<Waker>,
        waker: &Waker,
    ) -> (step: (Poll<Result<(), SendError<T>>>, Option<usize>))
        requires
            old(self)@.can_send(SendState { msg: *old(msg_op), waker: *old(waker_op) }),
        ensures
            old(self)@.sends(
                SendState { msg: *old(msg_op), waker: *old(waker_op) },
                *waker,
                SendStep {
                    state: final(self)@,
                    fut: SendState { msg: *final(msg_op), waker: *final(waker_op) },
                    poll: step.0,
                    wake: crate::model::index(step.1),
                },
            ),
            step.1 matches Some(i) ==> i < final(self)@.waiting.len(),
    {
        let ghost pre = self@;
        let ghost fut = SendState { msg: *msg_op, waker: *waker_op };
        // The wakers that the poll stores, where it stores any.
        let ghost mut stored: (Waker, Waker) = (*waker, *waker);
        let step: (Poll<Result<(), SendError<T>>>, Option<usize>) = if let Some(slot_at) = find(
            &self.channel.sending,
            waker_op,
        ) {
            match &mut self.channel.sending[slot_at].1 {
                Item::Occupied(msg) => {
                    if self.receiver_count == 0 {
                        let msg = msg.take();
                        (Poll::Ready(Err(SendError(msg.unwrap()))), None)
                    } else {
                        if !self.channel.sending[slot_at].0.will_wake(waker) {
                            let slot_waker = waker.clone();
                            let fut_waker = slot_waker.clone();
                            proof {
                                stored = (slot_waker, fut_waker);
                            }
                            self.channel.sending[slot_at].0 = slot_waker;
                            *waker_op = Some(fut_waker);
                        }
                        (Poll::Pending, None)
                    }
                },
                Item::Empty | Item::Cancelled => {
                    self.channel.sending.swap_remove(slot_at);
                    self.nsending = self.nsending.wrapping_sub(1);
                    (Poll::Ready(Ok(())), None)
                },
            }
        } else if self.receiver_count == 0 {
            let msg = msg_op.take();
            (Poll::Ready(Err(SendError(msg.unwrap()))), None)
        } else if let Some(i) = first_empty(&self.channel.waiting) {
            self.channel.waiting[i].1 = Item::Occupied(msg_op.take());
            (Poll::Ready(Ok(())), Some(i))
        } else if self.channel.queue.len() < self.channel.length {
            self.channel.queue.push_back(msg_op.take());
            (Poll::Ready(Ok(())), None)
        } else {
            let slot_waker = waker.clone();
            let fut_waker = slot_waker.clone();
            proof {
                stored = (slot_waker, fut_waker);
            }
            *waker_op = Some(fut_waker);
            self.channel.sending.push((slot_waker, Item::Occupied(msg_op.take())));
            self.nsending = self.nsending.wrapping_add(1);
            (Poll::Pending, None)
        };
        proof {
            assert(self@ =~= pre.send(fut, *waker, stored.0, stored.1).state);
        }
        step
    }

    /// Polls a receiving future, given by the waker under which it is registered, on behalf of the
    /// task of `waker`. The second result is the registered sender to wake.
    pub fn poll_recv(&mut self, waker_op: &mut Option<Waker>, waker: &Waker) -> (step: (
        Poll<Result<T, RecvError>>,
        Option<usize>,
    ))
        requires
            old(self)@.can_recv(*old(waker_op)),
        ensures
            old(self)@.receives(
                *old(waker_op),
                *waker,
                RecvStep {
                    state: final(self)@,
                    waker: *final(waker_op),
                    poll: step.0,
                    wake: crate::model::index(step.1),
                },
            ),
            step.1 matches Some(i) ==> i < final(self)@.sending.len(),
    {
        let ghost pre = self@;
        let ghost reg = *waker_op;
        // The wakers that the poll stores, where it stores any.
        let ghost mut stored: (Waker, Waker) = (*waker, *waker);
        let step: (Poll<Result<T, RecvError>>, Option<usize>) = if let Some(slot_at) = find(
            &self.channel.waiting,
            waker_op,
        ) {
            match &mut self.channel.waiting[slot_at].1 {
                Item::Empty => {
                    if self.sender_count == 0 {
                        (Poll::Ready(Err(RecvError::Disconnected)), None)
                    } else {
                        if !self.channel.waiting[slot_at].0.will_wake(waker) {
                            let slot_waker = waker.clone();
                            let fut_waker = slot_waker.clone();
                            proof {
                                stored = (slot_waker, fut_waker);
                            }
                            self.channel.waiting[slot_at].0 = slot_waker;
                            *waker_op = Some(fut_waker);
                        }
                        (Poll::Pending, None)
                    }
                },
                Item::Occupied(msg) => {
                    let msg = msg.take();
                    self.channel.waiting.swap_remove(slot_at);
                    self.nwaiting = self.nwaiting.wrapping_sub(1);
                    (Poll::Ready(Ok(msg.unwrap())), None)
                },
                Item::Cancelled => {
                    self.channel.waiting.swap_remove(slot_at);
                    self.nwaiting = self.nwaiting.wrapping_sub(1);
                    (Poll::Ready(Err(RecvError::Cancelled)), None)
                },
            }
        } else if let Some(i) = first_occupied(&self.channel.sending) {
            let msg = match &mut self.channel.sending[i].1 {
                Item::Occupied(msg) => msg.take(),
                _ => None,
            };
            self.channel.sending[i].1 = Item::Empty;
            (Poll::Ready(Ok(msg.unwrap())), Some(i))
        } else if let Some(Some(msg)) = self.channel.queue.pop_front() {
            (Poll::Ready(Ok(msg)), None)
        } else if self.sender_count == 0 {
            (Poll::Ready(Err(RecvError::Disconnected)), None)
        } else {
            let fut_waker = waker.clone();
            let slot_waker = waker.clone();
            proof {
                stored = (slot_waker, fut_waker);
            }
            *waker_op = Some(fut_waker);
            self.channel.waiting.push((slot_waker, Item::Empty));
            self.nwaiting = self.nwaiting.wrapping_add(1);
            (Poll::Pending, None)
        };
        proof {
            assert(self@ =~= pre.recv(reg, *waker, stored.0, stored.1).state);
        }
        step
    }

    /// Whether a poll of a sending future finds a message wherever it has to hand one back.
    pub fn can_send(&self, msg_op: &Option<T>, waker_op: &Option<Waker>) -> (can: bool)
        ensures
            can == self@.can_send(SendState { msg: *msg_op, waker: *waker_op }),
    {
        if self.receiver_count != 0 {
            return true;
        }
        match find(&self.channel.sending, waker_op) {
            Some(i) => match &self.channel.sending[i].1 {
                Item::Occupied(msg) => msg.is_some(),
                _ => true,
            },
            None => msg_op.is_some(),
        }
    }

    /// Whether a poll of a receiving future finds a message in the slot that it takes one from.
    pub fn can_recv(&self, waker_op: &Option<Waker>) -> (can: bool)
        ensures
            can == self@.can_recv(*waker_op),
    {
        match find(&self.channel.waiting, waker_op) {
            Some(i) => match &self.channel.waiting[i].1 {
                Item::Occupied(msg) => msg.is_some(),
                _ => true,
            },
            None => match first_occupied(&self.channel.sending) {
                Some(i) => match &self.channel.sending[i].1 {
                    Item::Occupied(msg) => msg.is_some(),
                    _ => true,
                },
                None => true,
            },
        }
    }

    /// Withdraws the registration of a sending future. The results are the slot to wake and the message
    /// that was in it, for the caller to drop.
    pub fn cancel_send(&mut self, waker_op: &Option<Waker>) -> (withdrawn: (Option<usize>, Option<T>))
        ensures
            final(self)@ == old(self)@.cancel_send(*waker_op),
            crate::model::index(withdrawn.0) == crate::model::find(old(self)@.sending, *waker_op),
            withdrawn.0 matches Some(i) ==> i < final(self)@.sending.len(),
            withdrawn.1 == crate::conservation::in_slot(old(self)@.sending, *waker_op),
    {
        let ghost pre = self@;
        let found = find(&self.channel.sending, waker_op);
        let mut withdrawn: Option<T> = None;
        if let Some(i) = found {
            if let Item::Occupied(msg) = &mut self.channel.sending[i].1 {
                withdrawn = msg.take();
            }
            self.channel.sending[i].1 = Item::Cancelled;
        }
        assert(self@ =~= pre.cancel_send(*waker_op));
        (found, withdrawn)
    }

    /// Withdraws the registration of a receiving future. The results are the slot to wake and the message
    /// that was in it, for the caller to drop.
    pub fn cancel_recv(&mut self, waker_op: &Option<Waker>) -> (withdrawn: (Option<usize>, Option<T>))
        ensures
            final(self)@ == old(self)@.cancel_recv(*waker_op),
            crate::model::index(withdrawn.0) == crate::model::find(old(self)@.waiting, *waker_op),
            withdrawn.0 matches Some(i) ==> i < final(self)@.waiting.len(),
            withdrawn.1 == crate::conservation::in_slot(old(self)@.waiting, *waker_op),
    {
        let ghost pre = self@;
        let found = find(&self.channel.waiting, waker_op);
        let mut withdrawn: Option<T> = None;
        if let Some(i) = found {
            if let Item::Occupied(msg) = &mut self.channel.waiting[i].1 {
                withdrawn = msg.take();
            }
            self.channel.waiting[i].1 = Item::Cancelled;
        }
        assert(self@ =~= pre.cancel_recv(*waker_op));
        (found, withdrawn)
    }

    /// Counts one more sender.
    pub fn add_sender(&mut self)
        ensures
            final(self)@ == old(self)@.add_sender(),
    {
        self.sender_count = self.sender_count.wrapping_add(1);
    }

    /// Counts one sender less. The result holds the wakers to wake: those of all registered receivers if
    /// the sender is the last one, and none if it is not.
    pub fn remove_sender(&mut self) -> (to_wake: Vec<Waker>)
        ensures
            final(self)@ == old(self)@.remove_sender(),
            crate::model::wakers_of(old(self)@.woken_by_sender(), to_wake@),
    {
        let last = self.sender_count == 1;
        self.sender_count = self.sender_count.wrapping_sub(1);
        if last && self.nwaiting > 0 {
            wakers(&self.channel.waiting)
        } else {
            Vec::new()
        }
    }

    /// Counts one more receiver.
    pub fn add_receiver(&mut self)
        ensures
            final(self)@ == old(self)@.add_receiver(),
    {
        self.receiver_count = self.receiver_count.wrapping_add(1);
    }

    /// Counts one receiver less. The result holds the wakers to wake: those of all registered senders if
    /// the receiver is the last one, and none if it is not.
    pub fn remove_receiver(&mut self) -> (to_wake: Vec<Waker>)
        ensures
            final(self)@ == old(self)@.remove_receiver(),
            crate::model::wakers_of(old(self)@.woken_by_receiver(), to_wake@),
    {
        let last = self.receiver_count == 1;
        self.receiver_count = self.receiver_count.wrapping_sub(1);
        if last && self.nsending > 0 {
            wakers(&self.channel.sending)
        } else {
            Vec::new()
        }
    }

    /// The waker of the registered sender at `i`.
    pub(crate) fn sender_waker(&self, i: usize) -> (waker: Waker)
        requires
            i < self@.sending.len(),
        ensures
            cloned(self@.sending[i as int].0, waker),
    {
        self.channel.sending[i].0.clone()
    }

    /// The waker of the registered receiver at `i`.
    pub(crate) fn receiver_waker(&self, i: usize) -> (waker: Waker)
        requires
            i < self@.waiting.len(),
        ensures
            cloned(self@.waiting[i as int].0, waker),
    {
        self.channel.waiting[i].0.clone()
    }
}

} // verus!
