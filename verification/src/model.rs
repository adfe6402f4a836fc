//! The channel as a mathematical object: its states, and what each operation makes of them.
use crate::channel::Item;
use crate::error::{RecvError, SendError};
use std::task::{Poll, Waker};
use vstd::prelude::*;

verus! {

/// The registration of a pending future: the waker to wake, and what it waits with.
pub type Slot<T> = (Waker, Item<T>);

/// The state of a channel.
#[verifier::ext_equal]
pub struct State<T> {
    /// The senders that found the channel full.
    pub sending: Seq<Slot<T>>,
    /// The receivers that found the channel empty.
    pub waiting: Seq<Slot<T>>,
    /// The messages that were accepted and not yet received.
    pub queue: Seq<Option<T>>,
    /// How many messages the queue may hold.
    pub length: usize,
    pub sender_count: usize,
    pub receiver_count: usize,
    /// The number of entries of `sending`, modulo 256.
    pub nsending: u8,
    /// The number of entries of `waiting`, modulo 256.
    pub nwaiting: u8,
}

/// The part of a sending future that a poll reads and changes.
pub struct SendState<T> {
    /// The message, until it is handed over.
    pub msg: Option<T>,
    /// The waker under which the future is registered.
    pub waker: Option<Waker>,
}

/// What a poll of a sending future leads to.
pub struct SendStep<T> {
    pub state: State<T>,
    pub fut: SendState<T>,
    pub poll: Poll<Result<(), SendError<T>>>,
    /// The receiver that is woken, as an index into `state.waiting`.
    pub wake: Option<int>,
}

/// What a poll of a receiving future leads to.
pub struct RecvStep<T> {
    pub state: State<T>,
    /// The waker under which the future is registered.
    pub waker: Option<Waker>,
    pub poll: Poll<Result<T, RecvError>>,
    /// The sender that is woken, as an index into `state.sending`.
    pub wake: Option<int>,
}

/// `i` is the first index of `s` at which `p` holds.
pub open spec fn is_first<A>(s: Seq<A>, p: spec_fn(A) -> bool, i: int) -> bool {
    &&& 0 <= i < s.len()
    &&& p(s[i])
    &&& forall|j: int| 0 <= j < i ==> !p(#[trigger] s[j])
}

/// The first index of `s` at which `p` holds.
pub open spec fn first<A>(s: Seq<A>, p: spec_fn(A) -> bool) -> Option<int> {
    if exists|i: int| is_first(s, p, i) {
        Some(choose|i: int| is_first(s, p, i))
    } else {
        None
    }
}

/// An index at which `p` holds and before which it does not is the first one.
pub proof fn lemma_first<A>(s: Seq<A>, p: spec_fn(A) -> bool, i: int)
    requires
        is_first(s, p, i),
    ensures
        first(s, p) == Some(i),
{
    let k = choose|k: int| is_first(s, p, k);
    if k < i {
        assert(!p(s[k]));
    } else if i < k {
        assert(!p(s[i]));
    }
}

/// What the first index at which `p` holds is, and what it means that there is none.
pub open spec fn finds<A>(s: Seq<A>, p: spec_fn(A) -> bool) -> bool {
    match first(s, p) {
        Some(i) => is_first(s, p, i),
        None => forall|i: int| 0 <= i < s.len() ==> !p(#[trigger] s[i]),
    }
}

pub proof fn lemma_first_cases<A>(s: Seq<A>, p: spec_fn(A) -> bool)
    ensures
        finds(s, p),
{
    if first(s, p) is None {
        assert forall|i: int| 0 <= i < s.len() implies !p(#[trigger] s[i]) by {
            lemma_first_exists(s, p, i);
        }
    }
}

proof fn lemma_first_exists<A>(s: Seq<A>, p: spec_fn(A) -> bool, i: int)
    requires
        0 <= i < s.len(),
    ensures
        p(s[i]) ==> exists|k: int| is_first(s, p, k),
    decreases i,
{
    if p(s[i]) {
        if exists|j: int| 0 <= j < i && p(#[trigger] s[j]) {
            let j = choose|j: int| 0 <= j < i && p(#[trigger] s[j]);
            lemma_first_exists(s, p, j);
        } else {
            assert(is_first(s, p, i));
        }
    }
}

/// Slots whose waker wakes the same task as `waker`.
pub open spec fn registered_under<T>(waker: Option<Waker>) -> spec_fn(Slot<T>) -> bool {
    |slot: Slot<T>| waker matches Some(w) && crate::task::wakes_same(slot.0, w)
}

/// Slots of receivers that ask for a message.
pub open spec fn asking<T>() -> spec_fn(Slot<T>) -> bool {
    |slot: Slot<T>| slot.1 is Empty
}

/// Slots of senders that offer a message.
pub open spec fn offering<T>() -> spec_fn(Slot<T>) -> bool {
    |slot: Slot<T>| slot.1 is Occupied
}

/// The slot of a future that is registered under `waker`.
pub open spec fn find<T>(slots: Seq<Slot<T>>, waker: Option<Waker>) -> Option<int> {
    first(slots, registered_under(waker))
}

/// The first receiver that asks for a message.
pub open spec fn first_empty<T>(slots: Seq<Slot<T>>) -> Option<int> {
    first(slots, asking())
}

/// The first sender that offers a message.
pub open spec fn first_occupied<T>(slots: Seq<Slot<T>>) -> Option<int> {
    first(slots, offering())
}

/// An index as an integer.
pub open spec fn index(i: Option<usize>) -> Option<int> {
    match i {
        Some(i) => Some(i as int),
        None => None,
    }
}

/// `s` without its element at `i`, whose place the last element takes.
pub open spec fn swap_removed<A>(s: Seq<A>, i: int) -> Seq<A> {
    s.update(i, s.last()).drop_last()
}

/// The message that a slot holds.
pub open spec fn message<T>(slot: Slot<T>) -> Option<T> {
    match slot.1 {
        Item::Occupied(msg) => msg,
        _ => None,
    }
}

/// `wakers` are clones of the wakers in `slots`, one for each slot, in the same order.
pub open spec fn wakers_of<T>(slots: Seq<Slot<T>>, wakers: Seq<Waker>) -> bool {
    &&& wakers.len() == slots.len()
    &&& forall|k: int| 0 <= k < slots.len() ==> cloned((#[trigger] slots[k]).0, wakers[k])
}

impl<T> State<T> {
    /// A fresh channel with one sender and one receiver.
    pub open spec fn initial(length: usize) -> Self {
        State {
            sending: Seq::empty(),
            waiting: Seq::empty(),
            queue: Seq::empty(),
            length,
            sender_count: 1,
            receiver_count: 1,
            nsending: 0,
            nwaiting: 0,
        }
    }

    /// Whether a poll of the sending future `fut` finds a message wherever it has to hand one back.
    ///
    /// It does not if the future is polled again after it resolved, or if another future of the same
    /// task was handed the message of the slot that both find.
    pub open spec fn can_send(self, fut: SendState<T>) -> bool {
        self.receiver_count == 0 ==> match find(self.sending, fut.waker) {
            Some(i) => self.sending[i].1 is Occupied ==> message(self.sending[i]) is Some,
            None => fut.msg is Some,
        }
    }

    /// A poll of the sending future `fut` by the task of `waker`. Where the poll stores a waker,
    /// `slot_waker` goes into the slot and `fut_waker` into the future.
    pub open spec fn send(
        self,
        fut: SendState<T>,
        waker: Waker,
        slot_waker: Waker,
        fut_waker: Waker,
    ) -> SendStep<T> {
        match find(self.sending, fut.waker) {
            Some(i) => self.send_registered(i, fut, waker, slot_waker, fut_waker),
            None => self.send_fresh(fut, slot_waker, fut_waker),
        }
    }

    /// `step` is what a poll of `fut` by the task of `waker` leads to, where the wakers that it stores
    /// are a clone of `waker` and a clone of that clone.
    pub open spec fn sends(self, fut: SendState<T>, waker: Waker, step: SendStep<T>) -> bool {
        exists|slot_waker: Waker, fut_waker: Waker|
            {
                &&& cloned(waker, slot_waker)
                &&& cloned(slot_waker, fut_waker)
                &&& step == #[trigger] self.send(fut, waker, slot_waker, fut_waker)
            }
    }

    /// A poll of a sending future that finds its slot at `i`.
    pub open spec fn send_registered(
        self,
        i: int,
        fut: SendState<T>,
        waker: Waker,
        slot_waker: Waker,
        fut_waker: Waker,
    ) -> SendStep<T> {
        let slot = self.sending[i];
        match slot.1 {
            Item::Occupied(msg) => if self.receiver_count == 0 {
                SendStep {
                    state: State {
                        sending: self.sending.update(i, (slot.0, Item::Occupied(None))),
                        ..self
                    },
                    fut,
                    poll: Poll::Ready(Err(SendError(msg->0))),
                    wake: None,
                }
            } else if crate::task::wakes_same(slot.0, waker) {
                SendStep { state: self, fut, poll: Poll::Pending, wake: None }
            } else {
                SendStep {
                    state: State {
                        sending: self.sending.update(i, (slot_waker, slot.1)),
                        ..self
                    },
                    fut: SendState { waker: Some(fut_waker), ..fut },
                    poll: Poll::Pending,
                    wake: None,
                }
            },
            _ => SendStep {
                state: State {
                    sending: swap_removed(self.sending, i),
                    nsending: self.nsending.wrapping_sub(1),
                    ..self
                },
                fut,
                poll: Poll::Ready(Ok(())),
                wake: None,
            },
        }
    }

    /// A poll of a sending future that has no slot: the message goes back if all receivers are
    /// gone, else to the first receiver that asks for one, else into the queue if it has room, else
    /// into a new slot.
    pub open spec fn send_fresh(
        self,
        fut: SendState<T>,
        slot_waker: Waker,
        fut_waker: Waker,
    ) -> SendStep<T> {
        let sent = SendState { msg: None, ..fut };
        if self.receiver_count == 0 {
            SendStep {
                state: self,
                fut: sent,
                poll: Poll::Ready(Err(SendError(fut.msg->0))),
                wake: None,
            }
        } else if let Some(i) = first_empty(self.waiting) {
            SendStep {
                state: State {
                    waiting: self.waiting.update(i, (self.waiting[i].0, Item::Occupied(fut.msg))),
                    ..self
                },
                fut: sent,
                poll: Poll::Ready(Ok(())),
                wake: Some(i),
            }
        } else if self.queue.len() < self.length {
            SendStep {
                state: State { queue: self.queue.push(fut.msg), ..self },
                fut: sent,
                poll: Poll::Ready(Ok(())),
                wake: None,
            }
        } else {
            SendStep {
                state: State {
                    sending: self.sending.push((slot_waker, Item::Occupied(fut.msg))),
                    nsending: self.nsending.wrapping_add(1),
                    ..self
                },
                fut: SendState { waker: Some(fut_waker), ..sent },
                poll: Poll::Pending,
                wake: None,
            }
        }
    }

    /// Whether a poll of the receiving future that is registered under `waker` finds a message in the
    /// slot that it takes one from.
    pub open spec fn can_recv(self, waker: Option<Waker>) -> bool {
        match find(self.waiting, waker) {
            Some(i) => self.waiting[i].1 is Occupied ==> message(self.waiting[i]) is Some,
            None => first_occupied(self.sending) matches Some(i) ==> message(self.sending[i]) is Some,
        }
    }

    /// A poll, by the task of `waker`, of the receiving future that is registered under `reg`. Where
    /// the poll stores a waker, `slot_waker` goes into the slot and `fut_waker` into the future.
    pub open spec fn recv(
        self,
        reg: Option<Waker>,
        waker: Waker,
        slot_waker: Waker,
        fut_waker: Waker,
    ) -> RecvStep<T> {
        match find(self.waiting, reg) {
            Some(i) => self.recv_registered(i, reg, waker, slot_waker, fut_waker),
            None => self.recv_fresh(reg, slot_waker, fut_waker),
        }
    }

    /// `step` is what a poll by the task of `waker` leads to, where the wakers that it stores are a
    /// clone of `waker` and another clone of it or of the first clone.
    pub open spec fn receives(self, reg: Option<Waker>, waker: Waker, step: RecvStep<T>) -> bool {
        exists|slot_waker: Waker, fut_waker: Waker|
            {
                &&& cloned(waker, slot_waker)
                &&& cloned(waker, fut_waker) || cloned(slot_waker, fut_waker)
                &&& step == #[trigger] self.recv(reg, waker, slot_waker, fut_waker)
            }
    }

    /// A poll of a receiving future that finds its slot at `i`.
    pub open spec fn recv_registered(
        self,
        i: int,
        reg: Option<Waker>,
        waker: Waker,
        slot_waker: Waker,
        fut_waker: Waker,
    ) -> RecvStep<T> {
        let slot = self.waiting[i];
        let removed = State {
            waiting: swap_removed(self.waiting, i),
            nwaiting: self.nwaiting.wrapping_sub(1),
            ..self
        };
        match slot.1 {
            Item::Empty => if self.sender_count == 0 {
                RecvStep {
                    state: self,
                    waker: reg,
                    poll: Poll::Ready(Err(RecvError::Disconnected)),
                    wake: None,
                }
            } else if crate::task::wakes_same(slot.0, waker) {
                RecvStep { state: self, waker: reg, poll: Poll::Pending, wake: None }
            } else {
                RecvStep {
                    state: State {
                        waiting: self.waiting.update(i, (slot_waker, slot.1)),
                        ..self
                    },
                    waker: Some(fut_waker),
                    poll: Poll::Pending,
                    wake: None,
                }
            },
            Item::Occupied(msg) => RecvStep {
                state: removed,
                waker: reg,
                poll: Poll::Ready(Ok(msg->0)),
                wake: None,
            },
            Item::Cancelled => RecvStep {
                state: removed,
                waker: reg,
                poll: Poll::Ready(Err(RecvError::Cancelled)),
                wake: None,
            },
        }
    }

    /// A poll of a receiving future that has no slot: it takes the message of the first sender that
    /// offers one, else the front of the queue. Where there is none, the channel is disconnected if
    /// all senders are gone, and the future is registered if not.
    pub open spec fn recv_fresh(
        self,
        reg: Option<Waker>,
        slot_waker: Waker,
        fut_waker: Waker,
    ) -> RecvStep<T> {
        if let Some(i) = first_occupied(self.sending) {
            RecvStep {
                state: State {
                    sending: self.sending.update(i, (self.sending[i].0, Item::Empty)),
                    ..self
                },
                waker: reg,
                poll: Poll::Ready(Ok(message(self.sending[i])->0)),
                wake: Some(i),
            }
        } else {
            let rest = State {
                queue: if self.queue.len() > 0 { self.queue.drop_first() } else { self.queue },
                ..self
            };
            if self.queue.len() > 0 && self.queue[0] is Some {
                RecvStep {
                    state: rest,
                    waker: reg,
                    poll: Poll::Ready(Ok(self.queue[0]->0)),
                    wake: None,
                }
            } else if self.sender_count == 0 {
                RecvStep {
                    state: rest,
                    waker: reg,
                    poll: Poll::Ready(Err(RecvError::Disconnected)),
                    wake: None,
                }
            } else {
                RecvStep {
                    state: State {
                        waiting: rest.waiting.push((slot_waker, Item::Empty)),
                        nwaiting: rest.nwaiting.wrapping_add(1),
                        ..rest
                    },
                    waker: Some(fut_waker),
                    poll: Poll::Pending,
                    wake: None,
                }
            }
        }
    }

    /// A sending future that is registered under `waker` goes away.
    pub open spec fn cancel_send(self, waker: Option<Waker>) -> Self {
        match find(self.sending, waker) {
            Some(i) => State {
                sending: self.sending.update(i, (self.sending[i].0, Item::Cancelled)),
                ..self
            },
            None => self,
        }
    }

    /// A receiving future that is registered under `waker` goes away.
    pub open spec fn cancel_recv(self, waker: Option<Waker>) -> Self {
        match find(self.waiting, waker) {
            Some(i) => State {
                waiting: self.waiting.update(i, (self.waiting[i].0, Item::Cancelled)),
                ..self
            },
            None => self,
        }
    }

    /// A sender is added.
    pub open spec fn add_sender(self) -> Self {
        State { sender_count: self.sender_count.wrapping_add(1), ..self }
    }

    /// A sender goes away.
    pub open spec fn remove_sender(self) -> Self {
        State { sender_count: self.sender_count.wrapping_sub(1), ..self }
    }

    /// Whether all registered receivers are woken when a sender goes away.
    pub open spec fn last_sender_wakes(self) -> bool {
        self.sender_count == 1 && self.nwaiting > 0
    }

    /// The slots that are woken when a sender goes away: those of all registered receivers if it is
    /// the last sender, and none if it is not.
    pub open spec fn woken_by_sender(self) -> Seq<Slot<T>> {
        if self.last_sender_wakes() {
            self.waiting
        } else {
            Seq::empty()
        }
    }

    /// A receiver is added.
    pub open spec fn add_receiver(self) -> Self {
        State { receiver_count: self.receiver_count.wrapping_add(1), ..self }
    }

    /// A receiver goes away.
    pub open spec fn remove_receiver(self) -> Self {
        State { receiver_count: self.receiver_count.wrapping_sub(1), ..self }
    }

    /// Whether all registered senders are woken when a receiver goes away.
    pub open spec fn last_receiver_wakes(self) -> bool {
        self.receiver_count == 1 && self.nsending > 0
    }

    /// The slots that are woken when a receiver goes away: those of all registered senders if it is
    /// the last receiver, and none if it is not.
    pub open spec fn woken_by_receiver(self) -> Seq<Slot<T>> {
        if self.last_receiver_wakes() {
            self.sending
        } else {
            Seq::empty()
        }
    }
}

} // verus!
