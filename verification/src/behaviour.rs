//! What each operation does, case by case: what it is given, what it returns, and what it leaves.
use crate::channel::Item;
use crate::error::{RecvError, SendError};
use crate::history::Event;
use crate::lock::Done;
use crate::model::{RecvStep, SendState, SendStep, Slot, State};
use crate::task::Woken;
use std::task::{Poll, Waker};
use vstd::prelude::*;

verus! {

/// `i` is the slot of a future that is registered under `reg`: the first one whose waker wakes the same
/// task.
pub open spec fn slot_of<T>(slots: Seq<Slot<T>>, reg: Option<Waker>, i: int) -> bool {
    &&& 0 <= i < slots.len()
    &&& reg matches Some(w) && {
        &&& crate::task::wakes_same(slots[i].0, w)
        &&& forall|j: int|
            0 <= j < i ==> !crate::task::wakes_same((#[trigger] slots[j]).0, w)
    }
}

/// A future that is registered under `reg` has no slot.
pub open spec fn without_slot<T>(slots: Seq<Slot<T>>, reg: Option<Waker>) -> bool {
    reg matches Some(w) ==> forall|j: int|
        0 <= j < slots.len() ==> !crate::task::wakes_same((#[trigger] slots[j]).0, w)
}

/// `i` is the first receiver that asks for a message.
pub open spec fn first_to_ask<T>(slots: Seq<Slot<T>>, i: int) -> bool {
    &&& 0 <= i < slots.len()
    &&& slots[i].1 == Item::<T>::Empty
    &&& forall|j: int| 0 <= j < i ==> (#[trigger] slots[j]).1 != Item::<T>::Empty
}

/// No receiver asks for a message.
pub open spec fn no_one_asks<T>(slots: Seq<Slot<T>>) -> bool {
    forall|j: int| 0 <= j < slots.len() ==> (#[trigger] slots[j]).1 != Item::<T>::Empty
}

/// The sender at `j` offers something.
pub open spec fn offers<T>(slots: Seq<Slot<T>>, j: int) -> bool {
    slots[j].1 matches Item::Occupied(_)
}

/// No sender offers a message.
pub open spec fn no_one_offers<T>(slots: Seq<Slot<T>>) -> bool {
    forall|j: int| 0 <= j < slots.len() ==> !#[trigger] offers(slots, j)
}

/// `new` is `old` without its element at `i`, whose place the last one takes.
pub open spec fn taken_out<A>(old_seq: Seq<A>, i: int, new_seq: Seq<A>) -> bool {
    &&& new_seq.len() == old_seq.len() - 1
    &&& forall|j: int|
        0 <= j < new_seq.len() ==> #[trigger] new_seq[j] == if j == i {
            old_seq[old_seq.len() - 1]
        } else {
            old_seq[j]
        }
}

/// `new` is `old` but for its element at `i`, which is `value`.
pub open spec fn replaced<A>(old_seq: Seq<A>, i: int, value: A, new_seq: Seq<A>) -> bool {
    &&& new_seq.len() == old_seq.len()
    &&& forall|j: int|
        0 <= j < new_seq.len() ==> #[trigger] new_seq[j] == if j == i {
            value
        } else {
            old_seq[j]
        }
}

/// `new` is `old` with `value` behind it.
pub open spec fn appended<A>(old_seq: Seq<A>, value: A, new_seq: Seq<A>) -> bool {
    &&& new_seq.len() == old_seq.len() + 1
    &&& new_seq[old_seq.len() as int] == value
    &&& forall|j: int| 0 <= j < old_seq.len() ==> #[trigger] new_seq[j] == old_seq[j]
}

/// `new` is `old` without its first element.
pub open spec fn advanced<A>(old_seq: Seq<A>, new_seq: Seq<A>) -> bool {
    &&& old_seq.len() > 0
    &&& new_seq.len() == old_seq.len() - 1
    &&& forall|j: int| 0 <= j < new_seq.len() ==> #[trigger] new_seq[j] == old_seq[j + 1]
}

/// The two states differ in the slots of receivers and their counter at most.
pub open spec fn same_but_waiting<T>(s: State<T>, t: State<T>) -> bool {
    &&& t.sending == s.sending
    &&& t.nsending == s.nsending
    &&& t.queue == s.queue
    &&& same_handles(s, t)
}

/// The two states differ in the slots of senders and their counter at most.
pub open spec fn same_but_sending<T>(s: State<T>, t: State<T>) -> bool {
    &&& t.waiting == s.waiting
    &&& t.nwaiting == s.nwaiting
    &&& t.queue == s.queue
    &&& same_handles(s, t)
}

/// The two states differ in the queue at most.
pub open spec fn same_but_queue<T>(s: State<T>, t: State<T>) -> bool {
    &&& t.sending == s.sending
    &&& t.nsending == s.nsending
    &&& t.waiting == s.waiting
    &&& t.nwaiting == s.nwaiting
    &&& same_handles(s, t)
}

/// The two states have the same room and the same numbers of handles.
pub open spec fn same_handles<T>(s: State<T>, t: State<T>) -> bool {
    &&& t.length == s.length
    &&& t.sender_count == s.sender_count
    &&& t.receiver_count == s.receiver_count
}

/// `b` is one more than `a`, modulo 256.
pub open spec fn one_more(a: u8, b: u8) -> bool {
    b == if a == 255 {
        0
    } else {
        a + 1
    }
}

proof fn lemma_slot_of<T>(slots: Seq<Slot<T>>, reg: Option<Waker>, i: int)
    requires
        slot_of(slots, reg, i),
    ensures
        crate::model::find(slots, reg) == Some(i),
{
    crate::model::lemma_first(slots, crate::model::registered_under(reg), i);
}

proof fn lemma_without_slot<T>(slots: Seq<Slot<T>>, reg: Option<Waker>)
    requires
        without_slot(slots, reg),
    ensures
        crate::model::find(slots, reg) is None,
{
    crate::model::lemma_first_cases(slots, crate::model::registered_under(reg));
}

// Polls for a message.
/// A receiver whose slot holds a message gets exactly that message, whatever the other slots and the
/// queue hold and whether or not there are senders, and only its slot is removed.
pub proof fn law_recv_own_message<T>(
    s: State<T>,
    reg: Option<Waker>,
    waker: Waker,
    step: RecvStep<T>,
    i: int,
    msg: T,
)
    requires
        s.receives(reg, waker, step),
        slot_of(s.waiting, reg, i),
        s.waiting[i].1 == Item::Occupied(Some(msg)),
    ensures
        step.poll == Poll::<Result<T, RecvError>>::Ready(Ok(msg)),
        step.wake is None,
        step.waker == reg,
        taken_out(s.waiting, i, step.state.waiting),
        one_more(step.state.nwaiting, s.nwaiting),
        same_but_waiting(s, step.state),
{
    lemma_slot_of(s.waiting, reg, i);
}

/// A receiver whose slot asks for a message waits on while there is a sender, and is told that the
/// channel is disconnected when there is none. It changes nothing but the waker in its slot, and that
/// only if it waits on and is polled by another task.
pub proof fn law_recv_waits_on<T>(
    s: State<T>,
    reg: Option<Waker>,
    waker: Waker,
    step: RecvStep<T>,
    i: int,
)
    requires
        s.receives(reg, waker, step),
        slot_of(s.waiting, reg, i),
        s.waiting[i].1 == Item::<T>::Empty,
    ensures
        step.poll == if s.sender_count == 0 {
            Poll::Ready(Err(RecvError::Disconnected))
        } else {
            Poll::<Result<T, RecvError>>::Pending
        },
        step.wake is None,
        step.state.nwaiting == s.nwaiting,
        same_but_waiting(s, step.state),
        if s.sender_count == 0 || crate::task::wakes_same(s.waiting[i].0, waker) {
            step.state.waiting == s.waiting && step.waker == reg
        } else {
            &&& replaced(
                s.waiting,
                i,
                (step.state.waiting[i].0, Item::<T>::Empty),
                step.state.waiting,
            )
            &&& cloned(waker, step.state.waiting[i].0)
            &&& step.waker matches Some(w) && (cloned(waker, w) || cloned(
                step.state.waiting[i].0,
                w,
            ))
        },
{
    lemma_slot_of(s.waiting, reg, i);
}

/// A receiver whose registration was withdrawn is told so, and only its slot is removed.
pub proof fn law_recv_withdrawn<T>(
    s: State<T>,
    reg: Option<Waker>,
    waker: Waker,
    step: RecvStep<T>,
    i: int,
)
    requires
        s.receives(reg, waker, step),
        slot_of(s.waiting, reg, i),
        s.waiting[i].1 == Item::<T>::Cancelled,
    ensures
        step.poll == Poll::<Result<T, RecvError>>::Ready(Err(RecvError::Cancelled)),
        step.wake is None,
        step.waker == reg,
        taken_out(s.waiting, i, step.state.waiting),
        one_more(step.state.nwaiting, s.nwaiting),
        same_but_waiting(s, step.state),
{
    lemma_slot_of(s.waiting, reg, i);
}

/// A receiver without a slot takes the message of the first sender that offers one, and wakes that
/// sender, whatever the queue holds and whether or not there are senders.
pub proof fn law_recv_takes_offer<T>(
    s: State<T>,
    reg: Option<Waker>,
    waker: Waker,
    step: RecvStep<T>,
    i: int,
    msg: T,
)
    requires
        s.receives(reg, waker, step),
        without_slot(s.waiting, reg),
        0 <= i < s.sending.len(),
        s.sending[i].1 == Item::Occupied(Some(msg)),
        forall|j: int| 0 <= j < i ==> !#[trigger] offers(s.sending, j),
    ensures
        step.poll == Poll::<Result<T, RecvError>>::Ready(Ok(msg)),
        step.wake == Some(i),
        step.waker == reg,
        replaced(s.sending, i, (s.sending[i].0, Item::<T>::Empty), step.state.sending),
        step.state.nsending == s.nsending,
        same_but_sending(s, step.state),
{
    lemma_without_slot(s.waiting, reg);
    assert forall|j: int| 0 <= j < i implies !crate::model::offering()(#[trigger] s.sending[j]) by {
        assert(!offers(s.sending, j));
    }
    crate::model::lemma_first(s.sending, crate::model::offering(), i);
}

proof fn lemma_no_offer<T>(sending: Seq<Slot<T>>)
    requires
        no_one_offers(sending),
    ensures
        crate::model::first_occupied(sending) is None,
{
    crate::model::lemma_first_cases(sending, crate::model::offering());
    if let Some(i) = crate::model::first_occupied(sending) {
        assert(!offers(sending, i));
    }
}

/// A receiver without a slot takes the message at the front of the queue if no sender offers one,
/// whether or not there are senders.
pub proof fn law_recv_takes_front<T>(
    s: State<T>,
    reg: Option<Waker>,
    waker: Waker,
    step: RecvStep<T>,
    msg: T,
)
    requires
        s.receives(reg, waker, step),
        without_slot(s.waiting, reg),
        no_one_offers(s.sending),
        s.queue.len() > 0,
        s.queue[0] == Some(msg),
    ensures
        step.poll == Poll::<Result<T, RecvError>>::Ready(Ok(msg)),
        step.wake is None,
        step.waker == reg,
        advanced(s.queue, step.state.queue),
        same_but_queue(s, step.state),
{
    lemma_without_slot(s.waiting, reg);
    lemma_no_offer(s.sending);
}

/// A receiver without a slot that finds no message gets a new slot behind all others and waits while
/// there is a sender, and is told that the channel is disconnected when there is none, which changes
/// nothing.
pub proof fn law_recv_finds_nothing<T>(
    s: State<T>,
    reg: Option<Waker>,
    waker: Waker,
    step: RecvStep<T>,
)
    requires
        s.receives(reg, waker, step),
        without_slot(s.waiting, reg),
        no_one_offers(s.sending),
        s.queue.len() == 0,
    ensures
        step.poll == if s.sender_count == 0 {
            Poll::Ready(Err(RecvError::Disconnected))
        } else {
            Poll::<Result<T, RecvError>>::Pending
        },
        step.wake is None,
        same_but_waiting(s, step.state),
        if s.sender_count == 0 {
            &&& step.state.waiting == s.waiting
            &&& step.state.nwaiting == s.nwaiting
            &&& step.waker == reg
        } else {
            let slot_waker = step.state.waiting[s.waiting.len() as int].0;
            &&& appended(s.waiting, (slot_waker, Item::<T>::Empty), step.state.waiting)
            &&& one_more(s.nwaiting, step.state.nwaiting)
            &&& cloned(waker, slot_waker)
            &&& step.waker matches Some(w) && (cloned(waker, w) || cloned(slot_waker, w))
        },
{
    lemma_without_slot(s.waiting, reg);
    lemma_no_offer(s.sending);
}

/// A gap at the front of the queue, which a sending future that had lost its message has left, is
/// removed, and the receiver finds nothing this time.
pub proof fn law_recv_removes_gap<T>(
    s: State<T>,
    reg: Option<Waker>,
    waker: Waker,
    step: RecvStep<T>,
)
    requires
        s.receives(reg, waker, step),
        without_slot(s.waiting, reg),
        no_one_offers(s.sending),
        s.queue.len() > 0,
        s.queue[0] is None,
    ensures
        step.poll == if s.sender_count == 0 {
            Poll::Ready(Err(RecvError::Disconnected))
        } else {
            Poll::<Result<T, RecvError>>::Pending
        },
        step.wake is None,
        advanced(s.queue, step.state.queue),
        step.state.sending == s.sending,
        step.state.nsending == s.nsending,
        same_handles(s, step.state),
        if s.sender_count == 0 {
            &&& step.state.waiting == s.waiting
            &&& step.state.nwaiting == s.nwaiting
            &&& step.waker == reg
        } else {
            let slot_waker = step.state.waiting[s.waiting.len() as int].0;
            &&& appended(s.waiting, (slot_waker, Item::<T>::Empty), step.state.waiting)
            &&& one_more(s.nwaiting, step.state.nwaiting)
            &&& cloned(waker, slot_waker)
            &&& step.waker matches Some(w) && (cloned(waker, w) || cloned(slot_waker, w))
        },
{
    lemma_without_slot(s.waiting, reg);
    lemma_no_offer(s.sending);
}

/// A poll for a message lacks one exactly if it has to take it from a slot that should hold one and
/// does not: its own slot, or else that of the first sender that offers something.
pub proof fn law_can_recv<T>(s: State<T>, reg: Option<Waker>)
    ensures
        s.can_recv(reg) <==> {
            &&& forall|i: int| #[trigger]
                slot_of(s.waiting, reg, i) ==> s.waiting[i].1 != Item::<T>::Occupied(None)
            &&& without_slot(s.waiting, reg) ==> forall|i: int|
                0 <= i < s.sending.len() && #[trigger] offers(s.sending, i) && (forall|j: int|
                    0 <= j < i ==> !#[trigger] offers(s.sending, j)) ==> s.sending[i].1
                    != Item::<T>::Occupied(None)
        },
{
    crate::model::lemma_first_cases(s.waiting, crate::model::registered_under(reg));
    crate::model::lemma_first_cases(s.sending, crate::model::offering());
    match crate::model::find(s.waiting, reg) {
        Some(k) => {
            assert(slot_of(s.waiting, reg, k));
            assert(!without_slot(s.waiting, reg));
            assert forall|i: int| #[trigger] slot_of(s.waiting, reg, i) implies i == k by {
                lemma_slot_of(s.waiting, reg, i);
            }
        },
        None => {
            assert forall|i: int| !#[trigger] slot_of(s.waiting, reg, i) by {
                if slot_of(s.waiting, reg, i) {
                    lemma_slot_of(s.waiting, reg, i);
                }
            }
            assert(without_slot(s.waiting, reg)) by {
                if let Some(w) = reg {
                    assert forall|j: int|
                        0 <= j < s.waiting.len() implies !crate::task::wakes_same(
                        (#[trigger] s.waiting[j]).0,
                        w,
                    ) by {
                        assert(!crate::model::registered_under(reg)(s.waiting[j]));
                    }
                }
            }
            assert forall|i: int|
                0 <= i < s.sending.len() && #[trigger] offers(s.sending, i) && (forall|j: int|
                    0 <= j < i ==> !#[trigger] offers(
                        s.sending,
                        j,
                    )) implies crate::model::first_occupied(s.sending) == Some(i) by {
                assert forall|j: int| 0 <= j < i implies !crate::model::offering()(
                    #[trigger] s.sending[j],
                ) by {
                    assert(!offers(s.sending, j));
                }
                crate::model::lemma_first(s.sending, crate::model::offering(), i);
            }
            if let Some(k) = crate::model::first_occupied(s.sending) {
                assert(offers(s.sending, k));
                assert forall|j: int| 0 <= j < k implies !#[trigger] offers(s.sending, j) by {
                    assert(!crate::model::offering()(s.sending[j]));
                }
            }
        },
    }
}

// Polls of a sending future.
/// A sender whose slot still offers its message gets it back if there is no receiver: exactly the
/// message in its slot, which is then gone from there.
pub proof fn law_send_handed_back<T>(
    s: State<T>,
    fut: SendState<T>,
    waker: Waker,
    step: SendStep<T>,
    i: int,
    msg: T,
)
    requires
        s.sends(fut, waker, step),
        slot_of(s.sending, fut.waker, i),
        s.sending[i].1 == Item::Occupied(Some(msg)),
        s.receiver_count == 0,
    ensures
        step.poll == Poll::<Result<(), SendError<T>>>::Ready(Err(SendError(msg))),
        step.wake is None,
        step.fut == fut,
        replaced(s.sending, i, (s.sending[i].0, Item::<T>::Occupied(None)), step.state.sending),
        step.state.nsending == s.nsending,
        same_but_sending(s, step.state),
{
    lemma_slot_of(s.sending, fut.waker, i);
}

/// A sender whose slot still offers its message waits on while there is a receiver. It changes nothing
/// but the waker in its slot, and that only if it is polled by another task.
pub proof fn law_send_waits_on<T>(
    s: State<T>,
    fut: SendState<T>,
    waker: Waker,
    step: SendStep<T>,
    i: int,
)
    requires
        s.sends(fut, waker, step),
        slot_of(s.sending, fut.waker, i),
        offers(s.sending, i),
        s.receiver_count > 0,
    ensures
        step.poll == Poll::<Result<(), SendError<T>>>::Pending,
        step.wake is None,
        step.fut.msg == fut.msg,
        step.state.nsending == s.nsending,
        same_but_sending(s, step.state),
        if crate::task::wakes_same(s.sending[i].0, waker) {
            step.state.sending == s.sending && step.fut.waker == fut.waker
        } else {
            &&& replaced(
                s.sending,
                i,
                (step.state.sending[i].0, s.sending[i].1),
                step.state.sending,
            )
            &&& cloned(waker, step.state.sending[i].0)
            &&& step.fut.waker matches Some(w) && cloned(step.state.sending[i].0, w)
        },
{
    lemma_slot_of(s.sending, fut.waker, i);
}

/// A sender whose message was taken, or whose registration was withdrawn, succeeds, whether or not
/// there are receivers, and only its slot is removed.
pub proof fn law_send_completes<T>(
    s: State<T>,
    fut: SendState<T>,
    waker: Waker,
    step: SendStep<T>,
    i: int,
)
    requires
        s.sends(fut, waker, step),
        slot_of(s.sending, fut.waker, i),
        !offers(s.sending, i),
    ensures
        step.poll == Poll::<Result<(), SendError<T>>>::Ready(Ok(())),
        step.wake is None,
        step.fut == fut,
        taken_out(s.sending, i, step.state.sending),
        one_more(step.state.nsending, s.nsending),
        same_but_sending(s, step.state),
{
    lemma_slot_of(s.sending, fut.waker, i);
}

/// A sender without a slot gets its message back if there is no receiver, which changes nothing in the
/// channel.
pub proof fn law_send_refused<T>(
    s: State<T>,
    fut: SendState<T>,
    waker: Waker,
    step: SendStep<T>,
    msg: T,
)
    requires
        s.sends(fut, waker, step),
        without_slot(s.sending, fut.waker),
        fut.msg == Some(msg),
        s.receiver_count == 0,
    ensures
        step.poll == Poll::<Result<(), SendError<T>>>::Ready(Err(SendError(msg))),
        step.wake is None,
        step.fut == (SendState::<T> { msg: None, waker: fut.waker }),
        step.state == s,
{
    lemma_without_slot(s.sending, fut.waker);
}

/// A sender without a slot gives its message to the first receiver that asks for one, and wakes that
/// receiver, whatever the queue holds.
pub proof fn law_send_hands_over<T>(
    s: State<T>,
    fut: SendState<T>,
    waker: Waker,
    step: SendStep<T>,
    i: int,
)
    requires
        s.sends(fut, waker, step),
        without_slot(s.sending, fut.waker),
        s.receiver_count > 0,
        first_to_ask(s.waiting, i),
    ensures
        step.poll == Poll::<Result<(), SendError<T>>>::Ready(Ok(())),
        step.wake == Some(i),
        step.fut == (SendState::<T> { msg: None, waker: fut.waker }),
        replaced(s.waiting, i, (s.waiting[i].0, Item::Occupied(fut.msg)), step.state.waiting),
        step.state.nwaiting == s.nwaiting,
        same_but_waiting(s, step.state),
{
    lemma_without_slot(s.sending, fut.waker);
    crate::model::lemma_first(s.waiting, crate::model::asking(), i);
}

proof fn lemma_no_one_asks<T>(waiting: Seq<Slot<T>>)
    requires
        no_one_asks(waiting),
    ensures
        crate::model::first_empty(waiting) is None,
{
    crate::model::lemma_first_cases(waiting, crate::model::asking());
}

/// A sender without a slot puts its message behind all others in the queue if it has room and no
/// receiver asks for a message. The messages before it keep their places, whatever the slots of
/// senders hold.
pub proof fn law_send_queues<T>(
    s: State<T>,
    fut: SendState<T>,
    waker: Waker,
    step: SendStep<T>,
)
    requires
        s.sends(fut, waker, step),
        without_slot(s.sending, fut.waker),
        s.receiver_count > 0,
        no_one_asks(s.waiting),
        s.queue.len() < s.length,
    ensures
        step.poll == Poll::<Result<(), SendError<T>>>::Ready(Ok(())),
        step.wake is None,
        step.fut == (SendState::<T> { msg: None, waker: fut.waker }),
        appended(s.queue, fut.msg, step.state.queue),
        same_but_queue(s, step.state),
{
    lemma_without_slot(s.sending, fut.waker);
    lemma_no_one_asks(s.waiting);
}

/// A sender without a slot that finds the queue full, and no receiver that asks for a message, gets a
/// new slot behind all others, which offers its message, and waits.
pub proof fn law_send_waits<T>(
    s: State<T>,
    fut: SendState<T>,
    waker: Waker,
    step: SendStep<T>,
)
    requires
        s.sends(fut, waker, step),
        without_slot(s.sending, fut.waker),
        s.receiver_count > 0,
        no_one_asks(s.waiting),
        s.queue.len() >= s.length,
    ensures
        step.poll == Poll::<Result<(), SendError<T>>>::Pending,
        step.wake is None,
        ({
            let slot_waker = step.state.sending[s.sending.len() as int].0;
            &&& appended(s.sending, (slot_waker, Item::Occupied(fut.msg)), step.state.sending)
            &&& one_more(s.nsending, step.state.nsending)
            &&& cloned(waker, slot_waker)
            &&& step.fut.msg is None
            &&& step.fut.waker matches Some(w) && cloned(slot_waker, w)
        }),
        same_but_sending(s, step.state),
{
    lemma_without_slot(s.sending, fut.waker);
    lemma_no_one_asks(s.waiting);
}

/// A poll of a sending future lacks a message exactly if there is no receiver, and it has to hand a
/// message back that is gone: from its slot, or from the future itself if it has no slot.
pub proof fn law_can_send<T>(s: State<T>, fut: SendState<T>)
    ensures
        s.can_send(fut) <==> (s.receiver_count == 0 ==> {
            &&& forall|i: int| #[trigger]
                slot_of(s.sending, fut.waker, i) ==> s.sending[i].1 != Item::<T>::Occupied(None)
            &&& without_slot(s.sending, fut.waker) ==> fut.msg is Some
        }),
{
    crate::model::lemma_first_cases(s.sending, crate::model::registered_under(fut.waker));
    match crate::model::find(s.sending, fut.waker) {
        Some(k) => {
            assert(slot_of(s.sending, fut.waker, k));
            assert(!without_slot(s.sending, fut.waker));
            assert forall|i: int| #[trigger] slot_of(s.sending, fut.waker, i) implies i == k by {
                lemma_slot_of(s.sending, fut.waker, i);
            }
        },
        None => {
            assert forall|i: int| !#[trigger] slot_of(s.sending, fut.waker, i) by {
                if slot_of(s.sending, fut.waker, i) {
                    lemma_slot_of(s.sending, fut.waker, i);
                }
            }
            if let Some(w) = fut.waker {
                assert forall|j: int|
                    0 <= j < s.sending.len() implies !crate::task::wakes_same(
                    (#[trigger] s.sending[j]).0,
                    w,
                ) by {
                    assert(!crate::model::registered_under(fut.waker)(s.sending[j]));
                }
            }
        },
    }
}

// Futures that go away.
/// A sending future that goes away marks its slot as cancelled, takes the message along, and changes
/// nothing else; one without a slot changes nothing at all.
pub proof fn law_send_withdraws<T>(s: State<T>, reg: Option<Waker>)
    ensures
        forall|i: int| #[trigger]
            slot_of(s.sending, reg, i) ==> {
                &&& replaced(
                    s.sending,
                    i,
                    (s.sending[i].0, Item::<T>::Cancelled),
                    s.cancel_send(reg).sending,
                )
                &&& s.cancel_send(reg).nsending == s.nsending
                &&& same_but_sending(s, s.cancel_send(reg))
                &&& crate::model::find(s.sending, reg) == Some(i)
                &&& crate::conservation::in_slot(s.sending, reg) == match s.sending[i].1 {
                    Item::Occupied(msg) => msg,
                    _ => None,
                }
            },
        without_slot(s.sending, reg) ==> {
            &&& s.cancel_send(reg) == s
            &&& crate::model::find(s.sending, reg) is None
            &&& crate::conservation::in_slot(s.sending, reg) is None
        },
{
    assert forall|i: int| #[trigger] slot_of(s.sending, reg, i) implies crate::model::find(
        s.sending,
        reg,
    ) == Some(i) by {
        lemma_slot_of(s.sending, reg, i);
    }
    if without_slot(s.sending, reg) {
        lemma_without_slot(s.sending, reg);
    }
}

/// A receiving future that goes away marks its slot as cancelled, takes a message in it along, and
/// changes nothing else; one without a slot changes nothing at all.
pub proof fn law_recv_withdraws<T>(s: State<T>, reg: Option<Waker>)
    ensures
        forall|i: int| #[trigger]
            slot_of(s.waiting, reg, i) ==> {
                &&& replaced(
                    s.waiting,
                    i,
                    (s.waiting[i].0, Item::<T>::Cancelled),
                    s.cancel_recv(reg).waiting,
                )
                &&& s.cancel_recv(reg).nwaiting == s.nwaiting
                &&& same_but_waiting(s, s.cancel_recv(reg))
                &&& crate::model::find(s.waiting, reg) == Some(i)
                &&& crate::conservation::in_slot(s.waiting, reg) == match s.waiting[i].1 {
                    Item::Occupied(msg) => msg,
                    _ => None,
                }
            },
        without_slot(s.waiting, reg) ==> {
            &&& s.cancel_recv(reg) == s
            &&& crate::model::find(s.waiting, reg) is None
            &&& crate::conservation::in_slot(s.waiting, reg) is None
        },
{
    assert forall|i: int| #[trigger] slot_of(s.waiting, reg, i) implies crate::model::find(
        s.waiting,
        reg,
    ) == Some(i) by {
        lemma_slot_of(s.waiting, reg, i);
    }
    if without_slot(s.waiting, reg) {
        lemma_without_slot(s.waiting, reg);
    }
}

// Handles.
/// The two states differ in the numbers of handles at most.
pub open spec fn same_but_handles<T>(s: State<T>, t: State<T>) -> bool {
    &&& t.sending == s.sending
    &&& t.nsending == s.nsending
    &&& t.waiting == s.waiting
    &&& t.nwaiting == s.nwaiting
    &&& t.queue == s.queue
    &&& t.length == s.length
}

/// A handle that comes or goes changes the number of handles of its own kind by one, and nothing else.
pub proof fn law_handles_counted<T>(s: State<T>)
    ensures
        same_but_handles(s, s.add_sender()),
        s.add_sender().receiver_count == s.receiver_count,
        s.sender_count < usize::MAX ==> s.add_sender().sender_count == s.sender_count + 1,
        same_but_handles(s, s.remove_sender()),
        s.remove_sender().receiver_count == s.receiver_count,
        s.sender_count > 0 ==> s.remove_sender().sender_count == s.sender_count - 1,
        same_but_handles(s, s.add_receiver()),
        s.add_receiver().sender_count == s.sender_count,
        s.receiver_count < usize::MAX ==> s.add_receiver().receiver_count == s.receiver_count + 1,
        same_but_handles(s, s.remove_receiver()),
        s.remove_receiver().sender_count == s.sender_count,
        s.receiver_count > 0 ==> s.remove_receiver().receiver_count == s.receiver_count - 1,
{
}

/// Who is woken when a handle goes: all registered futures of the other side, each in its place, if it
/// is the last of its kind and their small counter is not 0, and no one else.
pub proof fn law_last_handle_wakes<T>(s: State<T>)
    ensures
        s.sender_count == 1 && s.nwaiting != 0 ==> s.woken_by_sender() == s.waiting,
        s.sender_count != 1 || s.nwaiting == 0 ==> s.woken_by_sender().len() == 0,
        s.receiver_count == 1 && s.nsending != 0 ==> s.woken_by_receiver() == s.sending,
        s.receiver_count != 1 || s.nsending == 0 ==> s.woken_by_receiver().len() == 0,
{
}

/// A fresh channel, whatever its room, is empty and has one sender and one receiver, and no future is
/// registered with it.
pub proof fn law_fresh<T>(length: usize)
    ensures
        ({
            let s = State::<T>::initial(length);
            &&& s.sender_count == 1
            &&& s.receiver_count == 1
            &&& s.sending.len() == 0
            &&& s.nsending == 0
            &&& s.waiting.len() == 0
            &&& s.nwaiting == 0
            &&& s.queue.len() == 0
            &&& s.length == length
        }),
{
}

/// The first operation on a fresh channel, whatever its room: a receiver waits, and a sender is
/// successful if there is room and waits if there is none.
pub proof fn law_first_polls<T>(
    length: usize,
    msg: T,
    waker: Waker,
    received: RecvStep<T>,
    sent: SendStep<T>,
)
    requires
        State::<T>::initial(length).receives(None, waker, received),
        State::<T>::initial(length).sends(
            SendState { msg: Some(msg), waker: None },
            waker,
            sent,
        ),
    ensures
        received.poll is Pending,
        sent.poll == if length > 0 {
            Poll::<Result<(), SendError<T>>>::Ready(Ok(()))
        } else {
            Poll::Pending
        },
{
    let s = State::<T>::initial(length);
    law_fresh::<T>(length);
    law_recv_finds_nothing(s, None, waker, received);
    if length > 0 {
        law_send_queues(s, SendState { msg: Some(msg), waker: None }, waker, sent);
    } else {
        law_send_waits(s, SendState { msg: Some(msg), waker: None }, waker, sent);
    }
}

/// A queue can be asked for exactly if it is unbounded, has room for at most one message, or is not
/// larger than any allocation can be.
pub proof fn law_allocatable<T>(cap: usize)
    ensures
        crate::channel::allocatable::<T>(cap) <==> {
            ||| cap == 0
            ||| cap == 1
            ||| cap == usize::MAX
            ||| cap as int * vstd::layout::size_of::<Option<T>>() as int <= isize::MAX as int
        },
{
}

// Histories.
/// A channel is fresh before the first operation, and each operation leads from the state that those
/// before it have led to.
pub proof fn law_run<T>(length: usize, events: Seq<Event<T>>, e: Event<T>)
    ensures
        crate::history::run(length, Seq::<Event<T>>::empty()) == State::<T>::initial(length),
        crate::history::run(length, events.push(e)) == e.apply(crate::history::run(length, events)),
        crate::history::possible(length, events.push(e)) <==> {
            &&& crate::history::possible(length, events)
            &&& e.enabled(crate::history::run(length, events))
        },
        crate::history::possible(length, Seq::<Event<T>>::empty()),
{
    assert(events.push(e).drop_last() =~= events);
}

/// How often something that `p` describes happened.
pub open spec fn times<T>(events: Seq<Event<T>>, p: spec_fn(Event<T>) -> bool) -> nat
    decreases events.len(),
{
    if events.len() == 0 {
        0
    } else {
        times(events.drop_last(), p) + if p(events.last()) {
            1nat
        } else {
            0
        }
    }
}

/// Operations equal to `event`.
pub open spec fn only<T>(event: Event<T>) -> spec_fn(Event<T>) -> bool {
    |e: Event<T>| e == event
}

/// The number of handles after `made` clones and `gone` drops, modulo the size of the counter.
pub open spec fn live(made: nat, gone: nat) -> int {
    (1 + made - gone) % (usize::MAX + 1)
}

proof fn lemma_wraps(a: int, n: usize)
    requires
        n == a % (usize::MAX + 1),
    ensures
        n.wrapping_add(1) == (a + 1) % (usize::MAX + 1),
        n.wrapping_sub(1) == (a - 1) % (usize::MAX + 1),
{
    let m = usize::MAX + 1;
    let q = a / m;
    vstd::arithmetic::div_mod::lemma_fundamental_div_mod(a, m);
    assert(a == m * q + n);
    assert(m * (q + 1) == m * q + m) by (nonlinear_arith);
    assert(m * (q - 1) == m * q - m) by (nonlinear_arith);
    assert(m * q == q * m && m * (q + 1) == (q + 1) * m && m * (q - 1) == (q - 1) * m)
        by (nonlinear_arith);
    if n == usize::MAX {
        vstd::arithmetic::div_mod::lemma_fundamental_div_mod_converse(a + 1, m, q + 1, 0);
    } else {
        vstd::arithmetic::div_mod::lemma_fundamental_div_mod_converse(a + 1, m, q, n + 1);
    }
    if n == 0 {
        vstd::arithmetic::div_mod::lemma_fundamental_div_mod_converse(a - 1, m, q - 1, m - 1);
    } else {
        vstd::arithmetic::div_mod::lemma_fundamental_div_mod_converse(a - 1, m, q, n - 1);
    }
}

/// The counts of handles are those of the handles that live: one of each kind, and one more for each
/// that was cloned, and one less for each that was dropped. Nothing else changes them.
pub proof fn law_counts<T>(length: usize, events: Seq<Event<T>>)
    ensures
        ({
            let s = crate::history::run(length, events);
            &&& s.sender_count == live(
                times(events, only(Event::<T>::AddSender)),
                times(events, only(Event::<T>::RemoveSender)),
            )
            &&& s.receiver_count == live(
                times(events, only(Event::<T>::AddReceiver)),
                times(events, only(Event::<T>::RemoveReceiver)),
            )
            &&& s.length == length
        }),
    decreases events.len(),
{
    if events.len() > 0 {
        let before = events.drop_last();
        law_counts(length, before);
        let s = crate::history::run(length, before);
        crate::laws::lemma_searches(s, events.last());
        lemma_wraps(
            1 + times(before, only(Event::<T>::AddSender)) - times(
                before,
                only(Event::<T>::RemoveSender),
            ),
            s.sender_count,
        );
        lemma_wraps(
            1 + times(before, only(Event::<T>::AddReceiver)) - times(
                before,
                only(Event::<T>::RemoveReceiver),
            ),
            s.receiver_count,
        );
    } else {
        vstd::arithmetic::div_mod::lemma_small_mod(1, (usize::MAX + 1) as nat);
    }
}

/// The message, or gap, that an operation puts into the queue: the one that a sending future brings,
/// if the queue is longer afterwards.
pub open spec fn put_in<T>(s: State<T>, e: Event<T>) -> Seq<Option<T>> {
    match e {
        Event::PollSend { fut, .. } => if e.apply(s).queue.len() > s.queue.len() {
            seq![fut.msg]
        } else {
            Seq::empty()
        },
        _ => Seq::empty(),
    }
}

/// The message, or gap, that an operation takes from the queue: the one that a receiving future returns,
/// if the queue is shorter afterwards, and a gap if it returns none.
pub open spec fn got_out<T>(s: State<T>, e: Event<T>) -> Seq<Option<T>> {
    match e {
        Event::PollRecv { reg, waker, slot_waker, fut_waker } => if e.apply(s).queue.len()
            < s.queue.len() {
            match s.recv(reg, waker, slot_waker, fut_waker).poll {
                Poll::Ready(Ok(msg)) => seq![Some(msg)],
                _ => seq![None],
            }
        } else {
            Seq::empty()
        },
        _ => Seq::empty(),
    }
}

/// All that was put into the queue, in order.
pub open spec fn all_put_in<T>(length: usize, events: Seq<Event<T>>) -> Seq<Option<T>>
    decreases events.len(),
{
    if events.len() == 0 {
        Seq::empty()
    } else {
        all_put_in(length, events.drop_last()) + put_in(
            crate::history::run(length, events.drop_last()),
            events.last(),
        )
    }
}

/// All that came out of the queue, in order.
pub open spec fn all_got_out<T>(length: usize, events: Seq<Event<T>>) -> Seq<Option<T>>
    decreases events.len(),
{
    if events.len() == 0 {
        Seq::empty()
    } else {
        all_got_out(length, events.drop_last()) + got_out(
            crate::history::run(length, events.drop_last()),
            events.last(),
        )
    }
}

/// The queue is first in, first out, over any history, with senders that wait and futures that go away:
/// what came out of it, followed by what is still in it, is what was put into it, in order.
pub proof fn law_first_in_first_out<T>(length: usize, events: Seq<Event<T>>)
    ensures
        all_put_in(length, events) == all_got_out(length, events) + crate::history::run(
            length,
            events,
        ).queue,
    decreases events.len(),
{
    if events.len() > 0 {
        law_first_in_first_out(length, events.drop_last());
        let s = crate::history::run(length, events.drop_last());
        let e = events.last();
        crate::laws::lemma_searches(s, e);
        let before = all_got_out(length, events.drop_last());
        let after = e.apply(s).queue;
        match e {
            Event::PollSend { fut, .. } => {
                if after.len() > s.queue.len() {
                    assert(after =~= s.queue.push(fut.msg));
                    assert(before + s.queue.push(fut.msg) =~= (before + s.queue).push(fut.msg));
                } else {
                    assert(after =~= s.queue);
                }
            },
            Event::PollRecv { .. } => {
                if after.len() < s.queue.len() {
                    assert(s.queue =~= got_out(s, e) + after);
                    assert(before + s.queue =~= before + got_out(s, e) + after);
                } else {
                    assert(after =~= s.queue);
                }
            },
            _ => {},
        }
    }
}

/// What an operation of a history does is what its laws say: the step of a poll, the mark of a future
/// that goes away, or the count of a handle.
pub proof fn law_events<T>(s: State<T>, e: Event<T>)
    requires
        e.enabled(s),
    ensures
        match e {
            Event::PollSend { fut, waker, slot_waker, fut_waker } => {
                &&& s.can_send(fut)
                &&& s.sends(fut, waker, s.send(fut, waker, slot_waker, fut_waker))
                &&& e.apply(s) == s.send(fut, waker, slot_waker, fut_waker).state
            },
            Event::PollRecv { reg, waker, slot_waker, fut_waker } => {
                &&& s.can_recv(reg)
                &&& s.receives(reg, waker, s.recv(reg, waker, slot_waker, fut_waker))
                &&& e.apply(s) == s.recv(reg, waker, slot_waker, fut_waker).state
            },
            Event::CancelSend(reg) => e.apply(s) == s.cancel_send(reg),
            Event::CancelRecv(reg) => e.apply(s) == s.cancel_recv(reg),
            Event::AddSender => e.apply(s) == s.add_sender(),
            Event::RemoveSender => e.apply(s) == s.remove_sender(),
            Event::AddReceiver => e.apply(s) == s.add_receiver(),
            Event::RemoveReceiver => e.apply(s) == s.remove_receiver(),
        },
{
}

// Records.
/// What it means that wakers were woken: one for each slot, in order, each a clone of the waker there; or
/// the one in a given slot, and none if there is no such slot.
pub proof fn law_woken<T>(
    slots: Seq<Slot<T>>,
    wakers: Seq<Waker>,
    woken: Seq<Woken>,
    i: Option<int>,
    one: Option<Woken>,
)
    ensures
        crate::model::wakers_of(slots, wakers) <==> {
            &&& wakers.len() == slots.len()
            &&& forall|k: int| 0 <= k < slots.len() ==> cloned(slots[k].0, #[trigger] wakers[k])
        },
        crate::wakeups::woken_all(slots, woken) <==> {
            &&& woken.len() == slots.len()
            &&& forall|k: int| 0 <= k < slots.len() ==> cloned(slots[k].0, (#[trigger] woken[k])@)
        },
        crate::wakeups::woken_at(slots, i, one) <==> {
            ||| i is None && one is None
            ||| i is Some && one is Some && cloned(slots[i->0].0, one->0@)
        },
{
    let views = woken.map_values(|w: Woken| w@);
    assert(forall|k: int| 0 <= k < woken.len() ==> views[k] == (#[trigger] woken[k])@);
    if crate::model::wakers_of(slots, wakers) {
        assert forall|k: int| 0 <= k < slots.len() implies cloned(
            slots[k].0,
            #[trigger] wakers[k],
        ) by {
            let slot = slots[k];
        }
    }
    if crate::wakeups::woken_all(slots, woken) {
        assert forall|k: int| 0 <= k < slots.len() implies cloned(
            slots[k].0,
            (#[trigger] woken[k])@,
        ) by {
            let slot = slots[k];
            assert(cloned(slots[k].0, views[k]));
        }
    }
}

/// An index is found again as the same integer.
pub proof fn law_index(i: Option<usize>)
    ensures
        i is None <==> crate::model::index(i) is None,
        i matches Some(k) ==> crate::model::index(i) == Some(k as int),
{
}

/// The record that a channel was made says that it is empty, with one sender and one receiver, and that
/// nothing was done to it.
pub proof fn law_made<T>(done: Done<T>, lock: crate::lock::Lock<T>)
    requires
        done.fresh(lock),
    ensures
        done.lock() == lock,
        done.history().len() == 0,
        done.log().len() == 0,
        done.event() is None,
        done.before() == done.after(),
        ({
            let s = done.after();
            &&& s.length == lock.pred().length
            &&& s.sender_count == 1
            &&& s.receiver_count == 1
            &&& s.sending.len() == 0
            &&& s.waiting.len() == 0
            &&& s.queue.len() == 0
        }),
{
    law_fresh::<T>(done.length());
}

/// A record of the use of a lock is about that lock, and what it says was done was possible: it leads
/// from the state before, by one operation or none, to the state after.
pub proof fn law_recorded<T>(done: Done<T>, lock: crate::lock::Lock<T>)
    requires
        done.on(lock),
    ensures
        done.lock() == lock,
        done.length() == lock.pred().length,
        crate::history::possible(lock.pred().length, done.history()),
        done.before() == crate::history::run(lock.pred().length, done.history()),
        match done.event() {
            Some(e) => {
                &&& done.log() == done.history().push(e)
                &&& e.enabled(done.before())
                &&& done.after() == e.apply(done.before())
            },
            None => done.log() == done.history() && done.after() == done.before(),
        },
{
    crate::lock::lemma_done(done);
}

/// A poll of a sending future that is recorded by `done` is a step of that future from the state before
/// to the state after, it wakes whom the step is to wake, and no one else, and nothing else is done to
/// the channel.
pub proof fn law_send_recorded<T>(
    done: Done<T>,
    fut: SendState<T>,
    waker: Waker,
    after: SendState<T>,
    poll: Poll<Result<(), SendError<T>>>,
    woken: Option<Woken>,
)
    requires
        crate::sender::send_polled(done, fut, waker, after, poll, woken),
    ensures
        if done.before().can_send(fut) {
            exists|wake: Option<int>|
                {
                    &&& #[trigger] done.before().sends(
                        fut,
                        waker,
                        SendStep { state: done.after(), fut: after, poll, wake },
                    )
                    &&& wake is None <==> woken is None
                    &&& wake matches Some(i) ==> woken matches Some(w) && cloned(
                        done.after().waiting[i].0,
                        w@,
                    )
                    &&& done.log().len() == done.history().len() + 1
                }
        } else {
            &&& poll is Pending
            &&& after == fut
            &&& woken is None
            &&& done.log() == done.history()
        },
{
    if done.before().can_send(fut) {
        let (slot_waker, fut_waker) = choose|slot_waker: Waker, fut_waker: Waker|
            {
                &&& cloned(waker, slot_waker)
                &&& cloned(slot_waker, fut_waker)
                &&& done.event() == Some(
                    Event::PollSend { fut, waker, slot_waker, fut_waker },
                )
                &&& #[trigger] done.before().send(fut, waker, slot_waker, fut_waker) == (SendStep {
                    state: done.after(),
                    fut: after,
                    poll,
                    wake: done.before().send(fut, waker, slot_waker, fut_waker).wake,
                })
                &&& crate::wakeups::woken_at(
                    done.after().waiting,
                    done.before().send(fut, waker, slot_waker, fut_waker).wake,
                    woken,
                )
            };
        let wake = done.before().send(fut, waker, slot_waker, fut_waker).wake;
        assert(done.before().sends(
            fut,
            waker,
            SendStep { state: done.after(), fut: after, poll, wake },
        ));
    }
}

/// A poll for a message that is recorded by `done` is a step of that future from the state before to the
/// state after, it wakes whom the step is to wake, and no one else, and nothing else is done to the
/// channel.
pub proof fn law_recv_recorded<T>(
    done: Done<T>,
    reg: Option<Waker>,
    waker: Waker,
    after: Option<Waker>,
    poll: Poll<Result<T, RecvError>>,
    woken: Option<Woken>,
)
    requires
        crate::receiver::recv_polled(done, reg, waker, after, poll, woken),
    ensures
        if done.before().can_recv(reg) {
            exists|wake: Option<int>|
                {
                    &&& #[trigger] done.before().receives(
                        reg,
                        waker,
                        RecvStep { state: done.after(), waker: after, poll, wake },
                    )
                    &&& wake is None <==> woken is None
                    &&& wake matches Some(i) ==> woken matches Some(w) && cloned(
                        done.after().sending[i].0,
                        w@,
                    )
                    &&& done.log().len() == done.history().len() + 1
                }
        } else {
            &&& poll is Pending
            &&& after == reg
            &&& woken is None
            &&& done.log() == done.history()
        },
{
    if done.before().can_recv(reg) {
        let (slot_waker, fut_waker) = choose|slot_waker: Waker, fut_waker: Waker|
            {
                &&& cloned(waker, slot_waker)
                &&& cloned(waker, fut_waker) || cloned(slot_waker, fut_waker)
                &&& done.event() == Some(
                    Event::<T>::PollRecv { reg, waker, slot_waker, fut_waker },
                )
                &&& #[trigger] done.before().recv(reg, waker, slot_waker, fut_waker) == (RecvStep {
                    state: done.after(),
                    waker: after,
                    poll,
                    wake: done.before().recv(reg, waker, slot_waker, fut_waker).wake,
                })
                &&& crate::wakeups::woken_at(
                    done.after().sending,
                    done.before().recv(reg, waker, slot_waker, fut_waker).wake,
                    woken,
                )
            };
        let wake = done.before().recv(reg, waker, slot_waker, fut_waker).wake;
        assert(done.before().receives(
            reg,
            waker,
            RecvStep { state: done.after(), waker: after, poll, wake },
        ));
    }
}

/// A record that a handle came or went says that the number of handles of its own kind, and nothing
/// else in the channel, changed, and that by one.
pub proof fn law_handle_recorded<T>(done: Done<T>)
    requires
        crate::history::possible(done.length(), done.log()),
    ensures
        ({
            let s = done.before();
            let t = done.after();
            &&& done.event() == Some(Event::<T>::AddSender) ==> {
                &&& same_but_handles(s, t)
                &&& t.receiver_count == s.receiver_count
                &&& s.sender_count < usize::MAX ==> t.sender_count == s.sender_count + 1
            }
            &&& done.event() == Some(Event::<T>::RemoveSender) ==> {
                &&& same_but_handles(s, t)
                &&& t.receiver_count == s.receiver_count
                &&& s.sender_count > 0 ==> t.sender_count == s.sender_count - 1
            }
            &&& done.event() == Some(Event::<T>::AddReceiver) ==> {
                &&& same_but_handles(s, t)
                &&& t.sender_count == s.sender_count
                &&& s.receiver_count < usize::MAX ==> t.receiver_count == s.receiver_count + 1
            }
            &&& done.event() == Some(Event::<T>::RemoveReceiver) ==> {
                &&& same_but_handles(s, t)
                &&& t.sender_count == s.sender_count
                &&& s.receiver_count > 0 ==> t.receiver_count == s.receiver_count - 1
            }
            &&& done.event() is None ==> t == s
        }),
{
    crate::lock::lemma_done(done);
    law_handles_counted(done.before());
}

/// In the state that a record speaks of, there are as many handles of each kind as live: the first one,
/// and those that were cloned, without those that were dropped. So a send is refused only after every
/// receiver was dropped, and receiving is disconnected only after every sender was.
pub proof fn law_live_handles<T>(done: Done<T>)
    ensures
        done.before().sender_count == live(
            times(done.history(), only(Event::<T>::AddSender)),
            times(done.history(), only(Event::<T>::RemoveSender)),
        ),
        done.before().receiver_count == live(
            times(done.history(), only(Event::<T>::AddReceiver)),
            times(done.history(), only(Event::<T>::RemoveReceiver)),
        ),
{
    law_counts(done.length(), done.history());
}

} // verus!
