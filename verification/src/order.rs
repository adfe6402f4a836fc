//! The order in which messages come out of a channel.
use crate::error::SendError;
use crate::history::Event;
use crate::model::{SendState, Slot, State};
use std::task::{Poll, Waker};
use vstd::prelude::*;

verus! {

/// At most one receiver is registered and has not gone away.
pub open spec fn at_most_one_live<T>(waiting: Seq<Slot<T>>) -> bool {
    forall|i: int, j: int|
        0 <= i < waiting.len() && 0 <= j < waiting.len() && !((#[trigger] waiting[i]).1 is Cancelled)
            && !((#[trigger] waiting[j]).1 is Cancelled) ==> i == j
}

/// The operation fits a channel with a single consumer: a receiving future is polled only while no
/// other one is registered and not gone away, and none goes away with a message in its slot.
pub open spec fn by_single_consumer<T>(s: State<T>, e: Event<T>) -> bool {
    match e {
        Event::PollRecv { reg, .. } => match crate::model::find(s.waiting, reg) {
            Some(i) => {
                &&& !(s.waiting[i].1 is Cancelled)
                &&& forall|j: int|
                    0 <= j < s.waiting.len() && j != i ==> (#[trigger] s.waiting[j]).1 is Cancelled
            },
            None => forall|j: int|
                0 <= j < s.waiting.len() ==> (#[trigger] s.waiting[j]).1 is Cancelled,
        },
        Event::CancelRecv(waker) => crate::model::find(s.waiting, waker) matches Some(i) ==> !(
        s.waiting[i].1 is Occupied),
        _ => true,
    }
}

/// The operation does not make a sender wait.
pub open spec fn without_waiting<T>(s: State<T>, e: Event<T>) -> bool {
    match e {
        Event::PollSend { fut, waker, slot_waker, fut_waker } => !(s.send(
            fut,
            waker,
            slot_waker,
            fut_waker,
        ).poll is Pending),
        _ => true,
    }
}

/// None of `events` makes a sender wait.
pub open spec fn no_sender_waits<T>(length: usize, events: Seq<Event<T>>) -> bool
    decreases events.len(),
{
    events.len() > 0 ==> {
        &&& no_sender_waits(length, events.drop_last())
        &&& without_waiting(crate::history::run(length, events.drop_last()), events.last())
    }
}

/// All of `events` fit a channel with a single consumer.
pub open spec fn single_consumer<T>(length: usize, events: Seq<Event<T>>) -> bool
    decreases events.len(),
{
    events.len() > 0 ==> {
        &&& single_consumer(length, events.drop_last())
        &&& by_single_consumer(crate::history::run(length, events.drop_last()), events.last())
    }
}

/// The message that the operation makes the channel accept.
pub open spec fn accepted<T>(s: State<T>, e: Event<T>) -> Seq<T> {
    match e {
        Event::PollSend { fut, waker, slot_waker, fut_waker } => if s.send(
            fut,
            waker,
            slot_waker,
            fut_waker,
        ).poll == Poll::<Result<(), SendError<T>>>::Ready(Ok(())) {
            seq![fut.msg->0]
        } else {
            Seq::empty()
        },
        _ => Seq::empty(),
    }
}

/// The message that the operation returns to a receiver.
pub open spec fn delivered<T>(s: State<T>, e: Event<T>) -> Seq<T> {
    match e {
        Event::PollRecv { reg, waker, slot_waker, fut_waker } => match s.recv(
            reg,
            waker,
            slot_waker,
            fut_waker,
        ).poll {
            Poll::Ready(Ok(msg)) => seq![msg],
            _ => Seq::empty(),
        },
        _ => Seq::empty(),
    }
}

/// The messages that were accepted, in order.
pub open spec fn sent<T>(length: usize, events: Seq<Event<T>>) -> Seq<T>
    decreases events.len(),
{
    if events.len() == 0 {
        Seq::empty()
    } else {
        sent(length, events.drop_last()) + accepted(
            crate::history::run(length, events.drop_last()),
            events.last(),
        )
    }
}

/// The messages that were received, in order.
pub open spec fn received<T>(length: usize, events: Seq<Event<T>>) -> Seq<T>
    decreases events.len(),
{
    if events.len() == 0 {
        Seq::empty()
    } else {
        received(length, events.drop_last()) + delivered(
            crate::history::run(length, events.drop_last()),
            events.last(),
        )
    }
}

/// The message in the slot of a receiver.
pub open spec fn handed_over<T>(waiting: Seq<Slot<T>>) -> Seq<T> {
    match crate::model::first_occupied(waiting) {
        Some(i) => seq![crate::model::message(waiting[i])->0],
        None => Seq::empty(),
    }
}

/// The messages that were accepted and not yet received: first the one in the slot of a receiver,
/// then those in the queue.
pub open spec fn in_transit<T>(s: State<T>) -> Seq<T> {
    handed_over(s.waiting) + s.queue.map_values(|msg: Option<T>| msg->0)
}

/// What the order of messages rests on.
spec fn in_order<T>(s: State<T>) -> bool {
    &&& crate::laws::settled(s)
    &&& s.sending.len() == 0
    &&& at_most_one_live(s.waiting)
}

proof fn lemma_send_in_order<T>(s: State<T>, e: Event<T>)
    requires
        in_order(s),
        without_waiting(s, e),
        e is PollSend,
        e.enabled(s),
        e.carries_message(s),
    ensures
        in_order(e.apply(s)),
        in_transit(e.apply(s)) =~= in_transit(s) + accepted(s, e),
{
    let post = e.apply(s);
    crate::laws::lemma_event_keeps_settled(s, e);
    let fut = e->PollSend_fut;
    crate::model::lemma_first_cases(s.sending, crate::model::registered_under(fut.waker));
    crate::model::lemma_first_cases(s.waiting, crate::model::asking());
    crate::model::lemma_first_cases(s.waiting, crate::model::offering());
    if let Some(i) = crate::model::first_empty(s.waiting) {
        if s.receiver_count > 0 {
            crate::model::lemma_first(post.waiting, crate::model::offering(), i);
        }
    }
}

proof fn lemma_recv_in_order<T>(s: State<T>, e: Event<T>)
    requires
        in_order(s),
        e is PollRecv,
        e.enabled(s),
        by_single_consumer(s, e),
    ensures
        in_order(e.apply(s)),
        in_transit(s) =~= delivered(s, e) + in_transit(e.apply(s)),
{
    let post = e.apply(s);
    crate::laws::lemma_event_keeps_settled(s, e);
    let reg = e->PollRecv_reg;
    crate::model::lemma_first_cases(s.waiting, crate::model::registered_under(reg));
    crate::model::lemma_first_cases(s.sending, crate::model::offering());
    crate::model::lemma_first_cases(s.waiting, crate::model::offering());
    crate::model::lemma_first_cases(post.waiting, crate::model::offering());
}

proof fn lemma_other_in_order<T>(s: State<T>, e: Event<T>)
    requires
        in_order(s),
        !(e is PollSend),
        !(e is PollRecv),
        by_single_consumer(s, e),
    ensures
        in_order(e.apply(s)),
        in_transit(s) =~= in_transit(e.apply(s)),
{
    let post = e.apply(s);
    crate::laws::lemma_event_keeps_settled(s, e);
    match e {
        Event::CancelSend(waker) => {
            crate::model::lemma_first_cases(s.sending, crate::model::registered_under(waker));
        },
        Event::CancelRecv(waker) => {
            crate::model::lemma_first_cases(s.waiting, crate::model::registered_under(waker));
            crate::model::lemma_first_cases(s.waiting, crate::model::offering());
            if let Some(k) = crate::model::first_occupied(s.waiting) {
                assert(post.waiting[k] == s.waiting[k]);
                crate::model::lemma_first(post.waiting, crate::model::offering(), k);
            } else {
                crate::model::lemma_first_cases(post.waiting, crate::model::offering());
            }
        },
        _ => {},
    }
}

proof fn lemma_run_in_order<T>(length: usize, events: Seq<Event<T>>)
    requires
        crate::history::possible(length, events),
        crate::history::orderly(length, events),
        single_consumer(length, events),
        no_sender_waits(length, events),
    ensures
        in_order(crate::history::run(length, events)),
        sent(length, events) =~= received(length, events) + in_transit(
            crate::history::run(length, events),
        ),
    decreases events.len(),
{
    if events.len() == 0 {
        crate::model::lemma_first_cases(
            State::<T>::initial(length).waiting,
            crate::model::offering(),
        );
    } else {
        let s = crate::history::run(length, events.drop_last());
        let e = events.last();
        lemma_run_in_order(length, events.drop_last());
        if e is PollSend {
            lemma_send_in_order(s, e);
        } else if e is PollRecv {
            lemma_recv_in_order(s, e);
        } else {
            lemma_other_in_order(s, e);
        }
    }
}

/// As long as no sender has to wait, a channel with a single consumer neither drops nor reorders
/// messages: those that were received, followed by those that are still in transit, are those that
/// were accepted, in order.
pub proof fn law_no_drop_or_reorder<T>(length: usize, events: Seq<Event<T>>)
    requires
        crate::history::possible(length, events),
        crate::history::orderly(length, events),
        single_consumer(length, events),
        no_sender_waits(length, events),
    ensures
        sent(length, events) == received(length, events) + in_transit(
            crate::history::run(length, events),
        ),
{
    lemma_run_in_order(length, events);
}

/// No sender waits on an unbounded channel, so with a single consumer it neither drops nor reorders
/// messages.
pub proof fn law_unbounded_no_drop_or_reorder<T>(events: Seq<Event<T>>)
    requires
        events.len() < usize::MAX,
        crate::history::possible(usize::MAX, events),
        crate::history::orderly(usize::MAX, events),
        single_consumer(usize::MAX, events),
    ensures
        no_sender_waits(usize::MAX, events),
        sent(usize::MAX, events) == received(usize::MAX, events) + in_transit(
            crate::history::run(usize::MAX, events),
        ),
{
    lemma_unbounded_without_waiting(events);
    lemma_run_in_order(usize::MAX, events);
}

pub(crate) proof fn lemma_unbounded_without_waiting<T>(events: Seq<Event<T>>)
    requires
        events.len() < usize::MAX,
    ensures
        ({
            let s = crate::history::run(usize::MAX, events);
            &&& s.length == usize::MAX
            &&& s.sending.len() == 0
            &&& s.queue.len() <= events.len()
        }),
        no_sender_waits(usize::MAX, events),
    decreases events.len(),
{
    if events.len() > 0 {
        let s = crate::history::run(usize::MAX, events.drop_last());
        lemma_unbounded_without_waiting(events.drop_last());
        match events.last() {
            Event::PollSend { fut, waker, slot_waker, fut_waker } => {
                crate::model::lemma_first_cases(
                    s.sending,
                    crate::model::registered_under(fut.waker),
                );
            },
            Event::PollRecv { reg, waker, slot_waker, fut_waker } => {
                crate::model::lemma_first_cases(s.sending, crate::model::offering());
            },
            Event::CancelSend(waker) => {
                crate::model::lemma_first_cases(s.sending, crate::model::registered_under(waker));
            },
            _ => {},
        }
    }
}

/// A queue that holds `msgs`.
pub open spec fn in_queue<T>(msgs: Seq<T>) -> Seq<Option<T>> {
    msgs.map_values(|msg: T| Some(msg))
}

/// All of `events` are first polls of futures that send a message, by whatever tasks.
pub open spec fn first_polls<T>(events: Seq<Event<T>>) -> bool {
    forall|k: int|
        0 <= k < events.len() ==> ((#[trigger] events[k]) matches Event::PollSend { fut, .. }
            && fut.msg is Some && fut.waker is None)
}

/// The messages that the first `n` of `events` send.
pub open spec fn offered<T>(events: Seq<Event<T>>, n: nat) -> Seq<T> {
    Seq::new(n, |k: int| events[k]->PollSend_fut.msg->0)
}

/// A fresh channel with room for `length` messages accepts the first `length` ones, in order, and
/// makes the senders of all further ones wait, as long as none is received.
pub proof fn law_fills_up<T>(
    length: usize,
    events: Seq<Event<T>>,
    next: T,
    waker: Waker,
    slot_waker: Waker,
    fut_waker: Waker,
)
    requires
        first_polls(events),
    ensures
        ({
            let s = crate::history::run(length, events);
            let poll = s.send(
                SendState { msg: Some(next), waker: None },
                waker,
                slot_waker,
                fut_waker,
            ).poll;
            let queued: nat = if events.len() <= length {
                events.len()
            } else {
                length as nat
            };
            &&& s.length == length
            &&& s.queue == in_queue(offered(events, queued))
            &&& s.sending.len() == events.len() - queued
            &&& s.waiting.len() == 0
            &&& s.receiver_count == 1
            &&& poll == if events.len() < length {
                Poll::<Result<(), SendError<T>>>::Ready(Ok(()))
            } else {
                Poll::Pending
            }
        }),
    decreases events.len(),
{
    let s = crate::history::run(length, events);
    if events.len() > 0 {
        let before = crate::history::run(length, events.drop_last());
        let last = events.last();
        assert(last == events[events.len() - 1]);
        let fut = last->PollSend_fut;
        law_fills_up(
            length,
            events.drop_last(),
            fut.msg->0,
            last->PollSend_waker,
            last->PollSend_slot_waker,
            last->PollSend_fut_waker,
        );
        assert(fut == (SendState { msg: Some(fut.msg->0), waker: None }));
        crate::model::lemma_first_cases(
            before.sending,
            crate::model::registered_under::<T>(None),
        );
        crate::model::lemma_first_cases(before.waiting, crate::model::asking());
        if events.len() <= length {
            assert(in_queue(offered(events, events.len())) =~= in_queue(
                offered(events.drop_last(), events.drop_last().len()),
            ).push(fut.msg));
        } else {
            assert(offered(events, length as nat) =~= offered(
                events.drop_last(),
                length as nat,
            ));
        }
    } else {
        assert(in_queue(offered(events, 0)) =~= Seq::<Option<T>>::empty());
    }
    crate::model::lemma_first_cases(s.sending, crate::model::registered_under::<T>(None));
    crate::model::lemma_first_cases(s.waiting, crate::model::asking());
}

} // verus!
