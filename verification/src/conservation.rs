//! No message is lost or copied on its way through a channel.
use crate::channel::Item;
use crate::error::SendError;
use crate::history::Event;
use crate::model::{SendState, Slot, State};
use std::task::{Poll, Waker};
use vstd::prelude::*;

verus! {

/// Whether this place holds one of the messages that `p` describes, as a number.
pub open spec fn holds<T>(place: Option<T>, p: spec_fn(T) -> bool) -> nat {
    match place {
        Some(msg) => if p(msg) {
            1
        } else {
            0
        },
        None => 0,
    }
}

/// How many of the messages that `p` describes are in these places.
pub open spec fn count<T>(places: Seq<Option<T>>, p: spec_fn(T) -> bool) -> nat
    decreases places.len(),
{
    if places.len() == 0 {
        0
    } else {
        count(places.drop_last(), p) + holds(places.last(), p)
    }
}

/// The places for messages in `slots`.
pub open spec fn messages<T>(slots: Seq<Slot<T>>) -> Seq<Option<T>> {
    slots.map_values(|slot: Slot<T>| crate::model::message(slot))
}

/// How many of the messages that `p` describes the channel holds.
pub open spec fn held<T>(s: State<T>, p: spec_fn(T) -> bool) -> nat {
    count(messages(s.sending), p) + count(s.queue, p) + count(messages(s.waiting), p)
}

/// All messages.
pub open spec fn every<T>() -> spec_fn(T) -> bool {
    |msg: T| true
}

proof fn lemma_count_update<T>(
    places: Seq<Option<T>>,
    i: int,
    place: Option<T>,
    p: spec_fn(T) -> bool,
)
    requires
        0 <= i < places.len(),
    ensures
        count(places.update(i, place), p) + holds(places[i], p) == count(places, p) + holds(
            place,
            p,
        ),
    decreases places.len(),
{
    let updated = places.update(i, place);
    if i == places.len() - 1 {
        assert(updated.drop_last() =~= places.drop_last());
    } else {
        assert(updated.drop_last() =~= places.drop_last().update(i, place));
        lemma_count_update(places.drop_last(), i, place, p);
    }
}

proof fn lemma_count_push<T>(places: Seq<Option<T>>, place: Option<T>, p: spec_fn(T) -> bool)
    ensures
        count(places.push(place), p) == count(places, p) + holds(place, p),
{
    assert(places.push(place).drop_last() =~= places);
}

proof fn lemma_count_drop_first<T>(places: Seq<Option<T>>, p: spec_fn(T) -> bool)
    requires
        places.len() > 0,
    ensures
        count(places, p) == holds(places[0], p) + count(places.drop_first(), p),
    decreases places.len(),
{
    if places.len() == 1 {
        assert(places.drop_last() =~= Seq::<Option<T>>::empty());
        assert(places.drop_first() =~= Seq::<Option<T>>::empty());
    } else {
        assert(places.drop_first().drop_last() =~= places.drop_last().drop_first());
        lemma_count_drop_first(places.drop_last(), p);
    }
}

proof fn lemma_count_bounds<T>(places: Seq<Option<T>>, p: spec_fn(T) -> bool)
    ensures
        count(places, p) <= count(places, every()),
    decreases places.len(),
{
    if places.len() > 0 {
        lemma_count_bounds(places.drop_last(), p);
    }
}

proof fn lemma_count_at<T>(places: Seq<Option<T>>, i: int)
    requires
        0 <= i < places.len(),
    ensures
        count(places, every()) >= holds(places[i], every()),
    decreases places.len(),
{
    if i < places.len() - 1 {
        lemma_count_at(places.drop_last(), i);
    }
}

proof fn lemma_count_none<T>(places: Seq<Option<T>>, p: spec_fn(T) -> bool)
    requires
        forall|i: int| 0 <= i < places.len() ==> (#[trigger] places[i]) is None,
    ensures
        count(places, p) == 0,
    decreases places.len(),
{
    if places.len() > 0 {
        lemma_count_none(places.drop_last(), p);
    }
}

proof fn lemma_messages_update<T>(
    slots: Seq<Slot<T>>,
    i: int,
    slot: Slot<T>,
    p: spec_fn(T) -> bool,
)
    requires
        0 <= i < slots.len(),
    ensures
        count(messages(slots.update(i, slot)), p) + holds(crate::model::message(slots[i]), p)
            == count(messages(slots), p) + holds(crate::model::message(slot), p),
{
    assert(messages(slots.update(i, slot)) =~= messages(slots).update(
        i,
        crate::model::message(slot),
    ));
    lemma_count_update(messages(slots), i, crate::model::message(slot), p);
}

proof fn lemma_messages_push<T>(slots: Seq<Slot<T>>, slot: Slot<T>, p: spec_fn(T) -> bool)
    ensures
        count(messages(slots.push(slot)), p) == count(messages(slots), p) + holds(
            crate::model::message(slot),
            p,
        ),
{
    assert(messages(slots.push(slot)) =~= messages(slots).push(crate::model::message(slot)));
    lemma_count_push(messages(slots), crate::model::message(slot), p);
}

proof fn lemma_messages_swap_removed<T>(slots: Seq<Slot<T>>, i: int, p: spec_fn(T) -> bool)
    requires
        0 <= i < slots.len(),
    ensures
        count(messages(crate::model::swap_removed(slots, i)), p) + holds(
            crate::model::message(slots[i]),
            p,
        ) == count(messages(slots), p),
{
    let last = slots.last();
    let updated = slots.update(i, last);
    lemma_messages_update(slots, i, last, p);
    assert(updated.last() == last);
    assert(messages(updated).drop_last() =~= messages(updated.drop_last()));
    assert(messages(updated).last() == crate::model::message(last));
}

/// The message that a poll of a sending future hands back.
pub open spec fn handed_back<T>(poll: Poll<Result<(), SendError<T>>>) -> Option<T> {
    match poll {
        Poll::Ready(Err(SendError(msg))) => Some(msg),
        _ => None,
    }
}

/// The message that a poll of a receiving future returns.
pub open spec fn taken<T>(poll: Poll<Result<T, crate::error::RecvError>>) -> Option<T> {
    match poll {
        Poll::Ready(Ok(msg)) => Some(msg),
        _ => None,
    }
}

/// The message in the slot of a future that is registered under `waker`.
pub open spec fn in_slot<T>(slots: Seq<Slot<T>>, waker: Option<Waker>) -> Option<T> {
    match crate::model::find(slots, waker) {
        Some(i) => crate::model::message(slots[i]),
        None => None,
    }
}

/// A poll of a sending future neither loses nor copies a message: what the channel and the future
/// held before, the channel, the future and the caller hold after it.
pub proof fn law_send_conserves<T>(
    s: State<T>,
    fut: SendState<T>,
    waker: Waker,
    slot_waker: Waker,
    fut_waker: Waker,
    p: spec_fn(T) -> bool,
)
    requires
        s.can_send(fut),
    ensures
        ({
            let step = s.send(fut, waker, slot_waker, fut_waker);
            held(step.state, p) + holds(step.fut.msg, p) + holds(handed_back(step.poll), p) == held(
                s,
                p,
            ) + holds(fut.msg, p)
        }),
{
    crate::model::lemma_first_cases(s.sending, crate::model::registered_under(fut.waker));
    crate::model::lemma_first_cases(s.waiting, crate::model::asking());
    match crate::model::find(s.sending, fut.waker) {
        Some(i) => {
            lemma_messages_update(s.sending, i, (s.sending[i].0, Item::Occupied(None)), p);
            lemma_messages_update(s.sending, i, (slot_waker, s.sending[i].1), p);
            lemma_messages_swap_removed(s.sending, i, p);
        },
        None => {
            if let Some(i) = crate::model::first_empty(s.waiting) {
                lemma_messages_update(
                    s.waiting,
                    i,
                    (s.waiting[i].0, Item::Occupied(fut.msg)),
                    p,
                );
            }
            lemma_count_push(s.queue, fut.msg, p);
            lemma_messages_push(s.sending, (slot_waker, Item::Occupied(fut.msg)), p);
        },
    }
}

/// A poll of a receiving future takes exactly the message out of the channel that it returns, and
/// none if it returns none.
pub proof fn law_recv_conserves<T>(
    s: State<T>,
    reg: Option<Waker>,
    waker: Waker,
    slot_waker: Waker,
    fut_waker: Waker,
    p: spec_fn(T) -> bool,
)
    requires
        s.can_recv(reg),
    ensures
        ({
            let step = s.recv(reg, waker, slot_waker, fut_waker);
            held(step.state, p) + holds(taken(step.poll), p) == held(s, p)
        }),
{
    crate::model::lemma_first_cases(s.waiting, crate::model::registered_under(reg));
    crate::model::lemma_first_cases(s.sending, crate::model::offering());
    match crate::model::find(s.waiting, reg) {
        Some(i) => {
            lemma_messages_update(s.waiting, i, (slot_waker, s.waiting[i].1), p);
            lemma_messages_swap_removed(s.waiting, i, p);
        },
        None => {
            if let Some(i) = crate::model::first_occupied(s.sending) {
                lemma_messages_update(s.sending, i, (s.sending[i].0, Item::Empty), p);
            }
            if s.queue.len() > 0 {
                lemma_count_drop_first(s.queue, p);
            }
            lemma_messages_push(s.waiting, (slot_waker, Item::Empty), p);
        },
    }
}

/// A future that goes away takes nothing out of the channel but what its own slot holds.
pub proof fn law_cancel_conserves<T>(s: State<T>, waker: Option<Waker>, p: spec_fn(T) -> bool)
    ensures
        held(s.cancel_send(waker), p) + holds(in_slot(s.sending, waker), p) == held(s, p),
        held(s.cancel_recv(waker), p) + holds(in_slot(s.waiting, waker), p) == held(s, p),
{
    crate::model::lemma_first_cases(s.sending, crate::model::registered_under(waker));
    crate::model::lemma_first_cases(s.waiting, crate::model::registered_under(waker));
    if let Some(i) = crate::model::find(s.sending, waker) {
        lemma_messages_update(s.sending, i, (s.sending[i].0, Item::Cancelled), p);
    }
    if let Some(i) = crate::model::find(s.waiting, waker) {
        lemma_messages_update(s.waiting, i, (s.waiting[i].0, Item::Cancelled), p);
    }
}

/// How many messages went in and out of a channel.
pub struct Tally {
    /// Messages that sending futures handed over.
    pub sent: nat,
    /// Messages that sending futures were handed back.
    pub returned: nat,
    /// Messages that receiving futures returned.
    pub received: nat,
    /// Messages that were lost with futures that went away.
    pub withdrawn: nat,
}

/// What one operation in the state `s` adds to the tally of the messages that `p` describes.
pub open spec fn added<T>(s: State<T>, e: Event<T>, p: spec_fn(T) -> bool) -> Tally {
    let nothing = Tally { sent: 0, returned: 0, received: 0, withdrawn: 0 };
    match e {
        Event::PollSend { fut, waker, slot_waker, fut_waker } => Tally {
            sent: if crate::model::find(s.sending, fut.waker) is None {
                holds(fut.msg, p)
            } else {
                0
            },
            returned: holds(handed_back(s.send(fut, waker, slot_waker, fut_waker).poll), p),
            ..nothing
        },
        Event::PollRecv { reg, waker, slot_waker, fut_waker } => Tally {
            received: holds(taken(s.recv(reg, waker, slot_waker, fut_waker).poll), p),
            ..nothing
        },
        Event::CancelSend(waker) => Tally {
            withdrawn: holds(in_slot(s.sending, waker), p),
            ..nothing
        },
        Event::CancelRecv(waker) => Tally {
            withdrawn: holds(in_slot(s.waiting, waker), p),
            ..nothing
        },
        _ => nothing,
    }
}

/// How many of the messages that `p` describes `events` bring in and out, from the state `s` on.
pub open spec fn tally<T>(s: State<T>, events: Seq<Event<T>>, p: spec_fn(T) -> bool) -> Tally
    decreases events.len(),
{
    if events.len() == 0 {
        Tally { sent: 0, returned: 0, received: 0, withdrawn: 0 }
    } else {
        let before = tally(s, events.drop_last(), p);
        let last = added(crate::history::after(s, events.drop_last()), events.last(), p);
        Tally {
            sent: before.sent + last.sent,
            returned: before.returned + last.returned,
            received: before.received + last.received,
            withdrawn: before.withdrawn + last.withdrawn,
        }
    }
}

proof fn lemma_event_conserves<T>(s: State<T>, e: Event<T>, p: spec_fn(T) -> bool)
    requires
        e.enabled(s),
    ensures
        ({
            let t = added(s, e, p);
            held(s, p) + t.sent == t.returned + t.received + t.withdrawn + held(e.apply(s), p)
        }),
{
    match e {
        Event::PollSend { fut, waker, slot_waker, fut_waker } => {
            law_send_conserves(s, fut, waker, slot_waker, fut_waker, p);
        },
        Event::PollRecv { reg, waker, slot_waker, fut_waker } => {
            law_recv_conserves(s, reg, waker, slot_waker, fut_waker, p);
        },
        Event::CancelSend(waker) => {
            law_cancel_conserves(s, waker, p);
        },
        Event::CancelRecv(waker) => {
            law_cancel_conserves(s, waker, p);
        },
        _ => {},
    }
}

/// Over any history, with any number of senders and receivers, what was held and what was handed
/// over is what was handed back, what was received, what was lost with futures that went away, and
/// what is still held. This is so of any kind of messages, such as those equal to a given one.
pub proof fn law_history_conserves<T>(s: State<T>, events: Seq<Event<T>>, p: spec_fn(T) -> bool)
    requires
        crate::history::possible_from(s, events),
    ensures
        ({
            let t = tally(s, events, p);
            held(s, p) + t.sent == t.returned + t.received + t.withdrawn + held(
                crate::history::after(s, events),
                p,
            )
        }),
    decreases events.len(),
{
    if events.len() > 0 {
        law_history_conserves(s, events.drop_last(), p);
        lemma_event_conserves(
            crate::history::after(s, events.drop_last()),
            events.last(),
            p,
        );
    }
}

/// Messages that are received from a fresh channel were sent, and none is received more often than it
/// was sent, whatever the number of senders and receivers. One that was handed back, or was lost with
/// a future, or is still held, was not received as well.
pub proof fn law_received_was_sent<T>(
    length: usize,
    events: Seq<Event<T>>,
    p: spec_fn(T) -> bool,
)
    requires
        crate::history::possible(length, events),
    ensures
        ({
            let t = tally(State::initial(length), events, p);
            &&& t.sent == t.returned + t.received + t.withdrawn + held(
                crate::history::run(length, events),
                p,
            )
            &&& t.received <= t.sent
        }),
{
    let s = State::<T>::initial(length);
    law_history_conserves(s, events, p);
    assert(messages(s.sending) =~= Seq::<Option<T>>::empty());
    assert(messages(s.waiting) =~= Seq::<Option<T>>::empty());
}

proof fn lemma_tally_bounds<T>(s: State<T>, events: Seq<Event<T>>, p: spec_fn(T) -> bool)
    ensures
        tally(s, events, p).returned <= tally(s, events, every()).returned,
        tally(s, events, p).withdrawn <= tally(s, events, every()).withdrawn,
    decreases events.len(),
{
    if events.len() > 0 {
        lemma_tally_bounds(s, events.drop_last(), p);
    }
}

/// After a run in which as many messages were received as were sent, and none was handed back or lost
/// with a future, the channel holds none, and what was received is what was sent: each message as
/// often as it was sent.
pub proof fn law_balanced_run<T>(length: usize, events: Seq<Event<T>>, p: spec_fn(T) -> bool)
    requires
        crate::history::possible(length, events),
        ({
            let t = tally(State::<T>::initial(length), events, every());
            t.received == t.sent && t.returned == 0 && t.withdrawn == 0
        }),
    ensures
        held(crate::history::run(length, events), every()) == 0,
        tally(State::<T>::initial(length), events, p).received == tally(
            State::<T>::initial(length),
            events,
            p,
        ).sent,
{
    let s = crate::history::run(length, events);
    law_received_was_sent(length, events, every());
    law_received_was_sent(length, events, p);
    lemma_tally_bounds(State::<T>::initial(length), events, p);
    lemma_count_bounds(messages(s.sending), p);
    lemma_count_bounds(s.queue, p);
    lemma_count_bounds(messages(s.waiting), p);
}

/// A run does not get stuck with both sides waiting, nor with one side waiting for what the other
/// has already done. While a receiver asks, no sender offers, and all that was sent, not handed back
/// and not lost with a future has been received or stands in the slot of a receiver. While a sender
/// offers a message, fewer messages have been received than were sent.
pub proof fn law_not_stuck<T>(length: usize, events: Seq<Event<T>>)
    requires
        crate::history::possible(length, events),
        crate::history::orderly(length, events),
    ensures
        ({
            let s = crate::history::run(length, events);
            let t = tally(State::<T>::initial(length), events, every());
            &&& crate::laws::none_of(s.waiting, crate::model::asking()) || {
                &&& crate::laws::none_of(s.sending, crate::model::offering())
                &&& t.sent == t.returned + t.received + t.withdrawn + count(
                    messages(s.waiting),
                    every(),
                )
            }
            &&& forall|i: int|
                0 <= i < s.sending.len() && crate::model::message(#[trigger] s.sending[i]) is Some
                    ==> t.received < t.sent
        }),
{
    let s = crate::history::run(length, events);
    crate::laws::law_settled(length, events);
    law_received_was_sent(length, events, every());
    if !crate::laws::none_of(s.waiting, crate::model::asking()) {
        assert(!crate::laws::message_waits(s));
        assert forall|i: int| 0 <= i < messages(s.sending).len() implies (#[trigger] messages(
            s.sending,
        )[i]) is None by {
            assert(!crate::model::offering()(s.sending[i]));
        }
        lemma_count_none(messages(s.sending), every());
    }
    assert forall|i: int|
        0 <= i < s.sending.len() && crate::model::message(
            #[trigger] s.sending[i],
        ) is Some implies tally(State::<T>::initial(length), events, every()).received < tally(
        State::<T>::initial(length),
        events,
        every(),
    ).sent by {
        lemma_count_at(messages(s.sending), i);
    }
}

/// The operation can take place once all senders are gone: no sender is added or goes away, and no
/// sending future is polled.
pub open spec fn without_senders<T>(e: Event<T>) -> bool {
    !(e is PollSend) && !(e is AddSender) && !(e is RemoveSender)
}

/// Once all senders are gone, receiving comes to an end: however often and by whomever the channel is
/// polled for messages, each poll resolves, and at most as many of them return a message as the
/// channel held.
pub proof fn law_receiving_ends<T>(s: State<T>, events: Seq<Event<T>>)
    requires
        s.sender_count == 0,
        crate::history::possible_from(s, events),
        forall|i: int| 0 <= i < events.len() ==> without_senders(#[trigger] events[i]),
    ensures
        forall|i: int|
            0 <= i < events.len() && events[i] is PollRecv ==> ({
                let at = crate::history::after(s, #[trigger] events.take(i));
                at.recv(
                    events[i]->PollRecv_reg,
                    events[i]->PollRecv_waker,
                    events[i]->PollRecv_slot_waker,
                    events[i]->PollRecv_fut_waker,
                ).poll is Ready
            }),
        tally(s, events, every()).received <= held(s, every()),
{
    law_history_conserves(s, events, every());
    lemma_without_senders(s, events);
    assert forall|i: int| 0 <= i < events.len() && events[i] is PollRecv implies ({
        let at = crate::history::after(s, #[trigger] events.take(i));
        at.recv(
            events[i]->PollRecv_reg,
            events[i]->PollRecv_waker,
            events[i]->PollRecv_slot_waker,
            events[i]->PollRecv_fut_waker,
        ).poll is Ready
    }) by {
        lemma_without_senders(s, events.take(i));
    }
}

proof fn lemma_without_senders<T>(s: State<T>, events: Seq<Event<T>>)
    requires
        s.sender_count == 0,
        forall|i: int| 0 <= i < events.len() ==> without_senders(#[trigger] events[i]),
    ensures
        crate::history::after(s, events).sender_count == 0,
        tally(s, events, every()).sent == 0,
    decreases events.len(),
{
    if events.len() > 0 {
        lemma_without_senders(s, events.drop_last());
        assert(without_senders(events.last()));
    }
}

/// A run in which `total` messages are to be sent and `total` are to be received does not get stuck.
/// Where every sender that has messages left is blocked, offering one, and every receiver that has
/// messages left to receive is blocked, asking for one, there is nothing left to do: all messages were
/// sent and received, and no one is blocked.
pub proof fn law_no_deadlock<T>(length: usize, events: Seq<Event<T>>, total: nat)
    requires
        crate::history::possible(length, events),
        crate::history::orderly(length, events),
        ({
            let s = crate::history::run(length, events);
            let t = tally(State::<T>::initial(length), events, every());
            // Nothing was handed back or lost.
            &&& t.returned == 0 && t.withdrawn == 0
            // A blocked receiver has a message left to receive.
            &&& t.sent <= total && t.received + s.waiting.len() <= total
            // Those that have anything left to do are blocked.
            &&& forall|i: int|
                0 <= i < s.sending.len() ==> crate::model::message(
                    #[trigger] s.sending[i],
                ) is Some
            &&& forall|i: int| 0 <= i < s.waiting.len() ==> (#[trigger] s.waiting[i]).1 is Empty
            &&& t.sent < total ==> s.sending.len() > 0
            &&& t.received < total ==> s.waiting.len() > 0
        }),
    ensures
        ({
            let s = crate::history::run(length, events);
            let t = tally(State::<T>::initial(length), events, every());
            &&& t.sent == total
            &&& t.received == total
            &&& s.sending.len() == 0
            &&& s.waiting.len() == 0
            &&& s.queue.len() == 0
        }),
{
    let s = crate::history::run(length, events);
    law_not_stuck(length, events);
    law_received_was_sent(length, events, every());
    crate::laws::law_settled(length, events);
    if s.waiting.len() > 0 {
        assert(crate::model::asking()(s.waiting[0]));
        if s.sending.len() > 0 {
            assert(crate::model::offering()(s.sending[0]));
        }
        assert forall|i: int| 0 <= i < messages(s.waiting).len() implies (#[trigger] messages(
            s.waiting,
        )[i]) is None by {
            assert(s.waiting[i].1 is Empty);
        }
        lemma_count_none(messages(s.waiting), every());
    } else if s.sending.len() > 0 {
        assert(crate::model::message(s.sending[0]) is Some);
    }
    if s.queue.len() > 0 {
        lemma_count_at(s.queue, 0);
    }
}

} // verus!
