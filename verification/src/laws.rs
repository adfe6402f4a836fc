//! What holds of a channel as a whole.
use crate::error::{RecvError, SendError};
use crate::history::Event;
use crate::model::{SendState, Slot, State};
use std::task::{Poll, Waker};
use vstd::prelude::*;

verus! {

/// No slot of `slots` is among those that `p` describes.
pub open spec fn none_of<T>(slots: Seq<Slot<T>>, p: spec_fn(Slot<T>) -> bool) -> bool {
    forall|i: int| 0 <= i < slots.len() ==> !p(#[trigger] slots[i])
}

/// A message waits to be received: a registered sender offers one, or the queue holds one.
pub open spec fn message_waits<T>(s: State<T>) -> bool {
    ||| !none_of(s.sending, crate::model::offering())
    ||| s.queue.len() > 0
}

/// What holds in every state of a channel with room for `length` messages.
pub open spec fn bounds_kept<T>(length: usize, s: State<T>) -> bool {
    &&& s.length == length
    &&& s.queue.len() <= length
    &&& s.nsending == s.sending.len() % 256
    &&& s.nwaiting == s.waiting.len() % 256
    &&& s.queue.len() < length ==> none_of(s.sending, crate::model::offering())
    &&& none_of(s.sending, crate::model::offering()) || none_of(s.waiting, crate::model::asking())
}

/// What holds in addition as long as no sending future has lost its message: messages are where
/// they should be, and none waits while a receiver asks for one.
pub open spec fn settled<T>(s: State<T>) -> bool {
    &&& forall|i: int| 0 <= i < s.queue.len() ==> (#[trigger] s.queue[i]) is Some
    &&& forall|i: int|
        0 <= i < s.waiting.len() ==> ((#[trigger] s.waiting[i]).1 is Occupied
            ==> crate::model::message(s.waiting[i]) is Some)
    &&& message_waits(s) ==> none_of(s.waiting, crate::model::asking())
}

/// What the searches of an operation find.
pub(crate) proof fn lemma_searches<T>(s: State<T>, e: Event<T>)
    ensures
        match e {
            Event::PollSend { fut, .. } => {
                &&& crate::model::finds(s.sending, crate::model::registered_under(fut.waker))
                &&& crate::model::finds(s.waiting, crate::model::asking())
            },
            Event::PollRecv { reg, .. } => {
                &&& crate::model::finds(s.waiting, crate::model::registered_under(reg))
                &&& crate::model::finds(s.sending, crate::model::offering())
            },
            Event::CancelSend(waker) => crate::model::finds(
                s.sending,
                crate::model::registered_under(waker),
            ),
            Event::CancelRecv(waker) => crate::model::finds(
                s.waiting,
                crate::model::registered_under(waker),
            ),
            _ => true,
        },
{
    match e {
        Event::PollSend { fut, waker, slot_waker, fut_waker } => {
            crate::model::lemma_first_cases(s.sending, crate::model::registered_under(fut.waker));
            crate::model::lemma_first_cases(s.waiting, crate::model::asking());
        },
        Event::PollRecv { reg, waker, slot_waker, fut_waker } => {
            crate::model::lemma_first_cases(s.waiting, crate::model::registered_under(reg));
            crate::model::lemma_first_cases(s.sending, crate::model::offering());
        },
        Event::CancelSend(waker) => {
            crate::model::lemma_first_cases(s.sending, crate::model::registered_under(waker));
        },
        Event::CancelRecv(waker) => {
            crate::model::lemma_first_cases(s.waiting, crate::model::registered_under(waker));
        },
        _ => {},
    }
}

proof fn lemma_event_keeps_bounds<T>(length: usize, s: State<T>, e: Event<T>)
    requires
        bounds_kept(length, s),
    ensures
        bounds_kept(length, e.apply(s)),
{
    lemma_searches(s, e);
}

pub(crate) proof fn lemma_event_keeps_settled<T>(s: State<T>, e: Event<T>)
    requires
        settled(s),
        e.carries_message(s),
    ensures
        settled(e.apply(s)),
{
    lemma_searches(s, e);
}

/// In every state that a channel with room for `length` messages can come to, the queue holds at most
/// `length` messages, the two small counters count the registered futures modulo 256, and a sender
/// only offers its message from a slot while the queue is full and no receiver asks for one.
pub proof fn law_bounds<T>(length: usize, s: State<T>)
    requires
        crate::history::reachable(length, s),
    ensures
        bounds_kept(length, s),
{
    let events = choose|events: Seq<Event<T>>|
        crate::history::possible(length, events) && #[trigger] crate::history::run(length, events)
            == s;
    lemma_run_keeps_bounds(length, events);
}

proof fn lemma_run_keeps_bounds<T>(length: usize, events: Seq<Event<T>>)
    ensures
        bounds_kept(length, crate::history::run(length, events)),
    decreases events.len(),
{
    if events.len() > 0 {
        let before = crate::history::run(length, events.drop_last());
        lemma_run_keeps_bounds(length, events.drop_last());
        lemma_event_keeps_bounds(length, before, events.last());
    }
}

/// A channel without room never queues a message: it only hands messages from senders to receivers.
pub proof fn law_no_room<T>(s: State<T>)
    requires
        crate::history::reachable(0, s),
    ensures
        s.queue.len() == 0,
{
    law_bounds(0, s);
}

/// As long as no sending future has lost its message, no message waits while a registered receiver
/// asks for one, and all places for messages that are in use hold one.
pub proof fn law_settled<T>(length: usize, events: Seq<Event<T>>)
    requires
        crate::history::orderly(length, events),
    ensures
        settled(crate::history::run(length, events)),
    decreases events.len(),
{
    if events.len() > 0 {
        let before = crate::history::run(length, events.drop_last());
        law_settled(length, events.drop_last());
        lemma_event_keeps_settled(before, events.last());
    }
}

/// A receiver that is polled while it is not registered, or is registered and still asks for a
/// message, is told that the channel is disconnected exactly if all senders were dropped and no
/// messages are waiting in the channel.
pub proof fn law_disconnected<T>(
    s: State<T>,
    reg: Option<Waker>,
    waker: Waker,
    slot_waker: Waker,
    fut_waker: Waker,
)
    requires
        settled(s),
        s.can_recv(reg),
        crate::model::find(s.waiting, reg) matches Some(i) ==> s.waiting[i].1 is Empty,
    ensures
        s.recv(reg, waker, slot_waker, fut_waker).poll == Poll::<Result<T, RecvError>>::Ready(
            Err(RecvError::Disconnected),
        ) <==> s.sender_count == 0 && !message_waits(s),
{
    crate::model::lemma_first_cases(s.waiting, crate::model::registered_under(reg));
    crate::model::lemma_first_cases(s.sending, crate::model::offering());
}

/// Messages that were accepted before the last sender was dropped can still be received.
pub proof fn law_received_after_disconnect<T>(
    s: State<T>,
    waker: Waker,
    slot_waker: Waker,
    fut_waker: Waker,
)
    requires
        settled(s),
        s.can_recv(None),
        message_waits(s),
    ensures
        s.recv(None, waker, slot_waker, fut_waker).poll matches Poll::Ready(Ok(_)),
        s.remove_sender().recv(None, waker, slot_waker, fut_waker).poll == s.recv(
            None,
            waker,
            slot_waker,
            fut_waker,
        ).poll,
{
    crate::model::lemma_first_cases(s.waiting, crate::model::registered_under::<T>(None));
    crate::model::lemma_first_cases(s.sending, crate::model::offering());
}

/// A sending future without a slot gets its message back if all receivers are gone, and nothing else
/// happens.
pub proof fn law_refused<T>(
    s: State<T>,
    msg: T,
    reg: Option<Waker>,
    waker: Waker,
    slot_waker: Waker,
    fut_waker: Waker,
)
    requires
        s.receiver_count == 0,
        crate::model::find(s.sending, reg) is None,
    ensures
        ({
            let step = s.send(SendState { msg: Some(msg), waker: reg }, waker, slot_waker, fut_waker);
            &&& step.poll == Poll::<Result<(), SendError<T>>>::Ready(Err(SendError(msg)))
            &&& step.state == s
            &&& step.wake is None
        }),
{
}

/// A sender never waits on an unbounded channel that has a receiver.
pub proof fn law_unbounded_never_waits<T>(
    s: State<T>,
    msg: T,
    waker: Waker,
    slot_waker: Waker,
    fut_waker: Waker,
)
    requires
        s.length == usize::MAX,
        s.queue.len() < usize::MAX,
        s.receiver_count > 0,
    ensures
        s.send(SendState { msg: Some(msg), waker: None }, waker, slot_waker, fut_waker).poll
            == Poll::<Result<(), SendError<T>>>::Ready(Ok(())),
{
    crate::model::lemma_first_cases(s.sending, crate::model::registered_under::<T>(None));
}

/// A receiver never waits once all senders are gone: each of its polls resolves.
pub proof fn law_never_waits_without_senders<T>(
    s: State<T>,
    reg: Option<Waker>,
    waker: Waker,
    slot_waker: Waker,
    fut_waker: Waker,
)
    requires
        s.sender_count == 0,
    ensures
        s.recv(reg, waker, slot_waker, fut_waker).poll is Ready,
{
}

/// A sender without a slot has to wait exactly if there is a receiver, none of them asks for a
/// message, and the queue is full.
pub proof fn law_waits_when_full<T>(
    s: State<T>,
    msg: T,
    waker: Waker,
    slot_waker: Waker,
    fut_waker: Waker,
)
    ensures
        s.send(SendState { msg: Some(msg), waker: None }, waker, slot_waker, fut_waker).poll
            is Pending <==> {
            &&& s.receiver_count > 0
            &&& none_of(s.waiting, crate::model::asking())
            &&& s.queue.len() >= s.length
        },
{
    crate::model::lemma_first_cases(s.sending, crate::model::registered_under::<T>(None));
    crate::model::lemma_first_cases(s.waiting, crate::model::asking());
}

} // verus!
