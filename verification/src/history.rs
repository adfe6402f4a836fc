//! The histories of a channel, and the states that they lead to.
use crate::model::{SendState, State};
use std::task::Waker;
use vstd::prelude::*;

verus! {

/// One operation on a channel.
pub enum Event<T> {
    /// A sending future is polled by the task of `waker`.
    PollSend { fut: SendState<T>, waker: Waker, slot_waker: Waker, fut_waker: Waker },
    /// The receiving future that is registered under `reg` is polled by the task of `waker`.
    PollRecv { reg: Option<Waker>, waker: Waker, slot_waker: Waker, fut_waker: Waker },
    /// A sending future that is registered under this waker goes away.
    CancelSend(Option<Waker>),
    /// A receiving future that is registered under this waker goes away.
    CancelRecv(Option<Waker>),
    AddSender,
    RemoveSender,
    AddReceiver,
    RemoveReceiver,
}

impl<T> Event<T> {
    /// Whether the operation can take place in the state `s`.
    pub open spec fn enabled(self, s: State<T>) -> bool {
        match self {
            Event::PollSend { fut, waker, slot_waker, fut_waker } => {
                &&& s.can_send(fut)
                &&& cloned(waker, slot_waker)
                &&& cloned(slot_waker, fut_waker)
            },
            Event::PollRecv { reg, waker, slot_waker, fut_waker } => {
                &&& s.can_recv(reg)
                &&& cloned(waker, slot_waker)
                &&& cloned(waker, fut_waker) || cloned(slot_waker, fut_waker)
            },
            _ => true,
        }
    }

    /// The state that the operation leads to.
    pub open spec fn apply(self, s: State<T>) -> State<T> {
        match self {
            Event::PollSend { fut, waker, slot_waker, fut_waker } => s.send(
                fut,
                waker,
                slot_waker,
                fut_waker,
            ).state,
            Event::PollRecv { reg, waker, slot_waker, fut_waker } => s.recv(
                reg,
                waker,
                slot_waker,
                fut_waker,
            ).state,
            Event::CancelSend(waker) => s.cancel_send(waker),
            Event::CancelRecv(waker) => s.cancel_recv(waker),
            Event::AddSender => s.add_sender(),
            Event::RemoveSender => s.remove_sender(),
            Event::AddReceiver => s.add_receiver(),
            Event::RemoveReceiver => s.remove_receiver(),
        }
    }

    /// Whether a sending future that has no slot still has its message. It does not if it is polled
    /// again after it resolved, or if its slot cannot be found because the clone of a waker does not
    /// compare equal to that waker.
    pub open spec fn carries_message(self, s: State<T>) -> bool {
        match self {
            Event::PollSend { fut, .. } => crate::model::find(s.sending, fut.waker) is None
                ==> fut.msg is Some,
            _ => true,
        }
    }
}

/// The state that `events` lead to from the state `s`.
pub open spec fn after<T>(s: State<T>, events: Seq<Event<T>>) -> State<T>
    decreases events.len(),
{
    if events.len() == 0 {
        s
    } else {
        events.last().apply(after(s, events.drop_last()))
    }
}

/// Each of `events` can take place after those before it, the first one in the state `s`.
pub open spec fn possible_from<T>(s: State<T>, events: Seq<Event<T>>) -> bool
    decreases events.len(),
{
    events.len() > 0 ==> {
        &&& possible_from(s, events.drop_last())
        &&& events.last().enabled(after(s, events.drop_last()))
    }
}

/// The state of a channel with room for `length` messages after `events`.
pub open spec fn run<T>(length: usize, events: Seq<Event<T>>) -> State<T> {
    after(State::initial(length), events)
}

/// Each of `events` can take place after those before it, the first one on a fresh channel.
pub open spec fn possible<T>(length: usize, events: Seq<Event<T>>) -> bool {
    possible_from(State::initial(length), events)
}

/// In none of `events` a sending future that has lost its message is taken for a fresh one.
pub open spec fn orderly<T>(length: usize, events: Seq<Event<T>>) -> bool
    decreases events.len(),
{
    events.len() > 0 ==> {
        &&& orderly(length, events.drop_last())
        &&& events.last().carries_message(run(length, events.drop_last()))
    }
}

/// A state that a channel with room for `length` messages can come to.
pub open spec fn reachable<T>(length: usize, s: State<T>) -> bool {
    exists|events: Seq<Event<T>>| possible(length, events) && #[trigger] run(length, events) == s
}

/// A fresh channel is in a reachable state.
pub proof fn lemma_initial_reachable<T>(length: usize)
    ensures
        reachable(length, State::<T>::initial(length)),
{
    let events = Seq::<Event<T>>::empty();
    assert(possible(length, events));
    assert(run(length, events) == State::<T>::initial(length));
}

/// An operation that can take place leads from a reachable state to a reachable state.
pub proof fn lemma_next_reachable<T>(length: usize, s: State<T>, e: Event<T>)
    requires
        reachable(length, s),
        e.enabled(s),
    ensures
        reachable(length, e.apply(s)),
{
    let events = choose|events: Seq<Event<T>>|
        possible(length, events) && #[trigger] run(length, events) == s;
    let more = events.push(e);
    assert(more.drop_last() =~= events);
    assert(possible(length, more));
    assert(run(length, more) == e.apply(s));
}

} // verus!
