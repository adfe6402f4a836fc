//! What becomes of one message, from the first poll of its sending future to the last.
use crate::channel::Item;
use crate::error::SendError;
use crate::history::Event;
use crate::model::{SendState, State};
use std::task::{Poll, Waker};
use vstd::prelude::*;

verus! {

/// A turn in the life of a sending future: it is polled by the task of `waker`, or something else
/// happens to the channel.
pub enum Turn<T> {
    Poll { waker: Waker, slot_waker: Waker, fut_waker: Waker },
    Other(Event<T>),
}

/// The life of a sending future up to some turn.
pub struct Life<T> {
    /// The state of the channel.
    pub state: State<T>,
    /// The state of the future.
    pub fut: SendState<T>,
    /// What the future has resolved to.
    pub answer: Option<Result<(), SendError<T>>>,
    /// The message was queued, handed to a waiting receiver, or taken by a receiver.
    pub accepted: bool,
    /// A poll found all receivers gone before the message was accepted.
    pub closed: bool,
}

impl<T> Life<T> {
    /// A future that sends `msg` into a channel in the state `s`, before its first poll.
    pub open spec fn new(s: State<T>, msg: T) -> Self {
        Life {
            state: s,
            fut: SendState { msg: Some(msg), waker: None },
            answer: None,
            accepted: false,
            closed: false,
        }
    }

    /// The slot of the future.
    pub open spec fn slot(self) -> Option<int> {
        crate::model::find(self.state.sending, self.fut.waker)
    }

    /// The life one turn later. A future that has resolved is not polled again.
    pub open spec fn turn(self, turn: Turn<T>) -> Self {
        match turn {
            Turn::Poll { waker, slot_waker, fut_waker } => if self.answer is Some {
                self
            } else {
                let step = self.state.send(self.fut, waker, slot_waker, fut_waker);
                Life {
                    state: step.state,
                    fut: step.fut,
                    answer: match step.poll {
                        Poll::Ready(answer) => Some(answer),
                        Poll::Pending => None,
                    },
                    accepted: self.accepted || (self.slot() is None && step.poll == Poll::<
                        Result<(), SendError<T>>,
                    >::Ready(Ok(()))),
                    closed: self.closed || (!self.accepted && self.state.receiver_count == 0),
                }
            },
            Turn::Other(event) => Life {
                state: event.apply(self.state),
                accepted: self.accepted || (self.answer is None && self.slot() is Some
                    && self.taken_by(event)),
                ..self
            },
        }
    }

    /// The operation is a poll of a receiver that takes the message out of the slot of the future.
    pub open spec fn taken_by(self, event: Event<T>) -> bool {
        match event {
            Event::PollRecv { reg, .. } => {
                &&& crate::model::find(self.state.waiting, reg) is None
                &&& crate::model::first_occupied(self.state.sending) == self.slot()
            },
            _ => false,
        }
    }

    /// In this turn the future is not mistaken for another one: its wakers wake the same task, and
    /// no other slot holds a waker that does.
    pub open spec fn undisturbed(self, turn: Turn<T>) -> bool {
        self.answer is None ==> match turn {
            Turn::Poll { slot_waker, fut_waker, .. } => {
                &&& crate::task::wakes_same(slot_waker, fut_waker)
                &&& forall|j: int|
                    0 <= j < self.state.sending.len() && self.slot() != Some(j)
                        ==> !crate::task::wakes_same((#[trigger] self.state.sending[j]).0, fut_waker)
            },
            Turn::Other(event) => {
                &&& event.enabled(self.state)
                &&& match event {
                    Event::PollSend { fut, slot_waker, .. } => {
                        &&& self.slot() is Some ==> crate::model::find(
                            self.state.sending,
                            fut.waker,
                        ) != self.slot()
                        &&& self.fut.waker matches Some(w) ==> !crate::task::wakes_same(
                            slot_waker,
                            w,
                        )
                    },
                    Event::CancelSend(waker) => self.slot() is Some ==> crate::model::find(
                        self.state.sending,
                        waker,
                    ) != self.slot(),
                    _ => true,
                }
            },
        }
    }

    /// `i` is the one slot whose waker wakes the same task as `w`.
    spec fn owns(self, w: Waker, i: int) -> bool {
        &&& 0 <= i < self.state.sending.len()
        &&& crate::task::wakes_same(self.state.sending[i].0, w)
        &&& forall|j: int|
            0 <= j < self.state.sending.len() && j != i ==> !crate::task::wakes_same(
                (#[trigger] self.state.sending[j]).0,
                w,
            )
    }

    /// What the slot of the future holds.
    spec fn item(self, msg: T) -> Item<T> {
        if self.accepted {
            Item::Empty
        } else {
            Item::Occupied(Some(msg))
        }
    }

    /// What holds throughout the life of a future that sends `msg`.
    spec fn consistent(self, msg: T) -> bool {
        match self.answer {
            Some(Ok(())) => self.accepted && !self.closed,
            Some(Err(SendError(m))) => m == msg && self.closed && !self.accepted,
            None => !self.closed && match self.fut.waker {
                None => self.fut.msg == Some(msg) && !self.accepted,
                Some(w) => exists|i: int| #[trigger]
                    self.owns(w, i) && self.state.sending[i].1 == self.item(msg),
            },
        }
    }
}

proof fn lemma_owned_slot<T>(l: Life<T>, w: Waker, i: int)
    requires
        l.fut.waker == Some(w),
        l.owns(w, i),
    ensures
        l.slot() == Some(i),
{
    crate::model::lemma_first(
        l.state.sending,
        crate::model::registered_under(l.fut.waker),
        i,
    );
}

proof fn lemma_poll_consistent<T>(l: Life<T>, msg: T, turn: Turn<T>)
    requires
        l.consistent(msg),
        l.undisturbed(turn),
        turn is Poll,
    ensures
        l.turn(turn).consistent(msg),
{
    let l2 = l.turn(turn);
    if l.answer is None {
        crate::model::lemma_first_cases(
            l.state.sending,
            crate::model::registered_under(l.fut.waker),
        );
        match l.fut.waker {
            None => {
                if l2.answer is None {
                    let i = l.state.sending.len() as int;
                    assert(l2.owns(l2.fut.waker->0, i));
                }
            },
            Some(w) => {
                let i = choose|i: int| #[trigger]
                    l.owns(w, i) && l.state.sending[i].1 == l.item(msg);
                lemma_owned_slot(l, w, i);
                if l2.answer is None {
                    assert(l2.owns(l2.fut.waker->0, i));
                }
            },
        }
    }
}

proof fn lemma_other_consistent<T>(l: Life<T>, msg: T, event: Event<T>)
    requires
        l.consistent(msg),
        l.undisturbed(Turn::Other(event)),
    ensures
        l.turn(Turn::Other(event)).consistent(msg),
{
    let l2 = l.turn(Turn::Other(event));
    let sending = l.state.sending;
    crate::model::lemma_first_cases(sending, crate::model::registered_under(l.fut.waker));
    if l.answer is None && l.fut.waker is Some {
        let w = l.fut.waker->0;
        let i = choose|i: int| #[trigger] l.owns(w, i) && sending[i].1 == l.item(msg);
        lemma_owned_slot(l, w, i);
        match event {
            Event::PollSend { fut, .. } => {
                crate::model::lemma_first_cases(
                    sending,
                    crate::model::registered_under(fut.waker),
                );
                let moved = match crate::model::find(sending, fut.waker) {
                    Some(j) => if !(sending[j].1 is Occupied) && i == sending.len() - 1 {
                        j
                    } else {
                        i
                    },
                    None => i,
                };
                assert(l2.owns(w, moved));
                assert(l2.state.sending[moved].1 == l2.item(msg));
            },
            Event::PollRecv { reg, .. } => {
                crate::model::lemma_first_cases(sending, crate::model::offering());
                crate::model::lemma_first_cases(
                    l.state.waiting,
                    crate::model::registered_under(reg),
                );
                assert(l2.owns(w, i));
                assert(l2.state.sending[i].1 == l2.item(msg));
            },
            Event::CancelSend(waker) => {
                crate::model::lemma_first_cases(sending, crate::model::registered_under(waker));
                assert(l2.owns(w, i));
            },
            _ => {
                assert(l2.owns(w, i));
            },
        }
    }
}

/// The life of a future that sends `msg` into a channel in the state `s`, after `turns`.
pub open spec fn life<T>(s: State<T>, msg: T, turns: Seq<Turn<T>>) -> Life<T>
    decreases turns.len(),
{
    if turns.len() == 0 {
        Life::new(s, msg)
    } else {
        life(s, msg, turns.drop_last()).turn(turns.last())
    }
}

/// In none of `turns` the future is mistaken for another one.
pub open spec fn undisturbed<T>(s: State<T>, msg: T, turns: Seq<Turn<T>>) -> bool
    decreases turns.len(),
{
    turns.len() > 0 ==> {
        &&& undisturbed(s, msg, turns.drop_last())
        &&& life(s, msg, turns.drop_last()).undisturbed(turns.last())
    }
}

proof fn lemma_life_consistent<T>(s: State<T>, msg: T, turns: Seq<Turn<T>>)
    requires
        undisturbed(s, msg, turns),
    ensures
        life(s, msg, turns).consistent(msg),
    decreases turns.len(),
{
    if turns.len() > 0 {
        let before = life(s, msg, turns.drop_last());
        lemma_life_consistent(s, msg, turns.drop_last());
        match turns.last() {
            Turn::Poll { .. } => lemma_poll_consistent(before, msg, turns.last()),
            Turn::Other(event) => lemma_other_consistent(before, msg, event),
        }
    }
}

/// A send is refused exactly if a poll finds all receivers gone before the message is accepted. It is
/// then handed the very message back, which nobody has received. Otherwise it resolves to success, and
/// only after its message was queued, handed to a waiting receiver, or taken by one. This is so
/// whatever else happens to the channel in the meantime, as long as the future is not mistaken for
/// another one.
pub proof fn law_send_life<T>(s: State<T>, msg: T, turns: Seq<Turn<T>>)
    requires
        undisturbed(s, msg, turns),
    ensures
        ({
            let l = life(s, msg, turns);
            &&& l.answer == Some(Err::<(), SendError<T>>(SendError(msg))) <==> l.closed
            &&& l.answer matches Some(Err(SendError(m))) ==> m == msg && !l.accepted
            &&& l.answer == Some(Ok::<(), SendError<T>>(())) ==> l.accepted
        }),
{
    lemma_life_consistent(s, msg, turns);
}

/// What the next poll of a send that has not resolved leads to: success if the message was accepted
/// since, the message if all receivers are gone, and else success or waiting on the first poll and
/// waiting on later ones.
pub proof fn law_next_poll<T>(
    s: State<T>,
    msg: T,
    turns: Seq<Turn<T>>,
    waker: Waker,
    slot_waker: Waker,
    fut_waker: Waker,
)
    requires
        undisturbed(s, msg, turns),
        life(s, msg, turns).answer is None,
    ensures
        ({
            let l = life(s, msg, turns);
            let poll = l.state.send(l.fut, waker, slot_waker, fut_waker).poll;
            if l.accepted {
                poll == Poll::<Result<(), SendError<T>>>::Ready(Ok(()))
            } else if l.state.receiver_count == 0 {
                poll == Poll::<Result<(), SendError<T>>>::Ready(Err(SendError(msg)))
            } else {
                ||| poll is Pending
                ||| l.fut.waker is None && poll == Poll::<Result<(), SendError<T>>>::Ready(Ok(()))
            }
        }),
{
    let l = life(s, msg, turns);
    lemma_life_consistent(s, msg, turns);
    crate::model::lemma_first_cases(l.state.sending, crate::model::registered_under(l.fut.waker));
    if let Some(w) = l.fut.waker {
        let i = choose|i: int| #[trigger] l.owns(w, i) && l.state.sending[i].1 == l.item(msg);
        lemma_owned_slot(l, w, i);
    }
}

/// A poll of a send that has not resolved finds its message wherever it has to hand it back.
pub proof fn lemma_can_send<T>(s: State<T>, msg: T, turns: Seq<Turn<T>>)
    requires
        undisturbed(s, msg, turns),
        life(s, msg, turns).answer is None,
    ensures
        life(s, msg, turns).state.can_send(life(s, msg, turns).fut),
{
    let l = life(s, msg, turns);
    lemma_life_consistent(s, msg, turns);
    crate::model::lemma_first_cases(l.state.sending, crate::model::registered_under(l.fut.waker));
    if let Some(w) = l.fut.waker {
        let i = choose|i: int| #[trigger] l.owns(w, i) && l.state.sending[i].1 == l.item(msg);
        lemma_owned_slot(l, w, i);
    }
}

/// `mine` tells the wakers of one task from all others: a waker that wakes the same task as one of them
/// is one of them.
pub open spec fn tells_apart(mine: spec_fn(Waker) -> bool) -> bool {
    forall|a: Waker, b: Waker| #[trigger] crate::task::wakes_same(a, b) ==> (mine(a) <==> mine(b))
}

/// No slot holds one of the wakers that `mine` describes.
pub open spec fn in_no_slot<T>(s: State<T>, mine: spec_fn(Waker) -> bool) -> bool {
    forall|j: int| 0 <= j < s.sending.len() ==> !mine((#[trigger] s.sending[j]).0)
}

/// In this turn the future is polled by its own task, or something else happens to the channel that
/// no sending future of that task has a part in.
pub open spec fn by_own_task<T>(turn: Turn<T>, mine: spec_fn(Waker) -> bool) -> bool {
    match turn {
        Turn::Poll { slot_waker, fut_waker, .. } => {
            &&& mine(slot_waker)
            &&& mine(fut_waker)
            &&& crate::task::wakes_same(slot_waker, fut_waker)
        },
        Turn::Other(Event::PollSend { fut, slot_waker, .. }) => {
            &&& !mine(slot_waker)
            &&& fut.waker matches Some(w) ==> !mine(w)
        },
        Turn::Other(Event::CancelSend(waker)) => waker matches Some(w) ==> !mine(w),
        _ => true,
    }
}

/// Each of `turns` is possible after those before it.
pub open spec fn possible<T>(s: State<T>, msg: T, turns: Seq<Turn<T>>) -> bool
    decreases turns.len(),
{
    turns.len() > 0 ==> {
        &&& possible(s, msg, turns.drop_last())
        &&& turns.last() matches Turn::Other(event) ==> event.enabled(
            life(s, msg, turns.drop_last()).state,
        )
    }
}

impl<T> Life<T> {
    /// As long as the future has not resolved, it is the only one of its task.
    spec fn alone(self, mine: spec_fn(Waker) -> bool) -> bool {
        self.answer is None ==> {
            &&& self.fut.waker matches Some(w) ==> mine(w)
            &&& forall|j: int|
                0 <= j < self.state.sending.len() && mine((#[trigger] self.state.sending[j]).0)
                    ==> self.slot() == Some(j)
        }
    }
}

proof fn lemma_alone_undisturbed<T>(l: Life<T>, turn: Turn<T>, mine: spec_fn(Waker) -> bool)
    requires
        tells_apart(mine),
        l.alone(mine),
        by_own_task(turn, mine),
        turn matches Turn::Other(event) ==> event.enabled(l.state),
    ensures
        l.undisturbed(turn),
{
    if l.answer is None {
        crate::model::lemma_first_cases(
            l.state.sending,
            crate::model::registered_under(l.fut.waker),
        );
        match turn {
            Turn::Other(Event::PollSend { fut, .. }) => {
                crate::model::lemma_first_cases(
                    l.state.sending,
                    crate::model::registered_under(fut.waker),
                );
            },
            Turn::Other(Event::CancelSend(waker)) => {
                crate::model::lemma_first_cases(
                    l.state.sending,
                    crate::model::registered_under(waker),
                );
            },
            _ => {},
        }
    }
}

proof fn lemma_stays_alone<T>(
    l: Life<T>,
    msg: T,
    turn: Turn<T>,
    mine: spec_fn(Waker) -> bool,
)
    requires
        tells_apart(mine),
        l.alone(mine),
        l.consistent(msg),
        l.undisturbed(turn),
        by_own_task(turn, mine),
    ensures
        l.turn(turn).alone(mine),
{
    let l2 = l.turn(turn);
    match turn {
        Turn::Poll { .. } => lemma_poll_consistent(l, msg, turn),
        Turn::Other(event) => lemma_other_consistent(l, msg, event),
    }
    if l2.answer is None {
        let sending = l.state.sending;
        crate::model::lemma_first_cases(sending, crate::model::registered_under(l.fut.waker));
        crate::model::lemma_first_cases(sending, crate::model::offering());
        if l2.fut.waker is Some {
            let w = l2.fut.waker->0;
            let i = choose|i: int| #[trigger]
                l2.owns(w, i) && l2.state.sending[i].1 == l2.item(msg);
            lemma_owned_slot(l2, w, i);
        }
        match turn {
            Turn::Other(Event::PollSend { fut, .. }) => {
                crate::model::lemma_first_cases(
                    sending,
                    crate::model::registered_under(fut.waker),
                );
            },
            Turn::Other(Event::CancelSend(waker)) => {
                crate::model::lemma_first_cases(sending, crate::model::registered_under(waker));
            },
            _ => {},
        }
    }
}

/// A future that is the only send of its task is not mistaken for another one.
pub proof fn lemma_own_task<T>(s: State<T>, msg: T, turns: Seq<Turn<T>>, mine: spec_fn(Waker) -> bool)
    requires
        tells_apart(mine),
        in_no_slot(s, mine),
        possible(s, msg, turns),
        forall|k: int| 0 <= k < turns.len() ==> by_own_task(#[trigger] turns[k], mine),
    ensures
        undisturbed(s, msg, turns),
{
    lemma_alone_throughout(s, msg, turns, mine);
}

proof fn lemma_alone_throughout<T>(
    s: State<T>,
    msg: T,
    turns: Seq<Turn<T>>,
    mine: spec_fn(Waker) -> bool,
)
    requires
        tells_apart(mine),
        in_no_slot(s, mine),
        possible(s, msg, turns),
        forall|k: int| 0 <= k < turns.len() ==> by_own_task(#[trigger] turns[k], mine),
    ensures
        undisturbed(s, msg, turns),
        life(s, msg, turns).alone(mine),
    decreases turns.len(),
{
    if turns.len() > 0 {
        let before = life(s, msg, turns.drop_last());
        lemma_alone_throughout(s, msg, turns.drop_last(), mine);
        lemma_life_consistent(s, msg, turns.drop_last());
        assert(by_own_task(turns[turns.len() - 1], mine));
        lemma_alone_undisturbed(before, turns.last(), mine);
        lemma_stays_alone(before, msg, turns.last(), mine);
    }
}

/// What a send by a task that has no other send on the channel resolves to, whatever other tasks do: its
/// very message if a poll finds all receivers gone before the message was queued, handed to a waiting
/// receiver, or taken by one, and else success.
pub proof fn law_send_of_own_task<T>(
    s: State<T>,
    msg: T,
    turns: Seq<Turn<T>>,
    mine: spec_fn(Waker) -> bool,
)
    requires
        tells_apart(mine),
        in_no_slot(s, mine),
        possible(s, msg, turns),
        forall|k: int| 0 <= k < turns.len() ==> by_own_task(#[trigger] turns[k], mine),
    ensures
        ({
            let l = life(s, msg, turns);
            match l.answer {
                Some(Ok(())) => l.accepted && !l.closed,
                Some(Err(SendError(m))) => m == msg && l.closed && !l.accepted,
                None => !l.closed,
            }
        }),
{
    lemma_own_task(s, msg, turns, mine);
    lemma_life_consistent(s, msg, turns);
}

/// No send is refused while a receiver lives.
pub proof fn law_not_refused<T>(s: State<T>, msg: T, turns: Seq<Turn<T>>)
    requires
        undisturbed(s, msg, turns),
        forall|k: int|
            0 <= k < turns.len() ==> life(s, msg, #[trigger] turns.take(k)).state.receiver_count > 0,
    ensures
        !(life(s, msg, turns).answer matches Some(Err(_))),
{
    lemma_life_consistent(s, msg, turns);
    lemma_never_closed(s, msg, turns);
}

proof fn lemma_never_closed<T>(s: State<T>, msg: T, turns: Seq<Turn<T>>)
    requires
        forall|k: int|
            0 <= k < turns.len() ==> life(s, msg, #[trigger] turns.take(k)).state.receiver_count > 0,
    ensures
        !life(s, msg, turns).closed,
    decreases turns.len(),
{
    if turns.len() > 0 {
        let before = turns.drop_last();
        assert forall|k: int| 0 <= k < before.len() implies life(
            s,
            msg,
            #[trigger] before.take(k),
        ).state.receiver_count > 0 by {
            assert(before.take(k) =~= turns.take(k));
        }
        lemma_never_closed(s, msg, before);
        assert(turns.take(turns.len() - 1) =~= before);
    }
}

} // verus!
