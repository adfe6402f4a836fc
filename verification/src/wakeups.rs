//! Who is woken, and what a woken future finds.
use crate::error::{RecvError, SendError};
use crate::history::Event;
use crate::model::{SendState, Slot, State};
use crate::task::{wake, Woken};
use std::task::{Poll, Waker};
use vstd::prelude::*;

verus! {

/// The wakers in `slots` were woken, each of them once: `woken` records it of a clone of each.
pub open spec fn woken_all<T>(slots: Seq<Slot<T>>, woken: Seq<Woken>) -> bool {
    crate::model::wakers_of(slots, woken.map_values(|w: Woken| w@))
}

/// The waker in the slot at `i` was woken, and none if there is no such slot: `woken` records it of a
/// clone.
pub open spec fn woken_at<T>(slots: Seq<Slot<T>>, i: Option<int>, woken: Option<Woken>) -> bool {
    match i {
        Some(i) => woken matches Some(w) && cloned(slots[i].0, w@),
        None => woken is None,
    }
}

/// Wakes the tasks of `wakers`, each of them once.
pub(crate) fn wake_all(wakers: &Vec<Waker>) -> (woken: Vec<Woken>)
    ensures
        woken@.map_values(|w: Woken| w@) == wakers@,
{
    let mut woken: Vec<Woken> = Vec::new();
    let mut i: usize = 0;
    while i < wakers.len()
        invariant
            i <= wakers@.len(),
            woken@.len() == i,
            forall|k: int| 0 <= k < i ==> (#[trigger] woken@[k])@ == wakers@[k],
        decreases wakers@.len() - i,
    {
        woken.push(wake(&wakers[i]));
        i += 1;
    }
    assert(woken@.map_values(|w: Woken| w@) =~= wakers@);
    woken
}

/// Wakes the task of `waker`, if there is one.
pub(crate) fn wake_one(waker: &Option<Waker>) -> (woken: Option<Woken>)
    ensures
        match *waker {
            Some(w) => woken matches Some(woken) && woken@ == w,
            None => woken is None,
        },
{
    match waker {
        Some(waker) => Some(wake(waker)),
        None => None,
    }
}

/// A poll of a sending future wakes exactly the registered receiver that it gives its message to, and
/// leaves all others as they are.
pub proof fn law_send_wakes<T>(
    s: State<T>,
    fut: SendState<T>,
    waker: Waker,
    slot_waker: Waker,
    fut_waker: Waker,
)
    ensures
        ({
            let step = s.send(fut, waker, slot_waker, fut_waker);
            &&& step.state.waiting.len() == s.waiting.len()
            &&& forall|i: int|
                #![trigger step.state.waiting[i]]
                0 <= i < s.waiting.len() ==> if step.wake == Some(i) {
                    &&& s.waiting[i].1 is Empty
                    &&& step.state.waiting[i] == (
                        s.waiting[i].0,
                        crate::channel::Item::Occupied(fut.msg),
                    )
                } else {
                    step.state.waiting[i] == s.waiting[i]
                }
            &&& step.wake matches Some(i) ==> 0 <= i < s.waiting.len()
        }),
{
    crate::model::lemma_first_cases(s.sending, crate::model::registered_under(fut.waker));
    crate::model::lemma_first_cases(s.waiting, crate::model::asking());
}

/// A poll of a receiving future wakes exactly the registered sender whose message it takes, and leaves
/// all others as they are.
pub proof fn law_recv_wakes<T>(
    s: State<T>,
    reg: Option<Waker>,
    waker: Waker,
    slot_waker: Waker,
    fut_waker: Waker,
)
    ensures
        ({
            let step = s.recv(reg, waker, slot_waker, fut_waker);
            &&& step.state.sending.len() == s.sending.len()
            &&& forall|i: int|
                #![trigger step.state.sending[i]]
                0 <= i < s.sending.len() ==> if step.wake == Some(i) {
                    &&& s.sending[i].1 is Occupied
                    &&& step.state.sending[i] == (s.sending[i].0, crate::channel::Item::<T>::Empty)
                    &&& step.poll == Poll::<Result<T, RecvError>>::Ready(
                        Ok(crate::model::message(s.sending[i])->0),
                    )
                } else {
                    step.state.sending[i] == s.sending[i]
                }
            &&& step.wake matches Some(i) ==> 0 <= i < s.sending.len()
        }),
{
    crate::model::lemma_first_cases(s.waiting, crate::model::registered_under(reg));
    crate::model::lemma_first_cases(s.sending, crate::model::offering());
}

/// When the last sender goes, all registered receivers are woken, each once, and each of them that still
/// asks for a message finds the channel disconnected.
///
/// The small counter of registered receivers is 0 for a multiple of 256 of them, which are then not
/// woken.
pub proof fn law_last_sender<T>(
    length: usize,
    s: State<T>,
    reg: Option<Waker>,
    i: int,
    waker: Waker,
    slot_waker: Waker,
    fut_waker: Waker,
)
    requires
        crate::history::reachable(length, s),
        s.sender_count == 1,
        s.waiting.len() % 256 != 0,
        crate::model::find(s.waiting, reg) == Some(i),
        s.waiting[i].1 is Empty,
    ensures
        s.woken_by_sender() == s.waiting,
        0 <= i < s.woken_by_sender().len(),
        s.remove_sender().recv(reg, waker, slot_waker, fut_waker).poll == Poll::<
            Result<T, RecvError>,
        >::Ready(Err(RecvError::Disconnected)),
{
    crate::laws::law_bounds(length, s);
    crate::model::lemma_first_cases(s.waiting, crate::model::registered_under(reg));
}

/// When the last receiver goes, all registered senders are woken, each once, and each of them that still
/// offers its message gets it back.
///
/// The small counter of registered senders is 0 for a multiple of 256 of them, which are then not
/// woken.
pub proof fn law_last_receiver<T>(
    length: usize,
    s: State<T>,
    fut: SendState<T>,
    i: int,
    waker: Waker,
    slot_waker: Waker,
    fut_waker: Waker,
)
    requires
        crate::history::reachable(length, s),
        s.receiver_count == 1,
        s.sending.len() % 256 != 0,
        crate::model::find(s.sending, fut.waker) == Some(i),
        crate::model::message(s.sending[i]) is Some,
    ensures
        s.woken_by_receiver() == s.sending,
        0 <= i < s.woken_by_receiver().len(),
        s.remove_receiver().send(fut, waker, slot_waker, fut_waker).poll == Poll::<
            Result<(), SendError<T>>,
        >::Ready(Err(SendError(crate::model::message(s.sending[i])->0))),
{
    crate::laws::law_bounds(length, s);
    crate::model::lemma_first_cases(s.sending, crate::model::registered_under(fut.waker));
}

/// A sender that goes is one less, and changes nothing else. With fewer than 256 registered receivers,
/// all of them are woken if it was the last sender, each once; no one is woken if it was not. Senders
/// are never woken by it.
pub proof fn law_sender_goes<T>(length: usize, s: State<T>)
    requires
        crate::history::reachable(length, s),
        s.sender_count >= 1,
        s.waiting.len() < 256,
    ensures
        s.remove_sender() == (State { sender_count: (s.sender_count - 1) as usize, ..s }),
        s.woken_by_sender() == if s.sender_count == 1 {
            s.waiting
        } else {
            Seq::empty()
        },
{
    crate::laws::law_bounds(length, s);
    if s.waiting.len() == 0 {
        assert(s.waiting =~= Seq::empty());
    }
}

/// A receiver that goes is one less, and changes nothing else: the queue keeps its messages. With fewer
/// than 256 registered senders, all of them are woken if it was the last receiver, each once; no one
/// is woken if it was not. Receivers are never woken by it.
pub proof fn law_receiver_goes<T>(length: usize, s: State<T>)
    requires
        crate::history::reachable(length, s),
        s.receiver_count >= 1,
        s.sending.len() < 256,
    ensures
        s.remove_receiver() == (State { receiver_count: (s.receiver_count - 1) as usize, ..s }),
        s.woken_by_receiver() == if s.receiver_count == 1 {
            s.sending
        } else {
            Seq::empty()
        },
{
    crate::laws::law_bounds(length, s);
    if s.sending.len() == 0 {
        assert(s.sending =~= Seq::empty());
    }
}

/// The operation wakes the registered receiver at `i`.
pub open spec fn wakes_receiver<T>(s: State<T>, e: Event<T>, i: int) -> bool {
    match e {
        Event::PollSend { fut, waker, slot_waker, fut_waker } => s.send(
            fut,
            waker,
            slot_waker,
            fut_waker,
        ).wake == Some(i),
        Event::CancelRecv(waker) => crate::model::find(s.waiting, waker) == Some(i),
        Event::RemoveSender => 0 <= i < s.woken_by_sender().len(),
        _ => false,
    }
}

/// The operation wakes the registered sender at `i`.
pub open spec fn wakes_sender<T>(s: State<T>, e: Event<T>, i: int) -> bool {
    match e {
        Event::PollRecv { reg, waker, slot_waker, fut_waker } => s.recv(
            reg,
            waker,
            slot_waker,
            fut_waker,
        ).wake == Some(i),
        Event::CancelSend(waker) => crate::model::find(s.sending, waker) == Some(i),
        Event::RemoveReceiver => 0 <= i < s.woken_by_receiver().len(),
        _ => false,
    }
}

/// No wakeup of a receiver is lost. A registered receiver that has to wait keeps its slot through all
/// that is not a poll for a message, and is woken by any operation after which it has to wait no more:
/// one that fills or withdraws its slot, or the end of the last sender. This is so with fewer than 256
/// registered receivers.
pub proof fn law_receiver_woken<T>(length: usize, s: State<T>, e: Event<T>, i: int)
    requires
        crate::history::reachable(length, s),
        s.waiting.len() < 256,
        0 <= i < s.waiting.len(),
        s.waiting[i].1 is Empty,
        s.sender_count > 0,
        !(e is PollRecv),
        // The count does not wrap around.
        e is AddSender ==> s.sender_count < usize::MAX,
    ensures
        ({
            let after = e.apply(s);
            &&& after.waiting.len() == s.waiting.len()
            &&& after.waiting[i].0 == s.waiting[i].0
            &&& !(after.waiting[i].1 is Empty) || after.sender_count == 0 ==> wakes_receiver(s, e, i)
        }),
{
    crate::laws::law_bounds(length, s);
    match e {
        Event::PollSend { fut, waker, slot_waker, fut_waker } => {
            law_send_wakes(s, fut, waker, slot_waker, fut_waker);
            let after = e.apply(s);
            assert(after.waiting[i].0 == s.waiting[i].0);
        },
        Event::CancelRecv(waker) => {
            crate::model::lemma_first_cases(s.waiting, crate::model::registered_under(waker));
        },
        _ => {},
    }
}

/// No wakeup of a sender is lost. A registered sender that has to wait keeps its slot through all that
/// is not a poll of a sending future, and is woken by any operation after which it has to wait no
/// more: one that takes or withdraws its message, or the end of the last receiver. This is so with
/// fewer than 256 registered senders.
pub proof fn law_sender_woken<T>(length: usize, s: State<T>, e: Event<T>, i: int)
    requires
        crate::history::reachable(length, s),
        s.sending.len() < 256,
        0 <= i < s.sending.len(),
        s.sending[i].1 is Occupied,
        s.receiver_count > 0,
        !(e is PollSend),
        // The count does not wrap around.
        e is AddReceiver ==> s.receiver_count < usize::MAX,
    ensures
        ({
            let after = e.apply(s);
            &&& after.sending.len() == s.sending.len()
            &&& after.sending[i].0 == s.sending[i].0
            &&& !(after.sending[i].1 is Occupied) || after.receiver_count == 0 ==> wakes_sender(
                s,
                e,
                i,
            )
        }),
{
    crate::laws::law_bounds(length, s);
    match e {
        Event::PollRecv { reg, waker, slot_waker, fut_waker } => {
            law_recv_wakes(s, reg, waker, slot_waker, fut_waker);
            let after = e.apply(s);
            assert(after.sending[i].0 == s.sending[i].0);
        },
        Event::CancelSend(waker) => {
            crate::model::lemma_first_cases(s.sending, crate::model::registered_under(waker));
        },
        _ => {},
    }
}

/// All receivers come to an end. When the last sender of a channel with fewer than 256 registered
/// receivers goes, each of them is woken. From then on each poll for a message resolves, and at most
/// as many of them return a message as the channel held, whatever the receivers do in the meantime.
pub proof fn law_receivers_end<T>(length: usize, s: State<T>, events: Seq<Event<T>>)
    requires
        crate::history::reachable(length, s),
        s.sender_count == 1,
        s.waiting.len() < 256,
        crate::history::possible_from(s.remove_sender(), events),
        forall|i: int|
            0 <= i < events.len() ==> crate::conservation::without_senders(#[trigger] events[i]),
    ensures
        s.woken_by_sender() == s.waiting,
        forall|i: int|
            0 <= i < events.len() && events[i] is PollRecv ==> ({
                let at = crate::history::after(s.remove_sender(), #[trigger] events.take(i));
                at.recv(
                    events[i]->PollRecv_reg,
                    events[i]->PollRecv_waker,
                    events[i]->PollRecv_slot_waker,
                    events[i]->PollRecv_fut_waker,
                ).poll is Ready
            }),
        crate::conservation::tally(
            s.remove_sender(),
            events,
            crate::conservation::every(),
        ).received <= crate::conservation::held(s, crate::conservation::every()),
{
    law_sender_goes(length, s);
    crate::conservation::law_receiving_ends(s.remove_sender(), events);
}

/// A handle that is cloned and given up again leaves everything as it was, and wakes nobody.
pub proof fn law_clone_and_drop<T>(s: State<T>)
    ensures
        s.add_sender().remove_sender() == s,
        s.add_receiver().remove_receiver() == s,
        s.sender_count > 0 ==> s.add_sender().woken_by_sender().len() == 0,
        s.receiver_count > 0 ==> s.add_receiver().woken_by_receiver().len() == 0,
{
}

/// A registered receiver that is polled by a task with another waker is woken by that waker from then
/// on: it is the one in the slot that the next message goes to.
pub proof fn law_receiver_changes_waker<T>(
    s: State<T>,
    reg: Option<Waker>,
    i: int,
    waker: Waker,
    slot_waker: Waker,
    fut_waker: Waker,
    msg: T,
    other: Waker,
)
    requires
        crate::model::find(s.waiting, reg) == Some(i),
        crate::model::first_empty(s.waiting) == Some(i),
        !crate::task::wakes_same(s.waiting[i].0, waker),
        s.sender_count > 0,
        s.receiver_count > 0,
    ensures
        ({
            let polled = s.recv(reg, waker, slot_waker, fut_waker);
            let sent = polled.state.send(
                SendState { msg: Some(msg), waker: None },
                other,
                other,
                other,
            );
            &&& polled.poll is Pending
            &&& polled.waker == Some(fut_waker)
            &&& sent.wake == Some(i)
            &&& sent.state.waiting[i] == (slot_waker, crate::channel::Item::Occupied(Some(msg)))
        }),
{
    crate::model::lemma_first_cases(s.waiting, crate::model::registered_under(reg));
    crate::model::lemma_first_cases(s.waiting, crate::model::asking());
    let polled = s.recv(reg, waker, slot_waker, fut_waker).state;
    crate::model::lemma_first(polled.waiting, crate::model::asking(), i);
    crate::model::lemma_first_cases(polled.sending, crate::model::registered_under::<T>(None));
}

/// A registered sender that is polled by a task with another waker is woken by that waker from then
/// on: it is the one in the slot that the next message is taken from.
pub proof fn law_sender_changes_waker<T>(
    s: State<T>,
    fut: SendState<T>,
    i: int,
    waker: Waker,
    slot_waker: Waker,
    fut_waker: Waker,
    other: Waker,
)
    requires
        crate::model::find(s.sending, fut.waker) == Some(i),
        crate::model::first_occupied(s.sending) == Some(i),
        !crate::task::wakes_same(s.sending[i].0, waker),
        s.receiver_count > 0,
    ensures
        ({
            let polled = s.send(fut, waker, slot_waker, fut_waker);
            let received = polled.state.recv(None, other, other, other);
            &&& polled.poll is Pending
            &&& polled.fut == (SendState { waker: Some(fut_waker), ..fut })
            &&& received.wake == Some(i)
            &&& received.state.sending[i] == (slot_waker, crate::channel::Item::<T>::Empty)
        }),
{
    crate::model::lemma_first_cases(s.sending, crate::model::registered_under(fut.waker));
    crate::model::lemma_first_cases(s.sending, crate::model::offering());
    let polled = s.send(fut, waker, slot_waker, fut_waker).state;
    crate::model::lemma_first(polled.sending, crate::model::offering(), i);
    crate::model::lemma_first_cases(polled.waiting, crate::model::registered_under::<T>(None));
}

/// A message goes through the queue: what was sent is received, and the channel is as before.
pub proof fn law_through_queue<T>(s: State<T>, msg: T, waker: Waker)
    requires
        s.receiver_count > 0,
        crate::laws::none_of(s.waiting, crate::model::asking()),
        crate::laws::none_of(s.sending, crate::model::offering()),
        s.queue.len() == 0,
        s.length > 0,
    ensures
        ({
            let sent = s.send(SendState { msg: Some(msg), waker: None }, waker, waker, waker);
            let received = sent.state.recv(None, waker, waker, waker);
            &&& sent.poll == Poll::<Result<(), SendError<T>>>::Ready(Ok(()))
            &&& received.poll == Poll::<Result<T, RecvError>>::Ready(Ok(msg))
            &&& received.state == s
        }),
{
    crate::model::lemma_first_cases(s.sending, crate::model::registered_under::<T>(None));
    crate::model::lemma_first_cases(s.waiting, crate::model::registered_under::<T>(None));
    crate::model::lemma_first_cases(s.waiting, crate::model::asking());
    crate::model::lemma_first_cases(s.sending, crate::model::offering());
    assert(s.queue.push(Some(msg)).drop_first() =~= s.queue);
}

/// A sender that has to wait is woken by the receiver that takes its message, and resolves when it is
/// polled again. The channel is then as before. This holds of wakers whose clones wake the same task.
pub proof fn law_waiting_sender_resolves<T>(
    s: State<T>,
    msg: T,
    waker: Waker,
    slot_waker: Waker,
    fut_waker: Waker,
    other: Waker,
)
    requires
        s.receiver_count > 0,
        crate::laws::none_of(s.waiting, crate::model::asking()),
        s.sending.len() == 0,
        s.queue.len() >= s.length,
        crate::task::wakes_same(slot_waker, fut_waker),
    ensures
        ({
            let registered = s.send(
                SendState { msg: Some(msg), waker: None },
                waker,
                slot_waker,
                fut_waker,
            );
            let received = registered.state.recv(None, other, other, other);
            let resolved = received.state.send(registered.fut, waker, slot_waker, fut_waker);
            &&& registered.poll is Pending
            &&& received.poll == Poll::<Result<T, RecvError>>::Ready(Ok(msg))
            &&& received.wake == Some(0int)
            &&& received.state.sending[0].0 == slot_waker
            &&& resolved.poll == Poll::<Result<(), SendError<T>>>::Ready(Ok(()))
            &&& resolved.state == s
        }),
{
    crate::model::lemma_first_cases(s.sending, crate::model::registered_under::<T>(None));
    crate::model::lemma_first_cases(s.waiting, crate::model::registered_under::<T>(None));
    crate::model::lemma_first_cases(s.waiting, crate::model::asking());
    let fut = SendState { msg: Some(msg), waker: None };
    let registered = s.send(fut, waker, slot_waker, fut_waker);
    crate::model::lemma_first(registered.state.sending, crate::model::offering(), 0);
    let received = registered.state.recv(None, other, other, other);
    crate::model::lemma_first(
        received.state.sending,
        crate::model::registered_under(Some(fut_waker)),
        0,
    );
    assert(crate::model::swap_removed(received.state.sending, 0) =~= s.sending);
}

/// A receiver that has to wait is woken by the sender that gives it a message, and receives that
/// message when it is polled again. The channel is then as before. This holds of wakers whose clones
/// wake the same task.
pub proof fn law_waiting_receiver_resolves<T>(
    s: State<T>,
    msg: T,
    waker: Waker,
    slot_waker: Waker,
    fut_waker: Waker,
    other: Waker,
)
    requires
        s.sender_count > 0,
        s.receiver_count > 0,
        !crate::laws::message_waits(s),
        s.waiting.len() == 0,
        crate::task::wakes_same(slot_waker, fut_waker),
    ensures
        ({
            let registered = s.recv(None, waker, slot_waker, fut_waker);
            let sent = registered.state.send(
                SendState { msg: Some(msg), waker: None },
                other,
                other,
                other,
            );
            let received = sent.state.recv(registered.waker, waker, slot_waker, fut_waker);
            &&& registered.poll is Pending
            &&& sent.poll == Poll::<Result<(), SendError<T>>>::Ready(Ok(()))
            &&& sent.wake == Some(0int)
            &&& sent.state.waiting[0].0 == slot_waker
            &&& received.poll == Poll::<Result<T, RecvError>>::Ready(Ok(msg))
            &&& received.state == s
        }),
{
    crate::model::lemma_first_cases(s.sending, crate::model::registered_under::<T>(None));
    crate::model::lemma_first_cases(s.waiting, crate::model::registered_under::<T>(None));
    crate::model::lemma_first_cases(s.sending, crate::model::offering());
    let registered = s.recv(None, waker, slot_waker, fut_waker);
    crate::model::lemma_first(registered.state.waiting, crate::model::asking(), 0);
    let fut = SendState { msg: Some(msg), waker: None };
    let sent = registered.state.send(fut, other, other, other);
    crate::model::lemma_first(
        sent.state.waiting,
        crate::model::registered_under(Some(fut_waker)),
        0,
    );
    assert(crate::model::swap_removed(sent.state.waiting, 0) =~= s.waiting);
}

/// A receiver whose registration was withdrawn is told so once, which removes its slot.
pub proof fn law_withdrawn_receiver<T>(
    s: State<T>,
    reg: Option<Waker>,
    i: int,
    waker: Waker,
    slot_waker: Waker,
    fut_waker: Waker,
)
    requires
        crate::model::find(s.waiting, reg) == Some(i),
    ensures
        ({
            let step = s.cancel_recv(reg).recv(reg, waker, slot_waker, fut_waker);
            &&& step.poll == Poll::<Result<T, RecvError>>::Ready(Err(RecvError::Cancelled))
            &&& step.state.waiting == crate::model::swap_removed(s.waiting, i)
        }),
{
    crate::model::lemma_first_cases(s.waiting, crate::model::registered_under(reg));
    let waiting = s.cancel_recv(reg).waiting;
    crate::model::lemma_first(waiting, crate::model::registered_under(reg), i);
    assert(crate::model::swap_removed(waiting, i) =~= crate::model::swap_removed(s.waiting, i));
}

} // verus!
