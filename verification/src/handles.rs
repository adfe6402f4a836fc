//! What the laws say of the calls of handles and futures, by the records of what they did.
use crate::blocking::Pollable;
use crate::error::{RecvError, SendError};
use crate::history::Event;
use crate::life::Turn;
use crate::lock::Done;
use crate::model::{SendState, State};
use crate::receiver::RecvFut;
use crate::sender::SendFut;
use crate::task::Woken;
use std::task::{Poll, Waker};
use vstd::prelude::*;

verus! {

/// The first poll of a sending future, on a channel on which nothing but such polls took place, is
/// successful as long as there is room, and pending from then on.
pub proof fn law_room_for_all<T>(
    done: Done<T>,
    fut: SendState<T>,
    waker: Waker,
    after: SendState<T>,
    poll: Poll<Result<(), SendError<T>>>,
    woken: Option<Woken>,
)
    requires
        crate::sender::send_polled(done, fut, waker, after, poll, woken),
        fut.msg is Some,
        fut.waker is None,
        crate::order::first_polls(done.history()),
    ensures
        poll == if done.history().len() < done.length() {
            Poll::<Result<(), SendError<T>>>::Ready(Ok(()))
        } else {
            Poll::Pending
        },
{
    let msg = fut.msg->0;
    assert(fut == (SendState { msg: Some(msg), waker: None }));
    assert forall|slot_waker: Waker, fut_waker: Waker|
        #[trigger] done.before().send(fut, waker, slot_waker, fut_waker).poll == (
        if done.history().len() < done.length() {
            Poll::<Result<(), SendError<T>>>::Ready(Ok(()))
        } else {
            Poll::Pending
        }) by {
        crate::order::law_fills_up(
            done.length(),
            done.history(),
            msg,
            waker,
            slot_waker,
            fut_waker,
        );
    }
}

/// The first poll of a sending future on an unbounded channel that has a receiver is successful. The
/// channel must have been used less than `usize::MAX` times.
pub proof fn law_unbounded_accepts<T>(
    done: Done<T>,
    fut: SendState<T>,
    waker: Waker,
    after: SendState<T>,
    poll: Poll<Result<(), SendError<T>>>,
    woken: Option<Woken>,
)
    requires
        crate::sender::send_polled(done, fut, waker, after, poll, woken),
        fut.msg is Some,
        fut.waker is None,
        done.length() == usize::MAX,
        done.history().len() < usize::MAX,
        done.before().receiver_count > 0,
    ensures
        poll == Poll::<Result<(), SendError<T>>>::Ready(Ok(())),
{
    let msg = fut.msg->0;
    assert(fut == (SendState { msg: Some(msg), waker: None }));
    crate::order::lemma_unbounded_without_waiting(done.history());
    assert forall|slot_waker: Waker, fut_waker: Waker|
        #[trigger] done.before().send(fut, waker, slot_waker, fut_waker).poll == Poll::<
            Result<(), SendError<T>>,
        >::Ready(Ok(())) by {
        crate::laws::law_unbounded_never_waits(
            done.before(),
            msg,
            waker,
            slot_waker,
            fut_waker,
        );
    }
}

/// A poll of a sending future hands no message back while a receiver lives.
pub proof fn law_poll_not_refused<T>(
    done: Done<T>,
    fut: SendState<T>,
    waker: Waker,
    after: SendState<T>,
    poll: Poll<Result<(), SendError<T>>>,
    woken: Option<Woken>,
)
    requires
        crate::sender::send_polled(done, fut, waker, after, poll, woken),
        done.before().receiver_count > 0,
    ensures
        !(poll matches Poll::Ready(Err(_))),
{
}

/// A poll of a receiving future resolves once all senders are gone.
pub proof fn law_poll_ends<T>(
    done: Done<T>,
    reg: Option<Waker>,
    waker: Waker,
    after: Option<Waker>,
    poll: Poll<Result<T, RecvError>>,
    woken: Option<Woken>,
)
    requires
        crate::receiver::recv_polled(done, reg, waker, after, poll, woken),
        done.before().can_recv(reg),
        done.before().sender_count == 0,
    ensures
        poll is Ready,
{
}

/// The drop of the last sender wakes each registered receiver once, and leaves no sender; that of
/// another one wakes no one. This is so with fewer than 256 registered receivers.
pub proof fn law_sender_dropped<T>(done: Done<T>, woken: Seq<Woken>)
    requires
        crate::history::possible(done.length(), done.log()),
        done.event() == Some(Event::<T>::RemoveSender),
        crate::wakeups::woken_all(done.before().woken_by_sender(), woken),
        done.before().sender_count >= 1,
        done.before().waiting.len() < 256,
    ensures
        done.after() == (State {
            sender_count: (done.before().sender_count - 1) as usize,
            ..done.before()
        }),
        if done.before().sender_count == 1 {
            crate::wakeups::woken_all(done.before().waiting, woken)
        } else {
            woken.len() == 0
        },
{
    crate::lock::lemma_done(done);
    crate::wakeups::law_sender_goes(done.length(), done.before());
}

/// The drop of the last receiver wakes each registered sender once, and leaves no receiver; that of
/// another one wakes no one. This is so with fewer than 256 registered senders.
pub proof fn law_receiver_dropped<T>(done: Done<T>, woken: Seq<Woken>)
    requires
        crate::history::possible(done.length(), done.log()),
        done.event() == Some(Event::<T>::RemoveReceiver),
        crate::wakeups::woken_all(done.before().woken_by_receiver(), woken),
        done.before().receiver_count >= 1,
        done.before().sending.len() < 256,
    ensures
        done.after() == (State {
            receiver_count: (done.before().receiver_count - 1) as usize,
            ..done.before()
        }),
        if done.before().receiver_count == 1 {
            crate::wakeups::woken_all(done.before().sending, woken)
        } else {
            woken.len() == 0
        },
{
    crate::lock::lemma_done(done);
    crate::wakeups::law_receiver_goes(done.length(), done.before());
}

/// The slot of the receiving future that is registered under `reg` has an answer: a message, or that
/// the registration was withdrawn.
pub open spec fn slot_answers<T>(s: State<T>, reg: Option<Waker>) -> bool {
    crate::model::find(s.waiting, reg) matches Some(i) && !(s.waiting[i].1 is Empty)
}

/// What the poll by which receiving comes to an end finds. It is a step on the channel of the handle.
/// Unless the slot of the future has an answer, the channel is disconnected exactly if all senders
/// were dropped and no messages are waiting in it; with a message waiting, a future without a slot is
/// handed one, even after the last sender is gone. This is so if no sending future that has lost its
/// message was ever taken for a fresh one.
pub proof fn law_recv_answer<'s, T>(
    fut: RecvFut<'s, T>,
    after: RecvFut<'s, T>,
    received: Result<T, RecvError>,
)
    requires
        crate::blocking::polled_until_ready(fut, after, received),
    ensures
        after.last() matches Some(done) && done.on(*fut.receiver().channel()) && (
        crate::history::orderly(done.length(), done.history()) ==> exists|
            reg: Option<Waker>,
            waker: Waker,
        |
            {
                let s = done.before();
                &&& #[trigger] crate::receiver::recv_polled(
                    done,
                    reg,
                    waker,
                    after@,
                    Poll::Ready(received),
                    after.woken(),
                )
                &&& received == Err::<T, RecvError>(RecvError::Disconnected) <==> {
                    &&& !slot_answers(s, reg)
                    &&& s.sender_count == 0
                    &&& !crate::laws::message_waits(s)
                }
                &&& crate::model::find(s.waiting, reg) is None && crate::laws::message_waits(s)
                    ==> received is Ok
            }),
{
    let (trace, waker) = choose|trace: Seq<RecvFut<'s, T>>, waker: Waker|
        crate::blocking::polled_along(trace, waker, fut, after, received);
    crate::receiver::lemma_receiver_kept(fut, after, received);
    assert(after.after_poll(trace.last(), waker, Poll::Ready(received)));
    let done = after.last()->0;
    let reg = trace.last()@;
    let s = done.before();
    assert(crate::receiver::recv_polled(
        done,
        reg,
        waker,
        after@,
        Poll::Ready(received),
        after.woken(),
    ));
    if crate::history::orderly(done.length(), done.history()) {
        crate::laws::law_settled(done.length(), done.history());
        crate::model::lemma_first_cases(s.waiting, crate::model::registered_under(reg));
        crate::model::lemma_first_cases(s.sending, crate::model::offering());
        let (slot_waker, fut_waker) = choose|slot_waker: Waker, fut_waker: Waker|
            {
                &&& done.event() == Some(
                    Event::<T>::PollRecv { reg, waker, slot_waker, fut_waker },
                )
                &&& #[trigger] s.recv(reg, waker, slot_waker, fut_waker).poll == Poll::Ready(
                    received,
                )
            };
        if !slot_answers(s, reg) {
            crate::laws::law_disconnected(s, reg, waker, slot_waker, fut_waker);
        }
    }
}

/// A message that a poll returns is one of those that were sent into the channel, and none is received
/// more often than it was sent: of the messages that `p` describes, those that were sent are those that
/// were handed back, received, lost with futures that went away, or are still held.
pub proof fn law_received_from_channel<T>(
    done: Done<T>,
    reg: Option<Waker>,
    waker: Waker,
    after: Option<Waker>,
    msg: T,
    woken: Option<Woken>,
    p: spec_fn(T) -> bool,
)
    requires
        crate::history::possible(done.length(), done.log()),
        crate::receiver::recv_polled(done, reg, waker, after, Poll::Ready(Ok(msg)), woken),
        p(msg),
    ensures
        ({
            let fresh = State::<T>::initial(done.length());
            let before = crate::conservation::tally(fresh, done.history(), p);
            let t = crate::conservation::tally(fresh, done.log(), p);
            &&& t.received == before.received + 1
            &&& t.received <= t.sent
            &&& t.sent == t.returned + t.received + t.withdrawn + crate::conservation::held(
                done.after(),
                p,
            )
        }),
{
    crate::conservation::law_received_was_sent(done.length(), done.log(), p);
    assert(done.log().drop_last() =~= done.history());
}

/// With a single consumer, and as long as no sender has to wait, the message that a poll returns is the
/// next one: if `k` messages were received before, it is the one that was accepted after `k` others.
pub proof fn law_received_in_order<T>(
    done: Done<T>,
    reg: Option<Waker>,
    waker: Waker,
    after: Option<Waker>,
    msg: T,
    woken: Option<Woken>,
)
    requires
        crate::history::possible(done.length(), done.log()),
        crate::history::orderly(done.length(), done.log()),
        crate::order::single_consumer(done.length(), done.log()),
        crate::order::no_sender_waits(done.length(), done.log()),
        crate::receiver::recv_polled(done, reg, waker, after, Poll::Ready(Ok(msg)), woken),
    ensures
        ({
            let k = crate::order::received(done.length(), done.history()).len();
            let sent = crate::order::sent(done.length(), done.log());
            k < sent.len() && sent[k as int] == msg
        }),
{
    crate::order::law_no_drop_or_reorder(done.length(), done.log());
    assert(done.log().drop_last() =~= done.history());
    let before = crate::order::received(done.length(), done.history());
    assert(crate::order::received(done.length(), done.log()) =~= before.push(msg));
}

/// The record of the poll that made `futs[k + 1]` of `futs[k]`.
pub open spec fn record<'s, T>(futs: Seq<SendFut<'s, T>>, k: int) -> Done<T> {
    futs[k + 1].last()->0
}

/// Each poll was on the channel as the one before it had left it and others had used it since.
pub open spec fn in_sequence<'s, T>(futs: Seq<SendFut<'s, T>>) -> bool {
    forall|k: int|
        0 <= k < futs.len() - 2 ==> (#[trigger] record(futs, k)).log().is_prefix_of(
            record(futs, k + 1).history(),
        )
}

/// What others did to the channel between the poll `k - 1` and the poll `k`.
pub open spec fn between<'s, T>(futs: Seq<SendFut<'s, T>>, k: int) -> Seq<Event<T>> {
    if k <= 0 {
        Seq::empty()
    } else {
        record(futs, k).history().skip(record(futs, k - 1).log().len() as int)
    }
}

/// No other sending future of the task whose wakers `mine` describes has a part in the channel.
pub open spec fn only_send_of_task<'s, T>(
    futs: Seq<SendFut<'s, T>>,
    mine: spec_fn(Waker) -> bool,
) -> bool {
    &&& crate::life::tells_apart(mine)
    &&& crate::life::in_no_slot(record(futs, 0).before(), mine)
    &&& forall|k: int, j: int|
        0 < k < futs.len() - 1 && 0 <= j < between(futs, k).len() ==> crate::life::by_own_task(
            Turn::Other(#[trigger] between(futs, k)[j]),
            mine,
        )
}

/// All clones of `waker` are wakers of the task that `mine` describes, and a clone wakes the same task
/// as its own clones.
pub open spec fn clones_are_mine(waker: Waker, mine: spec_fn(Waker) -> bool) -> bool {
    forall|a: Waker, b: Waker|
        #[trigger] cloned(waker, a) && #[trigger] cloned(a, b) ==> mine(a) && mine(b)
            && crate::task::wakes_same(a, b)
}

/// The turns of others.
pub open spec fn others<T>(events: Seq<Event<T>>) -> Seq<Turn<T>> {
    events.map_values(|e: Event<T>| Turn::Other(e))
}

/// The turn of a future itself that the record of a poll describes.
pub open spec fn own_turn<T>(done: Done<T>) -> Turn<T> {
    let e = done.event()->0;
    Turn::Poll {
        waker: e->PollSend_waker,
        slot_waker: e->PollSend_slot_waker,
        fut_waker: e->PollSend_fut_waker,
    }
}

/// The life of a future up to its poll `n`, as the turns of itself and of others.
pub open spec fn turns<'s, T>(futs: Seq<SendFut<'s, T>>, n: nat) -> Seq<Turn<T>>
    decreases n,
{
    if n == 0 {
        Seq::empty()
    } else {
        (turns(futs, (n - 1) as nat) + others(between(futs, n - 1))).push(
            own_turn(record(futs, n - 1)),
        )
    }
}

proof fn lemma_history_splits<T>(length: usize, history: Seq<Event<T>>, n: int)
    requires
        0 <= n <= history.len(),
        crate::history::possible(length, history),
    ensures
        crate::history::possible_from(
            crate::history::run(length, history.take(n)),
            history.skip(n),
        ),
        crate::history::run(length, history) == crate::history::after(
            crate::history::run(length, history.take(n)),
            history.skip(n),
        ),
    decreases history.len(),
{
    if n == history.len() {
        assert(history.take(n) =~= history);
    } else {
        lemma_history_splits(length, history.drop_last(), n);
        assert(history.drop_last().take(n) =~= history.take(n));
        assert(history.skip(n).drop_last() =~= history.drop_last().skip(n));
    }
}

proof fn lemma_turns_of_others<T>(
    s: State<T>,
    msg: T,
    before: Seq<Turn<T>>,
    events: Seq<Event<T>>,
)
    requires
        crate::life::possible(s, msg, before),
        crate::history::possible_from(crate::life::life(s, msg, before).state, events),
    ensures
        ({
            let l = crate::life::life(s, msg, before);
            let l2 = crate::life::life(s, msg, before + others(events));
            &&& crate::life::possible(s, msg, before + others(events))
            &&& l2.state == crate::history::after(l.state, events)
            &&& l2.fut == l.fut
            &&& l2.answer == l.answer
        }),
    decreases events.len(),
{
    if events.len() == 0 {
        assert(before + others(events) =~= before);
    } else {
        lemma_turns_of_others(s, msg, before, events.drop_last());
        let all = before + others(events);
        assert(all.drop_last() =~= before + others(events.drop_last()));
        assert(all.last() == Turn::Other(events.last()));
    }
}

/// All of `turns` are by the task that `mine` describes, or no sending future of that task has a part in
/// them.
pub open spec fn all_by_own_task<T>(turns: Seq<Turn<T>>, mine: spec_fn(Waker) -> bool) -> bool {
    forall|k: int| 0 <= k < turns.len() ==> crate::life::by_own_task(#[trigger] turns[k], mine)
}

proof fn lemma_poll_is_turn<T>(
    s: State<T>,
    msg: T,
    first: Seq<Turn<T>>,
    done: Done<T>,
    fut: SendState<T>,
    waker: Waker,
    after: SendState<T>,
    poll: Poll<Result<(), SendError<T>>>,
    woken: Option<Woken>,
    mine: spec_fn(Waker) -> bool,
)
    requires
        crate::life::tells_apart(mine),
        crate::life::in_no_slot(s, mine),
        clones_are_mine(waker, mine),
        crate::life::possible(s, msg, first),
        all_by_own_task(first, mine),
        crate::life::life(s, msg, first).state == done.before(),
        crate::life::life(s, msg, first).fut == fut,
        crate::life::life(s, msg, first).answer is None,
        crate::sender::send_polled(done, fut, waker, after, poll, woken),
    ensures
        ({
            let all = first.push(own_turn(done));
            let l = crate::life::life(s, msg, all);
            &&& crate::life::possible(s, msg, all)
            &&& all_by_own_task(all, mine)
            &&& l.state == done.after()
            &&& l.fut == after
            &&& poll == match l.answer {
                Some(sent) => Poll::Ready(sent),
                None => Poll::Pending,
            }
        }),
{
    let all = first.push(own_turn(done));
    crate::life::lemma_own_task(s, msg, first, mine);
    crate::life::lemma_can_send(s, msg, first);
    assert(all.drop_last() =~= first);
    assert(all.last() == own_turn(done));
    assert(crate::life::by_own_task(own_turn(done), mine));
    assert forall|k: int| 0 <= k < all.len() implies crate::life::by_own_task(
        #[trigger] all[k],
        mine,
    ) by {
        if k < first.len() {
            assert(all[k] == first[k]);
        }
    }
}

/// `futs` are the states of a future that sends `msg`, from before its first poll to after the last one,
/// which returned `sent`.
spec fn polled_to_end<'s, T>(
    futs: Seq<SendFut<'s, T>>,
    msg: T,
    waker: Waker,
    sent: Result<(), SendError<T>>,
) -> bool {
    &&& futs.len() > 1
    &&& futs[0]@ == (SendState { msg: Some(msg), waker: None })
    &&& forall|k: int|
        0 <= k < futs.len() - 1 ==> (#[trigger] futs[k + 1]).after_poll(
            futs[k],
            waker,
            if k == futs.len() - 2 {
                Poll::Ready(sent)
            } else {
                Poll::Pending
            },
        )
    &&& forall|k: int| 0 <= k < futs.len() ==> (#[trigger] futs[k]).sender() == futs[0].sender()
}

/// The first `n` polls are turns of the life of the future.
spec fn turns_until<'s, T>(
    futs: Seq<SendFut<'s, T>>,
    msg: T,
    sent: Result<(), SendError<T>>,
    mine: spec_fn(Waker) -> bool,
    n: nat,
) -> bool {
    let s = record(futs, 0).before();
    let l = crate::life::life(s, msg, turns(futs, n));
    &&& crate::life::possible(s, msg, turns(futs, n))
    &&& all_by_own_task(turns(futs, n), mine)
    &&& l.state == record(futs, n - 1).after()
    &&& l.fut == futs[n as int]@
    &&& l.answer == if n == futs.len() - 1 {
        Some(sent)
    } else {
        None
    }
}

/// What others do after the first `n` polls are turns of the life of the future, too.
proof fn lemma_others_are_turns<'s, T>(
    futs: Seq<SendFut<'s, T>>,
    msg: T,
    waker: Waker,
    sent: Result<(), SendError<T>>,
    mine: spec_fn(Waker) -> bool,
    n: nat,
)
    requires
        0 < n < futs.len() - 1,
        polled_to_end(futs, msg, waker, sent),
        in_sequence(futs),
        only_send_of_task(futs, mine),
        turns_until(futs, msg, sent, mine, n),
    ensures
        ({
            let s = record(futs, 0).before();
            let first = turns(futs, n) + others(between(futs, n as int));
            let l = crate::life::life(s, msg, first);
            &&& crate::life::possible(s, msg, first)
            &&& all_by_own_task(first, mine)
            &&& l.state == record(futs, n as int).before()
            &&& l.fut == futs[n as int]@
            &&& l.answer is None
        }),
{
    let s = record(futs, 0).before();
    let previous = record(futs, n - 1);
    let done = record(futs, n as int);
    let earlier = turns(futs, n);
    let events = between(futs, n as int);
    let first = earlier + others(events);
    assert(futs[n - 1 + 1].after_poll(futs[n - 1], waker, Poll::Pending));
    let next = if n == futs.len() - 2 {
        Poll::Ready(sent)
    } else {
        Poll::Pending
    };
    assert(futs[n as int + 1].after_poll(futs[n as int], waker, next));
    assert(futs[n - 1].sender() == futs[0].sender());
    assert(futs[n as int].sender() == futs[0].sender());
    crate::lock::lemma_done(done);
    let len = previous.log().len() as int;
    assert(previous.log().is_prefix_of(record(futs, n - 1 + 1).history()));
    assert(done.history().take(len) =~= previous.log());
    lemma_history_splits(done.length(), done.history(), len);
    lemma_turns_of_others(s, msg, earlier, events);
    assert forall|k: int| 0 <= k < first.len() implies crate::life::by_own_task(
        #[trigger] first[k],
        mine,
    ) by {
        if k < earlier.len() {
            assert(first[k] == earlier[k]);
        } else {
            let j = k - earlier.len();
            assert(first[k] == Turn::Other(between(futs, n as int)[j]));
        }
    }
}

proof fn lemma_polls_are_turns<'s, T>(
    futs: Seq<SendFut<'s, T>>,
    msg: T,
    waker: Waker,
    sent: Result<(), SendError<T>>,
    mine: spec_fn(Waker) -> bool,
    n: nat,
)
    requires
        0 < n < futs.len(),
        polled_to_end(futs, msg, waker, sent),
        in_sequence(futs),
        only_send_of_task(futs, mine),
        clones_are_mine(waker, mine),
    ensures
        turns_until(futs, msg, sent, mine, n),
    decreases n,
{
    let s = record(futs, 0).before();
    let done = record(futs, n - 1);
    let poll = if n == futs.len() - 1 {
        Poll::Ready(sent)
    } else {
        Poll::Pending
    };
    let first = turns(futs, (n - 1) as nat) + others(between(futs, n - 1));
    if n == 1 {
        assert(first =~= Seq::<Turn<T>>::empty());
        assert(crate::life::possible(s, msg, first));
    } else {
        lemma_polls_are_turns(futs, msg, waker, sent, mine, (n - 1) as nat);
        lemma_others_are_turns(futs, msg, waker, sent, mine, (n - 1) as nat);
    }
    assert(futs[n - 1 + 1].after_poll(futs[n - 1], waker, poll));
    lemma_poll_is_turn(
        s,
        msg,
        first,
        done,
        futs[n - 1]@,
        waker,
        futs[n as int]@,
        poll,
        futs[n as int].woken(),
        mine,
    );
    assert(turns(futs, n) == first.push(own_turn(done)));
}

/// What a send resolves to, by the records of its polls: its very message if a poll finds all receivers
/// gone before the message was queued, handed to a waiting receiver, or taken by one, and else
/// success. This is so of the only send of its task, whatever other tasks do to the channel between
/// its polls, which follow upon one another.
pub proof fn law_send_answer<'s, T>(
    fut: SendFut<'s, T>,
    msg: T,
    trace: Seq<SendFut<'s, T>>,
    waker: Waker,
    after: SendFut<'s, T>,
    sent: Result<(), SendError<T>>,
    mine: spec_fn(Waker) -> bool,
)
    requires
        fut@ == (SendState { msg: Some(msg), waker: None }),
        crate::blocking::polled_along(trace, waker, fut, after, sent),
        in_sequence(trace.push(after)),
        only_send_of_task(trace.push(after), mine),
        clones_are_mine(waker, mine),
    ensures
        ({
            let futs = trace.push(after);
            let l = crate::life::life(
                record(futs, 0).before(),
                msg,
                turns(futs, trace.len()),
            );
            let done = record(futs, trace.len() - 1);
            &&& done.on(*fut.sender().channel())
            &&& l.state == done.after()
            &&& match sent {
                Ok(()) => l.accepted && !l.closed,
                Err(SendError(m)) => {
                    &&& m == msg
                    &&& l.closed
                    &&& !l.accepted
                    &&& done.before().receiver_count == 0
                },
            }
        }),
{
    let futs = trace.push(after);
    let n = trace.len();
    assert forall|k: int| 0 <= k < futs.len() - 1 implies (#[trigger] futs[k + 1]).after_poll(
        futs[k],
        waker,
        if k == futs.len() - 2 {
            Poll::Ready(sent)
        } else {
            Poll::Pending
        },
    ) by {
        if k < n - 1 {
            assert(trace[k].polled(waker, trace[k + 1], Poll::Pending));
        }
    }
    assert forall|k: int| 0 <= k < futs.len() implies (#[trigger] futs[k]).sender()
        == futs[0].sender() by {
        if k < n {
            crate::sender::lemma_same_sender(trace, waker, k);
        } else {
            crate::sender::lemma_same_sender(trace, waker, n - 1);
        }
    }
    lemma_polls_are_turns(futs, msg, waker, sent, mine, n);
    crate::life::law_send_of_own_task(
        record(futs, 0).before(),
        msg,
        turns(futs, n),
        mine,
    );
}

} // verus!
