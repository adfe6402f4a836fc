//! The lock around the data of a channel, and the records of what was done under it.
use crate::channel::Shared;
use crate::guard::{Guarded, ReceiverSeed, Rest, SenderSeed};
use crate::history::Event;
use crate::model::State;
use std::sync::Arc;
use vstd::prelude::*;
use vstd::rwlock::{RwLock, RwLockPredicate, WriteHandle};

verus! {

/// What holds of the data under the lock of a channel with room for `length` messages: it came
/// about by the operations of its log on a fresh channel. The mark is that of the channel.
pub struct Invariant {
    pub length: usize,
    pub mark: Ghost<int>,
}

impl<T> RwLockPredicate<Guarded<T>> for Invariant {
    open spec fn inv(self, guarded: Guarded<T>) -> bool {
        &&& guarded.mark() == self.mark@
        &&& crate::history::possible(self.length, guarded.log())
        &&& crate::history::run(self.length, guarded.log()) == guarded.shared()@
    }
}

/// The data that the handles of one channel share, under its lock. The counters of handles and of
/// registered futures are under the lock too, so that each operation is one step.
pub type Lock<T> = RwLock<Guarded<T>, Invariant>;

/// The record of one use of the lock of a channel: what had been done to the channel before, and what
/// was done to it this time. Only [`make`] and [`close`] make one, and [`Done::again`] copies one.
pub struct Done<T> {
    lock: Ghost<Lock<T>>,
    history: Ghost<Seq<Event<T>>>,
    event: Ghost<Option<Event<T>>>,
    polls: Ghost<Seq<Seq<Event<T>>>>,
}

impl<T> Done<T> {
    /// The lock that was used.
    pub closed spec fn lock(self) -> Lock<T> {
        self.lock@
    }

    /// All operations on the channel before this use, from the first one on.
    pub closed spec fn history(self) -> Seq<Event<T>> {
        self.history@
    }

    /// The operation that was carried out, if any.
    pub closed spec fn event(self) -> Option<Event<T>> {
        self.event@
    }

    /// The polls of the future that was withdrawn, if the operation was that: what had been done to the
    /// channel at each of them.
    pub closed spec fn polls(self) -> Seq<Seq<Event<T>>> {
        self.polls@
    }

    /// How many messages the queue of the channel may hold.
    pub open spec fn length(self) -> usize {
        self.lock().pred().length
    }

    /// All operations on the channel up to this use, with its own.
    pub open spec fn log(self) -> Seq<Event<T>> {
        match self.event() {
            Some(event) => self.history().push(event),
            None => self.history(),
        }
    }

    /// The state of the channel before this use.
    pub open spec fn before(self) -> State<T> {
        crate::history::run(self.length(), self.history())
    }

    /// The state of the channel after this use.
    pub open spec fn after(self) -> State<T> {
        crate::history::run(self.length(), self.log())
    }

    /// This is a use of `lock`, and each operation was possible after those before it.
    pub open spec fn on(self, lock: Lock<T>) -> bool {
        &&& self.lock() == lock
        &&& crate::history::possible(self.length(), self.log())
    }

    /// The channel under `lock` was made, and nothing was done to it yet: it is in its initial state.
    pub open spec fn fresh(self, lock: Lock<T>) -> bool {
        &&& self.on(lock)
        &&& self.history() == Seq::<Event<T>>::empty()
        &&& self.event() is None
    }

    /// The same record once more.
    pub(crate) fn again(&self) -> (same: Self)
        ensures
            same == *self,
    {
        Done { lock: self.lock, history: self.history, event: self.event, polls: self.polls }
    }
}

/// What a use of a lock leads to: the operation can take place in the state before it, and the state
/// after it is what the operation makes of that one. Both states are reachable.
pub proof fn lemma_done<T>(done: Done<T>)
    requires
        crate::history::possible(done.length(), done.log()),
    ensures
        crate::history::possible(done.length(), done.history()),
        crate::history::reachable(done.length(), done.before()),
        crate::history::reachable(done.length(), done.after()),
        match done.event() {
            Some(event) => event.enabled(done.before()) && done.after() == event.apply(
                done.before(),
            ),
            None => done.after() == done.before(),
        },
{
    if let Some(event) = done.event() {
        assert(done.log().drop_last() =~= done.history());
    }
}

/// The right to put the data of a channel back under its lock.
pub struct Held<'a, T> {
    handle: WriteHandle<'a, Guarded<T>, Invariant>,
    log: Ghost<Seq<Event<T>>>,
}

impl<'a, T> Held<'a, T> {
    /// The lock.
    pub closed spec fn lock(self) -> Lock<T> {
        self.handle.rwlock()
    }

    /// All operations on the channel so far.
    pub closed spec fn history(self) -> Seq<Event<T>> {
        self.log@
    }

    /// The state of the channel when its data was taken.
    pub open spec fn taken(self) -> State<T> {
        crate::history::run(self.lock().pred().length, self.history())
    }
}

/// Puts the data of a fresh channel with room for `length` messages under a lock. With it come the
/// leaves to make the tickets of its first sender and its first receiver.
pub(crate) fn make<T>(shared: Shared<T>, length: usize) -> (made: (
    Lock<T>,
    Done<T>,
    SenderSeed,
    ReceiverSeed,
))
    requires
        shared@ == State::<T>::initial(length),
    ensures
        made.0.pred().length == length,
        made.1.fresh(made.0),
        made.2.mark() == made.0.pred().mark@,
        made.3.mark() == made.0.pred().mark@,
{
    let (guarded, sender, receiver) = Guarded::fresh(shared);
    let mark = guarded.copy_mark();
    let lock = RwLock::new(guarded, Ghost(Invariant { length, mark }));
    let done = Done {
        lock: Ghost(lock),
        history: Ghost(Seq::empty()),
        event: Ghost(None),
        polls: Ghost(Seq::empty()),
    };
    (lock, done, sender, receiver)
}

/// Takes the data of a channel from under its lock, and waits while someone else has it.
pub(crate) fn open<'a, T>(lock: &'a Lock<T>) -> (opened: (Shared<T>, Rest<T>, Held<'a, T>))
    ensures
        opened.2.lock() == *lock,
        opened.0@ == opened.2.taken(),
        opened.1.log() == opened.2.history(),
        opened.1.mark() == lock.pred().mark@,
        crate::history::possible(lock.pred().length, opened.2.history()),
{
    let (guarded, handle) = lock.acquire_write();
    let (shared, rest) = guarded.take();
    let ghost log = rest.log();
    (shared, rest, Held { handle, log: Ghost(log) })
}

/// Puts the data of a channel back under its lock, after one operation was carried out on it, or none.
pub(crate) fn close<'a, T>(held: Held<'a, T>, guarded: Guarded<T>) -> (done: Done<T>)
    requires
        guarded.mark() == held.lock().pred().mark@,
        crate::history::possible(held.lock().pred().length, held.history()),
        if guarded.log() == held.history() {
            guarded.shared()@ == held.taken()
        } else {
            let event = guarded.log().last();
            &&& guarded.log() == held.history().push(event)
            &&& event.enabled(held.taken())
            &&& guarded.shared()@ == event.apply(held.taken())
        },
    ensures
        done.on(held.lock()),
        done.history() == held.history(),
        done.event() == if guarded.log() == held.history() {
            None
        } else {
            Some(guarded.log().last())
        },
        done.polls() == guarded.polls(),
{
    let ghost lock = held.lock();
    let ghost history = held.history();
    let ghost log = guarded.log();
    let ghost event = if log == history {
        None
    } else {
        Some(log.last())
    };
    proof {
        if event is Some {
            assert(log.drop_last() =~= history);
        }
    }
    let done = Done {
        lock: Ghost(lock),
        history: Ghost(history),
        event: Ghost(event),
        polls: Ghost(guarded.polls()),
    };
    held.handle.release_write(guarded);
    done
}

/// Calls `std::sync::Arc::into_inner`, which gives up one of the owners of a value. What it returns,
/// if anything, is that value: it is returned to the last owner alone. Nothing is claimed of which
/// owner that is.
#[verifier::external_body]
pub(crate) fn into_inner<V>(arc: Arc<V>) -> (inner: Option<V>)
    ensures
        inner matches Some(v) ==> v == *arc,
{
    Arc::into_inner(arc)
}

/// Drops a message. It is done while no lock is held, since the message may hold a handle of its own
/// channel.
pub(crate) fn discard<T>(_msg: Option<T>) {
}

} // verus!
