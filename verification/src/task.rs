//! What the channel uses of `std::task`.
use std::task::{Poll, Waker};
use vstd::prelude::*;

verus! {

/// `std::task::Waker`, the handle by which a task is asked to poll again. It is opaque: a channel
/// only stores wakers, compares them and wakes them.
#[verifier::external_type_specification]
#[verifier::external_body]
pub struct ExWaker(Waker);

/// `std::task::Poll`, with its two variants.
#[verifier::external_type_specification]
pub struct ExPoll<T>(Poll<T>);

/// Whether `std::task::Waker::will_wake` holds of `a` and `b`.
pub uninterp spec fn wakes_same(a: Waker, b: Waker) -> bool;

/// `std::task::Waker::will_wake` only looks at its two arguments. Nothing more is claimed: it works
/// on a best effort, so it may be false of two wakers of one task.
pub assume_specification[ Waker::will_wake ](a: &Waker, b: &Waker) -> (same: bool)
    ensures
        same == wakes_same(*a, *b),
;

/// `std::task::Waker::wake_by_ref` asks the task of the waker to poll again. Its effect lies outside
/// of the channel, and nothing is claimed of it.
pub assume_specification[ Waker::wake_by_ref ](waker: &Waker)
;

/// `<std::task::Waker as Clone>::clone`. Nothing is claimed of the copy but that it came out of this
/// call, which is what `cloned` says of the two values.
pub assume_specification[ <Waker as Clone>::clone ](waker: &Waker) -> Waker
;

/// The record that a waker was woken: its view is that waker. Nothing but [`wake`] makes one.
pub struct Woken(Ghost<Waker>);

impl View for Woken {
    type V = Waker;

    closed spec fn view(&self) -> Waker {
        self.0@
    }
}

/// Wakes the task of `waker`.
pub(crate) fn wake(waker: &Waker) -> (woken: Woken)
    ensures
        woken@ == *waker,
{
    waker.wake_by_ref();
    Woken(Ghost(*waker))
}

} // verus!
