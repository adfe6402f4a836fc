//! Waiting for a future on the current thread.
use std::task::{Poll, Waker};
use vstd::prelude::*;

verus! {

/// A future that is polled with a bare waker.
pub trait Pollable: Sized {
    type Output;

    /// What holds of a poll by the task of `waker` that leaves `after` and returns `poll`.
    spec fn polled(self, waker: Waker, after: Self, poll: Poll<Self::Output>) -> bool;

    /// Polls the future on behalf of the task of `waker`.
    fn poll_once(&mut self, waker: &Waker) -> (poll: Poll<Self::Output>)
        ensures
            old(self).polled(*waker, *final(self), poll),
    ;
}

/// `before` was polled by the task of one waker until the poll that left `after` returned `output`:
/// each element of `trace` was polled, and all polls but the last were pending.
pub open spec fn polled_along<F: Pollable>(
    trace: Seq<F>,
    waker: Waker,
    before: F,
    after: F,
    output: F::Output,
) -> bool {
    &&& trace.len() > 0
    &&& trace[0] == before
    &&& forall|i: int|
        0 <= i < trace.len() - 1 ==> (#[trigger] trace[i]).polled(waker, trace[i + 1], Poll::Pending)
    &&& trace.last().polled(waker, after, Poll::Ready(output))
}

/// `before` was polled by one task until it resolved to `output`, which left `after`.
pub open spec fn polled_until_ready<F: Pollable>(before: F, after: F, output: F::Output) -> bool {
    exists|trace: Seq<F>, waker: Waker| polled_along(trace, waker, before, after, output)
}

/// Calls `futures_lite::future::block_on` on a future that `futures_lite::future::poll_fn` makes of
/// the polls of `fut`. It polls with one and the same waker, parks the thread after each pending
/// poll, and returns what the first poll that is ready returned. It does not return if no poll is,
/// and it needs the thread-local storage of the thread.
#[verifier::external_body]
pub(crate) fn block_on<F: Pollable>(fut: &mut F) -> (output: F::Output)
    ensures
        polled_until_ready(*old(fut), *final(fut), output),
{
    futures_lite::future::block_on(futures_lite::future::poll_fn(|cx| fut.poll_once(cx.waker())))
}

} // verus!
