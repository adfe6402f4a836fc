use async_ch::{Error, Item, RecvError, SendError, Shared};
use std::task::{Poll, Waker};

fn waker() -> Waker {
    waker_fn::waker_fn(|| ())
}

#[test]
fn a_message_goes_through_the_queue() {
    let mut shared = Shared::<u32>::new(1);
    let w = waker();
    let (mut msg, mut reg) = (Some(5), None);
    assert_eq!(shared.poll_send(&mut msg, &mut reg, &w), (Poll::Ready(Ok(())), None));
    assert_eq!(msg, None);
    assert!(reg.is_none());
    let mut reg = None;
    assert_eq!(shared.poll_recv(&mut reg, &w), (Poll::Ready(Ok(5)), None));
    assert!(reg.is_none());
}

#[test]
fn the_first_asking_receiver_is_woken() {
    let mut shared = Shared::<u32>::new(3);
    let (w1, w2, w3) = (waker(), waker(), waker());
    let (mut reg1, mut reg2) = (None, None);
    assert_eq!(shared.poll_recv(&mut reg1, &w1), (Poll::Pending, None));
    assert_eq!(shared.poll_recv(&mut reg2, &w2), (Poll::Pending, None));
    assert!(reg1.as_ref().map_or(false, |reg| reg.will_wake(&w1)));
    assert_eq!(shared.cancel_recv(&reg1), (Some(0), None));
    assert_eq!(shared.poll_send(&mut Some(1), &mut None, &w3), (Poll::Ready(Ok(())), Some(1)));
    assert_eq!(shared.poll_send(&mut Some(2), &mut None, &w3), (Poll::Ready(Ok(())), None));
    assert_eq!(shared.poll_recv(&mut reg2, &w2), (Poll::Ready(Ok(1)), None));
    assert_eq!(shared.poll_recv(&mut reg1, &w1), (Poll::Ready(Err(RecvError::Cancelled)), None));
    assert_eq!(shared.poll_recv(&mut None, &w1), (Poll::Ready(Ok(2)), None));
}

#[test]
fn the_first_offering_sender_is_woken() {
    let mut shared = Shared::<u32>::new(0);
    let (w1, w2, w3) = (waker(), waker(), waker());
    let (mut reg1, mut reg2) = (None, None);
    assert_eq!(shared.poll_send(&mut Some(1), &mut reg1, &w1), (Poll::Pending, None));
    assert_eq!(shared.poll_send(&mut Some(2), &mut reg2, &w2), (Poll::Pending, None));
    assert_eq!(shared.cancel_send(&None), (None, None));
    assert_eq!(shared.cancel_send(&reg1), (Some(0), Some(1)));
    assert_eq!(shared.poll_recv(&mut None, &w3), (Poll::Ready(Ok(2)), Some(1)));
    assert_eq!(shared.poll_recv(&mut None, &w3), (Poll::Pending, None));
    assert_eq!(shared.poll_send(&mut None, &mut reg2, &w2), (Poll::Ready(Ok(())), None));
}

#[test]
fn the_last_handle_decides() {
    let mut shared = Shared::<u32>::new(0);
    let w = waker();
    let mut reg = None;
    assert_eq!(shared.poll_send(&mut Some(1), &mut reg, &w), (Poll::Pending, None));
    shared.add_receiver();
    assert_eq!(shared.remove_receiver().len(), 0);
    let to_wake = shared.remove_receiver();
    assert_eq!(to_wake.len(), 1);
    assert!(to_wake[0].will_wake(&w));
    assert!(shared.can_send(&None, &reg));
    assert_eq!(shared.poll_send(&mut None, &mut reg, &w), (Poll::Ready(Err(SendError(1))), None));
    assert!(!shared.can_send(&None, &reg));
    assert!(!shared.can_send(&None, &None));
    assert!(shared.can_send(&Some(2), &None));
    assert_eq!(shared.poll_send(&mut Some(2), &mut None, &w), (Poll::Ready(Err(SendError(2))), None));
    shared.add_sender();
    assert_eq!(shared.remove_sender().len(), 0);
    // No receiver is registered.
    assert_eq!(shared.remove_sender().len(), 0);
}

#[test]
fn a_future_that_lost_its_message_leaves_a_gap() {
    let mut shared = Shared::<u32>::new(2);
    let w = waker();
    assert_eq!(shared.poll_send(&mut None, &mut None, &w), (Poll::Ready(Ok(())), None));
    assert_eq!(shared.poll_send(&mut Some(1), &mut None, &w), (Poll::Ready(Ok(())), None));
    // The gap is removed, and the receiver waits although there is a message behind it.
    let mut reg = None;
    assert_eq!(shared.poll_recv(&mut reg, &w), (Poll::Pending, None));
    assert_eq!(shared.poll_recv(&mut None, &w), (Poll::Ready(Ok(1)), None));
    // A gap can also be handed to a waiting receiver, which then has nothing to take.
    assert_eq!(shared.poll_send(&mut None, &mut None, &w), (Poll::Ready(Ok(())), Some(0)));
    assert!(!shared.can_recv(&reg));
    assert!(shared.can_recv(&None));
}

#[test]
fn errors_compare() {
    assert_ne!(Error::LockPoisoned, Error::Disconnected);
    assert!(Error::LockPoisoned < Error::Disconnected);
    assert_eq!(SendError(1), SendError(1));
    assert_ne!(RecvError::Disconnected, RecvError::Cancelled);
    assert!(matches!(Item::Occupied(Some(1)), Item::Occupied(Some(1))));
}
