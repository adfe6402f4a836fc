use async_ch::{bounded, fits, unbounded, RecvError, SendError};
use std::sync::atomic::{AtomicUsize, Ordering};
use std::sync::Arc;
use std::task::{Poll, Waker};

struct DebugWaker(Arc<AtomicUsize>, Waker);

impl DebugWaker {
    fn new() -> Self {
        let woken = Arc::new(AtomicUsize::new(0));
        let woken_cloned = woken.clone();
        let waker = waker_fn::waker_fn(move || {
            woken.fetch_add(1, Ordering::SeqCst);
        });
        DebugWaker(woken_cloned, waker)
    }

    fn woken(&self) -> usize {
        self.0.load(Ordering::SeqCst)
    }
}

#[test]
fn change_waker() {
    let (tx, rx) = bounded(1);
    tx.send(()).unwrap();

    // Check that the waker is correctly updated when sending tasks change their wakers
    {
        let mut send_fut = tx.send_async(());

        let (waker1, waker2) = (DebugWaker::new(), DebugWaker::new());

        // Set the waker to waker1
        assert_eq!(send_fut.poll(&waker1.1), Poll::Pending);

        // Change the waker to waker2
        assert_eq!(send_fut.poll(&waker2.1), Poll::Pending);

        // Wake the future
        rx.recv().unwrap();

        // Check that waker2 was woken and waker1 was not
        assert_eq!(waker1.woken(), 0);
        assert_eq!(waker2.woken(), 1);
        send_fut.drop();
    }

    // Check that the waker is correctly updated when receiving tasks change their wakers
    {
        rx.recv().unwrap();
        let mut recv_fut = rx.recv_async();

        let (waker1, waker2) = (DebugWaker::new(), DebugWaker::new());

        // Set the waker to waker1
        assert_eq!(recv_fut.poll(&waker1.1), Poll::Pending);

        // Change the waker to waker2
        assert_eq!(recv_fut.poll(&waker2.1), Poll::Pending);

        // Wake the future
        tx.send(()).unwrap();

        // Check that waker2 was woken and waker1 was not
        assert_eq!(waker1.woken(), 0);
        assert_eq!(waker2.woken(), 1);
        recv_fut.drop();
    }
}

#[test]
fn waiting_receiver_gets_the_message() {
    let (tx, rx) = unbounded();
    let task = DebugWaker::new();
    let mut recv_fut = rx.recv_async();
    assert_eq!(recv_fut.poll(&task.1), Poll::Pending);
    tx.send(42u32).unwrap();
    assert_eq!(task.woken(), 1);
    assert_eq!(recv_fut.poll(&task.1), Poll::Ready(Ok(42)));
    assert!(recv_fut.drop().1.is_none());
}

#[test]
fn waiting_sender_resolves_when_its_message_is_taken() {
    let (tx, rx) = bounded(0);
    let task = DebugWaker::new();
    let mut send_fut = tx.send_async(42u32);
    assert_eq!(send_fut.poll(&task.1), Poll::Pending);
    assert_eq!(send_fut.poll(&task.1), Poll::Pending);
    assert_eq!(task.woken(), 0);
    assert_eq!(rx.recv(), Ok(42));
    assert_eq!(task.woken(), 1);
    assert_eq!(send_fut.poll(&task.1), Poll::Ready(Ok(())));
    assert!(send_fut.drop().1.is_none());
}

#[test]
fn last_sender_disconnects_a_waiting_receiver() {
    let (tx, rx) = bounded::<i32>(0);
    let task = DebugWaker::new();
    let mut recv_fut = rx.recv_async();
    assert_eq!(recv_fut.poll(&task.1), Poll::Pending);
    let tx2 = tx.clone();
    assert_eq!(tx.drop().1.len(), 0);
    assert_eq!(task.woken(), 0);
    assert_eq!(recv_fut.poll(&task.1), Poll::Pending);
    assert_eq!(tx2.drop().1.len(), 1);
    assert_eq!(task.woken(), 1);
    assert_eq!(recv_fut.poll(&task.1), Poll::Ready(Err(RecvError::Disconnected)));
    assert!(recv_fut.drop().1.is_some());
    assert_eq!(rx.recv(), Err(RecvError::Disconnected));
}

#[test]
fn last_receiver_hands_messages_back() {
    let (tx, rx) = bounded(0);
    let task = DebugWaker::new();
    let mut send_fut = tx.send_async(42u32);
    assert_eq!(send_fut.poll(&task.1), Poll::Pending);
    let rx2 = rx.clone();
    assert_eq!(rx.drop().1.len(), 0);
    assert_eq!(task.woken(), 0);
    assert_eq!(send_fut.poll(&task.1), Poll::Pending);
    assert_eq!(rx2.drop().1.len(), 1);
    assert_eq!(task.woken(), 1);
    assert_eq!(send_fut.poll(&task.1), Poll::Ready(Err(SendError(42))));
    assert_eq!(send_fut.poll(&task.1), Poll::Pending);
    assert!(send_fut.drop().1.is_some());
    assert_eq!(tx.send(43), Err(SendError(43)));
}

#[test]
fn messages_outlive_the_last_sender() {
    let (tx, rx) = unbounded();
    (0..10u32).for_each(|i| tx.send(i).unwrap());
    tx.drop();
    (0..10u32).for_each(|i| assert_eq!(rx.recv(), Ok(i)));
    assert_eq!(rx.recv(), Err(RecvError::Disconnected));
}

#[test]
fn a_full_channel_makes_senders_wait() {
    let (tx, rx) = bounded(2);
    let task = DebugWaker::new();
    tx.send('a').unwrap();
    tx.send('b').unwrap();
    let mut send_fut = tx.send_async('c');
    assert_eq!(send_fut.poll(&task.1), Poll::Pending);
    // The message of a waiting sender is taken before those in the queue.
    assert_eq!(rx.recv(), Ok('c'));
    assert_eq!(send_fut.poll(&task.1), Poll::Ready(Ok(())));
    assert_eq!(rx.recv(), Ok('a'));
    assert_eq!(rx.recv(), Ok('b'));
}

#[test]
fn unbounded_keeps_the_order() {
    let (tx, rx) = unbounded();
    let task = DebugWaker::new();
    let mut next: u64 = 0;
    for round in 0..250u64 {
        // The receiver waits for the first of four messages, and takes the others from the queue.
        let mut recv_fut = rx.recv_async();
        assert_eq!(recv_fut.poll(&task.1), Poll::Pending);
        for i in 0..4 {
            tx.send(4 * round + i).unwrap();
        }
        assert_eq!(recv_fut.poll(&task.1), Poll::Ready(Ok(next)));
        recv_fut.drop();
        next += 1;
        for _ in 1..4 {
            assert_eq!(rx.recv(), Ok(next));
            next += 1;
        }
    }
    assert_eq!(next, 1000);
}

#[test]
fn a_cancelled_sender_takes_its_message_along() {
    let (tx, rx) = bounded(0);
    let (task, other) = (DebugWaker::new(), DebugWaker::new());
    let mut send_fut = tx.send_async(1u8);
    assert_eq!(send_fut.poll(&task.1), Poll::Pending);
    assert!(send_fut.drop().1.is_some());
    assert_eq!(task.woken(), 1);
    let mut recv_fut = rx.recv_async();
    assert_eq!(recv_fut.poll(&other.1), Poll::Pending);
    tx.send(2).unwrap();
    assert_eq!(recv_fut.poll(&other.1), Poll::Ready(Ok(2)));
}

#[test]
fn a_cancelled_receiver_is_passed_over() {
    let (tx, rx) = bounded(10);
    let (gone, task) = (DebugWaker::new(), DebugWaker::new());
    let mut unpolled = rx.recv_async();
    let mut cancelled = rx.recv_async();
    assert_eq!(cancelled.poll(&gone.1), Poll::Pending);
    assert!(cancelled.drop().1.is_some());
    let rx2 = rx.clone();
    let mut recv_fut = rx2.recv_async();
    assert_eq!(recv_fut.poll(&task.1), Poll::Pending);
    tx.send(42).unwrap();
    assert!(unpolled.drop().1.is_none());
    assert_eq!(gone.woken(), 1);
    assert_eq!(task.woken(), 1);
    assert_eq!(recv_fut.poll(&task.1), Poll::Ready(Ok(42)));
}

#[test]
fn a_withdrawn_registration_is_reported() {
    let (tx, rx) = bounded::<u8>(1);
    let task = DebugWaker::new();
    let (mut first, mut second) = (rx.recv_async(), rx.recv_async());
    assert_eq!(first.poll(&task.1), Poll::Pending);
    // Both futures belong to one task, so the second takes itself for registered after its own poll.
    assert_eq!(second.poll(&task.1), Poll::Pending);
    assert!(first.drop().1.is_some());
    assert_eq!(second.poll(&task.1), Poll::Ready(Err(RecvError::Cancelled)));
    tx.send(7).unwrap();
    assert_eq!(second.poll(&task.1), Poll::Ready(Ok(7)));
}

#[test]
fn two_receivers_each_get_a_message() {
    let (tx, rx) = unbounded();
    let (task1, task2) = (DebugWaker::new(), DebugWaker::new());
    let (mut fut1, mut fut2) = (rx.recv_async(), rx.recv_async());
    assert_eq!(fut1.poll(&task1.1), Poll::Pending);
    assert_eq!(fut2.poll(&task2.1), Poll::Pending);
    tx.send(1u8).unwrap();
    assert_eq!((task1.woken(), task2.woken()), (1, 0));
    tx.send(2).unwrap();
    assert_eq!((task1.woken(), task2.woken()), (1, 1));
    assert_eq!(fut2.poll(&task2.1), Poll::Ready(Ok(2)));
    assert_eq!(fut1.poll(&task1.1), Poll::Ready(Ok(1)));
}

#[test]
fn a_resolved_sender_without_receivers_stays_pending() {
    let (tx, rx) = bounded(1);
    let task = DebugWaker::new();
    let mut send_fut = tx.send_async(1u8);
    assert_eq!(send_fut.poll(&task.1), Poll::Ready(Ok(())));
    rx.drop();
    assert_eq!(send_fut.poll(&task.1), Poll::Pending);
}

#[test]
fn registrations_are_counted_modulo_256() {
    for (n, woken) in [(255usize, true), (256, false), (257, true)] {
        let (tx, rx) = bounded::<u8>(0);
        let tasks: Vec<DebugWaker> = (0..n).map(|_| DebugWaker::new()).collect();
        for task in tasks.iter() {
            let mut recv_fut = rx.recv_async();
            assert_eq!(recv_fut.poll(&task.1), Poll::Pending);
        }
        assert_eq!(tx.drop().1.len(), if woken { n } else { 0 });
        for task in tasks.iter() {
            assert_eq!(task.woken(), woken as usize);
        }
    }
}

#[test]
fn a_queue_must_be_allocatable() {
    assert!(fits::<u64>(0));
    assert!(fits::<u64>(10));
    assert!(fits::<u64>(usize::MAX));
    assert!(!fits::<u64>(usize::MAX - 1));
    assert!(fits::<u64>(isize::MAX as usize / 16));
    assert!(!fits::<u64>(isize::MAX as usize / 16 + 1));
    assert!(fits::<[u8; 40]>(1));
    let (tx, rx) = bounded::<u64>(10);
    tx.send(9).unwrap();
    assert_eq!(rx.recv(), Ok(9));
}

struct Counted(Arc<AtomicUsize>);

impl Drop for Counted {
    fn drop(&mut self) {
        self.0.fetch_add(1, Ordering::SeqCst);
    }
}

#[test]
fn the_last_handle_frees_the_messages() {
    let freed = Arc::new(AtomicUsize::new(0));
    let task = DebugWaker::new();
    let (tx, rx) = bounded(3);
    for _ in 0..3 {
        assert!(tx.send(Counted(freed.clone())).is_ok());
    }
    // A waiting sender keeps its message in the channel.
    let mut send_fut = tx.send_async(Counted(freed.clone()));
    assert!(send_fut.poll(&task.1).is_pending());
    let tx2 = tx.clone();
    rx.drop();
    tx.drop();
    assert_eq!(freed.load(Ordering::SeqCst), 0);
    tx2.drop();
    assert_eq!(freed.load(Ordering::SeqCst), 4);
}

#[test]
fn the_last_receiver_frees_the_messages_too() {
    let freed = Arc::new(AtomicUsize::new(0));
    let (tx, rx) = unbounded();
    for _ in 0..5 {
        assert!(tx.send(Counted(freed.clone())).is_ok());
    }
    tx.drop();
    drop(rx.recv());
    assert_eq!(freed.load(Ordering::SeqCst), 1);
    let rx2 = rx.clone();
    rx2.drop();
    assert_eq!(freed.load(Ordering::SeqCst), 1);
    rx.drop();
    assert_eq!(freed.load(Ordering::SeqCst), 5);
}

#[test]
fn the_first_messages_fill_the_queue() {
    let (tx, rx) = bounded(4);
    let tasks: Vec<DebugWaker> = (0..7).map(|_| DebugWaker::new()).collect();
    for (i, task) in tasks.iter().enumerate() {
        let mut send_fut = tx.send_async(i);
        let expected = if i < 4 { Poll::Ready(Ok(())) } else { Poll::Pending };
        assert_eq!(send_fut.poll(&task.1), expected);
    }
    for i in [4, 5, 6, 0, 1, 2, 3] {
        assert_eq!(rx.recv(), Ok(i));
    }
}

#[test]
fn every_message_is_received_once() {
    let (tx, rx) = bounded(3);
    let (tx2, rx2) = (tx.clone(), rx.clone());
    let mut received = vec![];
    for round in 0..100usize {
        let (first, second) = (DebugWaker::new(), DebugWaker::new());
        let mut waiting = rx2.recv_async();
        assert_eq!(waiting.poll(&first.1), Poll::Pending);
        tx.send(5 * round).unwrap();
        for i in 1..4 {
            tx2.send(5 * round + i).unwrap();
        }
        let mut offering = tx.send_async(5 * round + 4);
        assert_eq!(offering.poll(&second.1), Poll::Pending);
        match waiting.poll(&first.1) {
            Poll::Ready(Ok(msg)) => received.push(msg),
            other => panic!("{:?}", other),
        }
        for _ in 0..4 {
            received.push(rx.recv().unwrap());
        }
        assert_eq!(offering.poll(&second.1), Poll::Ready(Ok(())));
    }
    received.sort();
    assert_eq!(received, (0..500).collect::<Vec<usize>>());
    // Nothing is left.
    tx.drop();
    tx2.drop();
    assert_eq!(rx.recv(), Err(RecvError::Disconnected));
}

#[test]
fn receiving_ends_for_all_receivers() {
    let (tx, rx) = unbounded();
    (0..6u32).for_each(|i| tx.send(i).unwrap());
    tx.drop();
    let receivers: Vec<_> = (0..4).map(|_| rx.clone()).collect();
    let mut received = 0;
    for rx in receivers.iter().cycle() {
        match rx.recv() {
            Ok(msg) => {
                assert_eq!(msg, received);
                received += 1;
            }
            Err(error) => {
                assert_eq!(error, RecvError::Disconnected);
                break;
            }
        }
    }
    assert_eq!(received, 6);
    for rx in receivers.iter() {
        assert_eq!(rx.recv(), Err(RecvError::Disconnected));
    }
}

#[test]
fn a_send_is_refused_only_before_it_is_accepted() {
    let (tx, rx) = bounded(0);
    let (taken, refused) = (DebugWaker::new(), DebugWaker::new());
    let (mut first, mut second) = (tx.send_async('a'), tx.send_async('b'));
    assert_eq!(first.poll(&taken.1), Poll::Pending);
    assert_eq!(second.poll(&refused.1), Poll::Pending);
    assert_eq!(rx.recv(), Ok('a'));
    assert_eq!(second.poll(&refused.1), Poll::Pending);
    rx.drop();
    // Accepted before the last receiver went: it succeeds, although nobody can receive any more.
    assert_eq!(first.poll(&taken.1), Poll::Ready(Ok(())));
    assert_eq!(second.poll(&refused.1), Poll::Ready(Err(SendError('b'))));
    assert_eq!(tx.send('c'), Err(SendError('c')));
}

#[test]
fn channels_share_nothing() {
    let (tx1, rx1) = unbounded();
    let (tx2, rx2) = unbounded();
    tx1.send(1u8).unwrap();
    tx2.send(2u8).unwrap();
    assert_eq!(rx2.recv(), Ok(2));
    assert_eq!(rx1.recv(), Ok(1));
    tx1.drop();
    tx2.send(3).unwrap();
    assert_eq!(rx2.recv(), Ok(3));
    assert_eq!(rx1.recv(), Err(RecvError::Disconnected));
}

#[test]
fn the_last_sender_wakes_every_receiver_once() {
    let (tx, rx) = bounded::<i32>(1);
    let tx2 = tx.clone();
    let tasks: Vec<DebugWaker> = (0..250).map(|_| DebugWaker::new()).collect();
    let mut futs: Vec<_> = tasks.iter().map(|_| rx.recv_async()).collect();
    for (fut, task) in futs.iter_mut().zip(tasks.iter()) {
        assert_eq!(fut.poll(&task.1), Poll::Pending);
    }
    assert_eq!(tx.drop().1.len(), 0);
    assert!(tasks.iter().all(|task| task.woken() == 0));
    assert_eq!(tx2.drop().1.len(), 250);
    assert!(tasks.iter().all(|task| task.woken() == 1));
    for (fut, task) in futs.iter_mut().zip(tasks.iter()) {
        assert_eq!(fut.poll(&task.1), Poll::Ready(Err(RecvError::Disconnected)));
    }
}

#[test]
fn the_last_receiver_wakes_every_sender_once() {
    let (tx, rx) = bounded(0);
    let rx2 = rx.clone();
    let tasks: Vec<DebugWaker> = (0..5).map(|_| DebugWaker::new()).collect();
    let mut futs: Vec<_> = (0..5).map(|i| tx.send_async(i)).collect();
    for (fut, task) in futs.iter_mut().zip(tasks.iter()) {
        assert_eq!(fut.poll(&task.1), Poll::Pending);
    }
    assert_eq!(rx.drop().1.len(), 0);
    assert!(tasks.iter().all(|task| task.woken() == 0));
    assert_eq!(rx2.drop().1.len(), 5);
    assert!(tasks.iter().all(|task| task.woken() == 1));
    for (i, fut) in futs.iter_mut().enumerate() {
        assert_eq!(fut.poll(&tasks[i].1), Poll::Ready(Err(SendError(i))));
    }
}

#[test]
fn a_waker_may_use_the_channel() {
    let (tx, rx) = bounded::<u8>(0);
    let tx_of_task = tx.clone();
    let used = Arc::new(AtomicUsize::new(0));
    let used_by_task = used.clone();
    let waker = waker_fn::waker_fn(move || {
        let clone = tx_of_task.clone();
        clone.drop();
        used_by_task.fetch_add(1, Ordering::SeqCst);
    });
    let mut recv_fut = rx.recv_async();
    assert_eq!(recv_fut.poll(&waker), Poll::Pending);
    tx.send(1).unwrap();
    assert_eq!(used.load(Ordering::SeqCst), 1);
    assert_eq!(recv_fut.poll(&waker), Poll::Ready(Ok(1)));
    let mut recv_fut = rx.recv_async();
    assert_eq!(recv_fut.poll(&waker), Poll::Pending);
    assert!(recv_fut.drop().1.is_some());
    assert_eq!(used.load(Ordering::SeqCst), 2);
}

struct Loop(Option<async_ch::Sender<Loop>>, Arc<AtomicUsize>);

impl Drop for Loop {
    fn drop(&mut self) {
        if let Some(tx) = self.0.take() {
            tx.drop();
            self.1.fetch_add(1, Ordering::SeqCst);
        }
    }
}

#[test]
fn a_withdrawn_message_may_hold_a_handle_of_its_channel() {
    let (tx, rx) = bounded::<Loop>(0);
    let dropped = Arc::new(AtomicUsize::new(0));
    let task = DebugWaker::new();
    let mut send_fut = tx.send_async(Loop(Some(tx.clone()), dropped.clone()));
    assert!(send_fut.poll(&task.1).is_pending());
    assert_eq!(dropped.load(Ordering::SeqCst), 0);
    assert!(send_fut.drop().1.is_some());
    assert_eq!(dropped.load(Ordering::SeqCst), 1);
    // The slot is gone, and the handle of the message with it.
    tx.drop();
    assert!(matches!(rx.recv(), Err(RecvError::Disconnected)));
}

#[test]
fn a_replaced_waker_may_hold_a_handle() {
    let (tx, rx) = bounded::<Loop>(0);
    let dropped = Arc::new(AtomicUsize::new(0));
    let held = Loop(Some(tx.clone()), dropped.clone());
    let first = waker_fn::waker_fn(move || {
        let _ = &held;
    });
    let task = DebugWaker::new();
    let mut recv_fut = rx.recv_async();
    assert!(recv_fut.poll(&first).is_pending());
    drop(first);
    assert_eq!(dropped.load(Ordering::SeqCst), 0);
    assert!(recv_fut.poll(&task.1).is_pending());
    assert_eq!(dropped.load(Ordering::SeqCst), 1);
    assert_eq!(tx.drop().1.len(), 1);
    assert_eq!(task.woken(), 1);
    assert!(matches!(recv_fut.poll(&task.1), Poll::Ready(Err(RecvError::Disconnected))));
}
