//! A multi-producer, multi-consumer channel focused towards async usage.
//!
//! [`bounded`] and [`unbounded`] make the two halves of a channel. A [`Sender`] and a [`Receiver`] can
//! be cloned, block the thread in `send` and `recv`, and make futures in `send_async` and `recv_async`.
//! A handle or a future that is not needed any more is given up by its method `drop`. The last
//! handle of a channel to be given up frees what the channel holds.
//!
//! `model` says what each operation makes of a channel, and `history` what a channel can come to by
//! them. The operations on [`Shared`] are proved to be those of the model, and the lock of a channel
//! holds nothing but what such operations lead to. `behaviour` says of each operation, case by case, what
//! it returns and what it leaves. What follows for a channel as a whole stands in
//! `laws`, `conservation`, `order`, `life` and `wakeups`, and for several channels in `apart`.
//!
//! Each use of the lock leaves a record, [`Done`], which names the lock, all that was done to the channel
//! before, and what was done this time. The contracts of handles and futures speak of it, and
//! `handles` says what the laws mean for their calls. The data under the lock changes only by leave of
//! those that have a part in the channel: a handle has a `ticket`, and a future a `pass`, and what each
//! of them gives leave to is stated in `guard`.
use vstd::prelude::*;

pub mod apart;
pub mod behaviour;
pub mod blocking;
pub mod channel;
pub mod conservation;
pub mod error;
pub mod guard;
pub mod handles;
pub mod history;
pub mod laws;
pub mod life;
pub mod lock;
pub mod model;
pub mod order;
pub mod pass;
pub mod receiver;
pub mod sender;
pub mod task;
pub mod ticket;
pub mod wakeups;

pub use blocking::Pollable;
pub use channel::{fits, Channel, Item, Shared};
pub use error::{Error, RecvError, SendError};
pub use lock::Done;
pub use receiver::{Receiver, RecvFut};
pub use sender::{SendFut, Sender};
pub use task::Woken;

verus! {

/// A channel whose queue holds at most `cap` messages. With room for none, a message is handed from
/// a waiting sender to a receiver. The queue is allocated at once, and [`fits`] tells whether it can
/// be. Both halves have the record that the channel was made: it is in its initial state.
pub fn bounded<T>(cap: usize) -> (halves: (Sender<T>, Receiver<T>))
    requires
        crate::channel::allocatable::<T>(cap),
    ensures
        halves.0.channel() == halves.1.channel(),
        halves.0.capacity() == cap,
        halves.1.capacity() == cap,
        halves.0.record().fresh(*halves.0.channel()),
        halves.1.record().fresh(*halves.1.channel()),
{
    Channel::with_capacity(cap)
}

/// A channel whose queue holds any number of messages. Both halves have the record that the
/// channel was made: it is in its initial state.
pub fn unbounded<T>() -> (halves: (Sender<T>, Receiver<T>))
    ensures
        halves.0.channel() == halves.1.channel(),
        halves.0.capacity() == usize::MAX,
        halves.1.capacity() == usize::MAX,
        halves.0.record().fresh(*halves.0.channel()),
        halves.1.record().fresh(*halves.1.channel()),
{
    Channel::with_capacity(usize::MAX)
}

} // verus!
