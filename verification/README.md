# async-ch

A multi-producer, multi-consumer channel focused towards async usage, written and verified in Verus.

```rust
let (tx, rx) = async_ch::unbounded();
(0..10u32).for_each(|i| tx.send(i).unwrap());
tx.drop();
(0..10u32).for_each(|i| assert_eq!(rx.recv(), Ok(i)));
```

* `src/` is the library. `model` describes the states of a channel and what each operation makes of
  them, `history` the states that a channel can come to, and `channel`, `sender` and `receiver` are
  the verified code. `laws`, `conservation`, `order`, `life` and `wakeups` prove what holds of a
  channel as a whole, `apart` what holds of several channels, and `handles` what that says of the
  calls of handles and futures. Each use of the lock leaves a record, which names the lock, all that
  was done to the channel before, and what was done this time; the contracts of the handles speak of
  it. `task` and `blocking` declare what is taken from `std::task` and `futures-lite`.
* `app/` gives the handles and futures of the library the traits that `async` code needs: `Future`,
  and `Drop`, which lets go of the channel where the library has a method `drop` to be called.
* `tests/` runs the library with real wakers.

A handle or a future of the library is given up by its method `drop`. The last handle of a channel to
be given up frees what the channel holds; one that merely goes out of scope frees nothing. `bounded`
allocates its queue at once, and `fits` tells whether that can be done.

The data of a channel stands under a lock of `vstd` that carries its invariant. The lock spins, and
it shares a channel between threads only for messages that are `Send` and `Sync`. Tasks are woken and
withdrawn messages are dropped after the lock is released, so both may use the channel. Wakers are
compared, cloned and replaced while it is held: one that panics when that is done to it leaves the lock
held, and every later operation on the channel waits forever.
