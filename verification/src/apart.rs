//! Several channels side by side.
use crate::history::Event;
use crate::model::State;
use vstd::prelude::*;

verus! {

/// The states that `events` lead to, each of which takes place on the channel with the given number.
pub open spec fn all_after<T>(channels: Seq<State<T>>, events: Seq<(int, Event<T>)>) -> Seq<State<T>>
    decreases events.len(),
{
    if events.len() == 0 {
        channels
    } else {
        let before = all_after(channels, events.drop_last());
        let (c, e) = events.last();
        before.update(c, e.apply(before[c]))
    }
}

/// Those of `events` that take place on the channel `c`, in order.
pub open spec fn events_of<T>(events: Seq<(int, Event<T>)>, c: int) -> Seq<Event<T>>
    decreases events.len(),
{
    if events.len() == 0 {
        Seq::empty()
    } else if events.last().0 == c {
        events_of(events.drop_last(), c).push(events.last().1)
    } else {
        events_of(events.drop_last(), c)
    }
}

/// Channels share nothing: whatever is done to the others in the meantime, a channel comes to the state
/// that its own operations lead to. So what a poll of one of its futures returns, and whom it wakes,
/// depends on nothing that is done to another channel.
pub proof fn law_channels_apart<T>(
    channels: Seq<State<T>>,
    events: Seq<(int, Event<T>)>,
    c: int,
)
    requires
        0 <= c < channels.len(),
        forall|k: int| 0 <= k < events.len() ==> 0 <= (#[trigger] events[k]).0 < channels.len(),
    ensures
        all_after(channels, events).len() == channels.len(),
        all_after(channels, events)[c] == crate::history::after(channels[c], events_of(events, c)),
    decreases events.len(),
{
    if events.len() > 0 {
        law_channels_apart(channels, events.drop_last(), c);
        let (d, e) = events.last();
        assert(0 <= events[events.len() - 1].0 < channels.len());
        if d == c {
            let own = events_of(events.drop_last(), c);
            assert(own.push(e).drop_last() =~= own);
        }
    }
}

} // verus!
