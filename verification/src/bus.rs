//! Broadcast buses.
//!
//! A bus is a fire-and-forget fan-out channel: producers append events, and
//! every subscriber walks the event history from its own cursor. A
//! subscriber's cursor starts at the end of the history, so a session only
//! observes events emitted after it subscribed, and each event reaches each
//! subscriber exactly once, in emission order. No subscriber ever blocks a
//! producer.
use vstd::prelude::*;

verus! {

/// A multi-producer, multi-consumer fan-out channel: the events emitted so
/// far, in order.
pub struct Bus<T> {
    history: Vec<T>,
}

impl<T> View for Bus<T> {
    type V = Seq<T>;

    closed spec fn view(&self) -> Seq<T> {
        self.history@
    }
}

/// One consumer's position in a bus's history: the index of the next event
/// it has not yet received.
pub struct Subscriber {
    /// Index into the bus history of the next event to receive.
    pub cursor: usize,
}

impl<T> Bus<T> {
    /// A bus with no events yet.
    pub fn new() -> (r: Bus<T>)
        ensures
            r@ == Seq::<T>::empty(),
    {
        Bus { history: Vec::new() }
    }

    /// Emits one event: appended to the history, past every subscriber's
    /// cursor, blocking nobody.
    pub fn send(&mut self, v: T)
        ensures
            final(self)@ == old(self)@.push(v),
    {
        self.history.push(v);
    }

    /// Subscribes a new consumer: its cursor starts at the end of the
    /// history, so it observes only events emitted after this call.
    pub fn subscribe(&self) -> (r: Subscriber)
        ensures
            r.cursor == self@.len(),
    {
        Subscriber { cursor: self.history.len() }
    }

    /// The next event for `sub`, advancing its cursor, or `None` where it
    /// has seen the whole history.
    pub fn recv<'a>(&'a self, sub: &mut Subscriber) -> (r: Option<&'a T>)
        ensures
            old(sub).cursor < self@.len() ==> (r matches Some(v) && *v == self@[old(
                sub,
            ).cursor as int] && final(sub).cursor == old(sub).cursor + 1),
            old(sub).cursor >= self@.len() ==> r is None && final(sub).cursor == old(sub).cursor,
    {
        if sub.cursor < self.history.len() {
            let v = &self.history[sub.cursor];
            sub.cursor = sub.cursor + 1;
            Some(v)
        } else {
            None
        }
    }
}

impl<T: Copy> Bus<T> {
    /// Receives everything `sub` has not yet seen, in emission order,
    /// leaving its cursor at the end of the history.
    pub fn drain(&self, sub: &mut Subscriber) -> (r: Vec<T>)
        requires
            old(sub).cursor <= self@.len(),
        ensures
            r@ == self@.subrange(old(sub).cursor as int, self@.len() as int),
            final(sub).cursor == self@.len(),
    {
        let mut r: Vec<T> = Vec::new();
        let ghost c0 = sub.cursor as int;
        while sub.cursor < self.history.len()
            invariant
                c0 <= sub.cursor <= self@.len() == self.history@.len(),
                r@.len() == sub.cursor - c0,
                forall|t: int| 0 <= t < r@.len() ==> r@[t] == self@[c0 + t],
            decreases self@.len() - sub.cursor,
        {
            r.push(self.history[sub.cursor]);
            sub.cursor = sub.cursor + 1;
        }
        proof {
            assert(r@ =~= self@.subrange(c0, self@.len() as int));
        }
        r
    }
}

/// Fan-out correctness: one event is sent on a bus with history `h`. Every
/// subscriber that subscribed before the send — its cursor `c` at most
/// `h.len()` — receives, when it drains, everything it had not yet seen and
/// then the new event exactly once. A subscriber that subscribes after the
/// send — its cursor at the new end of the history — receives nothing.
pub proof fn lemma_fanout_exactly_once<T>(h: Seq<T>, v: T, c: int)
    requires
        0 <= c <= h.len(),
    ensures
        h.push(v).subrange(c, h.len() + 1int) == h.subrange(c, h.len() as int).push(v),
        h.push(v).subrange(h.len() + 1int, h.len() + 1int) == Seq::<T>::empty(),
{
    assert(h.push(v).subrange(c, h.len() + 1int) =~= h.subrange(c, h.len() as int).push(v));
    assert(h.push(v).subrange(h.len() + 1int, h.len() + 1int) =~= Seq::<T>::empty());
}

} // verus!
