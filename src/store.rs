//! The retention store: captured events in arrival order, trimmed by age.

use vstd::prelude::*;
use crate::clock::local_now;
use crate::record::Event;
use crate::sink::{all_text, render_all};

verus! {

broadcast use {vstd::seq_lib::group_seq_properties, vstd::seq_lib::group_filter_ensures};

/// How long ago, in seconds, `e` was captured, seen at `now`.
pub open spec fn age(e: Event, now: int) -> int {
    now - e.timestamp.secs
}

/// `e` is younger than `window` at `now`, and so survives eviction.
pub open spec fn is_fresh(e: Event, window: int, now: int) -> bool {
    age(e, now) < window
}

/// What eviction with `window` at `now` leaves of `s`: the fresh events, in order.
pub open spec fn survivors(s: Seq<Event>, window: int, now: int) -> Seq<Event> {
    s.filter(fresh_at(window, now))
}

pub open spec fn fresh_at(window: int, now: int) -> spec_fn(Event) -> bool {
    |e: Event| is_fresh(e, window, now)
}

/// The outcome of one periodic sweep.
pub struct Sweep {
    /// The instant, in seconds since the Unix epoch, at which ages were taken.
    pub now: i64,
    /// How many events were evicted.
    pub removed: usize,
    /// The full text to rewrite the destination with, where anything was evicted.
    pub rewrite: Option<String>,
}

/// Captured events in the order they arrived.
pub struct RetentionStore {
    events: Vec<Event>,
}

impl RetentionStore {
    pub closed spec fn view(&self) -> Seq<Event> {
        self.events@
    }

    pub fn new() -> (r: RetentionStore)
        ensures
            r.view() == Seq::<Event>::empty(),
    {
        RetentionStore { events: Vec::new() }
    }

    pub fn len(&self) -> (r: usize)
        ensures
            r == self.view().len(),
    {
        self.events.len()
    }

    /// Adds `e` after every event already held.
    pub fn append(&mut self, e: Event)
        ensures
            final(self).view() == old(self).view().push(e),
    {
        self.events.push(e);
    }

    /// Removes every event whose age at `now` is `window` seconds or more,
    /// keeps the others in their order, and returns how many were removed.
    pub fn evict_older_than(&mut self, window: u64, now: i64) -> (r: usize)
        ensures
            final(self).view() == survivors(old(self).view(), window as int, now as int),
            r == old(self).view().len() - final(self).view().len(),
    {
        let mut kept: Vec<Event> = Vec::new();
        let mut i: usize = 0;
        while i < self.events.len()
            invariant
                i <= self.events@.len(),
                kept@ == survivors(self.events@.take(i as int), window as int, now as int),
                kept@.len() <= i,
            decreases self.events@.len() - i,
        {
            let e = &self.events[i];
            let keep = (now as i128) - (e.timestamp.secs as i128) < (window as i128);
            proof {
                assert(self.events@.take(i + 1) =~= self.events@.take(i as int).push(
                    self.events@[i as int],
                ));
                self.events@.take(i as int).lemma_filter_push(
                    self.events@[i as int],
                    fresh_at(window as int, now as int),
                );
                assert(*e == self.events@[i as int]);
                assert(keep == is_fresh(*e, window as int, now as int));
                assert(keep == fresh_at(window as int, now as int)(*e));
            }
            if keep {
                kept.push(e.copy());
            }
            i = i + 1;
        }
        proof {
            assert(self.events@.take(self.events@.len() as int) =~= self.events@);
        }
        let removed = self.events.len() - kept.len();
        self.events = kept;
        removed
    }

    /// A copy of the events held, in order.
    pub fn snapshot_all(&self) -> (r: Vec<Event>)
        ensures
            r@ == self.view(),
    {
        let mut out: Vec<Event> = Vec::new();
        let mut i: usize = 0;
        while i < self.events.len()
            invariant
                i <= self.events@.len(),
                out@ == self.events@.take(i as int),
            decreases self.events@.len() - i,
        {
            out.push(self.events[i].copy());
            proof {
                assert(self.events@.take(i + 1) =~= self.events@.take(i as int).push(
                    self.events@[i as int],
                ));
            }
            i = i + 1;
        }
        proof {
            assert(self.events@.take(self.events@.len() as int) =~= self.events@);
        }
        out
    }

    /// Evicts with `window` at `now` and, where anything was removed, renders
    /// the text that the destination is rewritten with.
    pub fn sweep_at(&mut self, window: u64, now: i64) -> (r: Sweep)
        ensures
            final(self).view() == survivors(old(self).view(), window as int, now as int),
            r.now == now,
            r.removed == old(self).view().len() - final(self).view().len(),
            r.removed > 0 <==> r.rewrite is Some,
            r.rewrite matches Some(t) ==> t@ == all_text(final(self).view()),
    {
        let removed = self.evict_older_than(window, now);
        if removed > 0 {
            let text = render_all(&self.events);
            Sweep { now, removed, rewrite: Some(text) }
        } else {
            Sweep { now, removed, rewrite: None }
        }
    }
}

/// One periodic sweep of `store` with `window`, ages taken at the present
/// local time.
pub fn cleanup_notifications(store: &mut RetentionStore, window: u64) -> (r: Sweep)
    ensures
        r.now >= 0,
        final(store).view() == survivors(old(store).view(), window as int, r.now as int),
        r.removed == old(store).view().len() - final(store).view().len(),
        r.removed > 0 <==> r.rewrite is Some,
        r.rewrite matches Some(t) ==> t@ == all_text(final(store).view()),
{
    let now = local_now().secs;
    store.sweep_at(window, now)
}

/// Eviction removes exactly the events whose age is `window` or more: each
/// survivor is fresh, each fresh event survives, no stale event survives,
/// and survivors keep their relative order.
pub proof fn lemma_eviction_exact(s: Seq<Event>, window: int, now: int)
    ensures
        forall|i: int|
            0 <= i < survivors(s, window, now).len() ==> is_fresh(
                #[trigger] survivors(s, window, now)[i],
                window,
                now,
            ),
        forall|i: int|
            0 <= i < s.len() && is_fresh(s[i], window, now) ==> survivors(
                s,
                window,
                now,
            ).contains(#[trigger] s[i]),
        forall|e: Event| #[trigger]
            survivors(s, window, now).contains(e) ==> s.contains(e) && is_fresh(e, window, now),
        forall|a: Seq<Event>, b: Seq<Event>|
            #![trigger survivors(a + b, window, now)]
            survivors(a + b, window, now) == survivors(a, window, now) + survivors(
                b,
                window,
                now,
            ),
{
    let pred = fresh_at(window, now);
    assert forall|e: Event| #[trigger]
        survivors(s, window, now).contains(e) implies s.contains(e) && is_fresh(
        e,
        window,
        now,
    ) by {
        s.lemma_filter_contains_rev(pred, e);
        let k = choose|k: int| 0 <= k < s.filter(pred).len() && s.filter(pred)[k] == e;
        assert(pred(s.filter(pred)[k]));
    }
    assert forall|a: Seq<Event>, b: Seq<Event>|
        #![trigger survivors(a + b, window, now)]
        survivors(a + b, window, now) == survivors(a, window, now) + survivors(
            b,
            window,
            now,
        ) by {
        Seq::filter_distributes_over_add(a, b, pred);
    }
}

/// An event appended while sweeps run is never lost while it is fresh: a
/// sweep after the append leaves what a sweep before it, followed by the
/// append, leaves.
pub proof fn lemma_append_commutes_with_eviction(s: Seq<Event>, e: Event, window: int, now: int)
    requires
        is_fresh(e, window, now),
    ensures
        survivors(s.push(e), window, now) == survivors(s, window, now).push(e),
{
    s.lemma_filter_push(e, fresh_at(window, now));
}

} // verus!
