//! Subscription table: patterns mapped to handlers, with delivery decisions.
//!
//! `subscribe` hands out a fresh handle for each registration; `route`
//! decides, for an inbound topic, which subscriptions fire, one delivery
//! per matching subscription and in registration order; `unsubscribe`
//! removes a registration and is idempotent.

use vstd::prelude::*;

use crate::topic::{matches_topic, topic_matches};

verus! {

/// One registered interest: a pattern, the handler it feeds, and the
/// handle that names the registration.
pub struct Subscription {
    pub handle: u64,
    pub pattern: String,
    pub handler: u64,
}

/// One delivery owed for an inbound topic: which registration fired and
/// which handler receives the payload.
#[derive(Debug, Clone, Copy, PartialEq, Eq, Structural)]
pub struct Delivery {
    pub handle: u64,
    pub handler: u64,
}

/// The delivery a subscription produces when its pattern matches.
pub open spec fn delivery_of(s: Subscription) -> Delivery {
    Delivery { handle: s.handle, handler: s.handler }
}

/// The deliveries owed for a topic: one per subscription whose pattern
/// matches it, in registration order.
pub open spec fn spec_route(subs: Seq<Subscription>, topic: Seq<char>) -> Seq<Delivery>
    decreases subs.len(),
{
    if subs.len() == 0 {
        Seq::<Delivery>::empty()
    } else {
        let rest = spec_route(subs.drop_last(), topic);
        if topic_matches(subs.last().pattern@, topic) {
            rest.push(delivery_of(subs.last()))
        } else {
            rest
        }
    }
}

/// The table after removing every subscription a handle names.
pub open spec fn spec_unsubscribe(subs: Seq<Subscription>, handle: u64) -> Seq<Subscription>
    decreases subs.len(),
{
    if subs.len() == 0 {
        Seq::<Subscription>::empty()
    } else {
        let rest = spec_unsubscribe(subs.drop_last(), handle);
        if subs.last().handle == handle {
            rest
        } else {
            rest.push(subs.last())
        }
    }
}

/// Whether some subscription carries this handle.
pub open spec fn contains_handle(subs: Seq<Subscription>, handle: u64) -> bool {
    exists|i: int| 0 <= i < subs.len() && subs[i].handle == handle
}

/// Removing a handle that is absent changes nothing.
pub proof fn lemma_unsubscribe_absent(subs: Seq<Subscription>, handle: u64)
    requires
        !contains_handle(subs, handle),
    ensures
        spec_unsubscribe(subs, handle) == subs,
    decreases subs.len(),
{
    if subs.len() > 0 {
        assert(forall|i: int|
            0 <= i < subs.drop_last().len() ==> subs.drop_last()[i] == subs[i]);
        lemma_unsubscribe_absent(subs.drop_last(), handle);
        assert(subs[subs.len() - 1].handle != handle);
        assert(spec_unsubscribe(subs, handle) =~= subs);
    } else {
        assert(spec_unsubscribe(subs, handle) =~= subs);
    }
}

/// No subscription under this handle survives its removal, and removing
/// it again is a no-op: a second `unsubscribe` cannot change the table.
pub proof fn lemma_unsubscribe_idempotent(subs: Seq<Subscription>, handle: u64)
    ensures
        !contains_handle(spec_unsubscribe(subs, handle), handle),
        spec_unsubscribe(spec_unsubscribe(subs, handle), handle)
            == spec_unsubscribe(subs, handle),
    decreases subs.len(),
{
    if subs.len() > 0 {
        lemma_unsubscribe_idempotent(subs.drop_last(), handle);
    }
    lemma_unsubscribe_absent(spec_unsubscribe(subs, handle), handle);
}

/// When handles are unique and the handle sits at one index, removal is
/// exactly the removal of that index.
pub proof fn lemma_unsubscribe_at_index(subs: Seq<Subscription>, handle: u64, idx: int)
    requires
        0 <= idx < subs.len(),
        subs[idx].handle == handle,
        forall|i: int, j: int| 0 <= i < j < subs.len()
            ==> subs[i].handle != subs[j].handle,
    ensures
        spec_unsubscribe(subs, handle) == subs.remove(idx),
    decreases subs.len(),
{
    if idx == subs.len() - 1 {
        assert(!contains_handle(subs.drop_last(), handle)) by {
            assert(forall|i: int| 0 <= i < subs.len() - 1
                ==> #[trigger] subs.drop_last()[i].handle == subs[i].handle
                    && subs[i].handle != subs[idx].handle);
        }
        lemma_unsubscribe_absent(subs.drop_last(), handle);
        assert(spec_unsubscribe(subs, handle) =~= subs.remove(idx));
    } else {
        assert(forall|i: int|
            0 <= i < subs.drop_last().len() ==> subs.drop_last()[i] == subs[i]);
        lemma_unsubscribe_at_index(subs.drop_last(), handle, idx);
        assert(subs.last().handle != handle);
        assert(spec_unsubscribe(subs, handle)
            =~= subs.drop_last().remove(idx).push(subs.last()));
        assert(subs.drop_last().remove(idx).push(subs.last()) =~= subs.remove(idx));
    }
}

/// Routing delivers to a handler exactly when a subscription registered
/// under a matching pattern feeds it: every matching subscription appears
/// in the result, and everything in the result came from one.
pub proof fn lemma_route_exact(subs: Seq<Subscription>, topic: Seq<char>)
    ensures
        forall|i: int| 0 <= i < subs.len() && topic_matches(#[trigger] subs[i].pattern@, topic)
            ==> spec_route(subs, topic).contains(delivery_of(subs[i])),
        forall|k: int| 0 <= k < spec_route(subs, topic).len()
            ==> exists|i: int| 0 <= i < subs.len()
                && topic_matches(subs[i].pattern@, topic)
                && #[trigger] spec_route(subs, topic)[k] == delivery_of(subs[i]),
    decreases subs.len(),
{
    if subs.len() > 0 {
        lemma_route_exact(subs.drop_last(), topic);
        let rest = spec_route(subs.drop_last(), topic);
        let whole = spec_route(subs, topic);
        assert(forall|i: int|
            0 <= i < subs.drop_last().len() ==> subs.drop_last()[i] == subs[i]);
        assert forall|i: int|
            0 <= i < subs.len() && topic_matches(#[trigger] subs[i].pattern@, topic)
            implies whole.contains(delivery_of(subs[i])) by {
            if i < subs.len() - 1 {
                assert(rest.contains(delivery_of(subs[i])));
                let k = choose|k: int| 0 <= k < rest.len() && rest[k] == delivery_of(subs[i]);
                assert(whole[k] == delivery_of(subs[i]));
            } else {
                assert(whole.last() == delivery_of(subs[i]));
            }
        }
        assert forall|k: int| 0 <= k < whole.len()
            implies exists|i: int| 0 <= i < subs.len()
                && topic_matches(subs[i].pattern@, topic)
                && #[trigger] whole[k] == delivery_of(subs[i]) by {
            if k < rest.len() {
                let i = choose|i: int| 0 <= i < subs.drop_last().len()
                    && topic_matches(subs.drop_last()[i].pattern@, topic)
                    && rest[k] == delivery_of(subs.drop_last()[i]);
                assert(whole[k] == rest[k]);
                assert(topic_matches(subs[i].pattern@, topic)
                    && whole[k] == delivery_of(subs[i]));
            } else {
                let i = subs.len() - 1;
                assert(topic_matches(subs[i].pattern@, topic)
                    && whole[k] == delivery_of(subs[i]));
            }
        }
    }
}

/// The subscription table and the handle counter behind it.
pub struct TopicRouter {
    pub subs: Vec<Subscription>,
    pub next_handle: u64,
}

impl TopicRouter {
    /// Well-formed: handles are unique and below the allocation counter,
    /// so a fresh handle never collides.
    pub open spec fn wf(self) -> bool {
        &&& forall|i: int, j: int| 0 <= i < j < self.subs@.len()
            ==> self.subs@[i].handle != self.subs@[j].handle
        &&& forall|i: int| 0 <= i < self.subs@.len()
            ==> #[trigger] self.subs@[i].handle < self.next_handle
    }

    /// An empty table.
    pub fn new() -> (r: TopicRouter)
        ensures
            r.wf(),
            r.subs@ == Seq::<Subscription>::empty(),
            r.next_handle == 0,
    {
        TopicRouter { subs: Vec::new(), next_handle: 0 }
    }

    /// Register interest in a pattern; the returned handle is fresh and
    /// names exactly this registration.
    pub fn subscribe(&mut self, pattern: String, handler: u64) -> (h: u64)
        requires
            old(self).wf(),
            old(self).next_handle < u64::MAX,
        ensures
            final(self).wf(),
            h == old(self).next_handle,
            !contains_handle(old(self).subs@, h),
            final(self).subs@ == old(self).subs@.push(
                Subscription { handle: h, pattern: pattern, handler: handler },
            ),
            final(self).next_handle == h + 1,
    {
        let h = self.next_handle;
        self.subs.push(Subscription { handle: h, pattern, handler });
        self.next_handle = h + 1;
        h
    }

    /// Remove the registration a handle names. Safe to repeat: the second
    /// call finds nothing, reports `false`, and changes nothing.
    pub fn unsubscribe(&mut self, handle: u64) -> (was: bool)
        requires
            old(self).wf(),
        ensures
            final(self).wf(),
            was == contains_handle(old(self).subs@, handle),
            final(self).subs@ == spec_unsubscribe(old(self).subs@, handle),
            !contains_handle(final(self).subs@, handle),
            final(self).next_handle == old(self).next_handle,
    {
        let n = self.subs.len();
        let mut i: usize = 0;
        while i < n
            invariant
                i <= n,
                n == self.subs@.len(),
                old(self).wf(),
                *self == *old(self),
                forall|j: int| 0 <= j < i ==> #[trigger] self.subs@[j].handle != handle,
            decreases n - i,
        {
            if self.subs[i].handle == handle {
                proof {
                    lemma_unsubscribe_at_index(self.subs@, handle, i as int);
                    lemma_unsubscribe_idempotent(old(self).subs@, handle);
                    assert(contains_handle(old(self).subs@, handle)) by {
                        assert(old(self).subs@[i as int].handle == handle);
                    }
                }
                self.subs.remove(i);
                proof {
                    let s = old(self).subs@;
                    let r = self.subs@;
                    s.remove_ensures(i as int);
                    assert forall|a: int, b: int| 0 <= a < b < r.len()
                        implies r[a].handle != r[b].handle by {
                        assert(r[a] == (if a < i { s[a] } else { s[a + 1] }));
                        assert(r[b] == (if b < i { s[b] } else { s[b + 1] }));
                    }
                    assert forall|a: int| 0 <= a < r.len()
                        implies #[trigger] r[a].handle < self.next_handle by {
                        assert(r[a] == (if a < i { s[a] } else { s[a + 1] }));
                    }
                }
                return true;
            }
            i = i + 1;
        }
        proof {
            lemma_unsubscribe_absent(self.subs@, handle);
        }
        false
    }

    /// Decide the deliveries an inbound topic is owed: one per matching
    /// subscription, in registration order. An unmatched topic yields
    /// none, which is not an error.
    pub fn route(&self, topic: &str) -> (r: Vec<Delivery>)
        ensures
            r@ == spec_route(self.subs@, topic@),
    {
        let n = self.subs.len();
        let mut out: Vec<Delivery> = Vec::new();
        let mut i: usize = 0;
        proof {
            assert(self.subs@.take(0) =~= Seq::<Subscription>::empty());
        }
        while i < n
            invariant
                i <= n,
                n == self.subs@.len(),
                out@ == spec_route(self.subs@.take(i as int), topic@),
            decreases n - i,
        {
            proof {
                let pre = self.subs@.take(i as int + 1);
                assert(pre.drop_last() =~= self.subs@.take(i as int));
                assert(pre.last() == self.subs@[i as int]);
            }
            if matches_topic(self.subs[i].pattern.as_str(), topic) {
                let d = Delivery { handle: self.subs[i].handle, handler: self.subs[i].handler };
                out.push(d);
            }
            i = i + 1;
        }
        proof {
            assert(self.subs@.take(n as int) =~= self.subs@);
        }
        out
    }
}

} // verus!
