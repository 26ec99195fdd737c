//! Request/response correlation: pending calls, deadlines, resolution.
//!
//! Each in-flight request holds exactly one pending call, named by a
//! fresh correlation id. A call resolves exactly once — by a matching
//! reply, by its deadline elapsing, or by the connection dropping — and
//! the entry leaves the registry at that moment, so any later resolution
//! attempt finds nothing and is a no-op.

use vstd::prelude::*;

verus! {

/// One in-flight request: its correlation id and its deadline.
#[derive(Debug, Clone, Copy, PartialEq, Eq, Structural)]
pub struct PendingCall {
    pub id: u64,
    pub deadline: u64,
}

/// Whether some pending call carries this correlation id.
pub open spec fn has_pending(s: Seq<PendingCall>, id: u64) -> bool {
    exists|i: int| 0 <= i < s.len() && s[i].id == id
}

/// No two pending calls share a correlation id.
pub open spec fn unique_ids(s: Seq<PendingCall>) -> bool {
    forall|i: int, j: int| 0 <= i < j < s.len() ==> s[i].id != s[j].id
}

/// The registry after resolving the call this id names.
pub open spec fn spec_resolve(s: Seq<PendingCall>, id: u64) -> Seq<PendingCall>
    decreases s.len(),
{
    if s.len() == 0 {
        Seq::<PendingCall>::empty()
    } else {
        let rest = spec_resolve(s.drop_last(), id);
        if s.last().id == id {
            rest
        } else {
            rest.push(s.last())
        }
    }
}

/// The calls still alive at an instant: deadline strictly ahead of `now`.
pub open spec fn spec_alive(s: Seq<PendingCall>, now: u64) -> Seq<PendingCall>
    decreases s.len(),
{
    if s.len() == 0 {
        Seq::<PendingCall>::empty()
    } else {
        let rest = spec_alive(s.drop_last(), now);
        if s.last().deadline > now {
            rest.push(s.last())
        } else {
            rest
        }
    }
}

/// The ids whose deadline has elapsed at an instant, in creation order.
pub open spec fn spec_expired_ids(s: Seq<PendingCall>, now: u64) -> Seq<u64>
    decreases s.len(),
{
    if s.len() == 0 {
        Seq::<u64>::empty()
    } else {
        let rest = spec_expired_ids(s.drop_last(), now);
        if s.last().deadline > now {
            rest
        } else {
            rest.push(s.last().id)
        }
    }
}

/// All correlation ids of a registry, in creation order.
pub open spec fn spec_ids(s: Seq<PendingCall>) -> Seq<u64> {
    s.map_values(|c: PendingCall| c.id)
}

/// The deadline a call made at `now` with this timeout gets; a sum past
/// the numeric range saturates.
pub open spec fn spec_deadline(now: u64, timeout_ms: u64) -> u64 {
    if now + timeout_ms > u64::MAX {
        u64::MAX
    } else {
        (now + timeout_ms) as u64
    }
}

/// Resolving an id that no pending call carries changes nothing.
pub proof fn lemma_resolve_absent(s: Seq<PendingCall>, id: u64)
    requires
        !has_pending(s, id),
    ensures
        spec_resolve(s, id) == s,
    decreases s.len(),
{
    if s.len() > 0 {
        assert(forall|i: int| 0 <= i < s.drop_last().len() ==> s.drop_last()[i] == s[i]);
        lemma_resolve_absent(s.drop_last(), id);
        assert(s[s.len() - 1].id != id);
        assert(spec_resolve(s, id) =~= s);
    } else {
        assert(spec_resolve(s, id) =~= s);
    }
}

/// A call resolves exactly once: after a resolution its id is gone from
/// the registry, and a second resolution attempt is a no-op.
pub proof fn lemma_resolution_exactly_once(s: Seq<PendingCall>, id: u64)
    ensures
        !has_pending(spec_resolve(s, id), id),
        spec_resolve(spec_resolve(s, id), id) == spec_resolve(s, id),
    decreases s.len(),
{
    if s.len() > 0 {
        lemma_resolution_exactly_once(s.drop_last(), id);
    }
    lemma_resolve_absent(spec_resolve(s, id), id);
}

/// Everything a resolution keeps was in the registry, under another id.
pub proof fn lemma_resolve_membership(s: Seq<PendingCall>, id: u64)
    ensures
        forall|k: int| 0 <= k < spec_resolve(s, id).len()
            ==> s.contains(#[trigger] spec_resolve(s, id)[k])
                && spec_resolve(s, id)[k].id != id,
    decreases s.len(),
{
    if s.len() > 0 {
        lemma_resolve_membership(s.drop_last(), id);
        let rest = spec_resolve(s.drop_last(), id);
        let whole = spec_resolve(s, id);
        assert forall|k: int| 0 <= k < whole.len()
            implies s.contains(#[trigger] whole[k]) && whole[k].id != id by {
            if s.last().id == id || k < rest.len() {
                assert(whole[k] == rest[k]);
                assert(s.drop_last().contains(rest[k]));
                let j = choose|j: int|
                    0 <= j < s.drop_last().len() && s.drop_last()[j] == rest[k];
                assert(s[j] == rest[k]);
            } else {
                assert(whole[k] == s.last());
                assert(s[s.len() - 1] == s.last());
            }
        }
    }
}

/// Everything expiry keeps was in the registry, with its deadline ahead.
pub proof fn lemma_alive_membership(s: Seq<PendingCall>, now: u64)
    ensures
        forall|k: int| 0 <= k < spec_alive(s, now).len()
            ==> s.contains(#[trigger] spec_alive(s, now)[k])
                && spec_alive(s, now)[k].deadline > now,
    decreases s.len(),
{
    if s.len() > 0 {
        lemma_alive_membership(s.drop_last(), now);
        let rest = spec_alive(s.drop_last(), now);
        let whole = spec_alive(s, now);
        assert forall|k: int| 0 <= k < whole.len()
            implies s.contains(#[trigger] whole[k]) && whole[k].deadline > now by {
            if s.last().deadline <= now || k < rest.len() {
                assert(whole[k] == rest[k]);
                assert(s.drop_last().contains(rest[k]));
                let j = choose|j: int|
                    0 <= j < s.drop_last().len() && s.drop_last()[j] == rest[k];
                assert(s[j] == rest[k]);
            } else {
                assert(whole[k] == s.last());
                assert(s[s.len() - 1] == s.last());
            }
        }
    }
}

/// Expiry keeps ids unique.
pub proof fn lemma_alive_unique(s: Seq<PendingCall>, now: u64)
    requires
        unique_ids(s),
    ensures
        unique_ids(spec_alive(s, now)),
    decreases s.len(),
{
    if s.len() > 0 {
        assert(forall|i: int| 0 <= i < s.drop_last().len() ==> s.drop_last()[i] == s[i]);
        lemma_alive_unique(s.drop_last(), now);
        lemma_alive_membership(s.drop_last(), now);
        let rest = spec_alive(s.drop_last(), now);
        let whole = spec_alive(s, now);
        if s.last().deadline > now {
            assert forall|i: int, j: int| 0 <= i < j < whole.len()
                implies whole[i].id != whole[j].id by {
                if j == whole.len() - 1 {
                    assert(whole[i] == rest[i]);
                    assert(s.drop_last().contains(rest[i]));
                    let k = choose|k: int|
                        0 <= k < s.drop_last().len() && s.drop_last()[k] == rest[i];
                    assert(s[k] == rest[i]);
                    assert(s[k].id != s[s.len() - 1].id);
                } else {
                    assert(whole[i] == rest[i] && whole[j] == rest[j]);
                }
            }
        }
    }
}

/// After expiry at `now`, no elapsed id is still pending: the timeout was
/// that id's one resolution.
pub proof fn lemma_expired_not_pending(s: Seq<PendingCall>, now: u64, id: u64)
    requires
        unique_ids(s),
        spec_expired_ids(s, now).contains(id),
    ensures
        !has_pending(spec_alive(s, now), id),
    decreases s.len(),
{
    if s.len() > 0 {
        assert(forall|i: int| 0 <= i < s.drop_last().len() ==> s.drop_last()[i] == s[i]);
        let rest_ids = spec_expired_ids(s.drop_last(), now);
        let whole_ids = spec_expired_ids(s, now);
        lemma_alive_membership(s.drop_last(), now);
        if s.last().deadline > now {
            lemma_expired_not_pending(s.drop_last(), now, id);
            assert forall|i: int| 0 <= i < spec_alive(s, now).len()
                implies #[trigger] spec_alive(s, now)[i].id != id by {
                if i < spec_alive(s.drop_last(), now).len() {
                    assert(spec_alive(s, now)[i] == spec_alive(s.drop_last(), now)[i]);
                } else {
                    assert(spec_alive(s, now)[i] == s.last());
                    let k = choose|k: int| 0 <= k < whole_ids.len() && whole_ids[k] == id;
                    lemma_expired_from_registry(s.drop_last(), now, id);
                }
            }
        } else {
            if id == s.last().id {
                assert forall|i: int| 0 <= i < spec_alive(s, now).len()
                    implies #[trigger] spec_alive(s, now)[i].id != id by {
                    assert(s.drop_last().contains(spec_alive(s, now)[i]));
                    let k = choose|k: int|
                        0 <= k < s.drop_last().len()
                            && s.drop_last()[k] == spec_alive(s, now)[i];
                    assert(s[k].id != s[s.len() - 1].id);
                }
            } else {
                assert(rest_ids.contains(id)) by {
                    let k = choose|k: int| 0 <= k < whole_ids.len() && whole_ids[k] == id;
                    assert(whole_ids[k] == rest_ids.push(s.last().id)[k]);
                }
                lemma_expired_not_pending(s.drop_last(), now, id);
            }
        }
    }
}

/// Every expired id belonged to some call of the registry.
pub proof fn lemma_expired_from_registry(s: Seq<PendingCall>, now: u64, id: u64)
    requires
        spec_expired_ids(s, now).contains(id),
    ensures
        has_pending(s, id),
    decreases s.len(),
{
    if s.len() > 0 {
        let rest_ids = spec_expired_ids(s.drop_last(), now);
        let whole_ids = spec_expired_ids(s, now);
        if s.last().deadline <= now && id == s.last().id {
            assert(s[s.len() - 1].id == id);
        } else {
            assert(rest_ids.contains(id)) by {
                let k = choose|k: int| 0 <= k < whole_ids.len() && whole_ids[k] == id;
                if s.last().deadline <= now {
                    assert(whole_ids[k] == rest_ids.push(s.last().id)[k]);
                }
            }
            lemma_expired_from_registry(s.drop_last(), now, id);
            let j = choose|j: int| 0 <= j < s.drop_last().len() && s.drop_last()[j].id == id;
            assert(s[j].id == id);
        }
    }
}

/// A call resolves by exactly one of reply, timeout and connection loss:
/// whichever struck first removed the entry, and the other two — like
/// any further reply — then find nothing. After a loss the registry is
/// empty, so nothing at all is pending.
pub proof fn lemma_one_resolution_per_call(s: Seq<PendingCall>, id: u64, now: u64)
    requires
        unique_ids(s),
    ensures
        !has_pending(spec_resolve(s, id), id),
        !spec_expired_ids(spec_resolve(s, id), now).contains(id),
        !spec_ids(spec_resolve(s, id)).contains(id),
        spec_expired_ids(s, now).contains(id) ==> !has_pending(spec_alive(s, now), id),
        !has_pending(Seq::<PendingCall>::empty(), id),
{
    lemma_resolution_exactly_once(s, id);
    let r = spec_resolve(s, id);
    if spec_expired_ids(r, now).contains(id) {
        lemma_expired_from_registry(r, now, id);
    }
    if spec_ids(r).contains(id) {
        let k = choose|k: int| 0 <= k < spec_ids(r).len() && spec_ids(r)[k] == id;
        assert(r[k].id == id);
    }
    if spec_expired_ids(s, now).contains(id) {
        lemma_expired_not_pending(s, now, id);
    }
}

/// Distinct calls are independent: resolving one leaves the other's
/// entry — and so its eventual resolution — untouched.
pub proof fn lemma_distinct_calls_independent(s: Seq<PendingCall>, id1: u64, id2: u64)
    requires
        id1 != id2,
    ensures
        has_pending(spec_resolve(s, id1), id2) == has_pending(s, id2),
        spec_resolve(spec_resolve(s, id1), id2) == spec_resolve(spec_resolve(s, id2), id1),
    decreases s.len(),
{
    if s.len() == 0 {
        assert(spec_resolve(spec_resolve(s, id1), id2)
            =~= spec_resolve(spec_resolve(s, id2), id1));
    } else {
        lemma_distinct_calls_independent(s.drop_last(), id1, id2);
        assert(forall|i: int| 0 <= i < s.drop_last().len() ==> s.drop_last()[i] == s[i]);
        let r1 = spec_resolve(s, id1);
        let r1d = spec_resolve(s.drop_last(), id1);
        assert(r1 == (if s.last().id == id1 { r1d } else { r1d.push(s.last()) }));
        assert(spec_resolve(r1, id2) == (if s.last().id == id1 || s.last().id == id2 {
            spec_resolve(r1d, id2)
        } else {
            spec_resolve(r1d, id2).push(s.last())
        })) by {
            if s.last().id != id1 {
                assert(r1.drop_last() =~= r1d);
                assert(r1.last() == s.last());
            }
        }
        let r2 = spec_resolve(s, id2);
        let r2d = spec_resolve(s.drop_last(), id2);
        assert(spec_resolve(r2, id1) == (if s.last().id == id1 || s.last().id == id2 {
            spec_resolve(r2d, id1)
        } else {
            spec_resolve(r2d, id1).push(s.last())
        })) by {
            if s.last().id != id2 {
                assert(r2.drop_last() =~= r2d);
                assert(r2.last() == s.last());
            }
        }
        assert(has_pending(spec_resolve(s, id1), id2) == has_pending(s, id2)) by {
            if has_pending(s, id2) {
                let j = choose|j: int| 0 <= j < s.len() && s[j].id == id2;
                if j == s.len() - 1 {
                    assert(spec_resolve(s, id1).last() == s.last());
                } else {
                    assert(s.drop_last()[j].id == id2);
                    let k = choose|k: int|
                        0 <= k < r1d.len() && r1d[k].id == id2;
                    assert(spec_resolve(s, id1)[k].id == id2);
                }
            } else {
                assert(forall|i: int| 0 <= i < s.len() ==> s[i].id != id2);
                lemma_resolve_membership(s, id1);
                assert forall|i: int| 0 <= i < r1.len()
                    implies #[trigger] r1[i].id != id2 by {
                    assert(s.contains(r1[i]));
                    let k = choose|k: int| 0 <= k < s.len() && s[k] == r1[i];
                    assert(s[k].id != id2);
                }
            }
        }
    }
}

/// The pending-call registry and the id counter behind it.
pub struct Correlator {
    pub pending: Vec<PendingCall>,
    pub next_id: u64,
}

impl Correlator {
    /// Well-formed: correlation ids are unique among pending calls and
    /// below the allocation counter, so a fresh id never collides.
    pub open spec fn wf(self) -> bool {
        &&& unique_ids(self.pending@)
        &&& forall|i: int| 0 <= i < self.pending@.len()
            ==> #[trigger] self.pending@[i].id < self.next_id
    }

    /// An empty registry.
    pub fn new() -> (r: Correlator)
        ensures
            r.wf(),
            r.pending@ == Seq::<PendingCall>::empty(),
            r.next_id == 0,
    {
        Correlator { pending: Vec::new(), next_id: 0 }
    }

    /// Open a pending call: a fresh correlation id, unique among all
    /// in-flight calls, with deadline `now + timeout_ms` (saturated).
    pub fn begin_call(&mut self, now: u64, timeout_ms: u64) -> (id: u64)
        requires
            old(self).wf(),
            old(self).next_id < u64::MAX,
        ensures
            final(self).wf(),
            id == old(self).next_id,
            !has_pending(old(self).pending@, id),
            final(self).pending@ == old(self).pending@.push(
                PendingCall { id: id, deadline: spec_deadline(now, timeout_ms) },
            ),
            final(self).next_id == id + 1,
    {
        let id = self.next_id;
        let deadline = if timeout_ms > u64::MAX - now {
            u64::MAX
        } else {
            now + timeout_ms
        };
        self.pending.push(PendingCall { id, deadline });
        self.next_id = id + 1;
        id
    }

    /// Resolve the call a reply's correlation id names. `true` means the
    /// reply was delivered to a waiting call, which is now gone; `false`
    /// means no such call was pending — a late or duplicate reply — and
    /// the registry is unchanged: the extra reply is ignored.
    pub fn resolve_reply(&mut self, id: u64) -> (hit: bool)
        requires
            old(self).wf(),
        ensures
            final(self).wf(),
            hit == has_pending(old(self).pending@, id),
            final(self).pending@ == spec_resolve(old(self).pending@, id),
            !has_pending(final(self).pending@, id),
            final(self).next_id == old(self).next_id,
    {
        let n = self.pending.len();
        let mut i: usize = 0;
        while i < n
            invariant
                i <= n,
                n == self.pending@.len(),
                old(self).wf(),
                *self == *old(self),
                forall|j: int| 0 <= j < i ==> #[trigger] self.pending@[j].id != id,
            decreases n - i,
        {
            if self.pending[i].id == id {
                proof {
                    lemma_resolve_at_index(self.pending@, id, i as int);
                    lemma_resolution_exactly_once(old(self).pending@, id);
                    assert(has_pending(old(self).pending@, id)) by {
                        assert(old(self).pending@[i as int].id == id);
                    }
                }
                self.pending.remove(i);
                proof {
                    let s = old(self).pending@;
                    let r = self.pending@;
                    s.remove_ensures(i as int);
                    assert forall|a: int, b: int| 0 <= a < b < r.len()
                        implies r[a].id != r[b].id by {
                        assert(r[a] == (if a < i { s[a] } else { s[a + 1] }));
                        assert(r[b] == (if b < i { s[b] } else { s[b + 1] }));
                    }
                    assert forall|a: int| 0 <= a < r.len()
                        implies #[trigger] r[a].id < self.next_id by {
                        assert(r[a] == (if a < i { s[a] } else { s[a + 1] }));
                    }
                }
                return true;
            }
            i = i + 1;
        }
        proof {
            lemma_resolve_absent(self.pending@, id);
        }
        false
    }

    /// Cancel a call the caller no longer waits on. Removal here means a
    /// reply arriving later finds nothing and is discarded.
    pub fn cancel(&mut self, id: u64) -> (hit: bool)
        requires
            old(self).wf(),
        ensures
            final(self).wf(),
            hit == has_pending(old(self).pending@, id),
            final(self).pending@ == spec_resolve(old(self).pending@, id),
            !has_pending(final(self).pending@, id),
            final(self).next_id == old(self).next_id,
    {
        self.resolve_reply(id)
    }

    /// Resolve by timeout every call whose deadline has elapsed: their
    /// ids come back in creation order, and only calls with deadlines
    /// still ahead stay pending.
    pub fn take_expired(&mut self, now: u64) -> (r: Vec<u64>)
        requires
            old(self).wf(),
        ensures
            final(self).wf(),
            final(self).pending@ == spec_alive(old(self).pending@, now),
            r@ == spec_expired_ids(old(self).pending@, now),
            final(self).next_id == old(self).next_id,
    {
        let n = self.pending.len();
        let mut keep: Vec<PendingCall> = Vec::new();
        let mut out: Vec<u64> = Vec::new();
        let mut i: usize = 0;
        proof {
            assert(self.pending@.take(0) =~= Seq::<PendingCall>::empty());
        }
        while i < n
            invariant
                i <= n,
                n == self.pending@.len(),
                old(self).wf(),
                *self == *old(self),
                keep@ == spec_alive(self.pending@.take(i as int), now),
                out@ == spec_expired_ids(self.pending@.take(i as int), now),
            decreases n - i,
        {
            proof {
                let pre = self.pending@.take(i as int + 1);
                assert(pre.drop_last() =~= self.pending@.take(i as int));
                assert(pre.last() == self.pending@[i as int]);
            }
            let c = self.pending[i];
            if c.deadline > now {
                keep.push(c);
            } else {
                out.push(c.id);
            }
            i = i + 1;
        }
        proof {
            assert(self.pending@.take(n as int) =~= self.pending@);
            lemma_alive_unique(old(self).pending@, now);
            lemma_alive_membership(old(self).pending@, now);
        }
        self.pending = keep;
        proof {
            let s = old(self).pending@;
            let r = self.pending@;
            assert forall|a: int| 0 <= a < r.len()
                implies #[trigger] r[a].id < self.next_id by {
                assert(s.contains(r[a]));
                let k = choose|k: int| 0 <= k < s.len() && s[k] == r[a];
                assert(s[k].id < self.next_id);
            }
        }
        out
    }

    /// The connection is gone: every pending call resolves with the loss,
    /// exactly once. Their ids come back in creation order and the
    /// registry is left empty, so a reply arriving after a fresh connect
    /// finds nothing.
    pub fn connection_lost(&mut self) -> (r: Vec<u64>)
        requires
            old(self).wf(),
        ensures
            final(self).wf(),
            final(self).pending@ == Seq::<PendingCall>::empty(),
            r@ == spec_ids(old(self).pending@),
            final(self).next_id == old(self).next_id,
    {
        let n = self.pending.len();
        let mut out: Vec<u64> = Vec::new();
        let mut i: usize = 0;
        proof {
            assert(out@ =~= spec_ids(self.pending@.take(0)));
        }
        while i < n
            invariant
                i <= n,
                n == self.pending@.len(),
                *self == *old(self),
                out@ == spec_ids(self.pending@.take(i as int)),
            decreases n - i,
        {
            out.push(self.pending[i].id);
            proof {
                assert(out@ =~= spec_ids(self.pending@.take(i as int + 1)));
            }
            i = i + 1;
        }
        self.pending.clear();
        proof {
            assert(old(self).pending@.take(n as int) =~= old(self).pending@);
        }
        out
    }

    /// How many calls are in flight.
    pub fn pending_count(&self) -> (r: usize)
        ensures
            r == self.pending@.len(),
    {
        self.pending.len()
    }
}

/// When ids are unique and the id sits at one index, resolution is
/// exactly the removal of that index.
pub proof fn lemma_resolve_at_index(s: Seq<PendingCall>, id: u64, idx: int)
    requires
        0 <= idx < s.len(),
        s[idx].id == id,
        unique_ids(s),
    ensures
        spec_resolve(s, id) == s.remove(idx),
    decreases s.len(),
{
    if idx == s.len() - 1 {
        assert(!has_pending(s.drop_last(), id)) by {
            assert(forall|i: int| 0 <= i < s.len() - 1
                ==> #[trigger] s.drop_last()[i].id == s[i].id && s[i].id != s[idx].id);
        }
        lemma_resolve_absent(s.drop_last(), id);
        assert(spec_resolve(s, id) =~= s.remove(idx));
    } else {
        assert(forall|i: int| 0 <= i < s.drop_last().len() ==> s.drop_last()[i] == s[i]);
        lemma_resolve_at_index(s.drop_last(), id, idx);
        assert(s.last().id != id);
        assert(spec_resolve(s, id) =~= s.drop_last().remove(idx).push(s.last()));
        assert(s.drop_last().remove(idx).push(s.last()) =~= s.remove(idx));
    }
}

} // verus!
