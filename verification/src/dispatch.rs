//! Typed event dispatch: ordered handler registration per event tag.
//!
//! `on` appends a handler to the list kept for a tag; `schedule` lists,
//! for an inbound event, the handlers owed an invocation, in registration
//! order. The application runs the scheduled handlers as independent units
//! of work: completion order is its business, and one handler's failure
//! is reported through `failed_handlers` without touching its siblings.

use vstd::prelude::*;

use crate::text::str_eq;

verus! {

/// One handler registered for one event tag.
pub struct Registration {
    pub tag: String,
    pub handler: u64,
}

/// A decoded inbound event: a discriminating tag, its payload, when the
/// broker stamped it, and the correlation id when it answers a request.
pub struct Event {
    pub tag: String,
    pub payload: String,
    pub timestamp: u64,
    pub correlation_id: Option<u64>,
}

/// The handlers owed an invocation for a tag, in registration order.
pub open spec fn spec_schedule(regs: Seq<Registration>, tag: Seq<char>) -> Seq<u64>
    decreases regs.len(),
{
    if regs.len() == 0 {
        Seq::<u64>::empty()
    } else {
        let rest = spec_schedule(regs.drop_last(), tag);
        if regs.last().tag@ == tag {
            rest.push(regs.last().handler)
        } else {
            rest
        }
    }
}

/// One registration step changes the schedule of a prefix by at most the
/// one appended handler.
pub proof fn lemma_schedule_take_step(regs: Seq<Registration>, tag: Seq<char>, i: int)
    requires
        0 <= i < regs.len(),
    ensures
        spec_schedule(regs.take(i + 1), tag) == (if regs[i].tag@ == tag {
            spec_schedule(regs.take(i), tag).push(regs[i].handler)
        } else {
            spec_schedule(regs.take(i), tag)
        }),
{
    let pre = regs.take(i + 1);
    assert(pre.drop_last() =~= regs.take(i));
    assert(pre.last() == regs[i]);
}

/// The schedule of a prefix of the registrations is a prefix of the
/// schedule of all of them.
pub proof fn lemma_schedule_prefix(regs: Seq<Registration>, tag: Seq<char>, i: int)
    requires
        0 <= i <= regs.len(),
    ensures
        spec_schedule(regs.take(i), tag).is_prefix_of(spec_schedule(regs, tag)),
    decreases regs.len(),
{
    if i == regs.len() {
        assert(regs.take(i) =~= regs);
        assert(spec_schedule(regs, tag).is_prefix_of(spec_schedule(regs, tag)));
    } else {
        assert(regs.drop_last().take(i) =~= regs.take(i));
        lemma_schedule_prefix(regs.drop_last(), tag, i);
        let part = spec_schedule(regs.take(i), tag);
        let rest = spec_schedule(regs.drop_last(), tag);
        let whole = spec_schedule(regs, tag);
        assert(part.is_prefix_of(rest));
        assert(rest.is_prefix_of(whole)) by {
            if regs.last().tag@ == tag {
                assert(rest =~= whole.take(rest.len() as int));
            } else {
                assert(rest =~= whole.take(rest.len() as int));
            }
        }
        assert(part =~= whole.take(part.len() as int));
    }
}

/// Registration order is scheduling order: when two registrations for the
/// same tag stand at positions `i` before `j`, the schedule lists the
/// earlier one's handler at a strictly earlier position.
pub proof fn lemma_schedule_order(regs: Seq<Registration>, tag: Seq<char>, i: int, j: int)
    requires
        0 <= i < j < regs.len(),
        regs[i].tag@ == tag,
        regs[j].tag@ == tag,
    ensures
        ({
            let s = spec_schedule(regs, tag);
            let ki = spec_schedule(regs.take(i), tag).len();
            let kj = spec_schedule(regs.take(j), tag).len();
            &&& ki < kj < s.len()
            &&& s[ki as int] == regs[i].handler
            &&& s[kj as int] == regs[j].handler
        }),
{
    let s = spec_schedule(regs, tag);
    let ki = spec_schedule(regs.take(i), tag).len();
    let kj = spec_schedule(regs.take(j), tag).len();
    lemma_schedule_take_step(regs, tag, i);
    lemma_schedule_take_step(regs, tag, j);
    lemma_schedule_prefix(regs, tag, i + 1);
    lemma_schedule_prefix(regs, tag, j + 1);
    assert(regs.take(j).take(i + 1) =~= regs.take(i + 1));
    lemma_schedule_prefix(regs.take(j), tag, i + 1);
    assert(spec_schedule(regs.take(i + 1), tag)[ki as int] == regs[i].handler);
    assert(s[ki as int] == regs[i].handler);
    assert(spec_schedule(regs.take(j + 1), tag)[kj as int] == regs[j].handler);
    assert(s[kj as int] == regs[j].handler);
    assert(ki < kj) by {
        assert(spec_schedule(regs.take(i + 1), tag).len() == ki + 1);
        assert(ki + 1 <= kj);
    }
    assert(kj < s.len()) by {
        assert(spec_schedule(regs.take(j + 1), tag).len() == kj + 1);
    }
}

/// The failed handlers of a finished schedule, in schedule order.
pub open spec fn spec_failed(handlers: Seq<u64>, ok: Seq<bool>) -> Seq<u64>
    decreases handlers.len(),
{
    if handlers.len() == 0 || handlers.len() != ok.len() {
        Seq::<u64>::empty()
    } else {
        let rest = spec_failed(handlers.drop_last(), ok.drop_last());
        if ok.last() {
            rest
        } else {
            rest.push(handlers.last())
        }
    }
}

/// The per-tag ordered handler registry.
pub struct EventDispatcher {
    pub regs: Vec<Registration>,
}

impl EventDispatcher {
    /// An empty registry.
    pub fn new() -> (r: EventDispatcher)
        ensures
            r.regs@ == Seq::<Registration>::empty(),
    {
        EventDispatcher { regs: Vec::new() }
    }

    /// Append a handler to the list kept for a tag; nothing already
    /// registered moves.
    pub fn on(&mut self, tag: String, handler: u64)
        ensures
            final(self).regs@ == old(self).regs@.push(
                Registration { tag: tag, handler: handler },
            ),
    {
        self.regs.push(Registration { tag, handler });
    }

    /// The handlers owed an invocation for this tag, in registration
    /// order. A tag nobody registered for yields the empty schedule.
    pub fn schedule(&self, tag: &str) -> (r: Vec<u64>)
        ensures
            r@ == spec_schedule(self.regs@, tag@),
    {
        let n = self.regs.len();
        let mut out: Vec<u64> = Vec::new();
        let mut i: usize = 0;
        proof {
            assert(self.regs@.take(0) =~= Seq::<Registration>::empty());
        }
        while i < n
            invariant
                i <= n,
                n == self.regs@.len(),
                out@ == spec_schedule(self.regs@.take(i as int), tag@),
            decreases n - i,
        {
            proof {
                let pre = self.regs@.take(i as int + 1);
                assert(pre.drop_last() =~= self.regs@.take(i as int));
                assert(pre.last() == self.regs@[i as int]);
            }
            if str_eq(self.regs[i].tag.as_str(), tag) {
                out.push(self.regs[i].handler);
            }
            i = i + 1;
        }
        proof {
            assert(self.regs@.take(n as int) =~= self.regs@);
        }
        out
    }
}

/// Collect the handlers whose run failed, in schedule order. The schedule
/// itself is unaffected: one failure never cancels a sibling, it is only
/// reported here so tests and callers can observe it.
pub fn failed_handlers(handlers: &Vec<u64>, ok: &Vec<bool>) -> (r: Vec<u64>)
    requires
        handlers@.len() == ok@.len(),
    ensures
        r@ == spec_failed(handlers@, ok@),
{
    let n = handlers.len();
    let mut out: Vec<u64> = Vec::new();
    let mut i: usize = 0;
    proof {
        assert(handlers@.take(0) =~= Seq::<u64>::empty());
        assert(ok@.take(0) =~= Seq::<bool>::empty());
    }
    while i < n
        invariant
            i <= n,
            n == handlers@.len(),
            n == ok@.len(),
            out@ == spec_failed(handlers@.take(i as int), ok@.take(i as int)),
        decreases n - i,
    {
        proof {
            let hp = handlers@.take(i as int + 1);
            let op = ok@.take(i as int + 1);
            assert(hp.drop_last() =~= handlers@.take(i as int));
            assert(op.drop_last() =~= ok@.take(i as int));
            assert(hp.last() == handlers@[i as int]);
            assert(op.last() == ok@[i as int]);
        }
        if !ok[i] {
            out.push(handlers[i]);
        }
        i = i + 1;
    }
    proof {
        assert(handlers@.take(n as int) =~= handlers@);
        assert(ok@.take(n as int) =~= ok@);
    }
    out
}

} // verus!
