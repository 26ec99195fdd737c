//! Hierarchical topics and segment-wise pattern matching.
//!
//! A topic is a string of segments separated by `/`. A pattern is a topic
//! whose segments may also be the single-segment wildcard `+`, which stands
//! for exactly one segment, or the multi-segment wildcard `#`, which stands
//! for the whole remainder and is only meaningful as the final segment.

use vstd::prelude::*;

use crate::text::str_eq;

verus! {

/// The single-segment wildcard.
pub open spec fn single_wild() -> Seq<char> {
    seq!['+']
}

/// The multi-segment wildcard.
pub open spec fn multi_wild() -> Seq<char> {
    seq!['#']
}

/// A string seen as the pieces between occurrences of a separator. The
/// result always holds at least one piece; an empty string is one empty
/// piece.
pub open spec fn spec_split_on(s: Seq<char>, sep: char) -> Seq<Seq<char>>
    decreases s.len(),
{
    if s.len() == 0 {
        seq![Seq::<char>::empty()]
    } else if s.last() == sep {
        spec_split_on(s.drop_last(), sep).push(Seq::<char>::empty())
    } else {
        let r = spec_split_on(s.drop_last(), sep);
        r.update(r.len() - 1, r.last().push(s.last()))
    }
}

/// A path seen as its segments: the characters split on `/`.
pub open spec fn spec_split(s: Seq<char>) -> Seq<Seq<char>> {
    spec_split_on(s, '/')
}

/// Segment lists match when walked in step: a leading `#` swallows any
/// remainder, a leading `+` or an equal segment consumes one segment on
/// each side, and both sides must run out together.
pub open spec fn segments_match(p: Seq<Seq<char>>, t: Seq<Seq<char>>) -> bool
    decreases p.len() + t.len(),
{
    if p.len() == 0 {
        t.len() == 0
    } else if p[0] == multi_wild() {
        p.len() == 1
    } else if t.len() == 0 {
        false
    } else if p[0] == single_wild() || p[0] == t[0] {
        segments_match(p.drop_first(), t.drop_first())
    } else {
        false
    }
}

/// Whether a pattern matches a topic, segment by segment.
pub open spec fn topic_matches(pattern: Seq<char>, topic: Seq<char>) -> bool {
    segments_match(spec_split(pattern), spec_split(topic))
}

/// The character views of a list of owned segments.
pub open spec fn seg_views(v: Seq<String>) -> Seq<Seq<char>> {
    v.map_values(|x: String| x@)
}

/// Split a string into the pieces between occurrences of a separator.
pub fn split_on(s: &str, sep: char) -> (r: Vec<String>)
    ensures
        seg_views(r@) == spec_split_on(s@, sep),
{
    let n = s.unicode_len();
    let mut done: Vec<String> = Vec::new();
    let mut start: usize = 0;
    let mut i: usize = 0;
    proof {
        assert(s@.take(0) =~= Seq::<char>::empty());
        assert(s@.subrange(0, 0) =~= Seq::<char>::empty());
        assert(seg_views(done@).push(s@.subrange(0, 0)) =~~= spec_split_on(s@.take(0), sep));
    }
    while i < n
        invariant
            start <= i <= n,
            n == s@.len(),
            seg_views(done@).push(s@.subrange(start as int, i as int))
                == spec_split_on(s@.take(i as int), sep),
        decreases n - i,
    {
        let c = s.get_char(i);
        proof {
            let pre = s@.take(i as int + 1);
            assert(pre.drop_last() =~= s@.take(i as int));
            assert(pre.last() == s@[i as int]);
        }
        if c == sep {
            let ghost prior = seg_views(done@);
            let ghost cur = s@.subrange(start as int, i as int);
            let seg = s.substring_char(start, i);
            done.push(seg.to_owned());
            proof {
                assert(seg_views(done@) =~~= prior.push(cur));
                assert(seg_views(done@).push(Seq::<char>::empty())
                    =~~= spec_split_on(s@.take(i as int + 1), sep));
                assert(s@.subrange(i as int + 1, i as int + 1) =~= Seq::<char>::empty());
            }
            start = i + 1;
        } else {
            proof {
                let prev = spec_split_on(s@.take(i as int), sep);
                let base = seg_views(done@);
                let cur = s@.subrange(start as int, i as int);
                assert(prev == base.push(cur));
                assert(prev.last() == cur);
                assert(cur.push(s@[i as int])
                    =~= s@.subrange(start as int, i as int + 1));
                assert(prev.update(prev.len() - 1, prev.last().push(s@[i as int]))
                    =~~= base.push(s@.subrange(start as int, i as int + 1)));
            }
        }
        i = i + 1;
    }
    let ghost prior = seg_views(done@);
    let ghost cur = s@.subrange(start as int, n as int);
    let last = s.substring_char(start, n);
    done.push(last.to_owned());
    proof {
        assert(s@.take(n as int) =~= s@);
        assert(seg_views(done@) =~~= prior.push(cur));
        assert(seg_views(done@) =~~= spec_split_on(s@, sep));
    }
    done
}

/// Split a path into its `/`-separated segments.
pub fn split_path(s: &str) -> (r: Vec<String>)
    ensures
        seg_views(r@) == spec_split(s@),
{
    split_on(s, '/')
}

/// Whether a pattern matches a topic, decided segment by segment.
pub fn matches_topic(pattern: &str, topic: &str) -> (r: bool)
    ensures
        r == topic_matches(pattern@, topic@),
{
    let ps = split_path(pattern);
    let ts = split_path(topic);
    let np = ps.len();
    let nt = ts.len();
    let mut i: usize = 0;
    proof {
        assert(seg_views(ps@).skip(0) =~= seg_views(ps@));
        assert(seg_views(ts@).skip(0) =~= seg_views(ts@));
    }
    loop
        invariant
            i <= np,
            i <= nt,
            np == ps@.len(),
            nt == ts@.len(),
            seg_views(ps@) == spec_split(pattern@),
            seg_views(ts@) == spec_split(topic@),
            topic_matches(pattern@, topic@)
                == segments_match(seg_views(ps@).skip(i as int), seg_views(ts@).skip(i as int)),
        decreases np - i,
    {
        proof {
            reveal_strlit("#");
            reveal_strlit("+");
            assert("#"@ =~= multi_wild());
            assert("+"@ =~= single_wild());
            assert(multi_wild() != single_wild()) by {
                assert(multi_wild()[0] == '#' && single_wild()[0] == '+');
            }
            let pv = seg_views(ps@).skip(i as int);
            let tv = seg_views(ts@).skip(i as int);
            assert(pv.len() == np - i);
            assert(tv.len() == nt - i);
            if i < np {
                assert(pv[0] == ps@[i as int]@);
            }
            if i < nt {
                assert(tv[0] == ts@[i as int]@);
            }
        }
        if i == np {
            return i == nt;
        }
        if str_eq(ps[i].as_str(), "#") {
            return i + 1 == np;
        }
        if i == nt {
            return false;
        }
        let step = if str_eq(ps[i].as_str(), "+") {
            true
        } else {
            str_eq(ps[i].as_str(), ts[i].as_str())
        };
        if step {
            proof {
                assert(seg_views(ps@).skip(i as int).drop_first()
                    =~= seg_views(ps@).skip(i as int + 1));
                assert(seg_views(ts@).skip(i as int).drop_first()
                    =~= seg_views(ts@).skip(i as int + 1));
            }
            i = i + 1;
        } else {
            return false;
        }
    }
}

} // verus!
