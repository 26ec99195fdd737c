//! Small string helpers used when shaping values for display.

use vstd::prelude::*;

verus! {

/// Equality of two string slices, stated over their character views.
pub fn str_eq(a: &str, b: &str) -> (r: bool)
    ensures
        r == (a@ == b@),
{
    let sa: String = a.to_owned();
    let sb: String = b.to_owned();
    sa == sb
}

/// Truncate a string to at most `max_len` characters, marking a cut with
/// a trailing ellipsis that counts against the limit.
pub fn truncate(s: &str, max_len: usize) -> (r: String)
    requires
        s@.len() > max_len ==> max_len >= 3,
    ensures
        s@.len() <= max_len ==> r@ == s@,
        s@.len() > max_len ==> r@ == s@.subrange(0, max_len - 3) + "..."@,
{
    let n = s.unicode_len();
    if n > max_len {
        let head = s.substring_char(0, max_len - 3);
        let mut out: String = head.to_owned();
        out.append("...");
        out
    } else {
        s.to_owned()
    }
}

/// The whitespace that trimming strips from either end.
pub open spec fn is_space(c: char) -> bool {
    c == ' ' || c == '\t' || c == '\n' || c == '\r'
}

/// A string with its leading whitespace stripped.
pub open spec fn spec_trim_start(s: Seq<char>) -> Seq<char>
    decreases s.len(),
{
    if s.len() > 0 && is_space(s[0]) {
        spec_trim_start(s.drop_first())
    } else {
        s
    }
}

/// A string with its trailing whitespace stripped.
pub open spec fn spec_trim_end(s: Seq<char>) -> Seq<char>
    decreases s.len(),
{
    if s.len() > 0 && is_space(s.last()) {
        spec_trim_end(s.drop_last())
    } else {
        s
    }
}

/// A string with the whitespace at both ends stripped.
pub open spec fn spec_trim(s: Seq<char>) -> Seq<char> {
    spec_trim_end(spec_trim_start(s))
}

/// Trimming from the start keeps whatever stands from the first
/// non-space character on.
proof fn lemma_trim_start_at(s: Seq<char>, i: int)
    requires
        0 <= i <= s.len(),
        forall|j: int| 0 <= j < i ==> is_space(s[j]),
        i < s.len() ==> !is_space(s[i]),
    ensures
        spec_trim_start(s) == s.skip(i),
    decreases i,
{
    if i == 0 {
        assert(s.skip(0) =~= s);
    } else {
        let d = s.drop_first();
        assert(forall|j: int| 0 <= j < i - 1 ==> is_space(#[trigger] d[j]));
        lemma_trim_start_at(d, i - 1);
        assert(d.skip(i - 1) =~= s.skip(i));
    }
}

/// Trimming from the end keeps whatever stands up to the last non-space
/// character.
proof fn lemma_trim_end_at(s: Seq<char>, e: int)
    requires
        0 <= e <= s.len(),
        forall|j: int| e <= j < s.len() ==> is_space(s[j]),
        e > 0 ==> !is_space(s[e - 1]),
    ensures
        spec_trim_end(s) == s.take(e),
    decreases s.len() - e,
{
    if e == s.len() {
        assert(s.take(e) =~= s);
    } else {
        let d = s.drop_last();
        assert(forall|j: int| e <= j < d.len() ==> is_space(#[trigger] d[j]));
        lemma_trim_end_at(d, e);
        assert(d.take(e) =~= s.take(e));
    }
}

/// Whether trimming strips this character.
pub fn is_space_char(c: char) -> (r: bool)
    ensures
        r == is_space(c),
{
    c == ' ' || c == '\t' || c == '\n' || c == '\r'
}

/// Strip the whitespace at both ends of a string.
pub fn trim(s: &str) -> (r: String)
    ensures
        r@ == spec_trim(s@),
{
    let n = s.unicode_len();
    let mut lo: usize = 0;
    while lo < n && is_space_char(s.get_char(lo))
        invariant
            lo <= n,
            n == s@.len(),
            forall|j: int| 0 <= j < lo ==> is_space(s@[j]),
        decreases n - lo,
    {
        lo = lo + 1;
    }
    proof {
        lemma_trim_start_at(s@, lo as int);
    }
    let mut hi: usize = n;
    while hi > lo && is_space_char(s.get_char(hi - 1))
        invariant
            lo <= hi <= n,
            n == s@.len(),
            forall|j: int| hi <= j < n ==> is_space(s@[j]),
            forall|j: int| 0 <= j < lo ==> is_space(s@[j]),
        decreases hi,
    {
        hi = hi - 1;
    }
    proof {
        let mid = s@.skip(lo as int);
        assert(forall|j: int| hi - lo <= j < mid.len() ==> is_space(#[trigger] mid[j]));
        if hi > lo {
            assert(mid[hi - lo - 1] == s@[hi as int - 1]);
        }
        lemma_trim_end_at(mid, hi - lo as int);
        assert(mid.take(hi - lo as int) =~= s@.subrange(lo as int, hi as int));
    }
    s.substring_char(lo, hi).to_owned()
}

/// The comma-separated entries of a list, each trimmed of surrounding
/// whitespace — the way a list of member ids is written on the command
/// line.
pub open spec fn spec_id_list(s: Seq<char>) -> Seq<Seq<char>> {
    crate::topic::spec_split_on(s, ',').map_values(|p: Seq<char>| spec_trim(p))
}

/// Split a comma-separated list into its trimmed entries.
pub fn split_ids(s: &str) -> (r: Vec<String>)
    ensures
        crate::topic::seg_views(r@) == spec_id_list(s@),
{
    let parts = crate::topic::split_on(s, ',');
    let m = parts.len();
    let mut out: Vec<String> = Vec::new();
    let mut i: usize = 0;
    while i < m
        invariant
            i <= m,
            m == parts@.len(),
            out@.len() == i,
            crate::topic::seg_views(parts@) == crate::topic::spec_split_on(s@, ','),
            forall|k: int| 0 <= k < i
                ==> #[trigger] out@[k]@ == spec_trim(parts@[k]@),
        decreases m - i,
    {
        let t = trim(parts[i].as_str());
        out.push(t);
        i = i + 1;
    }
    proof {
        let sv = crate::topic::seg_views(parts@);
        assert(forall|k: int| 0 <= k < m ==> #[trigger] sv[k] == parts@[k]@);
        assert(crate::topic::seg_views(out@) =~~= spec_id_list(s@));
    }
    out
}

/// Shorten an identifier for display: its first eight characters.
pub fn shorten_id(id: &str) -> (r: String)
    ensures
        r@ == id@.subrange(0, if id@.len() < 8 { id@.len() as int } else { 8 }),
{
    let n = id.unicode_len();
    let cut = if n < 8 { n } else { 8 };
    id.substring_char(0, cut).to_owned()
}

} // verus!
