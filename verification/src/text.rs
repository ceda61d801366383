//! Character-level text helpers shared by the game-list parser and the
//! display-name cleanup: finding a delimiter and trimming whitespace,
//! each with a spec-level definition and lemmas that connect the
//! definitions to index-based scans.

use vstd::prelude::*;

verus! {

/// The whitespace characters that trimming removes: the Unicode
/// White_Space set, the same set that `str::trim` and `char::is_whitespace`
/// go by — the ASCII whitespace characters, next line, no-break space,
/// ogham space mark, the en-quad..hair-space range, line and paragraph
/// separators, narrow no-break space, medium mathematical space, and the
/// ideographic space.
pub open spec fn is_space(c: char) -> bool {
    let u = c as u32;
    (0x9 <= u && u <= 0xD) || u == 0x20 || u == 0x85 || u == 0xA0 || u == 0x1680 || (0x2000 <= u
        && u <= 0x200A) || u == 0x2028 || u == 0x2029 || u == 0x202F || u == 0x205F || u == 0x3000
}

/// Runtime test for [`is_space`].
pub fn is_space_char(c: char) -> (r: bool)
    ensures
        r == is_space(c),
{
    let u = c as u32;
    (0x9 <= u && u <= 0xD) || u == 0x20 || u == 0x85 || u == 0xA0 || u == 0x1680 || (0x2000 <= u
        && u <= 0x200A) || u == 0x2028 || u == 0x2029 || u == 0x202F || u == 0x205F || u == 0x3000
}

/// Index of the first occurrence of `c` in `t`, or `t.len()` if there is none.
pub open spec fn find_char(t: Seq<char>, c: char) -> int
    decreases t.len(),
{
    if t.len() == 0 {
        0
    } else if t[0] == c {
        0
    } else {
        1 + find_char(t.skip(1), c)
    }
}

pub proof fn lemma_find_char_bounds(t: Seq<char>, c: char)
    ensures
        0 <= find_char(t, c) <= t.len(),
        find_char(t, c) < t.len() ==> t[find_char(t, c)] == c,
        forall|k: int| 0 <= k < find_char(t, c) ==> t[k] != c,
    decreases t.len(),
{
    if t.len() != 0 && t[0] != c {
        lemma_find_char_bounds(t.skip(1), c);
        assert forall|k: int| 0 <= k < find_char(t, c) implies t[k] != c by {
            if k > 0 {
                assert(t.skip(1)[k - 1] != c);
            }
        }
    }
}

/// A scan that saw no `c` before index `m`, and `c` (or the end) at `m`,
/// has found `find_char`.
pub proof fn lemma_find_char_from_scan(t: Seq<char>, c: char, m: int)
    requires
        0 <= m <= t.len(),
        forall|k: int| 0 <= k < m ==> t[k] != c,
        m < t.len() ==> t[m] == c,
    ensures
        find_char(t, c) == m,
    decreases t.len(),
{
    if t.len() != 0 && t[0] != c {
        lemma_find_char_from_scan(t.skip(1), c, m - 1);
    }
}

/// `s` without its leading whitespace.
pub open spec fn trim_start(s: Seq<char>) -> Seq<char>
    decreases s.len(),
{
    if s.len() > 0 && is_space(s[0]) {
        trim_start(s.skip(1))
    } else {
        s
    }
}

/// `s` without its trailing whitespace.
pub open spec fn trim_end(s: Seq<char>) -> Seq<char>
    decreases s.len(),
{
    if s.len() > 0 && is_space(s[s.len() - 1]) {
        trim_end(s.take(s.len() - 1))
    } else {
        s
    }
}

/// `s` without leading and trailing whitespace.
pub open spec fn trim(s: Seq<char>) -> Seq<char> {
    trim_end(trim_start(s))
}

/// A scan that saw whitespace everywhere before `lo`, and something else
/// (or the end) at `lo`, has found `trim_start`.
pub proof fn lemma_trim_start_from_scan(s: Seq<char>, lo: int)
    requires
        0 <= lo <= s.len(),
        forall|k: int| 0 <= k < lo ==> is_space(s[k]),
        lo < s.len() ==> !is_space(s[lo]),
    ensures
        trim_start(s) == s.skip(lo),
    decreases s.len(),
{
    if s.len() > 0 && is_space(s[0]) {
        lemma_trim_start_from_scan(s.skip(1), lo - 1);
        assert(s.skip(1).skip(lo - 1) =~= s.skip(lo));
    } else {
        assert(s.skip(0) =~= s);
    }
}

/// A scan that saw whitespace everywhere from `hi` on, and something else
/// (or the start) just before `hi`, has found `trim_end`.
pub proof fn lemma_trim_end_from_scan(s: Seq<char>, hi: int)
    requires
        0 <= hi <= s.len(),
        forall|k: int| hi <= k < s.len() ==> is_space(s[k]),
        hi > 0 ==> !is_space(s[hi - 1]),
    ensures
        trim_end(s) == s.take(hi),
    decreases s.len(),
{
    if s.len() > 0 && is_space(s[s.len() - 1]) {
        lemma_trim_end_from_scan(s.take(s.len() - 1), hi);
        assert(s.take(s.len() - 1).take(hi) =~= s.take(hi));
    } else {
        assert(s.take(s.len() as int) =~= s);
    }
}

} // verus!
