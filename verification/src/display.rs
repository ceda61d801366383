//! Display-name cleanup for rendered reports: a player's shown name is cut
//! at the first `(` (used to strip parenthetical annotations such as region
//! tags) and trailing whitespace is trimmed. A pure text transform; the
//! stored data is never changed.

use vstd::prelude::*;
use vstd::string::StrSliceExecFns;

use crate::text::{
    find_char, is_space, is_space_char, lemma_find_char_from_scan, lemma_trim_end_from_scan,
    trim_end,
};

verus! {

/// What cleaning a name means: everything before the first `(`, with
/// trailing whitespace removed.
pub open spec fn clean_name_spec(s: Seq<char>) -> Seq<char> {
    trim_end(s.take(find_char(s, '(')))
}

/// Clean a player's display name for rendering.
pub fn clean_name(s: &str) -> (r: String)
    ensures
        r@ == clean_name_spec(s@),
{
    let n: usize = s.unicode_len();
    let mut c: usize = 0;
    while c < n && s.get_char(c) != '('
        invariant
            n == s@.len(),
            c <= n,
            forall|m: int| 0 <= m < c ==> s@[m] != '(',
        decreases n - c,
    {
        c = c + 1;
    }
    let mut hi: usize = c;
    while hi > 0 && is_space_char(s.get_char(hi - 1))
        invariant
            n == s@.len(),
            hi <= c <= n,
            forall|m: int| hi <= m < c ==> is_space(s@[m]),
        decreases hi,
    {
        hi = hi - 1;
    }
    proof {
        lemma_find_char_from_scan(s@, '(', c as int);
        let cl = s@.take(c as int);
        assert forall|m: int| hi <= m < cl.len() implies is_space(cl[m]) by {
            assert(cl[m] == s@[m]);
        }
        if hi > 0 {
            assert(cl[hi - 1] == s@[hi - 1]);
        }
        lemma_trim_end_from_scan(cl, hi as int);
        assert(cl.take(hi as int) =~= s@.subrange(0, hi as int));
    }
    s.substring_char(0, hi).to_owned()
}

} // verus!
