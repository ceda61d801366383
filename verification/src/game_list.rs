//! The game-list format: a text source with one game identifier per line.
//! `#` begins a comment that runs to the end of the line; identifiers are
//! trimmed of surrounding whitespace; blank lines (and lines that are all
//! comment or whitespace) are dropped.

use vstd::prelude::*;
use vstd::string::StrSliceExecFns;

use crate::text::{
    find_char, is_space, is_space_char, lemma_find_char_bounds, lemma_find_char_from_scan,
    lemma_trim_end_from_scan, lemma_trim_start_from_scan, trim,
};

verus! {

/// What a game-list text means: the identifiers it lists, in order.
pub open spec fn parse_game_list_spec(t: Seq<char>) -> Seq<Seq<char>>
    decreases t.len(),
    via parse_game_list_spec_decreases
{
    if t.len() == 0 {
        Seq::empty()
    } else {
        let n = find_char(t, '\n');
        let rest = if n == t.len() {
            Seq::<char>::empty()
        } else {
            t.skip(n + 1)
        };
        let line = t.take(n);
        let entry = trim(line.take(find_char(line, '#')));
        if entry.len() == 0 {
            parse_game_list_spec(rest)
        } else {
            seq![entry] + parse_game_list_spec(rest)
        }
    }
}

#[via_fn]
proof fn parse_game_list_spec_decreases(t: Seq<char>) {
    if t.len() != 0 {
        lemma_find_char_bounds(t, '\n');
    }
}

/// Parse a game-list text: split it into lines, strip comments, trim
/// whitespace, and drop what is left empty.
pub fn read_game_list(text: String) -> (games: Vec<String>)
    ensures
        games.deep_view() == parse_game_list_spec(text@),
{
    let s: &str = text.as_str();
    let n: usize = s.unicode_len();
    let mut games: Vec<String> = Vec::new();
    let mut p: usize = 0;
    proof {
        assert(games.deep_view() =~= Seq::<Seq<char>>::empty());
        assert(text@.skip(0) =~= text@);
    }
    while p < n
        invariant
            s@ == text@,
            n == text@.len(),
            p <= n,
            games.deep_view() + parse_game_list_spec(text@.skip(p as int)) == parse_game_list_spec(
                text@,
            ),
        decreases n - p,
    {
        // find the end of the line
        let mut e: usize = p;
        while e < n && s.get_char(e) != '\n'
            invariant
                s@ == text@,
                n == text@.len(),
                p <= e <= n,
                forall|m: int| p <= m < e ==> text@[m] != '\n',
            decreases n - e,
        {
            e = e + 1;
        }
        // find the start of a comment within the line
        let mut c: usize = p;
        while c < e && s.get_char(c) != '#'
            invariant
                s@ == text@,
                n == text@.len(),
                p <= c <= e <= n,
                forall|m: int| p <= m < c ==> text@[m] != '#',
            decreases e - c,
        {
            c = c + 1;
        }
        // trim surrounding whitespace off what is left
        let mut lo: usize = p;
        while lo < c && is_space_char(s.get_char(lo))
            invariant
                s@ == text@,
                n == text@.len(),
                p <= lo <= c <= n,
                forall|m: int| p <= m < lo ==> is_space(text@[m]),
            decreases c - lo,
        {
            lo = lo + 1;
        }
        let mut hi: usize = c;
        while hi > lo && is_space_char(s.get_char(hi - 1))
            invariant
                s@ == text@,
                n == text@.len(),
                p <= lo <= hi <= c <= n,
                forall|m: int| hi <= m < c ==> is_space(text@[m]),
            decreases hi - lo,
        {
            hi = hi - 1;
        }
        let ghost u = text@.skip(p as int);
        let ghost entry = text@.subrange(lo as int, hi as int);
        let ghost rest = if e == n {
            Seq::<char>::empty()
        } else {
            text@.skip(e + 1)
        };
        proof {
            // the newline scan found the spec-level end of the line
            assert forall|m: int| 0 <= m < e - p implies u[m] != '\n' by {
                assert(u[m] == text@[p + m]);
            }
            if (e as int) < n {
                assert(u[e - p] == text@[e as int]);
            }
            lemma_find_char_from_scan(u, '\n', e - p);
            let line = u.take(e - p);
            // the comment scan found the spec-level start of the comment
            assert forall|m: int| 0 <= m < c - p implies line[m] != '#' by {
                assert(line[m] == text@[p + m]);
            }
            if (c as int) < e {
                assert(line[c - p] == text@[c as int]);
            }
            lemma_find_char_from_scan(line, '#', c - p);
            let cl = line.take(c - p);
            // the two trim scans found the spec-level trim
            assert forall|m: int| 0 <= m < lo - p implies is_space(cl[m]) by {
                assert(cl[m] == text@[p + m]);
            }
            if (lo as int) < c {
                assert(cl[lo - p] == text@[lo as int]);
            }
            lemma_trim_start_from_scan(cl, lo - p);
            let ts = cl.skip(lo - p);
            assert(ts =~= text@.subrange(lo as int, c as int));
            assert forall|m: int| hi - lo <= m < ts.len() implies is_space(ts[m]) by {
                assert(ts[m] == text@[lo + m]);
            }
            if hi > lo {
                assert(ts[hi - lo - 1] == text@[hi - 1]);
            }
            lemma_trim_end_from_scan(ts, hi - lo);
            assert(ts.take(hi - lo) =~= entry);
            assert(trim(cl) == entry);
            // so the spec-level parse of the rest takes one step
            if e == n {
                assert(rest =~= Seq::<char>::empty());
            } else {
                assert(u.skip(e - p + 1) =~= text@.skip(e + 1));
            }
            if lo == hi {
                assert(parse_game_list_spec(u) == parse_game_list_spec(rest));
            } else {
                assert(parse_game_list_spec(u) == seq![entry] + parse_game_list_spec(rest));
            }
        }
        if lo < hi {
            let ghost dv = games.deep_view();
            let piece: &str = s.substring_char(lo, hi);
            games.push(piece.to_owned());
            proof {
                assert(games.deep_view() =~= dv.push(entry));
                assert(dv.push(entry) + parse_game_list_spec(rest) =~= dv + (seq![entry]
                    + parse_game_list_spec(rest)));
            }
        }
        p = if e < n {
            e + 1
        } else {
            n
        };
    }
    proof {
        assert(text@.skip(n as int) =~= Seq::<char>::empty());
    }
    games
}

} // verus!
