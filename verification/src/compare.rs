//! The desirability order on replays: a total preorder used to pick the
//! best candidates out of a fetched pool. Tiers, in strict priority order:
//! ranked beats unranked; between ranked replays, optionally a smaller
//! score difference between the two players, then a smaller rank
//! difference; and for every pair, a duration closer to the reference
//! match length as the final tiebreak.

use std::cmp::Ordering;
use vstd::prelude::*;

use crate::fightcade::{Player, ReplayInfo};

verus! {

/// The reference match length (15 minutes), in milliseconds: the final
/// tiebreak prefers the replay whose duration lies closer to it.
pub const REASONABLE_MATCH_LENGTH_MS: i64 = 900_000;

/// Absolute difference of two mathematical integers.
pub open spec fn abs_diff(a: int, b: int) -> int {
    if a >= b {
        a - b
    } else {
        b - a
    }
}

/// A player's rank, with a missing rank counting as 0.
pub open spec fn spec_rank(p: Player) -> int {
    match p.rank {
        Some(v) => v as int,
        None => 0,
    }
}

/// A player's score, with a missing score counting as 0.
pub open spec fn spec_score(p: Player) -> int {
    match p.score {
        Some(v) => v as int,
        None => 0,
    }
}

/// Whether a replay is a ladder match: any nonzero flag counts as ranked.
pub open spec fn is_ranked(r: ReplayInfo) -> bool {
    r.ranked != 0
}

/// How far the two players' scores lie apart.
pub open spec fn score_diff(r: ReplayInfo) -> int {
    abs_diff(spec_score(r.players@[0]), spec_score(r.players@[1]))
}

/// How far the two players' ranks lie apart.
pub open spec fn rank_diff(r: ReplayInfo) -> int {
    abs_diff(spec_rank(r.players@[0]), spec_rank(r.players@[1]))
}

/// How far a replay's duration lies from the reference match length.
pub open spec fn duration_dist(r: ReplayInfo) -> int {
    abs_diff(r.duration_ms as int, REASONABLE_MATCH_LENGTH_MS as int)
}

/// One comparison tier over a derived quantity where smaller is more
/// desirable: the replay with the smaller value compares greater.
pub open spec fn smaller_wins(x: int, y: int) -> Ordering {
    if x < y {
        Ordering::Greater
    } else if y < x {
        Ordering::Less
    } else {
        Ordering::Equal
    }
}

/// The desirability order. `Ordering::Greater` means `a` is strictly more
/// desirable than `b`. The score tier applies only between ranked replays
/// and only when the caller opted in via `bias_close`; the rank tier
/// applies between ranked replays unconditionally; the duration tier is
/// the final tiebreak for every pair.
pub open spec fn spec_compare(a: ReplayInfo, b: ReplayInfo, bias_close: bool) -> Ordering {
    if is_ranked(a) && !is_ranked(b) {
        Ordering::Greater
    } else if is_ranked(b) && !is_ranked(a) {
        Ordering::Less
    } else if is_ranked(a) && is_ranked(b) {
        if bias_close && score_diff(a) != score_diff(b) {
            smaller_wins(score_diff(a), score_diff(b))
        } else if rank_diff(a) != rank_diff(b) {
            smaller_wins(rank_diff(a), rank_diff(b))
        } else {
            smaller_wins(duration_dist(a), duration_dist(b))
        }
    } else {
        smaller_wins(duration_dist(a), duration_dist(b))
    }
}

/// The opposite ordering: what comparing the two operands swapped yields.
pub open spec fn invert_ordering(o: Ordering) -> Ordering {
    match o {
        Ordering::Less => Ordering::Greater,
        Ordering::Equal => Ordering::Equal,
        Ordering::Greater => Ordering::Less,
    }
}

/// `a` is at least as desirable as `b`.
pub open spec fn ge_desir(a: ReplayInfo, b: ReplayInfo, bias_close: bool) -> bool {
    spec_compare(a, b, bias_close) != Ordering::Less
}

/// The sequence is ordered by descending desirability: every element is at
/// least as desirable as everything after it.
pub open spec fn sorted_desc(s: Seq<ReplayInfo>, bias_close: bool) -> bool {
    forall|i: int, j: int| 0 <= i <= j < s.len() ==> ge_desir(s[i], s[j], bias_close)
}

fn score_diff_of(r: &ReplayInfo) -> (d: i32)
    ensures
        d as int == score_diff(*r),
{
    let s0: i32 = match r.players[0].score {
        Some(v) => v as i32,
        None => 0,
    };
    let s1: i32 = match r.players[1].score {
        Some(v) => v as i32,
        None => 0,
    };
    if s0 >= s1 {
        s0 - s1
    } else {
        s1 - s0
    }
}

fn rank_diff_of(r: &ReplayInfo) -> (d: i32)
    ensures
        d as int == rank_diff(*r),
{
    let r0: i32 = match r.players[0].rank {
        Some(v) => v as i32,
        None => 0,
    };
    let r1: i32 = match r.players[1].rank {
        Some(v) => v as i32,
        None => 0,
    };
    if r0 >= r1 {
        r0 - r1
    } else {
        r1 - r0
    }
}

fn duration_dist_of(r: &ReplayInfo) -> (d: u64)
    ensures
        d as int == duration_dist(*r),
{
    let dur: i128 = r.duration_ms as i128;
    let reference: i128 = REASONABLE_MATCH_LENGTH_MS as i128;
    let dist: i128 = if dur >= reference {
        dur - reference
    } else {
        reference - dur
    };
    dist as u64
}

/// Compare two replays by desirability. Returns `Ordering::Greater` when
/// `a` is strictly more desirable than `b`, following the tiers of
/// [`spec_compare`].
pub fn compare_replays(a: &ReplayInfo, b: &ReplayInfo, bias_close: bool) -> (r: Ordering)
    ensures
        r == spec_compare(*a, *b, bias_close),
{
    let a_ranked = a.ranked != 0;
    let b_ranked = b.ranked != 0;
    if a_ranked && !b_ranked {
        return Ordering::Greater;
    }
    if b_ranked && !a_ranked {
        return Ordering::Less;
    }
    if a_ranked && b_ranked {
        if bias_close {
            let sd_a = score_diff_of(a);
            let sd_b = score_diff_of(b);
            if sd_a < sd_b {
                return Ordering::Greater;
            }
            if sd_b < sd_a {
                return Ordering::Less;
            }
        }
        let rd_a = rank_diff_of(a);
        let rd_b = rank_diff_of(b);
        if rd_a < rd_b {
            return Ordering::Greater;
        }
        if rd_b < rd_a {
            return Ordering::Less;
        }
    }
    let dd_a = duration_dist_of(a);
    let dd_b = duration_dist_of(b);
    if dd_a < dd_b {
        Ordering::Greater
    } else if dd_b < dd_a {
        Ordering::Less
    } else {
        Ordering::Equal
    }
}

/// The comparison is antisymmetric: swapping the operands inverts the
/// result; in particular a replay compares equal to itself.
pub proof fn lemma_compare_antisymmetric(a: ReplayInfo, b: ReplayInfo, bias_close: bool)
    ensures
        spec_compare(b, a, bias_close) == invert_ordering(spec_compare(a, b, bias_close)),
        spec_compare(a, a, bias_close) == Ordering::Equal,
{
}

/// A casual (unranked) replay is strictly less desirable than a ladder
/// (ranked) one, whatever their scores, ranks and durations, and whether
/// or not close matches are preferred.
pub proof fn lemma_unranked_less(a: ReplayInfo, b: ReplayInfo, bias_close: bool)
    requires
        !is_ranked(a),
        is_ranked(b),
    ensures
        spec_compare(a, b, bias_close) == Ordering::Less,
{
}

/// The score tier fires only on request: between ranked replays with equal
/// rank differences but different score differences, preferring close
/// matches makes the smaller score difference win, while without that
/// preference the score tier is skipped and the duration tiebreak decides.
pub proof fn lemma_score_bias_gating(a: ReplayInfo, b: ReplayInfo)
    requires
        is_ranked(a),
        is_ranked(b),
        rank_diff(a) == rank_diff(b),
        score_diff(a) != score_diff(b),
    ensures
        spec_compare(a, b, true) == smaller_wins(score_diff(a), score_diff(b)),
        spec_compare(a, b, false) == smaller_wins(duration_dist(a), duration_dist(b)),
{
}

/// "At least as desirable" is transitive, which makes the comparison
/// usable as a sort order.
pub proof fn lemma_ge_desir_transitive(a: ReplayInfo, b: ReplayInfo, c: ReplayInfo, bias_close: bool)
    requires
        ge_desir(a, b, bias_close),
        ge_desir(b, c, bias_close),
    ensures
        ge_desir(a, c, bias_close),
{
}

/// A missing rank or score counts as zero: filling in `Some(0)` for `None`
/// leaves both per-player readings unchanged.
pub proof fn lemma_missing_field_defaults(p: Player)
    ensures
        spec_rank((Player { rank: None, ..p })) == spec_rank((Player { rank: Some(0i8), ..p })),
        spec_score((Player { score: None, ..p })) == spec_score((Player { score: Some(0i8), ..p })),
{
}

/// The comparison reads a replay only through its ranked flag and the
/// three derived distances; two replays that agree on those four behave
/// identically in every tier. Together with
/// [`lemma_missing_field_defaults`] this says that a player with a missing
/// rank or score behaves exactly as one whose rank or score is zero.
pub proof fn lemma_compare_reads_derived(a: ReplayInfo, a2: ReplayInfo, b: ReplayInfo, bias_close: bool)
    requires
        is_ranked(a2) == is_ranked(a),
        score_diff(a2) == score_diff(a),
        rank_diff(a2) == rank_diff(a),
        duration_dist(a2) == duration_dist(a),
    ensures
        spec_compare(a2, b, bias_close) == spec_compare(a, b, bias_close),
        spec_compare(b, a2, bias_close) == spec_compare(b, a, bias_close),
{
}

} // verus!
