//! The data model of the replay-sharing service: players, replay records,
//! the request that is sent to it and the response shape that comes back,
//! together with the over-fetch policy and the top-k selection that picks
//! the most desirable replays out of a fetched candidate pool.

use std::cmp::Ordering;
use vstd::prelude::*;

use crate::compare::{compare_replays, ge_desir, sorted_desc, spec_compare};
use crate::compare::{lemma_compare_antisymmetric, lemma_ge_desir_transitive};

verus! {

/// How many candidates are requested for each replay that is wanted: the
/// service's own "best" ranking is a poor proxy for the desirability
/// order, so a wide pool is pulled and re-ranked locally.
pub const OVER_FETCH_FACTOR: u16 = 8;

/// One participant of a recorded match. A missing `rank` or `score` is
/// valid and counts as the numeric value 0 in every difference calculation.
#[derive(Clone, Debug)]
pub struct Player {
    pub name: String,
    pub country: String,
    pub rank: Option<i8>,
    pub score: Option<i8>,
}

/// Metadata of one recorded match between exactly two players, in fixed
/// order (player one, player two). The record is immutable once fetched:
/// it is only read, compared and handed on.
///
/// The match duration is held in integer milliseconds (`duration_ms`);
/// the wire format carries floating-point seconds, which the surrounding
/// program converts at its edge. `ranked` is read only as zero (casual
/// match) versus nonzero (ladder match); its magnitude carries no meaning.
#[derive(Clone, Debug)]
pub struct ReplayInfo {
    pub quarkid: String,
    pub channelname: String,
    pub date: i64,
    pub duration_ms: i64,
    pub emulator: String,
    pub gameid: String,
    pub num_matches: i64,
    pub players: [Player; 2],
    pub ranked: i8,
    pub replay_file: String,
    pub realtime_views: Option<i64>,
    pub saved_views: Option<i64>,
}

/// The list of replays one request returned, with the total count the
/// service reported for the queried window.
#[derive(Clone, Debug)]
pub struct ReplayResults {
    pub results: Vec<ReplayInfo>,
    pub count: i64,
}

/// The body of one response from the service.
#[derive(Clone, Debug)]
pub struct ReplayResponse {
    pub results: ReplayResults,
}

/// The request kind the service expects for a replay search.
pub const APIQUARK: &'static str = "searchquarks";

/// One search request to the service: `best` asks for its "best"-flagged
/// replays, otherwise the most recent ones; `since` is the oldest epoch
/// timestamp (in seconds) admitted; `limit` caps the result count.
#[derive(Clone, Debug)]
pub struct ReplayRequest {
    pub req: String,
    pub best: bool,
    pub since: i64,
    pub offset: u64,
    pub limit: u16,
    pub gameid: Option<String>,
}

/// The first, over-fetching request for a game: ask the service for its
/// "best" replays, [`OVER_FETCH_FACTOR`] candidates for each replay that
/// is wanted, so that the local desirability order has a pool to choose
/// from.
pub fn best_request(gameid: String, since: i64, limit: u16) -> (r: ReplayRequest)
    requires
        limit as int * OVER_FETCH_FACTOR as int <= u16::MAX as int,
    ensures
        r.req@ == APIQUARK@,
        r.best == true,
        r.since == since,
        r.offset == 0,
        r.limit == limit * OVER_FETCH_FACTOR,
        r.gameid == Some(gameid),
{
    ReplayRequest {
        req: APIQUARK.to_owned(),
        best: true,
        since,
        offset: 0,
        limit: limit * OVER_FETCH_FACTOR,
        gameid: Some(gameid),
    }
}

/// The fallback request: the same window and cap as `req`, but asking for
/// the most recent replays instead of the "best"-flagged ones.
pub fn latest_request(req: ReplayRequest) -> (r: ReplayRequest)
    ensures
        r.req == req.req,
        r.best == false,
        r.since == req.since,
        r.offset == req.offset,
        r.limit == req.limit,
        r.gameid == req.gameid,
{
    ReplayRequest { best: false, ..req }
}

/// Whether the first request under-filled the pool, so that the fallback
/// request for the most recent replays must be issued: true exactly when
/// fewer candidates were found than replays are wanted.
pub fn fallback_needed(found: usize, limit: u16) -> (b: bool)
    ensures
        b == (found < limit as usize),
{
    found < limit as usize
}

/// The index of a most desirable replay in a nonempty pool (the first
/// such, scanning left to right).
fn most_desirable_index(pool: &Vec<ReplayInfo>, bias_close: bool) -> (best: usize)
    requires
        pool@.len() > 0,
    ensures
        0 <= best < pool@.len(),
        forall|m: int| 0 <= m < pool@.len() ==> ge_desir(pool@[best as int], pool@[m], bias_close),
{
    let mut best: usize = 0;
    let mut k: usize = 1;
    proof {
        lemma_compare_antisymmetric(pool@[0], pool@[0], bias_close);
    }
    while k < pool.len()
        invariant
            0 <= best < k <= pool@.len(),
            forall|m: int| 0 <= m < k ==> ge_desir(pool@[best as int], pool@[m], bias_close),
        decreases pool@.len() - k,
    {
        let c = compare_replays(&pool[k], &pool[best], bias_close);
        match c {
            Ordering::Greater => {
                proof {
                    lemma_compare_antisymmetric(pool@[k as int], pool@[k as int], bias_close);
                    assert forall|m: int| 0 <= m < k implies ge_desir(
                        pool@[k as int],
                        pool@[m],
                        bias_close,
                    ) by {
                        lemma_ge_desir_transitive(
                            pool@[k as int],
                            pool@[best as int],
                            pool@[m],
                            bias_close,
                        );
                    }
                }
                best = k;
            },
            _ => {
                proof {
                    lemma_compare_antisymmetric(pool@[k as int], pool@[best as int], bias_close);
                }
            },
        }
        k = k + 1;
    }
    best
}

/// Pick the up to `limit` most desirable replays out of `pool`, most
/// desirable first: the result is what sorting the pool by descending
/// desirability and truncating it to `limit` entries leaves.
pub fn select_replays(pool: Vec<ReplayInfo>, limit: u16, bias_close: bool) -> (r: Vec<ReplayInfo>)
    ensures
        r@.len() == vstd::math::min(limit as int, pool@.len() as int),
        sorted_desc(r@, bias_close),
        forall|x: ReplayInfo| #[trigger]
            r@.to_multiset().count(x) <= pool@.to_multiset().count(x),
        forall|x: ReplayInfo, i: int|
            #![trigger r@.to_multiset().count(x), r@[i]]
            pool@.to_multiset().count(x) > r@.to_multiset().count(x) && 0 <= i < r@.len()
                ==> ge_desir(r@[i], x, bias_close),
{
    broadcast use vstd::seq_lib::group_to_multiset_ensures;
    broadcast use vstd::multiset::group_multiset_axioms;

    let mut work = pool;
    let mut out: Vec<ReplayInfo> = Vec::new();
    let lim: usize = limit as usize;
    proof {
        assert(out@.to_multiset().add(work@.to_multiset()) =~= pool@.to_multiset()) by {
            assert forall|x: ReplayInfo| out@.to_multiset().count(x) == 0 by {
                assert(!out@.contains(x));
            }
        }
    }
    while out.len() < lim && work.len() > 0
        invariant
            lim == limit as int,
            out@.len() <= lim,
            out@.len() + work@.len() == pool@.len(),
            out@.to_multiset().add(work@.to_multiset()) == pool@.to_multiset(),
            sorted_desc(out@, bias_close),
            forall|i: int, k: int|
                0 <= i < out@.len() && 0 <= k < work@.len() ==> ge_desir(
                    #[trigger] out@[i],
                    #[trigger] work@[k],
                    bias_close,
                ),
        decreases work@.len(),
    {
        broadcast use vstd::seq_lib::group_to_multiset_ensures;
        broadcast use vstd::multiset::group_multiset_axioms;

        let best = most_desirable_index(&work, bias_close);
        let ghost prev_out = out@;
        let ghost prev_work = work@;
        let chosen = work.remove(best);
        out.push(chosen);
        proof {
            lemma_compare_antisymmetric(chosen, chosen, bias_close);
            assert(out@ == prev_out.push(chosen));
            assert(work@ == prev_work.remove(best as int));
            // the removed and re-inserted element keeps the combined multiset
            assert(prev_work.remove(best as int).to_multiset() =~= prev_work.to_multiset().remove(
                chosen,
            ));
            assert(prev_work.to_multiset().count(chosen) > 0) by {
                assert(prev_work.contains(chosen));
            }
            assert(out@.to_multiset().add(work@.to_multiset()) =~= pool@.to_multiset());
            // every element chosen so far stays at least as desirable as
            // everything left in the pool, which sits at an old index
            assert forall|i: int, k: int|
                0 <= i < out@.len() && 0 <= k < work@.len() implies ge_desir(
                #[trigger] out@[i],
                #[trigger] work@[k],
                bias_close,
            ) by {
                if k < best {
                    assert(prev_work[k] == work@[k]);
                } else {
                    assert(prev_work[k + 1] == work@[k]);
                }
                if i < prev_out.len() {
                    assert(out@[i] == prev_out[i]);
                } else {
                    assert(out@[i] == chosen);
                }
            }
            assert(sorted_desc(out@, bias_close)) by {
                assert forall|i: int, j: int| 0 <= i <= j < out@.len() implies ge_desir(
                    out@[i],
                    out@[j],
                    bias_close,
                ) by {
                    if j < prev_out.len() {
                        assert(ge_desir(prev_out[i], prev_out[j], bias_close));
                    } else if i < prev_out.len() {
                        assert(ge_desir(prev_out[i], prev_work[best as int], bias_close));
                    }
                }
            }
        }
    }
    proof {
        broadcast use vstd::seq_lib::group_to_multiset_ensures;
        broadcast use vstd::multiset::group_multiset_axioms;

        assert forall|x: ReplayInfo, i: int|
            pool@.to_multiset().count(x) > out@.to_multiset().count(x) && 0 <= i
                < out@.len() implies ge_desir(out@[i], x, bias_close) by {
            assert(work@.to_multiset().count(x) > 0);
            assert(work@.contains(x));
            let k = choose|k: int| 0 <= k < work@.len() && work@[k] == x;
            assert(ge_desir(out@[i], work@[k], bias_close));
        }
    }
    out
}

} // verus!
