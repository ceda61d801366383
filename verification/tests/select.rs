use fightcade_replays::fightcade::{
    best_request, fallback_needed, latest_request, select_replays, Player, ReplayInfo,
};

fn player(rank: Option<i8>, score: Option<i8>) -> Player {
    Player {
        name: "someone".to_string(),
        country: "xx".to_string(),
        rank,
        score,
    }
}

fn replay(id: &str, ranked: i8, rank_diff: i8, duration_ms: i64) -> ReplayInfo {
    ReplayInfo {
        quarkid: id.to_string(),
        channelname: "ch".to_string(),
        date: 0,
        duration_ms,
        emulator: "emu".to_string(),
        gameid: "game".to_string(),
        num_matches: 1,
        players: [player(Some(rank_diff), Some(0)), player(Some(0), Some(0))],
        ranked,
        replay_file: "file".to_string(),
        realtime_views: None,
        saved_views: None,
    }
}

fn ids(replays: &[ReplayInfo]) -> Vec<&str> {
    replays.iter().map(|r| r.quarkid.as_str()).collect()
}

#[test]
fn over_fetch_fallback() {
    // the "best" request for limit = 5 came back with only 3 candidates,
    // so the driver must ask for the latest replays too
    let best = vec![
        replay("b1", 1, 2, 900_000),
        replay("b2", 1, 0, 900_000),
        replay("b3", 1, 5, 900_000),
    ];
    assert!(fallback_needed(best.len(), 5));

    let latest = vec![
        replay("l1", 0, 0, 900_000),
        replay("l2", 0, 0, 850_000),
        replay("l3", 0, 0, 910_000),
        replay("l4", 0, 0, 2_000_000),
    ];

    let mut pool = best;
    pool.extend(latest);
    let selected = select_replays(pool, 5, false);

    // candidates from both calls, sorted, truncated to 5: the three ranked
    // ones by ascending rank difference, then the two closest unranked ones
    assert_eq!(ids(&selected), ["b2", "b1", "b3", "l1", "l3"]);
}

#[test]
fn no_fallback_when_filled() {
    assert!(!fallback_needed(5, 5));
    assert!(!fallback_needed(7, 5));
    assert!(fallback_needed(0, 1));
}

#[test]
fn end_to_end_selection() {
    // the driver's steps for one game: build the over-fetching request,
    // get 8 ranked "best" candidates back, skip the fallback, select 2
    let since_timestamp: i64 = 1_700_000_000;
    let req = best_request("garou".to_string(), since_timestamp, 2);
    assert_eq!(req.limit, 16);
    assert_eq!(req.since, since_timestamp);

    // eight ranked candidates with distinct rank differences
    let fetched = vec![
        replay("d4", 1, 4, 900_000),
        replay("d7", 1, 7, 900_000),
        replay("d1", 1, 1, 905_000),
        replay("d3", 1, 3, 900_000),
        replay("d0", 1, 0, 890_000),
        replay("d6", 1, 6, 900_000),
        replay("d2", 1, 2, 900_000),
        replay("d5", 1, 5, 900_000),
    ];
    assert!(!fallback_needed(fetched.len(), 2));

    let selected = select_replays(fetched, 2, false);
    // exactly the two smallest rank differences, in ascending order
    assert_eq!(ids(&selected), ["d0", "d1"]);
}

#[test]
fn selection_truncates_and_sorts() {
    let pool = vec![
        replay("far", 0, 0, 2_000_000),
        replay("close", 0, 0, 901_000),
        replay("exact", 0, 0, 900_000),
    ];
    // a pool smaller than the limit comes back whole, sorted
    assert_eq!(ids(&select_replays(pool.clone(), 10, false)), ["exact", "close", "far"]);
    assert_eq!(ids(&select_replays(pool.clone(), 1, false)), ["exact"]);
    assert_eq!(ids(&select_replays(pool, 0, false)), Vec::<&str>::new());
    assert_eq!(ids(&select_replays(Vec::new(), 5, true)), Vec::<&str>::new());
}

#[test]
fn request_building() {
    let req = best_request("sfiii3nr1".to_string(), 42, 5);
    assert_eq!(req.req, "searchquarks");
    assert!(req.best);
    assert_eq!(req.since, 42);
    assert_eq!(req.offset, 0);
    assert_eq!(req.limit, 40);
    assert_eq!(req.gameid.as_deref(), Some("sfiii3nr1"));

    let fallback = latest_request(req);
    assert_eq!(fallback.req, "searchquarks");
    assert!(!fallback.best);
    assert_eq!(fallback.since, 42);
    assert_eq!(fallback.offset, 0);
    assert_eq!(fallback.limit, 40);
    assert_eq!(fallback.gameid.as_deref(), Some("sfiii3nr1"));
}
