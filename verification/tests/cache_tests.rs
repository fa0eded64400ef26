use forward_auth::cache::CacheState;
use forward_auth::cache::KeySetOutcome;
use forward_auth::cache::STALENESS_SECS;
use forward_auth::keys::parse_jwks;
use forward_auth::strutil::bearer_token;
use forward_auth::strutil::join_comma;
use forward_auth::strutil::split_spaces;
use forward_auth::strutil::starts_with_str;
use forward_auth::strutil::str_eq;

fn empty_jwks() -> alcoholic_jwt::JWKS {
    parse_jwks("{\"keys\":[]}").expect("a key set with no keys parses")
}

// Runs the consumer's per-request decision sequence, counting fetches: the
// step fetches only when the state says so, and records every outcome.
fn step(state: &mut CacheState, now: u64, fetch_ok: bool, fetches: &mut u32) -> bool {
    if state.needs_refresh(now) {
        *fetches += 1;
        let outcome = if fetch_ok {
            KeySetOutcome::Available(empty_jwks())
        } else {
            KeySetOutcome::Unavailable
        };
        state.record_refresh(outcome, now);
    }
    matches!(state.outcome, KeySetOutcome::Available(_))
}

#[test]
fn fresh_cache_serves_without_fetch() {
    // Two requests within the staleness window after a successful fetch
    // cause exactly one fetch in total.
    let mut fetches: u32 = 0;
    let mut state = CacheState::new(KeySetOutcome::Unavailable, 0);
    assert!(step(&mut state, 1000, true, &mut fetches));
    assert!(step(&mut state, 1000 + 10, true, &mut fetches));
    assert!(step(&mut state, 1000 + STALENESS_SECS, true, &mut fetches));
    assert_eq!(fetches, 1);
}

#[test]
fn stale_cache_refreshes_once_for_a_burst() {
    // After the window elapses, a burst of ten queued requests triggers
    // exactly one fetch; all ten observe its single outcome.
    let mut fetches: u32 = 0;
    let mut state = CacheState::new(KeySetOutcome::Available(empty_jwks()), 1000);
    let burst_at = 1000 + STALENESS_SECS + 1;
    for k in 0..10 {
        assert!(step(&mut state, burst_at + k, true, &mut fetches));
    }
    assert_eq!(fetches, 1);
}

#[test]
fn failure_is_retried_immediately() {
    // A cached failure is not treated as fresh: the next request, even at
    // the same instant, attempts a fetch again.
    let mut fetches: u32 = 0;
    let mut state = CacheState::new(KeySetOutcome::Unavailable, 0);
    assert!(!step(&mut state, 500, false, &mut fetches));
    assert!(!step(&mut state, 500, false, &mut fetches));
    assert!(step(&mut state, 501, true, &mut fetches));
    assert!(step(&mut state, 502, true, &mut fetches));
    assert_eq!(fetches, 3);
}

#[test]
fn clock_going_backwards_is_still_fresh() {
    let mut state = CacheState::new(KeySetOutcome::Available(empty_jwks()), 1000);
    assert!(!state.needs_refresh(900));
    assert!(!state.needs_refresh(1000 + STALENESS_SECS));
    assert!(state.needs_refresh(1001 + STALENESS_SECS));
}

#[test]
fn jwks_parse_failure_is_none() {
    assert!(parse_jwks("not json").is_none());
    assert!(parse_jwks("{\"nokeys\":[]}").is_none());
    assert!(parse_jwks("{\"keys\":[]}").is_some());
}

#[test]
fn bearer_token_takes_last_segment() {
    assert!(str_eq(bearer_token("Bearer abc.def"), "abc.def"));
    assert!(str_eq(bearer_token("nosep"), "nosep"));
    assert!(str_eq(bearer_token("a b c"), "c"));
    assert!(str_eq(bearer_token("trailing "), ""));
    assert!(str_eq(bearer_token(""), ""));
}

#[test]
fn split_spaces_matches_space_delimited_sets() {
    assert_eq!(split_spaces("read write"), vec![String::from("read"), String::from("write")]);
    assert_eq!(split_spaces(""), vec![String::from("")]);
    assert_eq!(
        split_spaces("a  b"),
        vec![String::from("a"), String::from(""), String::from("b")]
    );
    assert_eq!(split_spaces("solo"), vec![String::from("solo")]);
}

#[test]
fn join_comma_joins() {
    assert_eq!(join_comma(&vec![String::from("a"), String::from("b")]), String::from("a,b"));
    assert_eq!(join_comma(&vec![String::from("a")]), String::from("a"));
    assert_eq!(join_comma(&Vec::new()), String::from(""));
}

#[test]
fn starts_with_str_is_prefix_test() {
    assert!(starts_with_str("/api/v1/x", "/api"));
    assert!(starts_with_str("/api", "/api"));
    assert!(!starts_with_str("/ap", "/api"));
    assert!(!starts_with_str("/xapi", "/api"));
}
