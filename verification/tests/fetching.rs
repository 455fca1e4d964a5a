use ofm_viewer::fetch::{fetch_start, fetch_step, FetchAction, FetchEvent, FetchState};

/// Drives the machine over a scripted list of events and returns every
/// action it issued, the initial one included.
fn run_script(events: Vec<FetchEvent>) -> Vec<FetchAction> {
    let (mut state, first) = fetch_start();
    let mut actions = vec![first];
    for ev in events {
        assert!(state != FetchState::Finished, "machine asked for no further event");
        let (next, action) = fetch_step(state, ev);
        state = next;
        actions.push(action);
    }
    actions
}

fn store_count(actions: &[FetchAction]) -> usize {
    actions.iter().filter(|a| matches!(a, FetchAction::StoreAndFinish(_))).count()
}

#[test]
fn cache_hit_answers_without_any_request() {
    let bytes = vec![1u8, 2, 3, 4];
    let actions = run_script(vec![FetchEvent::CacheHit(bytes.clone())]);
    assert_eq!(actions.len(), 2);
    assert!(matches!(actions[0], FetchAction::ReadCache));
    match &actions[1] {
        FetchAction::Finish(b) => assert_eq!(*b, bytes),
        other => panic!("expected the cached bytes back, got {other:?}"),
    }
    assert_eq!(store_count(&actions), 0);
    assert!(!actions.iter().any(|a| matches!(a, FetchAction::HttpGet)));
}

#[test]
fn second_fetch_of_a_cached_tile_returns_identical_bytes() {
    // First fetch: miss, then a 200 whose bytes are persisted.
    let payload = vec![0xde, 0xad, 0xbe, 0xef];
    let first = run_script(vec![
        FetchEvent::CacheMiss,
        FetchEvent::HttpResponse(200, payload.clone()),
    ]);
    let stored = first
        .iter()
        .find_map(|a| match a {
            FetchAction::StoreAndFinish(b) => Some(b.clone()),
            _ => None,
        })
        .expect("the 200 bytes are persisted");
    // Second fetch: the cache answers with what was stored; no request goes
    // out and nothing is written again.
    let second = run_script(vec![FetchEvent::CacheHit(stored.clone())]);
    assert!(!second.iter().any(|a| matches!(a, FetchAction::HttpGet)));
    assert_eq!(store_count(&second), 0);
    match &second[1] {
        FetchAction::Finish(b) => assert_eq!(*b, payload),
        other => panic!("expected the cached bytes back, got {other:?}"),
    }
}

#[test]
fn three_rate_limits_then_success_persist_exactly_once() {
    let payload = vec![42u8; 16];
    let actions = run_script(vec![
        FetchEvent::CacheMiss,
        FetchEvent::HttpResponse(429, Vec::new()),
        FetchEvent::Slept,
        FetchEvent::HttpResponse(429, Vec::new()),
        FetchEvent::Slept,
        FetchEvent::HttpResponse(429, Vec::new()),
        FetchEvent::Slept,
        FetchEvent::HttpResponse(200, payload.clone()),
    ]);
    let expected_shapes = [
        "ReadCache", "HttpGet", "SleepRetry", "HttpGet", "SleepRetry", "HttpGet", "SleepRetry",
        "HttpGet", "StoreAndFinish",
    ];
    assert_eq!(actions.len(), expected_shapes.len());
    for (a, shape) in actions.iter().zip(expected_shapes) {
        let got = match a {
            FetchAction::ReadCache => "ReadCache",
            FetchAction::HttpGet => "HttpGet",
            FetchAction::SleepRetry => "SleepRetry",
            FetchAction::StoreAndFinish(_) => "StoreAndFinish",
            FetchAction::Finish(_) => "Finish",
            FetchAction::FinishFailed(_) => "FinishFailed",
        };
        assert_eq!(got, shape);
    }
    assert_eq!(store_count(&actions), 1);
    match actions.last().unwrap() {
        FetchAction::StoreAndFinish(b) => assert_eq!(*b, payload),
        other => panic!("expected exactly the 200 bytes persisted, got {other:?}"),
    }
}

#[test]
fn other_statuses_fail_permanently_and_distinctly() {
    let actions = run_script(vec![
        FetchEvent::CacheMiss,
        FetchEvent::HttpResponse(404, Vec::new()),
    ]);
    match actions.last().unwrap() {
        FetchAction::FinishFailed(status) => assert_eq!(*status, 404),
        other => panic!("expected a distinct permanent failure, got {other:?}"),
    }
    assert_eq!(store_count(&actions), 0);
}

#[test]
fn unreadable_cache_degrades_to_a_miss() {
    let actions = run_script(vec![FetchEvent::CacheUnreadable]);
    assert!(matches!(actions[1], FetchAction::HttpGet));
}

#[test]
fn connection_failure_retries_immediately() {
    let actions = run_script(vec![
        FetchEvent::CacheMiss,
        FetchEvent::RequestFailed,
        FetchEvent::HttpResponse(200, vec![7]),
    ]);
    assert!(matches!(actions[2], FetchAction::HttpGet));
    assert_eq!(store_count(&actions), 1);
}
