use gg_runtime::error::RuntimeError;
use gg_runtime::http::{
    bearer_token_accepted, forward_live_event, parse_last_event_id, parse_provider_kind,
    replay_limit, resolve_provider, stream_cursor, ApiError, ReplayPager,
};
use gg_runtime::provider::ProviderKind;
use gg_runtime::provider_registry::ProviderRegistry;

#[test]
fn runtime_errors_map_to_statuses() {
    let cases = [
        (RuntimeError::NotFound("x".to_string()), 404),
        (RuntimeError::ProviderNotRegistered("x".to_string()), 404),
        (RuntimeError::Configuration("x".to_string()), 400),
        (RuntimeError::InvalidState("x".to_string()), 400),
        (RuntimeError::ProtocolViolation("x".to_string()), 400),
        (RuntimeError::Unsupported("x".to_string()), 400),
        (RuntimeError::ProviderAlreadyRegistered("x".to_string()), 500),
        (RuntimeError::Bootstrap("x".to_string()), 500),
        (RuntimeError::Io("x".to_string()), 500),
    ];
    for (error, status) in cases {
        let api = ApiError::from(error);
        assert_eq!(api.status, status);
        assert_eq!(api.message, "x");
    }
}

#[test]
fn event_ids_resume_after_the_event() {
    for seq in [0_i64, 7, 1234, i64::MAX] {
        let id = gg_runtime::text::i64_to_string(seq);
        assert_eq!(parse_last_event_id(Some(id.as_str())).unwrap(), Some(seq));
    }
}

#[test]
fn unauthorized_answer() {
    let e = ApiError::unauthorized();
    assert_eq!((e.status, e.message.as_str()), (401, "missing or invalid bearer token"));
}

#[test]
fn error_messages() {
    assert_eq!(RuntimeError::Configuration("bad".to_string()).message(), "configuration error: bad");
    assert_eq!(
        RuntimeError::ProviderAlreadyRegistered("codex".to_string()).message(),
        "provider 'codex' is already registered"
    );
    assert_eq!(
        RuntimeError::ProviderNotRegistered("codex".to_string()).message(),
        "provider 'codex' is not registered"
    );
    assert_eq!(RuntimeError::Io("disk".to_string()).message(), "io error: disk");
    assert_eq!(RuntimeError::Bootstrap("b".to_string()).message(), "bootstrap error: b");
}

#[test]
fn providers_are_resolved_from_paths() {
    assert_eq!(parse_provider_kind("codex").unwrap(), ProviderKind::Codex);
    let bad = parse_provider_kind("gemini").unwrap_err();
    assert_eq!((bad.status, bad.message.as_str()), (400, "unknown provider gemini"));

    let mut registry: ProviderRegistry<&'static str> = ProviderRegistry::new();
    registry.register_as(ProviderKind::Codex, "codex adapter").unwrap();
    assert_eq!(resolve_provider(&registry, "codex").unwrap(), (ProviderKind::Codex, "codex adapter"));
    let missing = resolve_provider(&registry, "anthropic").unwrap_err();
    assert_eq!((missing.status, missing.message.as_str()), (404, "provider anthropic"));
    assert_eq!(resolve_provider(&registry, "x").unwrap_err().status, 400);
}

#[test]
fn bearer_tokens_must_match_exactly() {
    assert!(bearer_token_accepted(Some("Bearer test-token"), "test-token"));
    assert!(!bearer_token_accepted(Some("bearer test-token"), "test-token"));
    assert!(!bearer_token_accepted(Some("Bearer test-token "), "test-token"));
    assert!(!bearer_token_accepted(None, "test-token"));
}

#[test]
fn replay_limits_and_cursors() {
    assert_eq!(replay_limit(None), 500);
    assert_eq!(replay_limit(Some(20)), 20);
    assert_eq!(replay_limit(Some(50_000)), 10_000);
    assert_eq!(parse_last_event_id(Some("17")).unwrap(), Some(17));
    assert_eq!(parse_last_event_id(Some("0")).unwrap(), Some(0));
    assert_eq!(parse_last_event_id(None).unwrap(), None);
    for bad in ["abc", "-1", "-5", "", "1.5"] {
        let e = parse_last_event_id(Some(bad)).unwrap_err();
        assert_eq!(e.status, 400);
        assert_eq!(e.message, format!("Last-Event-ID must be a non-negative integer: {bad}"));
    }
    assert_eq!(stream_cursor(Some(3), Some(9)), Some(3));
    assert_eq!(stream_cursor(None, Some(9)), Some(9));
    assert_eq!(stream_cursor(None, None), None);
}

/// Serves the events after `after`, at most `size` of them.
fn serve(events: &[i64], after: Option<i64>, size: usize) -> Vec<i64> {
    events
        .iter()
        .copied()
        .filter(|seq| after.map_or(true, |a| *seq > a))
        .take(size)
        .collect()
}

fn replay(events: &[i64], cursor: Option<i64>, limit: Option<usize>) -> (Vec<i64>, i64, usize) {
    let mut pager = ReplayPager::new(cursor, limit);
    let mut replayed = Vec::new();
    let mut pages = 0;
    while let Some((after, size)) = pager.next_page() {
        let page = serve(events, after, size);
        pages += 1;
        pager.accept_page(page.len(), page.last().copied());
        replayed.extend(page);
    }
    (replayed, pager.high_watermark(), pages)
}

#[test]
fn stream_replays_the_whole_backlog_across_pages() {
    let events: Vec<i64> = (1..=8).collect();
    let (replayed, watermark, pages) = replay(&events, Some(2), Some(3));
    assert_eq!(replayed, vec![3, 4, 5, 6, 7, 8]);
    assert_eq!(watermark, 8);
    // Two full pages, then an empty one that ends the backlog.
    assert_eq!(pages, 3);
    let (all, watermark, _) = replay(&events, None, Some(0));
    assert_eq!(all, events);
    assert_eq!(watermark, 8);
    let (none, watermark, pages) = replay(&events, Some(8), None);
    assert!(none.is_empty());
    assert_eq!((watermark, pages), (8, 1));
    assert_eq!(replay(&[], None, None).1, 0);
}

#[test]
fn live_events_after_the_replay_are_forwarded_once() {
    let events: Vec<i64> = (1..=5).collect();
    let (replayed, watermark, _) = replay(&events, Some(1), Some(2));
    for seq in &replayed {
        assert!(!forward_live_event(Some("s"), *seq, "s", watermark));
    }
    assert!(forward_live_event(Some("s"), 6, "s", watermark));
    assert!(!forward_live_event(Some("other"), 6, "s", watermark));
    assert!(!forward_live_event(None, 6, "s", watermark));
}
