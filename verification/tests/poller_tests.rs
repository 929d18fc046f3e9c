use crawler::poller::{
    run_poll, ExtractionResult, PollEvent, StabilityState, MAX_ATTEMPTS, REQUIRED_STABLE_POLLS,
};

fn snapshots(contents: &[&str]) -> Vec<PollEvent> {
    contents
        .iter()
        .map(|c| PollEvent::Snapshot(c.to_string()))
        .collect()
}

#[test]
fn constant_source_stabilizes_early() {
    let page = "<article>hello rendered page</article>";
    let events = snapshots(&[page; 20]);
    let r: ExtractionResult = run_poll(events);
    assert!(r.stabilized);
    assert_eq!(r.html_fragment, page);
    // one recording round, then the five stable rounds the threshold asks for
    assert_eq!(r.attempts_used, 1 + REQUIRED_STABLE_POLLS);
    assert!(r.attempts_used < MAX_ATTEMPTS);
}

#[test]
fn changing_lengths_exhaust_budget() {
    let contents: Vec<String> = (1..=20).map(|n| "a".repeat(n)).collect();
    let events: Vec<PollEvent> = contents
        .iter()
        .map(|c| PollEvent::Snapshot(c.clone()))
        .collect();
    let r = run_poll(events);
    assert!(!r.stabilized);
    assert_eq!(r.attempts_used, MAX_ATTEMPTS);
    assert_eq!(r.html_fragment, "a".repeat(20));
}

#[test]
fn empty_snapshots_never_stabilize() {
    let events = snapshots(&[""; 20]);
    let r = run_poll(events);
    assert!(!r.stabilized);
    assert_eq!(r.attempts_used, MAX_ATTEMPTS);
    assert_eq!(r.html_fragment, "");
}

#[test]
fn misses_consume_attempts_without_recording() {
    let events: Vec<PollEvent> = (0..20).map(|_| PollEvent::Miss).collect();
    let r = run_poll(events);
    assert!(!r.stabilized);
    assert_eq!(r.attempts_used, MAX_ATTEMPTS);
    assert_eq!(r.html_fragment, "");
}

#[test]
fn misses_then_constant_source_stabilizes() {
    let mut events = vec![PollEvent::Miss, PollEvent::Miss, PollEvent::Miss];
    for _ in 0..17 {
        events.push(PollEvent::Snapshot("steady content".to_string()));
    }
    let r = run_poll(events);
    assert!(r.stabilized);
    assert_eq!(r.html_fragment, "steady content");
    assert_eq!(r.attempts_used, 3 + 1 + REQUIRED_STABLE_POLLS);
}

#[test]
fn equal_length_different_content_counts_as_stable() {
    // length, not content, is compared: same-length renders look stable
    let mut events = vec![PollEvent::Snapshot("aaaa".to_string())];
    for _ in 0..19 {
        events.push(PollEvent::Snapshot("bbbb".to_string()));
    }
    let r = run_poll(events);
    assert!(r.stabilized);
    assert_eq!(r.attempts_used, 1 + REQUIRED_STABLE_POLLS);
    // the stabilizing round's snapshot is returned, not the recorded one
    assert_eq!(r.html_fragment, "bbbb");
}

#[test]
fn step_reports_threshold_round() {
    let mut state = StabilityState::new();
    assert_eq!(state.step(PollEvent::Snapshot("xyz".to_string())), None);
    for _ in 0..4 {
        assert_eq!(state.step(PollEvent::Snapshot("xyz".to_string())), None);
    }
    let done = state.step(PollEvent::Snapshot("xyz".to_string()));
    assert_eq!(done, Some("xyz".to_string()));
    assert_eq!(state.attempts_used, 6);
}

#[test]
fn step_on_miss_keeps_counters() {
    let mut state = StabilityState::new();
    assert_eq!(state.step(PollEvent::Snapshot("xyz".to_string())), None);
    assert_eq!(state.step(PollEvent::Miss), None);
    assert_eq!(state.attempts_used, 2);
    assert_eq!(state.stable_count, 0);
    assert_eq!(state.previous, "xyz");
    assert_eq!(state.previous_len, 3);
}

#[test]
fn short_supply_returns_last_recorded() {
    let events = snapshots(&["one", "three"]);
    let r = run_poll(events);
    assert!(!r.stabilized);
    assert_eq!(r.attempts_used, 2);
    assert_eq!(r.html_fragment, "three");
}
