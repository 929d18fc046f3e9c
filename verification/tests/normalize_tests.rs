use crawler::normalize::{collapse_whitespace, normalize_fragment};
use crawler::poller::{run_poll, PollEvent};
use crawler::selector::choose_snapshot;

#[test]
fn collapses_runs_into_single_spaces() {
    assert_eq!(collapse_whitespace("Hello\n\n   World\t!"), "Hello World !");
}

#[test]
fn trims_leading_and_trailing_whitespace() {
    assert_eq!(collapse_whitespace("  \n a b \t "), "a b");
    assert_eq!(collapse_whitespace(""), "");
    assert_eq!(collapse_whitespace(" \t\r\n"), "");
}

#[test]
fn plain_word_is_unchanged() {
    assert_eq!(collapse_whitespace("word"), "word");
}

#[test]
fn empty_fragment_renders_to_empty_result() {
    assert_eq!(normalize_fragment(""), Some(String::new()));
}

#[test]
fn renders_fragment_to_clean_text() {
    let text = normalize_fragment("<p>Hello   world</p>").expect("rendering must succeed");
    assert_eq!(text, "Hello world");
}

#[test]
fn rendering_strips_markup_and_joins_blocks() {
    let text = normalize_fragment("<div><p>Hello</p><p>World</p></div>").expect("must render");
    assert_eq!(text, "Hello World");
}

#[test]
fn end_to_end_selects_and_normalizes_second_div() {
    let body = "<div><p>Short</p></div>\
                <div><p>This is a sufficiently long paragraph of primary content text.</p></div>";
    // one heuristic poll round per snapshot, as the poller would drive it
    let snapshot = choose_snapshot(body);
    let events: Vec<PollEvent> = (0..20)
        .map(|_| PollEvent::Snapshot(snapshot.clone()))
        .collect();
    let r = run_poll(events);
    assert!(r.stabilized);
    let text = normalize_fragment(&r.html_fragment).expect("must render");
    assert_eq!(
        text,
        "This is a sufficiently long paragraph of primary content text."
    );
}
