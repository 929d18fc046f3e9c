use crawler::selector::{choose_snapshot, find_best_element_html, select_best, Candidate};

fn cand(tag: &str, text_len: usize, child_count: usize, html: &str) -> Candidate {
    Candidate {
        tag: tag.to_string(),
        text_len,
        child_count,
        html: html.to_string(),
    }
}

#[test]
fn fewer_children_score_strictly_higher() {
    // both hold 500 bytes of qualifying text: 500/1 beats 500/11
    let cands = vec![
        cand("div", 500, 10, "<div>many</div>"),
        cand("div", 500, 0, "<div>dense</div>"),
    ];
    assert_eq!(select_best(&cands), Some(1));
    // and the same regardless of document order
    let cands = vec![
        cand("div", 500, 0, "<div>dense</div>"),
        cand("div", 500, 10, "<div>many</div>"),
    ];
    assert_eq!(select_best(&cands), Some(0));
}

#[test]
fn excluded_tags_never_win() {
    for tag in ["script", "style", "header", "footer", "nav", "a"] {
        let cands = vec![
            cand(tag, 10000, 0, "<x>chrome</x>"),
            cand("p", 50, 0, "<p>content</p>"),
        ];
        assert_eq!(select_best(&cands), Some(1), "tag {} must not win", tag);
    }
}

#[test]
fn short_text_does_not_qualify() {
    let cands = vec![
        cand("div", 9, 0, "<div>tiny</div>"),
        cand("div", 10, 0, "<div>just enough</div>"),
    ];
    assert_eq!(select_best(&cands), Some(1));
}

#[test]
fn no_qualifier_selects_nothing() {
    let cands = vec![
        cand("script", 10000, 0, "<script>x</script>"),
        cand("div", 9, 0, "<div>tiny</div>"),
    ];
    assert_eq!(select_best(&cands), None);
    assert_eq!(select_best(&Vec::new()), None);
}

#[test]
fn ties_keep_the_earlier_element() {
    let cands = vec![
        cand("div", 120, 2, "<div>first</div>"),
        cand("div", 120, 2, "<div>second</div>"),
    ];
    assert_eq!(select_best(&cands), Some(0));
}

#[test]
fn selects_long_paragraph_div_from_markup() {
    let html = "<div><p>Short</p></div>\
                <div><p>This is a sufficiently long paragraph of primary content text.</p></div>";
    let best = find_best_element_html(html).expect("a candidate must qualify");
    assert_eq!(
        best,
        "<div><p>This is a sufficiently long paragraph of primary content text.</p></div>"
    );
}

#[test]
fn script_markup_is_never_returned() {
    let html = "<script>var x = 'a very long piece of script text that is not content';</script>";
    let best = find_best_element_html(html);
    if let Some(markup) = best {
        assert!(!markup.starts_with("<script"));
    }
}

#[test]
fn markup_without_qualifying_text_selects_nothing() {
    assert_eq!(find_best_element_html("<p>hi</p>"), None);
}

#[test]
fn snapshot_falls_back_to_raw_body() {
    // nothing qualifies, so the round keeps the raw body markup
    assert_eq!(choose_snapshot("<p>hi</p>"), "<p>hi</p>");
}

#[test]
fn snapshot_takes_the_winning_element() {
    let body = "<div><p>Short</p></div>\
                <div><p>This is a sufficiently long paragraph of primary content text.</p></div>";
    assert_eq!(
        choose_snapshot(body),
        "<div><p>This is a sufficiently long paragraph of primary content text.</p></div>"
    );
}
