use crawler::fastpath::is_status_url;

#[test]
fn matches_x_status_with_scheme() {
    assert!(is_status_url("https://x.com/alice/status/12345"));
}

#[test]
fn matches_twitter_status_without_scheme() {
    assert!(is_status_url("twitter.com/bob/status/987"));
}

#[test]
fn rejects_profile_without_status_segment() {
    assert!(!is_status_url("https://twitter.com/alice"));
}

#[test]
fn rejects_unknown_host() {
    assert!(!is_status_url("https://example.com/alice/status/1"));
}

#[test]
fn matches_http_scheme_and_underscore_handle() {
    assert!(is_status_url("http://x.com/a_b9/status/0"));
}

#[test]
fn rejects_empty_handle() {
    assert!(!is_status_url("x.com//status/1"));
}

#[test]
fn rejects_missing_id() {
    assert!(!is_status_url("https://x.com/alice/status/"));
}

#[test]
fn accepts_trailing_text_after_id() {
    assert!(is_status_url("x.com/alice/status/12abc"));
}

#[test]
fn rejects_host_with_longer_suffix() {
    assert!(!is_status_url("https://x.community/alice/status/1"));
}

#[test]
fn rejects_uppercase_host() {
    assert!(!is_status_url("X.com/alice/status/1"));
}

#[test]
fn rejects_empty_url() {
    assert!(!is_status_url(""));
}
