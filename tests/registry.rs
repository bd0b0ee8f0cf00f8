use slackwatch::registry::{max_text, start_listing, ResolveError, TagPager, FULL_PAGE, MAX_REQUESTS};

fn page(prefix: &str, n: usize) -> Vec<String> {
    (0..n).map(|i| format!("{}{:05}", prefix, i)).collect()
}

#[test]
fn short_page_needs_one_request() {
    let mut p = TagPager::new(Some("latest".to_string()));
    assert_eq!(p.next_request(), Some(Some("latest".to_string())));
    p.accept_page(vec!["1.0".to_string(), "1.1".to_string()]);
    assert_eq!(p.requests(), 1);
    assert_eq!(p.next_request(), None);
    assert!(!p.truncated());
    assert_eq!(p.into_tags(), vec!["1.0".to_string(), "1.1".to_string()]);
}

#[test]
fn full_pages_continue_from_greatest_tag() {
    let mut p = TagPager::new(None);
    let first = page("a", FULL_PAGE);
    p.accept_page(first);
    assert_eq!(p.next_request(), Some(Some(format!("a{:05}", FULL_PAGE - 1))));
    p.accept_page(page("b", 3));
    assert_eq!(p.next_request(), None);
    assert_eq!(p.into_tags().len(), FULL_PAGE + 3);
}

#[test]
fn request_limit_truncates() {
    let mut p = TagPager::new(None);
    for _ in 0..MAX_REQUESTS {
        assert!(p.next_request().is_some());
        p.accept_page(page("t", FULL_PAGE));
    }
    assert_eq!(p.next_request(), None);
    assert!(p.truncated());
    assert_eq!(p.requests(), MAX_REQUESTS);
    assert_eq!(p.into_tags().len(), FULL_PAGE * MAX_REQUESTS);
}

#[test]
fn max_text_is_lexicographic() {
    let v = vec!["1.9".to_string(), "1.10".to_string(), "0.1".to_string()];
    assert_eq!(max_text(&v), Some("1.9".to_string()));
    assert_eq!(max_text(&Vec::new()), None);
}

#[test]
fn reference_tag_starts_listing() {
    let (_, p) = start_listing("docker.io/library/nginx:1.25").unwrap();
    assert_eq!(p.next_request(), Some(Some("1.25".to_string())));
}

#[test]
fn malformed_reference_is_refused() {
    assert_eq!(start_listing("").err(), Some(ResolveError::InvalidReference));
    assert!(start_listing("UPPER/Case:tag").is_err());
}
