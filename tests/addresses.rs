use crawler::address::{normalize, Address};
use crawler::error::CrawlError;
use crawler::links::{children_of, extract_links, links_of_page, MAX_PAGE_BYTES};

fn addr(s: &str) -> Address {
    Address::parse(s).unwrap()
}

#[test]
fn normalize_collapses_parent_segment() {
    let r = normalize(&addr("https://a.test/x/"), "../y").unwrap();
    assert_eq!(r.as_str(), "https://a.test/y");
}

#[test]
fn normalize_keeps_absolute_link() {
    let r = normalize(&addr("https://a.test/"), "https://b.test/z").unwrap();
    assert_eq!(r.as_str(), "https://b.test/z");
}

#[test]
fn normalize_keeps_query_and_fragment() {
    let r = normalize(&addr("https://a.test/dir/page"), "other?q=1#top").unwrap();
    assert_eq!(r.as_str(), "https://a.test/dir/other?q=1#top");
}

#[test]
fn normalize_rejects_prose() {
    let r = normalize(&addr("https://a.test/"), "not a url and not a path??");
    assert!(matches!(r, Err(CrawlError::MalformedLink)));
}

#[test]
fn normalize_rejects_control_characters() {
    let r = normalize(&addr("https://a.test/"), "/a\tb");
    assert!(matches!(r, Err(CrawlError::MalformedLink)));
    let r = normalize(&addr("https://a.test/"), " /a");
    assert!(matches!(r, Err(CrawlError::MalformedLink)));
}

#[test]
fn normalize_rejects_unresolvable_link() {
    let r = normalize(&addr("https://a.test/"), "http://[::1");
    assert!(matches!(r, Err(CrawlError::MalformedLink)));
}

#[test]
fn normalize_rejects_relative_link_on_opaque_base() {
    let r = normalize(&addr("mailto:someone@a.test"), "page");
    assert!(matches!(r, Err(CrawlError::MalformedLink)));
}

#[test]
fn parse_rejects_relative_seed() {
    assert!(matches!(Address::parse("/just/a/path"), Err(CrawlError::InvalidSeed)));
    assert!(matches!(Address::parse(""), Err(CrawlError::InvalidSeed)));
}

#[test]
fn parse_canonicalises_seed() {
    assert_eq!(addr("HTTPS://A.test").as_str(), "https://a.test/");
}

#[test]
fn extract_links_in_document_order_with_duplicates() {
    let html = "<html><body><a href=\"/b\">b</a><p><a href=\"https://x.test/\">x</a></p>\
                <a name=\"no-href\">n</a><a href=\"/b\">again</a></body></html>";
    assert_eq!(extract_links(html).unwrap(), vec!["/b", "https://x.test/", "/b"]);
}

#[test]
fn extract_links_of_text_without_anchors() {
    assert!(extract_links("no markup here").unwrap().is_empty());
    assert!(extract_links("").unwrap().is_empty());
}

#[test]
fn oversized_page_is_not_parsed() {
    let head = "<a href=\"/x\">x</a>";
    let html = format!("{}{}", head, " ".repeat(MAX_PAGE_BYTES));
    assert!(matches!(extract_links(&html), Err(CrawlError::ParseFailure)));
    assert!(links_of_page(&html).is_empty());
    let at_limit = format!("{}{}", head, " ".repeat(MAX_PAGE_BYTES - head.len()));
    assert_eq!(at_limit.len(), MAX_PAGE_BYTES);
    assert_eq!(links_of_page(&at_limit), vec!["/x"]);
}

#[test]
fn children_are_resolved_deduplicated_and_filtered() {
    let base = addr("https://a.test/dir/");
    let links = vec![
        "one".to_string(),
        "https://a.test/dir/one".to_string(),
        "http://[::1".to_string(),
        "two words".to_string(),
        "../two".to_string(),
        "one#frag".to_string(),
    ];
    let out: Vec<String> = children_of(&base, &links).iter().map(|a| a.to_text()).collect();
    assert_eq!(
        out,
        vec!["https://a.test/dir/one", "https://a.test/two", "https://a.test/dir/one#frag"]
    );
}
