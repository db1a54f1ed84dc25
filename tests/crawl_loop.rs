use crawler::address::Address;
use crawler::crawl::CrawlLoop;
use crawler::frontier::Frontier;
use crawler::record::CrawlingResults;
use crawler::visited::VisitedSet;
use std::collections::HashMap;

fn addr(s: &str) -> Address {
    Address::parse(s).unwrap()
}

/// Runs the single-process loop over pages held in a map; a missing page
/// is a failed fetch. Gives the fetched addresses and the records.
fn run(seed: &str, pages: &HashMap<&str, &str>) -> (Vec<String>, Vec<CrawlingResults>) {
    let mut crawl = CrawlLoop::new(addr(seed));
    let mut fetched = Vec::new();
    let mut records = Vec::new();
    while let Some(a) = crawl.next_address() {
        fetched.push(a.to_text());
        if let Some(html) = pages.get(a.as_str()) {
            records.push(crawl.on_page(&a, html));
        }
    }
    assert!(crawl.is_done());
    (fetched, records)
}

#[test]
fn breadth_first_order() {
    let mut pages = HashMap::new();
    pages.insert("https://s.test/", "<a href=\"/a\">A</a><a href=\"/b\">B</a>");
    pages.insert("https://s.test/a", "<a href=\"/c\">C</a>");
    pages.insert("https://s.test/b", "");
    pages.insert("https://s.test/c", "");
    let (fetched, records) = run("https://s.test/", &pages);
    assert_eq!(
        fetched,
        vec!["https://s.test/", "https://s.test/a", "https://s.test/b", "https://s.test/c"]
    );
    assert_eq!(records.len(), 4);
    assert_eq!(records[0].parent, "https://s.test/");
    assert_eq!(records[0].urls, vec!["https://s.test/a", "https://s.test/b"]);
}

#[test]
fn failed_fetch_does_not_stop_sibling() {
    let mut pages = HashMap::new();
    pages.insert("https://s.test/", "<a href=\"/a\">A</a><a href=\"/b\">B</a>");
    pages.insert("https://s.test/b", "<a href=\"/d\">D</a>");
    let (fetched, records) = run("https://s.test/", &pages);
    assert_eq!(
        fetched,
        vec!["https://s.test/", "https://s.test/a", "https://s.test/b", "https://s.test/d"]
    );
    assert_eq!(records.len(), 2);
    assert_eq!(records[1].parent, "https://s.test/b");
    assert_eq!(records[1].urls, vec!["https://s.test/d"]);
}

#[test]
fn address_pushed_many_times_is_fetched_once() {
    let mut pages = HashMap::new();
    pages.insert(
        "https://s.test/",
        "<a href=\"/a\">1</a><a href=\"/a\">2</a><a href=\"https://s.test/a\">3</a><a href=\"/b\">B</a>",
    );
    pages.insert("https://s.test/a", "<a href=\"/a\">self</a><a href=\"/\">seed</a>");
    pages.insert("https://s.test/b", "<a href=\"/a\">A</a><a href=\"/b\">self</a>");
    let (fetched, _) = run("https://s.test/", &pages);
    assert_eq!(fetched, vec!["https://s.test/", "https://s.test/a", "https://s.test/b"]);
}

#[test]
fn batch_never_exceeds_in_flight_cap() {
    let seed = addr("https://s.test/");
    let mut crawl = CrawlLoop::new(seed.clone());
    assert_eq!(crawl.next_batch(3).len(), 1);
    let links: Vec<String> = (0..5).map(|i| format!("/item{}", i)).collect();
    crawl.on_page_links(&seed, &links);
    let first: Vec<String> = crawl.next_batch(2).iter().map(|a| a.to_text()).collect();
    assert_eq!(first, vec!["https://s.test/item0", "https://s.test/item1"]);
    assert_eq!(crawl.next_batch(2).len(), 2);
    let last = crawl.next_batch(2);
    assert_eq!(last.len(), 1);
    assert_eq!(last[0].as_str(), "https://s.test/item4");
    assert!(crawl.next_batch(2).is_empty());
    assert!(crawl.next_batch(0).is_empty());
}

#[test]
fn seen_children_are_not_queued_again() {
    let seed = addr("https://s.test/");
    let mut crawl = CrawlLoop::new(seed.clone());
    let first = crawl.next_address().unwrap();
    assert_eq!(first.as_str(), "https://s.test/");
    let record = crawl.on_page_links(&seed, &vec!["/".to_string(), "/x".to_string()]);
    assert_eq!(record.urls, vec!["https://s.test/", "https://s.test/x"]);
    assert_eq!(crawl.next_address().unwrap().as_str(), "https://s.test/x");
    assert!(crawl.next_address().is_none());
}

#[test]
fn frontier_is_first_in_first_out() {
    let mut f = Frontier::new();
    assert!(f.is_empty());
    f.push(addr("https://a.test/1"));
    f.push(addr("https://a.test/2"));
    f.push(addr("https://a.test/1"));
    assert_eq!(f.len(), 3);
    assert_eq!(f.pop().unwrap().as_str(), "https://a.test/1");
    assert_eq!(f.pop().unwrap().as_str(), "https://a.test/2");
    assert_eq!(f.pop().unwrap().as_str(), "https://a.test/1");
    assert!(f.pop().is_none());
}

#[test]
fn visited_set_marks_once() {
    let mut v = VisitedSet::new();
    let a = addr("https://a.test/");
    assert!(!v.contains(&a));
    assert!(v.mark_if_new(&a));
    assert!(!v.mark_if_new(&a));
    assert!(v.contains(&a));
    assert!(!v.contains(&addr("https://b.test/")));
}
