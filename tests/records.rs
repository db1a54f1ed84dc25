use crawler::address::Address;
use crawler::crawler::{Crawler, CrawlerConfig};
use crawler::error::CrawlError;
use crawler::nats::{NatsPublisher, NatsSubscriber};
use crawler::record::{calculate_hash, decimal, quote_text, CrawlingResults};

fn addr(s: &str) -> Address {
    Address::parse(s).unwrap()
}

fn config() -> CrawlerConfig {
    CrawlerConfig::new(
        "nats://q.test:4222".to_string(),
        "url".to_string(),
        "nats://r.test:4222".to_string(),
        "node".to_string(),
    )
}

#[test]
fn record_json_shape() {
    let r = CrawlingResults::new(
        "https://a.test/".to_string(),
        vec!["https://a.test/b".to_string(), "x\"y".to_string()],
    );
    assert_eq!(
        r.to_json(),
        "{\"parent\":\"https://a.test/\",\"urls\":[\"https://a.test/b\",\"x\\\"y\"]}"
    );
}

#[test]
fn record_json_without_children() {
    let r = CrawlingResults::new("p".to_string(), Vec::new());
    assert_eq!(r.to_json(), "{\"parent\":\"p\",\"urls\":[]}");
}

#[test]
fn record_from_addresses() {
    let r = CrawlingResults::from(&addr("https://a.test/"), &vec![addr("https://b.test/")]);
    assert_eq!(r.parent, "https://a.test/");
    assert_eq!(r.urls, vec!["https://b.test/"]);
}

#[test]
fn quote_escapes() {
    assert_eq!(quote_text("a\"b\\c\n"), "\"a\\\"b\\\\c\\n\"");
    assert_eq!(quote_text(""), "\"\"");
}

#[test]
fn decimal_keys() {
    assert_eq!(decimal(0), "0");
    assert_eq!(decimal(7), "7");
    assert_eq!(decimal(1234567890), "1234567890");
    assert_eq!(decimal(u64::MAX), "18446744073709551615");
}

#[test]
fn hash_depends_on_content_only() {
    let a = CrawlingResults::new("p".to_string(), vec!["u".to_string()]);
    let b = CrawlingResults::new("p".to_string(), vec!["u".to_string()]);
    let c = CrawlingResults::new("p".to_string(), vec!["v".to_string()]);
    let d = CrawlingResults::new("pu".to_string(), Vec::new());
    assert_eq!(calculate_hash(&a), calculate_hash(&b));
    assert_ne!(calculate_hash(&a), calculate_hash(&c));
    assert_ne!(calculate_hash(&a), calculate_hash(&d));
}

#[test]
fn hash_ignores_child_order() {
    let a = CrawlingResults::new("p".to_string(), vec!["u".to_string(), "v".to_string()]);
    let b = CrawlingResults::new("p".to_string(), vec!["v".to_string(), "u".to_string()]);
    let c = CrawlingResults::new("u".to_string(), vec!["p".to_string(), "v".to_string()]);
    assert_eq!(calculate_hash(&a), calculate_hash(&b));
    assert_ne!(calculate_hash(&a), calculate_hash(&c));
}

#[test]
fn publisher_subject_is_namespaced() {
    let p = NatsPublisher::new("nats://r.test:4222", "node");
    assert_eq!(p.uri, "nats://r.test:4222");
    let m = p.publish("123", vec![1, 2, 3]);
    assert_eq!(m.subject, "node.123");
    assert_eq!(m.payload, vec![1, 2, 3]);
}

#[test]
fn subscriber_uses_wildcard_and_queue_group() {
    let s = NatsSubscriber::new("nats://q.test:4222", "url");
    assert_eq!(s.uri, "nats://q.test:4222");
    assert_eq!(s.pattern, "url.*");
    assert_eq!(s.queue_group, "crawler");
}

#[test]
fn crawler_wires_its_config() {
    let c = Crawler::new(config());
    assert_eq!(c.nats_subscriber().uri, "nats://q.test:4222");
    assert_eq!(c.nats_subscriber().pattern, "url.*");
    assert_eq!(c.nats_publisher().uri, "nats://r.test:4222");
    assert_eq!(c.nats_publisher().subject, "node");
    assert_eq!(c.queue_publisher().subject, "url");
}

#[test]
fn receive_decodes_and_deduplicates() {
    let mut c = Crawler::new(config());
    let a = c.receive(b"\"https://a.test/x\"").unwrap().unwrap();
    assert_eq!(a.as_str(), "https://a.test/x");
    assert!(c.receive(b"\"https://a.test/x\"").unwrap().is_none());
    assert!(c.receive(b"\"https://a.test/y\"").unwrap().is_some());
}

#[test]
fn receive_rejects_non_json() {
    let mut c = Crawler::new(config());
    assert!(matches!(c.receive(b"https://a.test/"), Err(CrawlError::DecodeFailure)));
    assert!(matches!(c.receive(b"42"), Err(CrawlError::DecodeFailure)));
}

#[test]
fn receive_rejects_relative_address() {
    let mut c = Crawler::new(config());
    assert!(matches!(c.receive(b"\"/only/a/path\""), Err(CrawlError::DecodeFailure)));
}

#[test]
fn worker_queues_children_then_publishes_record() {
    let c = Crawler::new(config());
    let parent = addr("https://a.test/");
    let msgs = c.on_page(&parent, "<a href=\"/b\">b</a><a href=\"/b\">b</a><a href=\"c\">c</a>");
    assert_eq!(msgs.len(), 3);
    let child_key = calculate_hash(&CrawlingResults::new("https://a.test/b".to_string(), Vec::new()));
    assert_eq!(msgs[0].subject, format!("url.{}", child_key));
    assert_eq!(msgs[0].payload, b"\"https://a.test/b\"".to_vec());
    assert_eq!(msgs[1].payload, b"\"https://a.test/c\"".to_vec());
    let record = CrawlingResults::new(
        "https://a.test/".to_string(),
        vec!["https://a.test/b".to_string(), "https://a.test/c".to_string()],
    );
    assert_eq!(msgs[2].subject, format!("node.{}", calculate_hash(&record)));
    assert_eq!(msgs[2].payload, record.to_json().into_bytes());
}
