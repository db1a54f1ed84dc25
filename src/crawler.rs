use crate::address::{parsed_url, Address};
use crate::error::CrawlError;
use crate::links::{addresses, child_addresses, children_of, links_of_page, page_links, texts};
use crate::nats::{NatsPublisher, NatsSubscriber, OutgoingMessage};
use crate::record::{
    calculate_hash, decimal, decimal_text, json_quoted, lemma_key_ignores_child_order, json_text, record_hash, record_json,
    quote_text, unquote_json, CrawlingResults,
};
use crate::visited::VisitedSet;
use vstd::prelude::*;
use vstd::string::StrSliceExecFns;
use vstd::utf8::encode_utf8;

verus! {

/// Where a distributed crawler takes addresses from and sends its results.
pub struct CrawlerConfig {
    pub nats_subscriber_uri: String,
    pub nats_subscriber_subject: String,
    pub nats_publisher_uri: String,
    pub nats_publisher_subject: String,
}

impl CrawlerConfig {
    pub fn new(
        nats_subscriber_uri: String,
        nats_subscriber_subject: String,
        nats_publisher_uri: String,
        nats_publisher_subject: String,
    ) -> (r: CrawlerConfig)
        ensures
            r.nats_subscriber_uri == nats_subscriber_uri,
            r.nats_subscriber_subject == nats_subscriber_subject,
            r.nats_publisher_uri == nats_publisher_uri,
            r.nats_publisher_subject == nats_publisher_subject,
    {
        CrawlerConfig {
            nats_subscriber_uri,
            nats_subscriber_subject,
            nats_publisher_uri,
            nats_publisher_subject,
        }
    }
}

/// The subject that a newly found address is queued on: the queue's
/// namespace and the address's own content hash.
pub open spec fn address_subject(namespace: Seq<char>, a: Seq<char>) -> Seq<char> {
    namespace + "."@ + decimal_text(record_hash(a, Seq::empty()) as nat)
}

/// The subject that a record is published on: the results' namespace and
/// the record's content hash.
pub open spec fn record_subject(namespace: Seq<char>, parent: Seq<char>, children: Seq<Seq<char>>) -> Seq<char> {
    namespace + "."@ + decimal_text(record_hash(parent, children) as nat)
}

/// Two records of one page whose children are the same set, in whatever
/// order, go out on the same subject.
pub proof fn lemma_record_subject_ignores_child_order(
    namespace: Seq<char>,
    parent: Seq<char>,
    a: Seq<Seq<char>>,
    b: Seq<Seq<char>>,
)
    requires
        a.no_duplicates(),
        b.no_duplicates(),
        a.to_set() == b.to_set(),
    ensures
        record_subject(namespace, parent, a) == record_subject(namespace, parent, b),
{
    lemma_key_ignores_child_order(parent, a, b);
}

/// One worker of the distributed crawl. It takes addresses from a shared
/// queue, skips those it has already taken, queues the children it finds
/// back on the same queue, and publishes each page's record.
pub struct Crawler {
    _config: CrawlerConfig,
    nats_publisher: NatsPublisher,
    nats_subscriber: NatsSubscriber,
    queue_publisher: NatsPublisher,
    visited: VisitedSet,
}

impl Crawler {
    /// The addresses this worker has taken up.
    pub closed spec fn seen(&self) -> Set<Seq<char>> {
        self.visited@
    }

    /// Where records go.
    pub closed spec fn results_target(&self) -> NatsPublisher {
        self.nats_publisher
    }

    /// Where addresses come from.
    pub closed spec fn source(&self) -> NatsSubscriber {
        self.nats_subscriber
    }

    /// Where newly found addresses are queued.
    pub closed spec fn queue_target(&self) -> NatsPublisher {
        self.queue_publisher
    }

    pub fn nats_publisher(&self) -> (r: &NatsPublisher)
        ensures
            *r == self.results_target(),
    {
        &self.nats_publisher
    }

    pub fn nats_subscriber(&self) -> (r: &NatsSubscriber)
        ensures
            *r == self.source(),
    {
        &self.nats_subscriber
    }

    pub fn queue_publisher(&self) -> (r: &NatsPublisher)
        ensures
            *r == self.queue_target(),
    {
        &self.queue_publisher
    }

    pub fn new(config: CrawlerConfig) -> (r: Crawler)
        ensures
            r.source().uri@ == config.nats_subscriber_uri@,
            r.source().pattern@ == config.nats_subscriber_subject@ + ".*"@,
            r.results_target().uri@ == config.nats_publisher_uri@,
            r.results_target().subject@ == config.nats_publisher_subject@,
            r.queue_target().uri@ == config.nats_subscriber_uri@,
            r.queue_target().subject@ == config.nats_subscriber_subject@,
            r.seen() == Set::<Seq<char>>::empty(),
    {
        let nats_subscriber = NatsSubscriber::new(
            config.nats_subscriber_uri.as_str(),
            config.nats_subscriber_subject.as_str(),
        );
        let nats_publisher = NatsPublisher::new(
            config.nats_publisher_uri.as_str(),
            config.nats_publisher_subject.as_str(),
        );
        let queue_publisher = NatsPublisher::new(
            config.nats_subscriber_uri.as_str(),
            config.nats_subscriber_subject.as_str(),
        );
        Crawler {
            _config: config,
            nats_publisher,
            nats_subscriber,
            queue_publisher,
            visited: VisitedSet::new(),
        }
    }

    /// Takes up a message from the queue: it must hold an absolute address
    /// as a JSON string, else it is a decode failure. An address seen before gives `Ok(None)`; a new one is marked
    /// seen and given back to be crawled.
    pub fn receive(&mut self, data: &[u8]) -> (r: Result<Option<Address>, CrawlError>)
        ensures
            match json_text(data@) {
                None => r == Err::<Option<Address>, CrawlError>(CrawlError::DecodeFailure),
                Some(t) => match parsed_url(t) {
                    None => r == Err::<Option<Address>, CrawlError>(CrawlError::DecodeFailure),
                    Some(u) => if old(self).seen().contains(u) {
                        r == Ok::<Option<Address>, CrawlError>(None)
                    } else {
                        r matches Ok(Some(a)) && a@ == u
                    },
                },
            },
            r matches Ok(Some(a)) ==> final(self).seen() == old(self).seen().insert(a@),
            !(r matches Ok(Some(_))) ==> final(self).seen() == old(self).seen(),
    {
        let text = match unquote_json(data) {
            Ok(t) => t,
            Err(_) => return Err(CrawlError::DecodeFailure),
        };
        let a = match Address::parse(text.as_str()) {
            Ok(a) => a,
            Err(_) => return Err(CrawlError::DecodeFailure),
        };
        if self.visited.mark_if_new(&a) {
            Ok(Some(a))
        } else {
            Ok(None)
        }
    }

    /// The messages that follow the crawl of a page with the given links:
    /// each child queued on the shared queue, then the page's record.
    pub fn results_messages(&self, parent: &Address, links: &Vec<String>) -> (r: Vec<
        OutgoingMessage,
    >)
        ensures
            ({
                let ch = child_addresses(parent@, texts(links@));
                &&& r.len() == ch.len() + 1
                &&& forall|i: int|
                    0 <= i < ch.len() ==> (#[trigger] r@[i]).subject@ == address_subject(
                        self.queue_target().subject@,
                        ch[i],
                    ) && r@[i].payload@ == encode_utf8(json_quoted(ch[i]))
                &&& r@[ch.len() as int].subject@ == record_subject(
                    self.results_target().subject@,
                    parent@,
                    ch,
                )
                &&& r@[ch.len() as int].payload@ == encode_utf8(record_json(parent@, ch))
            }),
    {
        let children = children_of(parent, links);
        let ghost ch = addresses(children@);
        let mut out: Vec<OutgoingMessage> = Vec::new();
        let mut i: usize = 0;
        while i < children.len()
            invariant
                i <= children.len(),
                ch == addresses(children@),
                out.len() == i,
                forall|j: int|
                    0 <= j < i ==> (#[trigger] out@[j]).subject@ == address_subject(
                        self.queue_target().subject@,
                        ch[j],
                    ) && out@[j].payload@ == encode_utf8(json_quoted(ch[j])),
            decreases children.len() - i,
        {
            let single = CrawlingResults::new(children[i].to_text(), Vec::new());
            assert(texts(single.urls@) =~= Seq::<Seq<char>>::empty());
            let key = decimal(calculate_hash(&single));
            let quoted = quote_text(children[i].as_str());
            let msg = self.queue_publisher.publish(key.as_str(), quoted.as_str().as_bytes_vec());
            out.push(msg);
            i = i + 1;
        }
        let record = CrawlingResults::from(parent, &children);
        let key = decimal(calculate_hash(&record));
        let json = record.to_json();
        out.push(self.nats_publisher.publish(key.as_str(), json.as_str().as_bytes_vec()));
        out
    }

    /// The messages that follow the crawl of a page with the given content.
    /// A page too large to be parsed counts as one without links.
    pub fn on_page(&self, parent: &Address, html: &str) -> (r: Vec<OutgoingMessage>)
        ensures
            ({
                let ch = child_addresses(parent@, page_links(html@));
                &&& r.len() == ch.len() + 1
                &&& forall|i: int|
                    0 <= i < ch.len() ==> (#[trigger] r@[i]).subject@ == address_subject(
                        self.queue_target().subject@,
                        ch[i],
                    ) && r@[i].payload@ == encode_utf8(json_quoted(ch[i]))
                &&& r@[ch.len() as int].subject@ == record_subject(
                    self.results_target().subject@,
                    parent@,
                    ch,
                )
                &&& r@[ch.len() as int].payload@ == encode_utf8(record_json(parent@, ch))
            }),
    {
        let links = links_of_page(html);
        self.results_messages(parent, &links)
    }
}

} // verus!
