use vstd::prelude::*;

verus! {

/// A message ready to go to the broker: its subject and its bytes.
pub struct OutgoingMessage {
    pub subject: String,
    pub payload: Vec<u8>,
}

/// The queue group that every crawler subscribes under, so that the broker
/// hands each queued address to one of them.
pub open spec fn queue_group_text() -> Seq<char> {
    "crawler"@
}

/// Where a crawler publishes: a broker and a subject namespace.
pub struct NatsPublisher {
    pub uri: String,
    pub subject: String,
}

impl NatsPublisher {
    pub fn new(uri: &str, subject: &str) -> (r: NatsPublisher)
        ensures
            r.uri@ == uri@,
            r.subject@ == subject@,
    {
        NatsPublisher { uri: uri.to_owned(), subject: subject.to_owned() }
    }

    /// The message that carries `message` under the key `key`, on the
    /// subject `<namespace>.<key>`.
    pub fn publish(&self, key: &str, message: Vec<u8>) -> (r: OutgoingMessage)
        ensures
            r.subject@ == self.subject@ + "."@ + key@,
            r.payload == message,
    {
        let mut subject = self.subject.clone();
        subject.append(".");
        subject.append(key);
        OutgoingMessage { subject, payload: message }
    }
}

/// Where a crawler takes addresses from: a broker, the subject pattern
/// `<namespace>.*`, and the shared queue group.
pub struct NatsSubscriber {
    pub uri: String,
    pub pattern: String,
    pub queue_group: String,
}

impl NatsSubscriber {
    pub fn new(uri: &str, subject: &str) -> (r: NatsSubscriber)
        ensures
            r.uri@ == uri@,
            r.pattern@ == subject@ + ".*"@,
            r.queue_group@ == queue_group_text(),
    {
        let mut pattern = subject.to_owned();
        pattern.append(".*");
        NatsSubscriber { uri: uri.to_owned(), pattern, queue_group: "crawler".to_owned() }
    }
}

} // verus!
