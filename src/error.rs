use vstd::prelude::*;

verus! {

/// The failures that the crawl engine tells apart.
#[derive(Debug, Clone, Copy, PartialEq, Eq, Structural)]
pub enum CrawlError {
    /// The seed (or a received address) is not an absolute address.
    InvalidSeed,
    /// A link could be resolved neither on its own nor against its page.
    MalformedLink,
    /// A page is larger than the markup parser is given.
    ParseFailure,
    /// A queued message does not hold an absolute address as a JSON string.
    DecodeFailure,
    /// The downstream dependency never answered within the allowed probes.
    DependencyUnavailable,
    /// A record could not be delivered within the allowed attempts.
    PublishFailure,
}

} // verus!
