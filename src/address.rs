use crate::error::CrawlError;
use vstd::prelude::*;
use vstd::string::StrSliceExecFns;

verus! {

/// The serialization of what `url::Url::parse` makes of a text; `None` where
/// the text is not an absolute URL.
pub uninterp spec fn parsed_url(raw: Seq<char>) -> Option<Seq<char>>;

/// The serialization of what `url::Url::join` makes of a reference against a
/// base (the base given by its own serialization); `None` where either fails.
pub uninterp spec fn joined_url(base: Seq<char>, raw: Seq<char>) -> Option<Seq<char>>;

/// The text held by an optional string.
pub open spec fn text_opt(o: Option<String>) -> Option<Seq<char>> {
    match o {
        Some(s) => Some(s@),
        None => None,
    }
}

/// Relies on `url::Url::parse`, read back through `String::from(Url)`.
#[verifier::external_body]
fn parse_absolute(raw: &str) -> (r: Option<String>)
    ensures
        text_opt(r) == parsed_url(raw@),
{
    url::Url::parse(raw).ok().map(String::from)
}

/// Relies on `url::Url::join` (the base turned back into a `Url` first),
/// read back through `String::from(Url)`.
#[verifier::external_body]
fn join_relative(base: &str, raw: &str) -> (r: Option<String>)
    ensures
        text_opt(r) == joined_url(base@, raw@),
{
    url::Url::parse(base).ok().and_then(|b| b.join(raw).ok()).map(String::from)
}

/// Whether a text holds a space or a control character. A link that does
/// is taken for prose or a broken attribute, not an address.
pub open spec fn has_blank(raw: Seq<char>) -> bool {
    exists|i: int| 0 <= i < raw.len() && (raw[i] as u32) <= 0x20
}

/// A link resolved against the page it was found on: rejected when it holds
/// a blank; else taken as it stands when it is absolute, else resolved
/// relative to the page.
pub open spec fn normalized(base: Seq<char>, raw: Seq<char>) -> Option<Seq<char>> {
    if has_blank(raw) {
        None
    } else {
        match parsed_url(raw) {
            Some(u) => Some(u),
            None => joined_url(base, raw),
        }
    }
}

/// Whether `raw` holds a space or a control character.
pub fn contains_blank(raw: &str) -> (r: bool)
    ensures
        r == has_blank(raw@),
{
    let n = raw.unicode_len();
    let mut i: usize = 0;
    while i < n
        invariant
            n == raw@.len(),
            i <= n,
            forall|j: int| 0 <= j < i ==> (raw@[j] as u32) > 0x20,
        decreases n - i,
    {
        let c = raw.get_char(i);
        if (c as u32) <= 0x20 {
            return true;
        }
        i = i + 1;
    }
    false
}

/// A canonical absolute address: only parsing or normalisation make one.
pub struct Address {
    href: String,
}

impl View for Address {
    type V = Seq<char>;

    closed spec fn view(&self) -> Seq<char> {
        self.href@
    }
}

impl Clone for Address {
    fn clone(&self) -> (r: Self)
        ensures
            r@ == self@,
    {
        Address { href: self.href.clone() }
    }
}

impl Address {
    /// Reads an absolute address, as a seed is read.
    pub fn parse(raw: &str) -> (r: Result<Address, CrawlError>)
        ensures
            match parsed_url(raw@) {
                Some(u) => r matches Ok(a) && a@ == u,
                None => r == Err::<Address, CrawlError>(CrawlError::InvalidSeed),
            },
    {
        match parse_absolute(raw) {
            Some(href) => Ok(Address { href }),
            None => Err(CrawlError::InvalidSeed),
        }
    }

    /// The address as text.
    pub fn as_str(&self) -> (r: &str)
        ensures
            r@ == self@,
    {
        self.href.as_str()
    }

    /// The address as an owned string.
    pub fn to_text(&self) -> (r: String)
        ensures
            r@ == self@,
    {
        self.href.clone()
    }

    /// Whether two addresses are the same text.
    pub fn same_as(&self, other: &Address) -> (r: bool)
        ensures
            r == (self@ == other@),
    {
        self.href == other.href
    }
}

/// Resolves a link found on the page `base`; a link that holds a blank, or
/// that resolves neither way, is rejected.
pub fn normalize(base: &Address, raw: &str) -> (r: Result<Address, CrawlError>)
    ensures
        match normalized(base@, raw@) {
            Some(u) => r matches Ok(a) && a@ == u,
            None => r == Err::<Address, CrawlError>(CrawlError::MalformedLink),
        },
{
    if contains_blank(raw) {
        return Err(CrawlError::MalformedLink);
    }
    match parse_absolute(raw) {
        Some(href) => Ok(Address { href }),
        None => match join_relative(base.href.as_str(), raw) {
            Some(href) => Ok(Address { href }),
            None => Err(CrawlError::MalformedLink),
        },
    }
}

} // verus!
