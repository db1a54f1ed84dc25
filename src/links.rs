use crate::address::{normalize, normalized, Address};
use crate::error::CrawlError;
use vstd::prelude::*;
use vstd::utf8::encode_utf8;

verus! {

/// The `href` values of the anchors that `select` finds in an HTML text,
/// in document order.
pub uninterp spec fn anchor_hrefs(html: Seq<char>) -> Seq<Seq<char>>;

/// The texts of a sequence of strings.
pub open spec fn texts(s: Seq<String>) -> Seq<Seq<char>> {
    s.map_values(|x: String| x@)
}

/// The texts of a sequence of addresses.
pub open spec fn addresses(s: Seq<Address>) -> Seq<Seq<char>> {
    s.map_values(|a: Address| a@)
}

/// The largest page, in UTF-8 bytes, that is handed to the markup parser.
/// The parser turns the page into a tendril, which holds at most `u32::MAX`
/// bytes, and walks the tree it builds recursively, one call per level of
/// nesting; a page of this size nests at most a few hundred thousand levels,
/// which a thread with a large stack can take.
pub const MAX_PAGE_BYTES: usize = 1048576;

/// The links of a page: those of its anchors, or none where the page is too
/// large to be parsed.
pub open spec fn page_links(html: Seq<char>) -> Seq<Seq<char>> {
    if encode_utf8(html).len() <= MAX_PAGE_BYTES {
        anchor_hrefs(html)
    } else {
        Seq::empty()
    }
}

/// Relies on `select::document::Document::from` and `Document::find` with
/// the predicate "an `a` element with an `href` attribute", reading
/// `Node::attr("href")` of each match.
#[verifier::external_body]
fn select_hrefs(html: &str) -> (r: Vec<String>)
    requires
        encode_utf8(html@).len() <= MAX_PAGE_BYTES,
    ensures
        texts(r@) == anchor_hrefs(html@),
{
    select::document::Document::from(html)
        .find(select::predicate::And(
            select::predicate::Name("a"),
            select::predicate::Attr("href", ()),
        ))
        .flat_map(|a| a.attr("href"))
        .map(String::from)
        .collect()
}

/// Every anchor's `href` value in an HTML text, in document order,
/// duplicates and relative forms included, nothing resolved. A page over
/// `MAX_PAGE_BYTES` is not parsed.
pub fn extract_links(html: &str) -> (r: Result<Vec<String>, CrawlError>)
    ensures
        encode_utf8(html@).len() <= MAX_PAGE_BYTES ==> (r matches Ok(v) && texts(v@)
            == anchor_hrefs(html@)),
        encode_utf8(html@).len() > MAX_PAGE_BYTES ==> r == Err::<Vec<String>, CrawlError>(
            CrawlError::ParseFailure,
        ),
{
    if html.as_bytes().len() <= MAX_PAGE_BYTES {
        Ok(select_hrefs(html))
    } else {
        Err(CrawlError::ParseFailure)
    }
}

/// The links of a page, or none where it cannot be parsed.
pub fn links_of_page(html: &str) -> (r: Vec<String>)
    ensures
        texts(r@) == page_links(html@),
{
    match extract_links(html) {
        Ok(links) => links,
        Err(_) => {
            let none: Vec<String> = Vec::new();
            assert(texts(none@) =~= Seq::<Seq<char>>::empty());
            none
        },
    }
}

/// The children of a page: its links resolved against it, the rejected ones
/// dropped, each address kept once, at its first occurrence.
pub open spec fn child_addresses(base: Seq<char>, links: Seq<Seq<char>>) -> Seq<Seq<char>>
    decreases links.len(),
{
    if links.len() == 0 {
        Seq::empty()
    } else {
        let prev = child_addresses(base, links.drop_last());
        match normalized(base, links.last()) {
            Some(u) => if prev.contains(u) {
                prev
            } else {
                prev.push(u)
            },
            None => prev,
        }
    }
}

/// No address occurs twice among the children.
pub proof fn lemma_children_distinct(base: Seq<char>, links: Seq<Seq<char>>)
    ensures
        child_addresses(base, links).no_duplicates(),
    decreases links.len(),
{
    if links.len() > 0 {
        lemma_children_distinct(base, links.drop_last());
    }
}

/// Whether `a` is among `list`.
pub fn contains_address(list: &Vec<Address>, a: &Address) -> (r: bool)
    ensures
        r == addresses(list@).contains(a@),
{
    let mut i: usize = 0;
    while i < list.len()
        invariant
            i <= list.len(),
            forall|j: int| 0 <= j < i ==> list@[j]@ != a@,
        decreases list.len() - i,
    {
        if list[i].same_as(a) {
            assert(addresses(list@)[i as int] == a@);
            return true;
        }
        i = i + 1;
    }
    assert(!addresses(list@).contains(a@)) by {
        if addresses(list@).contains(a@) {
            let k = choose|k: int| 0 <= k < addresses(list@).len() && addresses(list@)[k] == a@;
            assert(list@[k]@ == a@);
        }
    }
    false
}

/// Resolves the links of the page `base` into its children.
pub fn children_of(base: &Address, links: &Vec<String>) -> (r: Vec<Address>)
    ensures
        addresses(r@) == child_addresses(base@, texts(links@)),
{
    let mut out: Vec<Address> = Vec::new();
    let mut i: usize = 0;
    while i < links.len()
        invariant
            i <= links.len(),
            addresses(out@) == child_addresses(base@, texts(links@).take(i as int)),
        decreases links.len() - i,
    {
        let ghost before = texts(links@).take(i as int);
        let ghost prev = addresses(out@);
        let ghost link = links@[i as int]@;
        assert(texts(links@).take(i as int + 1).drop_last() == before);
        assert(texts(links@).take(i as int + 1).last() == link);
        match normalize(base, links[i].as_str()) {
            Ok(a) => {
                if !contains_address(&out, &a) {
                    out.push(a);
                    assert(addresses(out@) == prev.push(a@));
                }
            },
            Err(_) => {},
        }
        assert(addresses(out@) == child_addresses(base@, texts(links@).take(i as int + 1)));
        i = i + 1;
    }
    assert(texts(links@).take(links@.len() as int) == texts(links@));
    out
}

} // verus!
