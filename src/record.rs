use crate::address::Address;
use crate::links::{addresses, texts};
use std::collections::hash_map::DefaultHasher;
use std::hash::Hasher;
use vstd::prelude::*;
use vstd::std_specs::hash::DefaultHasherAdditionalSpecFns;
use vstd::utf8::encode_utf8;

verus! {

#[verifier::external_type_specification]
#[verifier::external_body]
pub struct ExJsonError(serde_json::Error);

/// The JSON string literal that `serde_json` writes for a text.
pub uninterp spec fn json_quoted(s: Seq<char>) -> Seq<char>;

/// The text that `serde_json` reads from bytes holding one JSON string;
/// `None` where the bytes hold anything else.
pub uninterp spec fn json_text(bytes: Seq<u8>) -> Option<Seq<char>>;

/// Relies on `serde_json::to_string` on a `str`: it writes the quoted,
/// escaped literal into a `Vec<u8>`, which cannot fail.
#[verifier::external_body]
fn quote_json(s: &str) -> (r: Result<String, serde_json::Error>)
    ensures
        r is Ok,
        r matches Ok(q) ==> q@ == json_quoted(s@),
{
    serde_json::to_string(s)
}

/// Relies on `serde_json::from_slice::<String>`.
#[verifier::external_body]
pub(crate) fn unquote_json(bytes: &[u8]) -> (r: Result<String, serde_json::Error>)
    ensures
        json_text(bytes@) is Some <==> r is Ok,
        r matches Ok(s) ==> json_text(bytes@) == Some(s@),
{
    serde_json::from_slice::<String>(bytes)
}

/// What a page's crawl found: the page and the addresses it links to.
pub struct CrawlingResults {
    pub parent: String,
    pub urls: Vec<String>,
}

/// The comma-separated JSON literals of a list of texts.
pub open spec fn json_items(items: Seq<Seq<char>>) -> Seq<char>
    decreases items.len(),
{
    if items.len() == 0 {
        Seq::empty()
    } else if items.len() == 1 {
        json_quoted(items[0])
    } else {
        json_items(items.drop_last()) + seq![','] + json_quoted(items.last())
    }
}

/// The wire form of a record: `{"parent":<text>,"urls":[<text>,...]}`.
pub open spec fn record_json(parent: Seq<char>, urls: Seq<Seq<char>>) -> Seq<char> {
    "{\"parent\":"@ + json_quoted(parent) + ",\"urls\":["@ + json_items(urls) + "]}"@
}

/// The hash of a text under a one-byte role tag (0 for a page, 1 for a
/// child): the tag, then the text as UTF-8.
pub open spec fn text_hash(tag: u8, s: Seq<char>) -> u64 {
    DefaultHasher::spec_finish(seq![seq![tag], encode_utf8(s)])
}

/// The sum of the children's hashes.
pub open spec fn children_sum(urls: Seq<Seq<char>>) -> int
    decreases urls.len(),
{
    if urls.len() == 0 {
        0
    } else {
        children_sum(urls.drop_last()) + text_hash(1, urls.last()) as int
    }
}

/// The content key of a record: the page's hash plus its children's, modulo
/// 2^64. The children are a set, so the key does not depend on their order.
pub open spec fn record_hash(parent: Seq<char>, urls: Seq<Seq<char>>) -> u64 {
    ((text_hash(0, parent) as int + children_sum(urls)) % 0x1_0000_0000_0000_0000) as u64
}

/// Taking one child out of the sum.
proof fn lemma_sum_remove(urls: Seq<Seq<char>>, i: int)
    requires
        0 <= i < urls.len(),
    ensures
        children_sum(urls) == children_sum(urls.remove(i)) + text_hash(1, urls[i]) as int,
    decreases urls.len(),
{
    if i < urls.len() - 1 {
        lemma_sum_remove(urls.drop_last(), i);
        assert(urls.drop_last().remove(i) =~= urls.remove(i).drop_last());
        assert(urls.remove(i).last() == urls.last());
    } else {
        assert(urls.remove(i) =~= urls.drop_last());
    }
}

proof fn lemma_sum_same_set(a: Seq<Seq<char>>, b: Seq<Seq<char>>)
    requires
        a.no_duplicates(),
        b.no_duplicates(),
        a.to_set() == b.to_set(),
    ensures
        children_sum(a) == children_sum(b),
    decreases a.len(),
{
    if a.len() == 0 {
        if b.len() > 0 {
            assert(b.to_set().contains(b[0]));
        }
    } else {
        let x = a.last();
        assert(a.to_set().contains(x));
        let i = choose|i: int| 0 <= i < b.len() && b[i] == x;
        let a2 = a.drop_last();
        let b2 = b.remove(i);
        assert forall|p: int, q: int| 0 <= p < b2.len() && 0 <= q < b2.len() && p != q implies b2[p] != b2[q] by {
            let p1 = if p < i { p } else { p + 1 };
            let q1 = if q < i { q } else { q + 1 };
            assert(b2[p] == b[p1] && b2[q] == b[q1]);
        }
        assert forall|y: Seq<char>| a2.to_set().contains(y) <==> b2.to_set().contains(y) by {
            if a2.to_set().contains(y) {
                let k = choose|k: int| 0 <= k < a2.len() && a2[k] == y;
                assert(a[k] == y && k != a.len() - 1);
                assert(a.to_set().contains(y));
                let j = choose|j: int| 0 <= j < b.len() && b[j] == y;
                assert(j != i);
                if j < i {
                    assert(b2[j] == y);
                } else {
                    assert(b2[j - 1] == y);
                }
            }
            if b2.to_set().contains(y) {
                let k = choose|k: int| 0 <= k < b2.len() && b2[k] == y;
                let k1 = if k < i { k } else { k + 1 };
                assert(b[k1] == y && k1 != i);
                assert(b.to_set().contains(y));
                let j = choose|j: int| 0 <= j < a.len() && a[j] == y;
                assert(j != a.len() - 1);
                assert(a2[j] == y);
            }
        }
        assert(a2.to_set() =~= b2.to_set());
        lemma_sum_same_set(a2, b2);
        lemma_sum_remove(b, i);
    }
}

/// A record's key depends on its page and the set of its children, not on
/// the order in which the children were found.
pub proof fn lemma_key_ignores_child_order(parent: Seq<char>, a: Seq<Seq<char>>, b: Seq<Seq<char>>)
    requires
        a.no_duplicates(),
        b.no_duplicates(),
        a.to_set() == b.to_set(),
    ensures
        record_hash(parent, a) == record_hash(parent, b),
{
    lemma_sum_same_set(a, b);
}

/// Hashes a text under a role tag, as `text_hash` says.
fn hash_text(tag: u8, s: &str) -> (r: u64)
    ensures
        r == text_hash(tag, s@),
{
    let head: [u8; 1] = [tag];
    assert(head@ =~= seq![tag]);
    let mut h = DefaultHasher::new();
    h.write(&head);
    h.write(s.as_bytes());
    assert(h@ =~= seq![seq![tag], encode_utf8(s@)]);
    h.finish()
}

/// Appends a text's JSON literal.
fn push_quoted(out: &mut String, s: &str)
    ensures
        final(out)@ == old(out)@ + json_quoted(s@),
{
    let q = quote_json(s).unwrap();
    out.append(q.as_str());
}

/// A text as a JSON string literal.
pub fn quote_text(s: &str) -> (r: String)
    ensures
        r@ == json_quoted(s@),
{
    let mut out = String::new();
    push_quoted(&mut out, s);
    assert(out@ =~= json_quoted(s@));
    out
}

impl CrawlingResults {
    pub fn new(parent: String, urls: Vec<String>) -> (r: CrawlingResults)
        ensures
            r.parent == parent,
            r.urls == urls,
    {
        CrawlingResults { parent, urls }
    }

    /// The record of a page and its children, as text.
    pub fn from(parent: &Address, urls: &Vec<Address>) -> (r: CrawlingResults)
        ensures
            r.parent@ == parent@,
            texts(r.urls@) == addresses(urls@),
    {
        let mut out: Vec<String> = Vec::new();
        let mut i: usize = 0;
        while i < urls.len()
            invariant
                i <= urls.len(),
                texts(out@) == addresses(urls@).take(i as int),
            decreases urls.len() - i,
        {
            let ghost prev = out@;
            out.push(urls[i].to_text());
            assert(out@ == prev.push(out@.last()));
            assert(texts(out@) =~= texts(prev).push(urls@[i as int]@));
            assert(texts(out@) =~= addresses(urls@).take(i as int + 1));
            i = i + 1;
        }
        assert(addresses(urls@).take(urls@.len() as int) =~= addresses(urls@));
        CrawlingResults { parent: parent.to_text(), urls: out }
    }

    /// The record as JSON text.
    pub fn to_json(&self) -> (r: String)
        ensures
            r@ == record_json(self.parent@, texts(self.urls@)),
    {
        let mut out = String::new();
        out.append("{\"parent\":");
        push_quoted(&mut out, self.parent.as_str());
        out.append(",\"urls\":[");
        let ghost head = out@;
        let mut i: usize = 0;
        while i < self.urls.len()
            invariant
                i <= self.urls.len(),
                out@ == head + json_items(texts(self.urls@).take(i as int)),
            decreases self.urls.len() - i,
        {
            let ghost items = texts(self.urls@).take(i as int + 1);
            assert(items.drop_last() =~= texts(self.urls@).take(i as int));
            assert(items.last() == self.urls@[i as int]@);
            if i > 0 {
                out.append(",");
                proof {
                    reveal_strlit(",");
                }
                assert(","@ =~= seq![',']);
            } else {
                assert(texts(self.urls@).take(0) =~= Seq::<Seq<char>>::empty());
            }
            push_quoted(&mut out, self.urls[i].as_str());
            assert(out@ =~= head + json_items(items));
            i = i + 1;
        }
        assert(texts(self.urls@).take(self.urls@.len() as int) =~= texts(self.urls@));
        out.append("]}");
        out
    }
}

/// The record's content key, as `record_hash` says.
pub fn calculate_hash(record: &CrawlingResults) -> (r: u64)
    ensures
        r == record_hash(record.parent@, texts(record.urls@)),
{
    let ghost m: int = 0x1_0000_0000_0000_0000;
    let mut acc: u64 = hash_text(0, record.parent.as_str());
    let ghost start = acc as int;
    assert(texts(record.urls@).take(0) =~= Seq::<Seq<char>>::empty());
    proof {
        vstd::arithmetic::div_mod::lemma_small_mod(start as nat, m as nat);
    }
    let mut i: usize = 0;
    while i < record.urls.len()
        invariant
            i <= record.urls.len(),
            m == 0x1_0000_0000_0000_0000,
            start == text_hash(0, record.parent@) as int,
            acc as int == (start + children_sum(texts(record.urls@).take(i as int))) % m,
        decreases record.urls.len() - i,
    {
        let ghost items = texts(record.urls@).take(i as int + 1);
        assert(items.drop_last() =~= texts(record.urls@).take(i as int));
        assert(items.last() == record.urls@[i as int]@);
        let h = hash_text(1, record.urls[i].as_str());
        let ghost before = start + children_sum(texts(record.urls@).take(i as int));
        acc = ((acc as u128 + h as u128) % 0x1_0000_0000_0000_0000u128) as u64;
        proof {
            vstd::arithmetic::div_mod::lemma_small_mod(h as nat, m as nat);
            vstd::arithmetic::div_mod::lemma_add_mod_noop(before, h as int, m);
        }
        i = i + 1;
    }
    assert(texts(record.urls@).take(record.urls@.len() as int) =~= texts(record.urls@));
    acc
}

/// The decimal digits.
pub open spec fn digit_chars() -> Seq<char> {
    seq!['0', '1', '2', '3', '4', '5', '6', '7', '8', '9']
}

/// A number written in decimal, without leading zeros.
pub open spec fn decimal_text(n: nat) -> Seq<char>
    decreases n,
{
    if n < 10 {
        seq![digit_chars()[n as int]]
    } else {
        decimal_text(n / 10) + seq![digit_chars()[(n % 10) as int]]
    }
}

fn push_decimal(out: &mut String, n: u64)
    ensures
        final(out)@ == old(out)@ + decimal_text(n as nat),
    decreases n,
{
    if n >= 10 {
        push_decimal(out, n / 10);
    }
    let digits = "0123456789";
    proof {
        reveal_strlit("0123456789");
    }
    assert(digits@ =~= digit_chars());
    let d = (n % 10) as usize;
    out.append(digits.substring_char(d, d + 1));
    assert(digits@.subrange(d as int, d as int + 1) =~= seq![digit_chars()[d as int]]);
}

/// A number in decimal, as a message key is written.
pub fn decimal(n: u64) -> (r: String)
    ensures
        r@ == decimal_text(n as nat),
{
    let mut out = String::new();
    push_decimal(&mut out, n);
    assert(out@ =~= decimal_text(n as nat));
    out
}

} // verus!
