use crate::address::Address;
use crate::frontier::Frontier;
use crate::links::{addresses, child_addresses, children_of, links_of_page, page_links, texts};
use crate::record::CrawlingResults;
use crate::visited::VisitedSet;
use vstd::prelude::*;

verus! {

/// The address an optional address holds.
pub open spec fn address_opt(o: Option<Address>) -> Option<Seq<char>> {
    match o {
        Some(a) => Some(a@),
        None => None,
    }
}

/// Taking addresses from the front of `q` until one is not in `seen`: how
/// many were taken, and the one found, if any.
pub open spec fn next_pick(q: Seq<Seq<char>>, seen: Set<Seq<char>>) -> (int, Option<Seq<char>>)
    decreases q.len(),
{
    if q.len() == 0 {
        (0, None)
    } else if seen.contains(q[0]) {
        let rest = next_pick(q.drop_first(), seen);
        (rest.0 + 1, rest.1)
    } else {
        (1, Some(q[0]))
    }
}

/// Taking up to `n` new addresses from the front of `q`, each marked seen
/// as it is taken: how many entries were taken off, and the new addresses.
pub open spec fn batch_pick(q: Seq<Seq<char>>, seen: Set<Seq<char>>, n: nat) -> (int, Seq<Seq<char>>)
    decreases n,
{
    if n == 0 {
        (0, Seq::empty())
    } else {
        let first = next_pick(q, seen);
        match first.1 {
            None => (first.0, Seq::empty()),
            Some(x) => {
                let rest = batch_pick(q.skip(first.0), seen.insert(x), (n - 1) as nat);
                (first.0 + rest.0, seq![x] + rest.1)
            },
        }
    }
}

/// The addresses of `s` that are not in `seen`, in order.
pub open spec fn unseen(s: Seq<Seq<char>>, seen: Set<Seq<char>>) -> Seq<Seq<char>>
    decreases s.len(),
{
    if s.len() == 0 {
        Seq::empty()
    } else if seen.contains(s.last()) {
        unseen(s.drop_last(), seen)
    } else {
        unseen(s.drop_last(), seen).push(s.last())
    }
}

/// The single-process crawl: the frontier and the visit tracker it owns,
/// and (as a ghost) every address it has handed out for fetching.
pub struct CrawlLoop {
    frontier: Frontier,
    visited: VisitedSet,
    dispatched: Ghost<Seq<Seq<char>>>,
}

impl CrawlLoop {
    /// The addresses waiting, front first.
    pub closed spec fn pending(&self) -> Seq<Seq<char>> {
        self.frontier@
    }

    /// The addresses already taken up.
    pub closed spec fn seen(&self) -> Set<Seq<char>> {
        self.visited@
    }

    /// The addresses handed out for fetching, in order.
    pub closed spec fn dispatched(&self) -> Seq<Seq<char>> {
        self.dispatched@
    }

    /// Every address handed out is recorded as seen, and none twice.
    pub closed spec fn wf(&self) -> bool {
        &&& self.dispatched@.no_duplicates()
        &&& forall|i: int|
            0 <= i < self.dispatched@.len() ==> #[trigger] self.visited@.contains(self.dispatched@[i])
    }

    /// A crawl that starts from `seed`.
    pub fn new(seed: Address) -> (r: CrawlLoop)
        ensures
            r.wf(),
            r.pending() == seq![seed@],
            r.seen() == Set::<Seq<char>>::empty(),
            r.dispatched() == Seq::<Seq<char>>::empty(),
    {
        let mut frontier = Frontier::new();
        frontier.push(seed);
        CrawlLoop { frontier, visited: VisitedSet::new(), dispatched: Ghost(Seq::empty()) }
    }

    /// Whether nothing waits: the crawl is over.
    pub fn is_done(&self) -> (r: bool)
        ensures
            r == (self.pending().len() == 0),
    {
        self.frontier.is_empty()
    }

    /// Takes the next address to fetch: addresses at the front that were
    /// already seen are dropped; the first new one is marked seen and
    /// handed out. `None` once the frontier is empty.
    pub fn next_address(&mut self) -> (r: Option<Address>)
        requires
            old(self).wf(),
        ensures
            final(self).wf(),
            next_pick(old(self).pending(), old(self).seen()).1 == address_opt(r),
            final(self).pending() == old(self).pending().skip(
                next_pick(old(self).pending(), old(self).seen()).0,
            ),
            r is Some ==> final(self).seen() == old(self).seen().insert(r->0@),
            r is Some ==> final(self).dispatched() == old(self).dispatched().push(r->0@),
            r is None ==> final(self).seen() == old(self).seen(),
            r is None ==> final(self).dispatched() == old(self).dispatched(),
    {
        let ghost q0 = self.frontier@;
        let ghost seen = self.visited@;
        let ghost mut k: int = 0;
        loop
            invariant
                0 <= k <= q0.len(),
                self.frontier@ == q0.skip(k),
                self.visited@ == seen,
                seen == old(self).visited@,
                q0 == old(self).frontier@,
                self.dispatched == old(self).dispatched,
                old(self).wf(),
                next_pick(q0, seen) == (k + next_pick(self.frontier@, seen).0, next_pick(
                    self.frontier@,
                    seen,
                ).1),
            decreases self.frontier@.len(),
        {
            let ghost cur = self.frontier@;
            match self.frontier.pop() {
                None => {
                    assert(q0.skip(k).len() == 0);
                    return None;
                },
                Some(a) => {
                    assert(q0.skip(k).drop_first() =~= q0.skip(k + 1));
                    if self.visited.mark_if_new(&a) {
                        proof {
                            let d = self.dispatched@;
                            self.dispatched = Ghost(d.push(a@));
                            assert forall|i: int| 0 <= i < self.dispatched@.len() implies #[trigger] self.visited@.contains(self.dispatched@[i]) by {
                                if i < d.len() {
                                    assert(seen.contains(d[i]));
                                }
                            }
                            assert forall|i: int, j: int|
                                0 <= i < self.dispatched@.len() && 0 <= j < self.dispatched@.len() && i != j
                                implies self.dispatched@[i] != self.dispatched@[j] by {
                                if i < d.len() && j < d.len() {
                                } else if i < d.len() {
                                    assert(seen.contains(d[i]));
                                } else {
                                    assert(seen.contains(d[j]));
                                }
                            }
                            k = k + 1;
                        }
                        return Some(a);
                    }
                    proof {
                        k = k + 1;
                    }
                },
            }
        }
    }

    /// Queues the children of a fetched page that are not yet seen, and
    /// returns the page's record. The links are those found on the page.
    pub fn on_page_links(&mut self, parent: &Address, links: &Vec<String>) -> (r: CrawlingResults)
        requires
            old(self).wf(),
        ensures
            final(self).wf(),
            final(self).seen() == old(self).seen(),
            final(self).dispatched() == old(self).dispatched(),
            final(self).pending() == old(self).pending() + unseen(
                child_addresses(parent@, texts(links@)),
                old(self).seen(),
            ),
            r.parent@ == parent@,
            texts(r.urls@) == child_addresses(parent@, texts(links@)),
    {
        let children = children_of(parent, links);
        let ghost ch = addresses(children@);
        let ghost q0 = self.frontier@;
        let mut i: usize = 0;
        while i < children.len()
            invariant
                i <= children.len(),
                ch == addresses(children@),
                self.frontier@ == q0 + unseen(ch.take(i as int), self.visited@),
                self.visited@ == old(self).visited@,
                self.dispatched == old(self).dispatched,
                q0 == old(self).frontier@,
            decreases children.len() - i,
        {
            let ghost part = ch.take(i as int + 1);
            assert(part.drop_last() =~= ch.take(i as int));
            assert(part.last() == children@[i as int]@);
            if !self.visited.contains(&children[i]) {
                self.frontier.push(children[i].clone());
            }
            assert(self.frontier@ =~= q0 + unseen(part, self.visited@));
            i = i + 1;
        }
        assert(ch.take(children@.len() as int) =~= ch);
        CrawlingResults::from(parent, &children)
    }

    /// Crawls the content of a fetched page: its links are extracted,
    /// resolved and queued; its record is returned. A page too large to be
    /// parsed counts as one without links.
    pub fn on_page(&mut self, parent: &Address, html: &str) -> (r: CrawlingResults)
        requires
            old(self).wf(),
        ensures
            final(self).wf(),
            final(self).seen() == old(self).seen(),
            final(self).dispatched() == old(self).dispatched(),
            final(self).pending() == old(self).pending() + unseen(
                child_addresses(parent@, page_links(html@)),
                old(self).seen(),
            ),
            r.parent@ == parent@,
            texts(r.urls@) == child_addresses(parent@, page_links(html@)),
    {
        let links = links_of_page(html);
        self.on_page_links(parent, &links)
    }

    /// Takes up to `max_in_flight` new addresses to fetch at once. Fewer
    /// come only when the frontier has run dry.
    pub fn next_batch(&mut self, max_in_flight: usize) -> (r: Vec<Address>)
        requires
            old(self).wf(),
        ensures
            final(self).wf(),
            r.len() <= max_in_flight,
            r.len() < max_in_flight ==> final(self).pending().len() == 0,
            final(self).dispatched() == old(self).dispatched() + addresses(r@),
            final(self).seen() == old(self).seen().union(addresses(r@).to_set()),
            addresses(r@) == batch_pick(old(self).pending(), old(self).seen(), max_in_flight as nat).1,
            final(self).pending() == old(self).pending().skip(
                batch_pick(old(self).pending(), old(self).seen(), max_in_flight as nat).0,
            ),
    {
        let mut batch: Vec<Address> = Vec::new();
        let ghost q0 = self.pending();
        let ghost s0 = self.seen();
        let ghost mut taken: int = 0;
        while batch.len() < max_in_flight
            invariant
                self.wf(),
                batch.len() <= max_in_flight,
                self.dispatched() == old(self).dispatched() + addresses(batch@),
                self.seen() == old(self).seen().union(addresses(batch@).to_set()),
                q0 == old(self).pending(),
                s0 == old(self).seen(),
                0 <= taken <= q0.len(),
                self.pending() == q0.skip(taken),
                batch_pick(q0, s0, max_in_flight as nat) == (
                    taken + batch_pick(self.pending(), self.seen(), (max_in_flight - batch.len()) as nat).0,
                    addresses(batch@) + batch_pick(self.pending(), self.seen(), (max_in_flight - batch.len()) as nat).1,
                ),
            decreases max_in_flight - batch.len(),
        {
            let ghost before = addresses(batch@);
            let ghost old_q = self.pending();
            let ghost old_seen = self.seen();
            let ghost n = (max_in_flight - batch.len()) as nat;
            proof {
                lemma_pick_bounded(old_q, old_seen);
            }
            match self.next_address() {
                Some(a) => {
                    proof {
                        assert(q0.skip(taken).skip(next_pick(old_q, old_seen).0) =~= q0.skip(
                            taken + next_pick(old_q, old_seen).0,
                        ));
                        taken = taken + next_pick(old_q, old_seen).0;
                    }
                    batch.push(a);
                    assert(addresses(batch@) =~= before.push(batch@.last()@));
                    proof {
                        before.lemma_push_to_set_commute(batch@.last()@);
                    }
                    assert(self.seen() =~= old(self).seen().union(addresses(batch@).to_set()));
                    assert(addresses(batch@) + batch_pick(self.pending(), self.seen(), (n - 1) as nat).1
                        =~= before + (seq![batch@.last()@] + batch_pick(self.pending(), self.seen(), (n - 1) as nat).1));
                },
                None => {
                    proof {
                        lemma_none_empties(old_q, old_seen);
                    }
                    return batch;
                },
            }
        }
        batch
    }
}

/// No more entries are taken than the frontier holds.
proof fn lemma_pick_bounded(q: Seq<Seq<char>>, seen: Set<Seq<char>>)
    ensures
        0 <= next_pick(q, seen).0 <= q.len(),
    decreases q.len(),
{
    if q.len() > 0 {
        lemma_pick_bounded(q.drop_first(), seen);
    }
}

/// Where no new address is found, the whole frontier was taken.
proof fn lemma_none_empties(q: Seq<Seq<char>>, seen: Set<Seq<char>>)
    ensures
        next_pick(q, seen).1 is None ==> next_pick(q, seen).0 == q.len(),
    decreases q.len(),
{
    if q.len() > 0 {
        lemma_none_empties(q.drop_first(), seen);
    }
}

/// Addresses queued behind the waiting ones do not overtake them: where a
/// new address waits in `q`, taking the next address from `q + later` gives
/// the same one, after the same number of entries, whatever `later` holds.
pub proof fn lemma_queued_later_waits(q: Seq<Seq<char>>, later: Seq<Seq<char>>, seen: Set<Seq<char>>)
    requires
        next_pick(q, seen).1 is Some,
    ensures
        next_pick(q + later, seen) == next_pick(q, seen),
    decreases q.len(),
{
    assert((q + later)[0] == q[0]);
    if seen.contains(q[0]) {
        assert((q + later).drop_first() =~= q.drop_first() + later);
        lemma_queued_later_waits(q.drop_first(), later, seen);
    }
}

/// However often an address was pushed, the crawl hands it out for fetching
/// at most once: no two handed-out addresses are the same.
pub proof fn lemma_fetched_at_most_once(c: &CrawlLoop, i: int, j: int)
    requires
        c.wf(),
        0 <= i < c.dispatched().len(),
        0 <= j < c.dispatched().len(),
        i != j,
    ensures
        c.dispatched()[i] != c.dispatched()[j],
{
}

} // verus!
