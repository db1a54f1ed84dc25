use crate::address::Address;
use crate::links::{addresses, contains_address};
use vstd::prelude::*;

verus! {

/// The addresses that this process has already taken up. It only grows.
pub struct VisitedSet {
    seen: Vec<Address>,
}

impl View for VisitedSet {
    type V = Set<Seq<char>>;

    closed spec fn view(&self) -> Set<Seq<char>> {
        Set::new(|x: Seq<char>| addresses(self.seen@).contains(x))
    }
}

impl VisitedSet {
    /// A tracker that has seen nothing.
    pub fn new() -> (r: VisitedSet)
        ensures
            r@ == Set::<Seq<char>>::empty(),
    {
        let r = VisitedSet { seen: Vec::new() };
        assert(r@ =~= Set::<Seq<char>>::empty());
        r
    }

    /// Whether `a` has been seen.
    pub fn contains(&self, a: &Address) -> (r: bool)
        ensures
            r == self@.contains(a@),
    {
        contains_address(&self.seen, a)
    }

    /// Records `a` as seen; true where it had not been seen before.
    pub fn mark_if_new(&mut self, a: &Address) -> (r: bool)
        ensures
            r == !old(self)@.contains(a@),
            final(self)@ == old(self)@.insert(a@),
    {
        if contains_address(&self.seen, a) {
            assert(self@ =~= self@.insert(a@));
            false
        } else {
            let ghost before = addresses(self.seen@);
            self.seen.push(a.clone());
            assert(addresses(self.seen@) == before.push(a@));
            assert forall|x: Seq<char>| #[trigger] self@.contains(x) <==> old(self)@.insert(a@).contains(x) by {
                if x != a@ && before.push(a@).contains(x) {
                    let k = choose|k: int| 0 <= k < before.push(a@).len() && before.push(a@)[k] == x;
                    assert(before[k] == x);
                }
                if before.contains(x) {
                    let k = choose|k: int| 0 <= k < before.len() && before[k] == x;
                    assert(before.push(a@)[k] == x);
                }
                if x == a@ {
                    assert(before.push(a@)[before.len() as int] == x);
                }
            }
            assert(self@ =~= old(self)@.insert(a@));
            true
        }
    }
}

} // verus!
