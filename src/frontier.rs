use crate::address::Address;
use crate::links::addresses;
use vstd::prelude::*;

verus! {

/// The addresses waiting for a crawl attempt, first in, first out.
/// It does not deduplicate: the visit tracker does, when an address leaves.
pub struct Frontier {
    queue: std::collections::VecDeque<Address>,
}

impl View for Frontier {
    type V = Seq<Seq<char>>;

    closed spec fn view(&self) -> Seq<Seq<char>> {
        addresses(self.queue@)
    }
}

impl Frontier {
    /// An empty frontier.
    pub fn new() -> (r: Frontier)
        ensures
            r@ == Seq::<Seq<char>>::empty(),
    {
        let r = Frontier { queue: std::collections::VecDeque::new() };
        assert(r@ =~= Seq::<Seq<char>>::empty());
        r
    }

    /// Puts `a` at the back.
    pub fn push(&mut self, a: Address)
        ensures
            final(self)@ == old(self)@.push(a@),
    {
        self.queue.push_back(a);
        assert(self@ =~= old(self)@.push(a@));
    }

    /// Takes the address at the front, if any.
    pub fn pop(&mut self) -> (r: Option<Address>)
        ensures
            old(self)@.len() == 0 ==> r is None && final(self)@ == old(self)@,
            old(self)@.len() > 0 ==> (r matches Some(a) && a@ == old(self)@[0]),
            old(self)@.len() > 0 ==> final(self)@ == old(self)@.drop_first(),
    {
        let r = self.queue.pop_front();
        assert(self@ =~= old(self)@.drop_first() || old(self)@.len() == 0);
        r
    }

    /// How many addresses wait.
    pub fn len(&self) -> (r: usize)
        ensures
            r == self@.len(),
    {
        self.queue.len()
    }

    /// Whether no address waits.
    pub fn is_empty(&self) -> (r: bool)
        ensures
            r == (self@.len() == 0),
    {
        self.queue.len() == 0
    }
}

} // verus!
