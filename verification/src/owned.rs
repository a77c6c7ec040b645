//! What one account holds: a collection of kitties that never grows past
//! its bound and gives items up by moving the last one into the gap.

use crate::kitty::Kitty;
use crate::registry::swap_removed;
use vstd::prelude::*;

verus! {

/// The kitties of one account, in the order in which they are kept.
///
/// The order is that of arrival until an item is removed: removal moves the
/// last item into the place of the removed one.
#[derive(Debug)]
pub struct OwnedKitties {
    items: Vec<Kitty>,
    bound: u32,
}

impl View for OwnedKitties {
    type V = Seq<Kitty>;

    closed spec fn view(&self) -> Seq<Kitty> {
        self.items@
    }
}

impl OwnedKitties {
    /// The most items that the collection takes.
    pub closed spec fn bound_spec(&self) -> u32 {
        self.bound
    }

    /// The collection is within its bound.
    pub open spec fn wf(&self) -> bool {
        self@.len() <= self.bound_spec()
    }

    /// An empty collection that takes up to `bound` items.
    pub fn new(bound: u32) -> (owned: OwnedKitties)
        ensures
            owned@ == Seq::<Kitty>::empty(),
            owned.bound_spec() == bound,
            owned.wf(),
    {
        OwnedKitties { items: Vec::new(), bound }
    }

    /// The number of items held.
    pub fn len(&self) -> (n: usize)
        ensures
            n == self@.len(),
    {
        self.items.len()
    }

    /// The most items that the collection takes.
    pub fn bound(&self) -> (bound: u32)
        ensures
            bound == self.bound_spec(),
    {
        self.bound
    }

    /// Whether the collection has reached its bound.
    pub fn is_full(&self) -> (full: bool)
        ensures
            full == (self@.len() >= self.bound_spec()),
    {
        self.items.len() >= self.bound as usize
    }

    /// The item at `index`.
    pub fn get(&self, index: usize) -> (kitty: Kitty)
        requires
            index < self@.len(),
        ensures
            kitty == self@[index as int],
    {
        self.items[index]
    }

    /// Appends `kitty`, or hands it back and changes nothing when the
    /// collection is full.
    pub fn try_push(&mut self, kitty: Kitty) -> (r: Result<(), Kitty>)
        ensures
            final(self).bound_spec() == old(self).bound_spec(),
            match r {
                Ok(()) => old(self)@.len() < old(self).bound_spec() && final(self)@ == old(
                    self,
                )@.push(kitty),
                Err(back) => old(self)@.len() >= old(self).bound_spec() && back == kitty
                    && *final(self) == *old(self),
            },
    {
        if self.items.len() < self.bound as usize {
            self.items.push(kitty);
            Ok(())
        } else {
            Err(kitty)
        }
    }

    /// The place of the first item equal to `kitty`, if there is one.
    pub fn position(&self, kitty: &Kitty) -> (r: Option<usize>)
        ensures
            match r {
                Some(index) => self@.index_of_first(*kitty) == Some(index as int) && index
                    < self@.len() && self@[index as int] == *kitty,
                None => self@.index_of_first(*kitty) is None && !self@.contains(*kitty),
            },
    {
        let mut i: usize = 0;
        while i < self.items.len()
            invariant
                i <= self.items@.len(),
                forall|j: int| 0 <= j < i ==> self.items@[j] != *kitty,
            decreases self.items@.len() - i,
        {
            if self.items[i].same(kitty) {
                proof {
                    assert(self@[i as int] == *kitty);
                    self@.index_of_first_ensures(*kitty);
                }
                return Some(i);
            }
            i += 1;
        }
        proof {
            self@.index_of_first_ensures(*kitty);
        }
        None
    }

    /// Takes out the item at `index`; the last item moves into its place.
    pub fn swap_remove(&mut self, index: usize) -> (kitty: Kitty)
        requires
            index < old(self)@.len(),
        ensures
            kitty == old(self)@[index as int],
            final(self)@ == swap_removed(old(self)@, index as int),
            final(self).bound_spec() == old(self).bound_spec(),
    {
        self.items.swap_remove(index)
    }

    /// A copy of the items, in the order in which they are kept.
    pub fn to_vec(&self) -> (items: Vec<Kitty>)
        ensures
            items@ == self@,
    {
        let mut items: Vec<Kitty> = Vec::new();
        let mut i: usize = 0;
        while i < self.items.len()
            invariant
                i <= self.items@.len(),
                items@ == self.items@.take(i as int),
            decreases self.items@.len() - i,
        {
            items.push(self.items[i]);
            assert(self.items@.take(i as int).push(self.items@[i as int]) =~= self.items@.take(
                i + 1,
            ));
            i += 1;
        }
        assert(self.items@.take(i as int) =~= self.items@);
        items
    }
}

} // verus!
