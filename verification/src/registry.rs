//! The registry as a mathematical value: which kitties exist, who owns each,
//! what every account holds, and how creating and transferring change that.

use crate::kitty::Kitty;
use crate::types::{AccountId, KittyIndex};
use vstd::prelude::*;

verus! {

/// The contents of the four tables.
pub ghost struct Registry {
    /// The identifier that the next kitty will get.
    pub next_kitty_id: KittyIndex,
    /// Every kitty that exists, by its identifier.
    pub kitties: Map<KittyIndex, Kitty>,
    /// The owner of every kitty that exists.
    pub kitty_owner: Map<KittyIndex, AccountId>,
    /// What each account holds, in the order in which it is kept.
    pub all_owner_kitty: Map<AccountId, Seq<Kitty>>,
}

/// `list` without the item at `index`: the last item takes its place.
pub open spec fn swap_removed(list: Seq<Kitty>, index: int) -> Seq<Kitty>
    recommends
        0 <= index < list.len(),
{
    list.update(index, list.last()).drop_last()
}

impl Registry {
    /// A registry in which nothing exists yet.
    pub open spec fn empty() -> Registry {
        Registry {
            next_kitty_id: 0,
            kitties: Map::empty(),
            kitty_owner: Map::empty(),
            all_owner_kitty: Map::empty(),
        }
    }

    /// What `who` holds; nothing, for an account that never held anything.
    pub open spec fn owned(self, who: AccountId) -> Seq<Kitty> {
        if self.all_owner_kitty.contains_key(who) {
            self.all_owner_kitty[who]
        } else {
            Seq::empty()
        }
    }

    /// The identifiers of the kitties that `who` owns and that carry the genome of `kitty`.
    pub open spec fn ids_held(self, who: AccountId, kitty: Kitty) -> Set<KittyIndex> {
        Set::new(
            |id: KittyIndex|
                self.kitties.contains_key(id) && self.kitty_owner[id] == who && self.kitties[id]
                    == kitty,
        )
    }

    /// The tables agree with each other: every kitty has an owner and an
    /// identifier below the next one, no account holds more than `max_length`
    /// kitties, and an account holds a genome exactly as many times as it
    /// owns kitties that carry it.
    pub open spec fn wf(self, max_length: nat) -> bool {
        &&& self.kitties.dom().finite()
        &&& self.kitties.dom() == self.kitty_owner.dom()
        &&& forall|id: KittyIndex| #[trigger]
            self.kitties.contains_key(id) ==> id < self.next_kitty_id
        &&& forall|who: AccountId| #[trigger] self.owned(who).len() <= max_length
        &&& forall|who: AccountId, kitty: Kitty|
            self.owned(who).to_multiset().count(kitty) == #[trigger] self.ids_held(
                who,
                kitty,
            ).len()
    }

    /// The registry with `kitty` entered under `kitty_id` for `owner`, and
    /// appended to what `owner` holds.
    pub open spec fn inserted(self, kitty_id: KittyIndex, kitty: Kitty, owner: AccountId) -> Registry {
        Registry {
            kitties: self.kitties.insert(kitty_id, kitty),
            kitty_owner: self.kitty_owner.insert(kitty_id, owner),
            all_owner_kitty: self.all_owner_kitty.insert(owner, self.owned(owner).push(kitty)),
            ..self
        }
    }

    /// The registry after `who` was given a new kitty under the next
    /// identifier, and the next identifier moved on by one.
    pub open spec fn created(self, who: AccountId, kitty: Kitty) -> Registry
        recommends
            self.next_kitty_id < KittyIndex::MAX,
    {
        Registry {
            next_kitty_id: (self.next_kitty_id + 1) as KittyIndex,
            ..self.inserted(self.next_kitty_id, kitty, who)
        }
    }

    /// The registry after the owner of `kitty_id` gave up the first item of
    /// its collection that carries the kitty's genome.
    pub open spec fn released(self, kitty_id: KittyIndex) -> Registry
        recommends
            self.kitties.contains_key(kitty_id),
            self.kitty_owner.contains_key(kitty_id),
    {
        let from = self.kitty_owner[kitty_id];
        let list = self.owned(from);
        match list.index_of_first(self.kitties[kitty_id]) {
            Some(index) => Registry {
                all_owner_kitty: self.all_owner_kitty.insert(from, swap_removed(list, index)),
                ..self
            },
            None => self,
        }
    }

    /// The registry after kitty `kitty_id` went from its owner to `to`: it
    /// leaves the owner's collection, whose last item takes its place, and
    /// is appended to the collection of `to`.
    pub open spec fn transferred(self, kitty_id: KittyIndex, to: AccountId) -> Registry
        recommends
            self.kitties.contains_key(kitty_id),
            self.kitty_owner.contains_key(kitty_id),
    {
        let taken = self.released(kitty_id);
        Registry {
            kitty_owner: self.kitty_owner.insert(kitty_id, to),
            all_owner_kitty: taken.all_owner_kitty.insert(
                to,
                taken.owned(to).push(self.kitties[kitty_id]),
            ),
            ..self
        }
    }
}

/// Removing an item the swapping way takes exactly that item out of the
/// collection, whatever becomes of the order.
pub proof fn lemma_swap_removed(list: Seq<Kitty>, index: int)
    requires
        0 <= index < list.len(),
    ensures
        swap_removed(list, index).len() == list.len() - 1,
        swap_removed(list, index).to_multiset() == list.to_multiset().remove(list[index]),
{
    broadcast use vstd::seq_lib::group_to_multiset_ensures;

    let last = list.len() - 1;
    let updated = list.update(index, list.last());
    assert(swap_removed(list, index) =~= updated.remove(last));
    assert(updated[last] == list.last());
    assert(updated.to_multiset() == list.to_multiset().insert(list.last()).remove(list[index]));
    assert(updated.remove(last).to_multiset() == updated.to_multiset().remove(list.last()));
    assert(list.to_multiset().count(list[index]) > 0) by {
        assert(list.contains(list[index]));
    }
    assert(list.to_multiset().insert(list.last()).remove(list[index]).remove(list.last())
        =~= list.to_multiset().remove(list[index]));
}

/// The sets of identifiers that the consistency of a registry counts are finite.
pub proof fn lemma_ids_held_finite(registry: Registry, who: AccountId, kitty: Kitty)
    requires
        registry.kitties.dom().finite(),
    ensures
        registry.ids_held(who, kitty).finite(),
{
    assert(registry.ids_held(who, kitty).subset_of(registry.kitties.dom()));
    vstd::set_lib::lemma_set_subset_finite(registry.kitties.dom(), registry.ids_held(who, kitty));
}

/// In a consistent registry the owner of a kitty holds its genome: the
/// search that a transfer starts with finds it.
pub proof fn lemma_owner_holds(registry: Registry, max_length: nat, kitty_id: KittyIndex)
    requires
        registry.wf(max_length),
        registry.kitties.contains_key(kitty_id),
    ensures
        registry.kitty_owner.contains_key(kitty_id),
        match registry.owned(registry.kitty_owner[kitty_id]).index_of_first(
            registry.kitties[kitty_id],
        ) {
            Some(index) => 0 <= index < registry.owned(registry.kitty_owner[kitty_id]).len()
                && registry.owned(registry.kitty_owner[kitty_id])[index]
                == registry.kitties[kitty_id],
            None => false,
        },
{
    broadcast use vstd::seq_lib::group_to_multiset_ensures;

    let from = registry.kitty_owner[kitty_id];
    let kitty = registry.kitties[kitty_id];
    let list = registry.owned(from);
    assert(registry.kitty_owner.dom().contains(kitty_id));
    lemma_ids_held_finite(registry, from, kitty);
    assert(registry.ids_held(from, kitty).contains(kitty_id));
    assert(registry.ids_held(from, kitty).len() > 0);
    assert(list.to_multiset().count(kitty) > 0);
    assert(list.contains(kitty));
    list.index_of_first_ensures(kitty);
}

/// Giving an account that still has room a new kitty under the next
/// identifier keeps the registry consistent.
pub proof fn lemma_created_wf(registry: Registry, max_length: nat, who: AccountId, kitty: Kitty)
    requires
        registry.wf(max_length),
        registry.next_kitty_id < KittyIndex::MAX,
        registry.owned(who).len() < max_length,
    ensures
        registry.created(who, kitty).wf(max_length),
{
    broadcast use vstd::seq_lib::group_to_multiset_ensures;

    let id = registry.next_kitty_id;
    let after = registry.created(who, kitty);
    assert(!registry.kitties.contains_key(id));
    assert(after.kitties.dom() =~= after.kitty_owner.dom());
    assert forall|w: AccountId| #[trigger] after.owned(w).len() <= max_length by {
        assert(registry.owned(w).len() <= max_length);
    }
    assert forall|w: AccountId, k: Kitty|
        after.owned(w).to_multiset().count(k) == #[trigger] after.ids_held(w, k).len() by {
        let before_ids = registry.ids_held(w, k);
        lemma_ids_held_finite(registry, w, k);
        assert(registry.owned(w).to_multiset().count(k) == before_ids.len());
        if w == who && k == kitty {
            assert(after.ids_held(w, k) =~= before_ids.insert(id));
        } else {
            assert(after.ids_held(w, k) =~= before_ids);
        }
    }
}

/// Handing a kitty from its owner to an account that has room for it (its
/// owner always has) keeps the registry consistent.
pub proof fn lemma_transferred_wf(
    registry: Registry,
    max_length: nat,
    kitty_id: KittyIndex,
    to: AccountId,
)
    requires
        registry.wf(max_length),
        registry.kitties.contains_key(kitty_id),
        to != registry.kitty_owner[kitty_id] ==> registry.owned(to).len() < max_length,
    ensures
        registry.transferred(kitty_id, to).wf(max_length),
{
    broadcast use vstd::seq_lib::group_to_multiset_ensures;

    let from = registry.kitty_owner[kitty_id];
    let kitty = registry.kitties[kitty_id];
    let list = registry.owned(from);
    lemma_owner_holds(registry, max_length, kitty_id);
    let index = list.index_of_first(kitty).unwrap();
    lemma_swap_removed(list, index);
    let taken = registry.released(kitty_id);
    let after = registry.transferred(kitty_id, to);
    assert(taken.owned(from) == swap_removed(list, index));
    assert(after.kitties.dom() =~= after.kitty_owner.dom());
    assert forall|w: AccountId| #[trigger] after.owned(w).len() <= max_length by {
        assert(registry.owned(w).len() <= max_length);
        assert(taken.owned(w) == if w == from {
            swap_removed(list, index)
        } else {
            registry.owned(w)
        });
    }
    assert forall|w: AccountId, k: Kitty|
        after.owned(w).to_multiset().count(k) == #[trigger] after.ids_held(w, k).len() by {
        let before_ids = registry.ids_held(w, k);
        lemma_ids_held_finite(registry, w, k);
        assert(registry.owned(w).to_multiset().count(k) == before_ids.len());
        assert(taken.owned(w) == if w == from {
            swap_removed(list, index)
        } else {
            registry.owned(w)
        });
        assert(after.owned(w) == if w == to {
            taken.owned(w).push(kitty)
        } else {
            taken.owned(w)
        });
        assert(list.to_multiset().count(kitty) > 0);
        if k != kitty || from == to {
            assert(after.ids_held(w, k) =~= before_ids);
        } else if w == from {
            assert(before_ids.contains(kitty_id));
            assert(after.ids_held(w, k) =~= before_ids.remove(kitty_id));
        } else if w == to {
            assert(!before_ids.contains(kitty_id));
            assert(after.ids_held(w, k) =~= before_ids.insert(kitty_id));
        } else {
            assert(after.ids_held(w, k) =~= before_ids);
        }
    }
}

} // verus!
