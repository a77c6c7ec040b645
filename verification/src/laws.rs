//! What holds of the operations in general, stated over the registry as a
//! mathematical value and proved once and for all.

use crate::host::Config;
use crate::kitty::{select_byte, Kitty};
use crate::pallet::{lemma_mul_step, stake_gain, stake_passed, stake_reserved};
use crate::registry::{lemma_owner_holds, lemma_swap_removed, swap_removed, Registry};
use crate::types::{AccountId, Balance, KittyIndex};
use vstd::prelude::*;

verus! {

/// Every bit of a child comes from the first parent where the selector has
/// a one and from the second where it has a zero.
pub proof fn lemma_select_byte_bits(parent1: u8, parent2: u8, selector: u8, bit: u8)
    requires
        bit < 8,
    ensures
        (select_byte(parent1, parent2, selector) >> bit) & 1 == if (selector >> bit) & 1 == 1 {
            (parent1 >> bit) & 1
        } else {
            (parent2 >> bit) & 1
        },
{
    assert(bit < 8 ==> (((parent1 & selector) | (parent2 & !selector)) >> bit) & 1 == if (selector
        >> bit) & 1 == 1 {
        (parent1 >> bit) & 1
    } else {
        (parent2 >> bit) & 1
    }) by (bit_vector);
}

/// A selector of ones only gives the first parent, one of zeros only the
/// second, and two equal parents give themselves under any selector.
pub proof fn lemma_select_byte_extremes(parent1: u8, parent2: u8, selector: u8)
    ensures
        select_byte(parent1, parent2, 0xff) == parent1,
        select_byte(parent1, parent2, 0x00) == parent2,
        select_byte(parent1, parent1, selector) == parent1,
{
    assert((parent1 & 0xffu8) | (parent2 & !0xffu8) == parent1) by (bit_vector);
    assert((parent1 & 0x00u8) | (parent2 & !0x00u8) == parent2) by (bit_vector);
    assert((parent1 & selector) | (parent1 & !selector) == parent1) by (bit_vector);
}

/// What creating does to a consistent registry: the next identifier moves
/// on by exactly one, exactly one kitty is added, under the identifier that
/// was next, it belongs to the creator, whose collection grows by exactly
/// that kitty at its end, and nothing else changes.
pub proof fn lemma_created_effects(registry: Registry, max_length: nat, who: AccountId, kitty: Kitty)
    requires
        registry.wf(max_length),
        registry.next_kitty_id < KittyIndex::MAX,
    ensures
        registry.created(who, kitty).next_kitty_id == registry.next_kitty_id + 1,
        !registry.kitties.contains_key(registry.next_kitty_id),
        registry.created(who, kitty).kitties.dom() == registry.kitties.dom().insert(
            registry.next_kitty_id,
        ),
        registry.created(who, kitty).kitties.dom().len() == registry.kitties.dom().len() + 1,
        registry.created(who, kitty).kitties[registry.next_kitty_id] == kitty,
        registry.created(who, kitty).kitty_owner[registry.next_kitty_id] == who,
        registry.created(who, kitty).owned(who) == registry.owned(who).push(kitty),
        registry.created(who, kitty).owned(who).len() == registry.owned(who).len() + 1,
        registry.created(who, kitty).owned(who).last() == kitty,
        forall|id: KittyIndex| #[trigger]
            registry.kitties.contains_key(id) ==> registry.created(who, kitty).kitties[id]
                == registry.kitties[id] && registry.created(who, kitty).kitty_owner[id]
                == registry.kitty_owner[id],
        forall|other: AccountId|
            other != who ==> #[trigger] registry.created(who, kitty).owned(other)
                == registry.owned(other),
{
    assert(!registry.kitties.contains_key(registry.next_kitty_id));
    assert(registry.created(who, kitty).kitties.dom() =~= registry.kitties.dom().insert(
        registry.next_kitty_id,
    ));
}

/// What a transfer between two different accounts does to a consistent
/// registry: the kitty leaves the collection of its owner, which gets
/// shorter by exactly one, and is appended to that of the receiver, which
/// gets longer by exactly one; the receiver is recorded as the owner; and
/// no other kitty, owner or collection changes.
pub proof fn lemma_transferred_effects(
    registry: Registry,
    max_length: nat,
    kitty_id: KittyIndex,
    to: AccountId,
)
    requires
        registry.wf(max_length),
        registry.kitties.contains_key(kitty_id),
        to != registry.kitty_owner[kitty_id],
    ensures
        registry.transferred(kitty_id, to).next_kitty_id == registry.next_kitty_id,
        registry.transferred(kitty_id, to).kitties == registry.kitties,
        registry.transferred(kitty_id, to).kitty_owner == registry.kitty_owner.insert(kitty_id, to),
        registry.transferred(kitty_id, to).kitty_owner[kitty_id] == to,
        registry.transferred(kitty_id, to).owned(registry.kitty_owner[kitty_id]).len()
            == registry.owned(registry.kitty_owner[kitty_id]).len() - 1,
        registry.transferred(kitty_id, to).owned(registry.kitty_owner[kitty_id]).to_multiset()
            == registry.owned(registry.kitty_owner[kitty_id]).to_multiset().remove(
            registry.kitties[kitty_id],
        ),
        registry.owned(registry.kitty_owner[kitty_id]).to_multiset().count(
            registry.kitties[kitty_id],
        ) > 0,
        registry.transferred(kitty_id, to).owned(to) == registry.owned(to).push(
            registry.kitties[kitty_id],
        ),
        registry.transferred(kitty_id, to).owned(to).len() == registry.owned(to).len() + 1,
        forall|other: AccountId|
            other != to && other != registry.kitty_owner[kitty_id] ==> #[trigger] registry.transferred(
                kitty_id,
                to,
            ).owned(other) == registry.owned(other),
{
    broadcast use vstd::seq_lib::group_to_multiset_ensures;

    let from = registry.kitty_owner[kitty_id];
    let list = registry.owned(from);
    lemma_owner_holds(registry, max_length, kitty_id);
    let index = list.index_of_first(registry.kitties[kitty_id]).unwrap();
    lemma_swap_removed(list, index);
    let taken = registry.released(kitty_id);
    assert(taken.owned(from) == swap_removed(list, index));
    assert(taken.owned(to) == registry.owned(to));
    assert(list.contains(list[index]));
}

/// A transfer to oneself changes nothing but the order of the collection:
/// it holds the same kitties as often as before, and the transferred one
/// now stands last.
pub proof fn lemma_transferred_to_self(registry: Registry, max_length: nat, kitty_id: KittyIndex)
    requires
        registry.wf(max_length),
        registry.kitties.contains_key(kitty_id),
    ensures
        registry.transferred(kitty_id, registry.kitty_owner[kitty_id]).kitties == registry.kitties,
        registry.transferred(kitty_id, registry.kitty_owner[kitty_id]).kitty_owner
            == registry.kitty_owner,
        registry.transferred(kitty_id, registry.kitty_owner[kitty_id]).owned(
            registry.kitty_owner[kitty_id],
        ).to_multiset() == registry.owned(registry.kitty_owner[kitty_id]).to_multiset(),
        registry.transferred(kitty_id, registry.kitty_owner[kitty_id]).owned(
            registry.kitty_owner[kitty_id],
        ).last() == registry.kitties[kitty_id],
        forall|other: AccountId|
            other != registry.kitty_owner[kitty_id] ==> #[trigger] registry.transferred(
                kitty_id,
                registry.kitty_owner[kitty_id],
            ).owned(other) == registry.owned(other),
{
    broadcast use vstd::seq_lib::group_to_multiset_ensures;

    let from = registry.kitty_owner[kitty_id];
    let kitty = registry.kitties[kitty_id];
    let list = registry.owned(from);
    lemma_owner_holds(registry, max_length, kitty_id);
    let index = list.index_of_first(kitty).unwrap();
    lemma_swap_removed(list, index);
    let taken = registry.released(kitty_id);
    let after = registry.transferred(kitty_id, from);
    assert(taken.owned(from) == swap_removed(list, index));
    assert(after.owned(from) == swap_removed(list, index).push(kitty));
    assert(list.contains(list[index]));
    assert(list.to_multiset().remove(kitty).insert(kitty) =~= list.to_multiset());
    assert(after.kitty_owner =~= registry.kitty_owner);
}

/// When a deposit passes between two different accounts, exactly that
/// amount is released for the giver and reserved for the receiver, and no
/// other account is touched.
pub proof fn lemma_stake_passed_effects<T: Config>(
    pre: T,
    post: T,
    from: AccountId,
    to: AccountId,
    amount: Balance,
)
    requires
        stake_passed(pre, post, from, to, amount),
        from != to,
    ensures
        post.reserved_balance(from) == pre.reserved_balance(from) - amount,
        post.free_balance(from) == pre.free_balance(from) + amount,
        post.reserved_balance(to) == pre.reserved_balance(to) + amount,
        post.free_balance(to) == pre.free_balance(to) - amount,
        forall|other: AccountId|
            other != from && other != to ==> #[trigger] post.reserved_balance(other)
                == pre.reserved_balance(other),
        forall|other: AccountId|
            other != from && other != to ==> #[trigger] post.free_balance(other)
                == pre.free_balance(other),
{
    assert(post.reserved_balance(from) == pre.reserved_balance(from) - amount);
    assert(post.free_balance(from) == pre.free_balance(from) + amount);
    assert(post.reserved_balance(to) == pre.reserved_balance(to) + amount);
    assert(post.free_balance(to) == pre.free_balance(to) - amount);
}

/// When a deposit passes from an account to itself, no balance changes.
pub proof fn lemma_stake_passed_to_self<T: Config>(pre: T, post: T, who: AccountId, amount: Balance)
    requires
        stake_passed(pre, post, who, who, amount),
    ensures
        forall|other: AccountId| #[trigger]
            post.reserved_balance(other) == pre.reserved_balance(other),
        forall|other: AccountId| #[trigger] post.free_balance(other) == pre.free_balance(other),
{
}

/// What `who` has reserved beyond one deposit for each kitty it holds.
pub open spec fn stake_excess<T: Config>(
    host: T,
    registry: Registry,
    who: AccountId,
    deposit: Balance,
) -> int {
    host.reserved_balance(who) - registry.owned(who).len() * deposit
}

/// Creating a kitty against a deposit leaves every account with the excess
/// it had: where all that was reserved backed kitties before, it does so
/// afterwards.
pub proof fn lemma_created_keeps_excess<T: Config>(
    pre: T,
    post: T,
    registry: Registry,
    who: AccountId,
    kitty: Kitty,
    deposit: Balance,
)
    requires
        stake_reserved(pre, post, who, deposit),
    ensures
        forall|w: AccountId| #[trigger]
            stake_excess(post, registry.created(who, kitty), w, deposit) == stake_excess(
                pre,
                registry,
                w,
                deposit,
            ),
{
    assert forall|w: AccountId| #[trigger]
        stake_excess(post, registry.created(who, kitty), w, deposit) == stake_excess(
            pre,
            registry,
            w,
            deposit,
        ) by {
        assert(post.reserved_balance(w) == if w == who {
            pre.reserved_balance(w) + deposit
        } else {
            pre.reserved_balance(w) as int
        });
        if w == who {
            lemma_mul_step(registry.owned(w).len(), deposit as nat);
        }
    }
}

/// Transferring a kitty together with its deposit leaves every account
/// with the excess it had.
pub proof fn lemma_transferred_keeps_excess<T: Config>(
    pre: T,
    post: T,
    registry: Registry,
    max_length: nat,
    kitty_id: KittyIndex,
    to: AccountId,
    deposit: Balance,
)
    requires
        registry.wf(max_length),
        registry.kitties.contains_key(kitty_id),
        stake_passed(pre, post, registry.kitty_owner[kitty_id], to, deposit),
    ensures
        forall|w: AccountId| #[trigger]
            stake_excess(post, registry.transferred(kitty_id, to), w, deposit) == stake_excess(
                pre,
                registry,
                w,
                deposit,
            ),
{
    let from = registry.kitty_owner[kitty_id];
    lemma_owner_holds(registry, max_length, kitty_id);
    let taken = registry.released(kitty_id);
    let after = registry.transferred(kitty_id, to);
    assert forall|w: AccountId| #[trigger]
        stake_excess(post, after, w, deposit) == stake_excess(pre, registry, w, deposit) by {
        assert(post.reserved_balance(w) == pre.reserved_balance(w) + stake_gain(
            w,
            from,
            to,
            deposit,
        ));
        assert(taken.owned(w).len() == if w == from {
            registry.owned(w).len() - 1
        } else {
            registry.owned(w).len() as int
        });
        assert(after.owned(w).len() == if w == to {
            taken.owned(w).len() + 1
        } else {
            taken.owned(w).len()
        });
        lemma_mul_step(taken.owned(w).len(), deposit as nat);
    }
}

} // verus!
