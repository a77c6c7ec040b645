//! The three operations on the registry: create, breed and transfer. Each
//! either happens as a whole or leaves everything as it was.

use crate::genome;
use crate::host::{Config, LocalHost};
use crate::kitty::{combine, combine_spec, Kitty};
use crate::owned::OwnedKitties;
use crate::registry::{lemma_created_wf, lemma_owner_holds, lemma_transferred_wf, Registry};
use crate::types::{AccountId, Balance, KittyIndex};
use std::collections::HashMap;
use vstd::prelude::*;

verus! {

/// Why an operation was refused.
#[derive(Clone, Copy, Debug, PartialEq, Eq, Structural)]
pub enum Error {
    /// No identifier is left for another kitty.
    KittiesCountOverflow,
    /// No kitty exists under the identifier given.
    InvalidKittyId,
    /// The caller does not own the kitty.
    NotOwner,
    /// The two parents are one and the same kitty.
    SameKittyId,
    /// The ledger would not reserve the deposit.
    TokenNotEnough,
    /// The account already holds as many kitties as it may.
    ExceedMaxKittyOwned,
}

/// What an operation that went through tells the world.
#[derive(Clone, Copy, Debug, PartialEq, Eq)]
pub enum Event {
    /// A kitty came into being: its owner, its identifier, the kitty.
    KittyCreated(AccountId, KittyIndex, Kitty),
    /// A kitty was bred: its owner, its identifier, the kitty.
    KittyBred(AccountId, KittyIndex, Kitty),
    /// A kitty changed hands: from whom, to whom, its identifier.
    KittyTransferred(AccountId, AccountId, KittyIndex),
}

/// The registry together with the host it runs on, the deposit that every
/// kitty is backed by and the number of kitties an account may hold.
pub struct Pallet<T: Config> {
    host: T,
    kitty_reserve: Balance,
    max_length: u32,
    next_kitty_id: KittyIndex,
    kitties: HashMap<KittyIndex, Kitty>,
    kitty_owner: HashMap<KittyIndex, AccountId>,
    all_owner_kitty: HashMap<AccountId, OwnedKitties>,
}

/// The stored collections as sequences.
pub open spec fn owned_views(stored: Map<AccountId, OwnedKitties>) -> Map<AccountId, Seq<Kitty>> {
    Map::new(|who: AccountId| stored.contains_key(who), |who: AccountId| stored[who]@)
}

/// What account `who` gains in reserved funds when a deposit of `amount`
/// passes from `from` to `to`.
pub open spec fn stake_gain(who: AccountId, from: AccountId, to: AccountId, amount: Balance) -> int {
    (if who == to {
        amount as int
    } else {
        0
    }) - (if who == from {
        amount as int
    } else {
        0
    })
}

/// `post` is `pre` with `amount` newly reserved for `who` and nothing else touched.
pub open spec fn stake_reserved<T: Config>(pre: T, post: T, who: AccountId, amount: Balance) -> bool {
    &&& post.random_seed_spec() == pre.random_seed_spec()
    &&& post.extrinsic_index_spec() == pre.extrinsic_index_spec()
    &&& forall|w: AccountId| #[trigger]
        post.free_balance(w) == if w == who {
            pre.free_balance(w) - amount
        } else {
            pre.free_balance(w) as int
        }
    &&& forall|w: AccountId| #[trigger]
        post.reserved_balance(w) == if w == who {
            pre.reserved_balance(w) + amount
        } else {
            pre.reserved_balance(w) as int
        }
}

/// `post` is `pre` with `amount` newly reserved for `to` and `amount`
/// released for `from`, and nothing else touched.
pub open spec fn stake_passed<T: Config>(
    pre: T,
    post: T,
    from: AccountId,
    to: AccountId,
    amount: Balance,
) -> bool {
    &&& post.random_seed_spec() == pre.random_seed_spec()
    &&& post.extrinsic_index_spec() == pre.extrinsic_index_spec()
    &&& forall|w: AccountId| #[trigger]
        post.free_balance(w) == pre.free_balance(w) - stake_gain(w, from, to, amount)
    &&& forall|w: AccountId| #[trigger]
        post.reserved_balance(w) == pre.reserved_balance(w) + stake_gain(w, from, to, amount)
}

impl<T: Config> View for Pallet<T> {
    type V = Registry;

    closed spec fn view(&self) -> Registry {
        Registry {
            next_kitty_id: self.next_kitty_id,
            kitties: self.kitties@,
            kitty_owner: self.kitty_owner@,
            all_owner_kitty: owned_views(self.all_owner_kitty@),
        }
    }
}

impl<T: Config> Pallet<T> {
    /// The host that the registry runs on.
    pub closed spec fn host_spec(&self) -> T {
        self.host
    }

    /// The deposit that backs every kitty.
    pub closed spec fn kitty_reserve_spec(&self) -> Balance {
        self.kitty_reserve
    }

    /// The number of kitties that one account may hold.
    pub closed spec fn max_length_spec(&self) -> u32 {
        self.max_length
    }

    /// Every stored collection has the bound that the registry was set up with.
    pub closed spec fn bounds_agree(&self) -> bool {
        forall|who: AccountId| #[trigger]
            self.all_owner_kitty@.contains_key(who) ==> self.all_owner_kitty@[who].bound_spec()
                == self.max_length
    }

    /// Every account has at least one deposit reserved for each kitty it holds.
    pub open spec fn stake_covered(&self) -> bool {
        forall|who: AccountId| #[trigger]
            self.host_spec().reserved_balance(who) >= self@.owned(who).len()
                * self.kitty_reserve_spec()
    }

    /// The registry is consistent, the host is, and every kitty is backed by
    /// a deposit.
    pub open spec fn wf(&self) -> bool {
        &&& self.bounds_agree()
        &&& self.host_spec().inv()
        &&& self@.wf(self.max_length_spec() as nat)
        &&& self.stake_covered()
    }

    /// Everything but the tables is as in `other`.
    pub open spec fn same_setup(&self, other: &Self) -> bool {
        &&& self.kitty_reserve_spec() == other.kitty_reserve_spec()
        &&& self.max_length_spec() == other.max_length_spec()
    }

    /// The genome that a draw for `sender` gives now.
    pub open spec fn random_value_spec(&self, sender: AccountId) -> Seq<u8> {
        genome::random_value_spec(
            self.host_spec().random_seed_spec().0@,
            self.host_spec().random_seed_spec().1,
            sender,
            self.host_spec().extrinsic_index_spec(),
        )
    }

    /// Why `create` by `who` is refused, if it is: the checks in their order.
    pub open spec fn create_error(&self, who: AccountId) -> Option<Error> {
        if self@.next_kitty_id == KittyIndex::MAX {
            Some(Error::KittiesCountOverflow)
        } else if !self.host_spec().can_reserve_spec(who, self.kitty_reserve_spec()) {
            Some(Error::TokenNotEnough)
        } else if self@.owned(who).len() >= self.max_length_spec() {
            Some(Error::ExceedMaxKittyOwned)
        } else {
            None
        }
    }

    /// Why `breed` by `who` is refused, if it is: the checks in their order.
    pub open spec fn breed_error(
        &self,
        who: AccountId,
        kitty_id_1: KittyIndex,
        kitty_id_2: KittyIndex,
    ) -> Option<Error> {
        if kitty_id_1 == kitty_id_2 {
            Some(Error::SameKittyId)
        } else if !self@.kitties.contains_key(kitty_id_1) || !self@.kitties.contains_key(
            kitty_id_2,
        ) {
            Some(Error::InvalidKittyId)
        } else {
            self.create_error(who)
        }
    }

    /// Why `transfer` is refused, if it is: the checks in their order.
    pub open spec fn transfer_error(
        &self,
        prev_owner: AccountId,
        kitty_id: KittyIndex,
        new_owner: AccountId,
    ) -> Option<Error> {
        if !self@.kitties.contains_key(kitty_id) {
            Some(Error::InvalidKittyId)
        } else if !self@.kitty_owner.contains_key(kitty_id) || self@.kitty_owner[kitty_id]
            != prev_owner {
            Some(Error::NotOwner)
        } else if !self.host_spec().can_reserve_spec(new_owner, self.kitty_reserve_spec()) {
            Some(Error::TokenNotEnough)
        } else if new_owner != prev_owner && self@.owned(new_owner).len()
            >= self.max_length_spec() {
            Some(Error::ExceedMaxKittyOwned)
        } else {
            None
        }
    }

    /// An empty registry on `host`, in which every kitty is backed by
    /// `kitty_reserve` and an account holds at most `max_length` kitties.
    pub fn new(host: T, kitty_reserve: Balance, max_length: u32) -> (pallet: Self)
        requires
            host.inv(),
        ensures
            pallet.wf(),
            pallet@ == Registry::empty(),
            pallet.host_spec() == host,
            pallet.kitty_reserve_spec() == kitty_reserve,
            pallet.max_length_spec() == max_length,
    {
        let pallet = Pallet {
            host,
            kitty_reserve,
            max_length,
            next_kitty_id: 0,
            kitties: HashMap::new(),
            kitty_owner: HashMap::new(),
            all_owner_kitty: HashMap::new(),
        };
        proof {
            assert(pallet@.all_owner_kitty =~= Map::<AccountId, Seq<Kitty>>::empty());
            assert forall|who: AccountId, kitty: Kitty|
                pallet@.owned(who).to_multiset().count(kitty) == #[trigger] pallet@.ids_held(
                    who,
                    kitty,
                ).len() by {
                assert(pallet@.ids_held(who, kitty) =~= Set::<KittyIndex>::empty());
                assert(pallet@.owned(who) =~= Seq::<Kitty>::empty());
                pallet@.owned(who).to_multiset_ensures();
            }
            assert forall|who: AccountId| #[trigger]
                pallet.host_spec().reserved_balance(who) >= pallet@.owned(who).len()
                    * pallet.kitty_reserve_spec() by {
                assert(pallet@.owned(who).len() == 0);
                assert(0 * pallet.kitty_reserve_spec() == 0);
            }
        }
        pallet
    }

    /// The host that the registry runs on.
    pub fn host(&self) -> (host: &T)
        ensures
            *host == self.host_spec(),
    {
        &self.host
    }

    /// The deposit that backs every kitty.
    pub fn kitty_reserve(&self) -> (amount: Balance)
        ensures
            amount == self.kitty_reserve_spec(),
    {
        self.kitty_reserve
    }

    /// The number of kitties that one account may hold.
    pub fn max_length(&self) -> (bound: u32)
        ensures
            bound == self.max_length_spec(),
    {
        self.max_length
    }

    /// The identifier that the next kitty will get.
    pub fn next_kitty_id(&self) -> (id: KittyIndex)
        ensures
            id == self@.next_kitty_id,
    {
        self.next_kitty_id
    }

    /// The kitty under `kitty_id`, if there is one.
    pub fn kitties(&self, kitty_id: KittyIndex) -> (r: Option<Kitty>)
        ensures
            r == if self@.kitties.contains_key(kitty_id) {
                Some(self@.kitties[kitty_id])
            } else {
                None
            },
    {
        match self.kitties.get(&kitty_id) {
            Some(kitty) => Some(*kitty),
            None => None,
        }
    }

    /// The owner of the kitty under `kitty_id`, if there is one.
    pub fn kitty_owner(&self, kitty_id: KittyIndex) -> (r: Option<AccountId>)
        ensures
            r == if self@.kitty_owner.contains_key(kitty_id) {
                Some(self@.kitty_owner[kitty_id])
            } else {
                None
            },
    {
        match self.kitty_owner.get(&kitty_id) {
            Some(owner) => Some(*owner),
            None => None,
        }
    }

    /// What `who` holds, in the order in which it is kept.
    pub fn all_owner_kitty(&self, who: AccountId) -> (held: Vec<Kitty>)
        ensures
            held@ == self@.owned(who),
    {
        match self.all_owner_kitty.get(&who) {
            Some(owned) => owned.to_vec(),
            None => Vec::new(),
        }
    }

    /// The number of kitties that `who` holds.
    pub fn owned_len(&self, who: AccountId) -> (n: usize)
        ensures
            n == self@.owned(who).len(),
    {
        match self.all_owner_kitty.get(&who) {
            Some(owned) => owned.len(),
            None => 0,
        }
    }

    /// The place of the first kitty equal to `kitty` in what `who` holds.
    pub fn position(&self, who: AccountId, kitty: &Kitty) -> (r: Option<usize>)
        ensures
            match r {
                Some(index) => self@.owned(who).index_of_first(*kitty) == Some(index as int),
                None => self@.owned(who).index_of_first(*kitty) is None,
            },
    {
        match self.all_owner_kitty.get(&who) {
            Some(owned) => owned.position(kitty),
            None => {
                proof {
                    self@.owned(who).index_of_first_ensures(*kitty);
                }
                None
            },
        }
    }

    /// Moves the next identifier forward to `id`. Refuses, and changes
    /// nothing, when that would move it back.
    pub fn set_next_kitty_id(&mut self, id: KittyIndex) -> (done: bool)
        requires
            old(self).wf(),
        ensures
            final(self).wf(),
            done == (id >= old(self)@.next_kitty_id),
            done ==> final(self)@ == (Registry { next_kitty_id: id, ..old(self)@ }),
            done ==> final(self).host_spec() == old(self).host_spec(),
            done ==> final(self).same_setup(old(self)),
            !done ==> *final(self) == *old(self),
    {
        if id < self.next_kitty_id {
            return false;
        }
        self.next_kitty_id = id;
        proof {
            assert forall|who: AccountId| #[trigger]
                self@.owned(who).len() <= self.max_length_spec() by {
                assert(old(self)@.owned(who).len() <= old(self).max_length_spec());
            }
            assert forall|kitty_id: KittyIndex| #[trigger]
                self@.kitties.contains_key(kitty_id) implies kitty_id < self@.next_kitty_id by {
                assert(old(self)@.kitties.contains_key(kitty_id));
            }
            assert forall|who: AccountId, kitty: Kitty|
                self@.owned(who).to_multiset().count(kitty) == #[trigger] self@.ids_held(
                    who,
                    kitty,
                ).len() by {
                assert(self@.ids_held(who, kitty) =~= old(self)@.ids_held(who, kitty));
            }
            assert forall|who: AccountId| #[trigger]
                self.host_spec().reserved_balance(who) >= self@.owned(who).len()
                    * self.kitty_reserve_spec() by {
                assert(old(self).host_spec().reserved_balance(who) >= old(self)@.owned(who).len()
                    * old(self).kitty_reserve_spec());
            }
        }
        true
    }

    /// Draws a genome for `sender` from the host's seed and the index of
    /// the running extrinsic.
    pub fn random_value(&self, sender: AccountId) -> (dna: [u8; 16])
        requires
            self.host_spec().inv(),
        ensures
            dna@ == self.random_value_spec(sender),
    {
        let (seed, since) = self.host.random_seed();
        let index = self.host.extrinsic_index();
        genome::random_value(&seed, since, sender, index)
    }

    /// The identifier for the next kitty, unless none is left.
    pub fn get_next_id(&self) -> (r: Result<KittyIndex, Error>)
        ensures
            match r {
                Ok(id) => id == self@.next_kitty_id && id < KittyIndex::MAX,
                Err(e) => e == Error::KittiesCountOverflow && self@.next_kitty_id
                    == KittyIndex::MAX,
            },
    {
        let kitty_id = self.next_kitty_id;
        if kitty_id == KittyIndex::MAX {
            return Err(Error::KittiesCountOverflow);
        }
        Ok(kitty_id)
    }

    /// The kitty under `kitty_id`, or nothing but the fact that there is none.
    pub fn get_kitty(&self, kitty_id: KittyIndex) -> (r: Result<Kitty, ()>)
        ensures
            match r {
                Ok(kitty) => self@.kitties.contains_key(kitty_id) && kitty
                    == self@.kitties[kitty_id],
                Err(_) => !self@.kitties.contains_key(kitty_id),
            },
    {
        match self.kitties(kitty_id) {
            Some(kitty) => Ok(kitty),
            None => Err(()),
        }
    }

    /// Takes the collection of `who` out of the table; an account without
    /// one gets an empty collection.
    fn take_owned(&mut self, who: AccountId) -> (owned: OwnedKitties)
        requires
            old(self).bounds_agree(),
        ensures
            owned@ == old(self)@.owned(who),
            owned.bound_spec() == old(self).max_length_spec(),
            final(self).all_owner_kitty@ == old(self).all_owner_kitty@.remove(who),
            final(self).kitties == old(self).kitties,
            final(self).kitty_owner == old(self).kitty_owner,
            final(self).next_kitty_id == old(self).next_kitty_id,
            final(self).host == old(self).host,
            final(self).same_setup(old(self)),
    {
        match self.all_owner_kitty.remove(&who) {
            Some(owned) => owned,
            None => OwnedKitties::new(self.max_length),
        }
    }

    /// Puts `owned` into the table as the collection of `who`.
    fn put_owned(&mut self, who: AccountId, owned: OwnedKitties)
        requires
            owned.bound_spec() == old(self).max_length_spec(),
            forall|w: AccountId| #[trigger]
                old(self).all_owner_kitty@.contains_key(w) && w != who ==> old(
                    self,
                ).all_owner_kitty@[w].bound_spec() == old(self).max_length_spec(),
        ensures
            final(self).bounds_agree(),
            final(self)@ == (Registry {
                all_owner_kitty: old(self)@.all_owner_kitty.insert(who, owned@),
                ..old(self)@
            }),
            final(self).host == old(self).host,
            final(self).same_setup(old(self)),
    {
        self.all_owner_kitty.insert(who, owned);
        proof {
            assert(self@.all_owner_kitty =~= old(self)@.all_owner_kitty.insert(who, owned@));
        }
    }

    /// Enters `kitty` under `kitty_id` for `owner` and appends it to what
    /// `owner` holds, which must have room.
    fn create_asset(&mut self, kitty_id: KittyIndex, kitty: Kitty, owner: AccountId)
        requires
            old(self).bounds_agree(),
            old(self)@.owned(owner).len() < old(self).max_length_spec(),
        ensures
            final(self).bounds_agree(),
            final(self)@ == old(self)@.inserted(kitty_id, kitty, owner),
            final(self).host_spec() == old(self).host_spec(),
            final(self).same_setup(old(self)),
    {
        self.kitties.insert(kitty_id, kitty);
        self.kitty_owner.insert(kitty_id, owner);
        let mut owned = self.take_owned(owner);
        let _ = owned.try_push(kitty);
        self.put_owned(owner, owned);
        proof {
            assert(self@.all_owner_kitty =~= old(self)@.inserted(
                kitty_id,
                kitty,
                owner,
            ).all_owner_kitty);
        }
    }

    /// Takes the item at `index`, which is the first equal to `kitty`, out
    /// of what `from` holds, makes `to` the owner of `kitty_id` and appends
    /// `kitty` to what `to` holds.
    fn move_ownership(
        &mut self,
        kitty_id: KittyIndex,
        kitty: Kitty,
        index: usize,
        from: AccountId,
        to: AccountId,
    )
        requires
            old(self).bounds_agree(),
            old(self)@.kitties.contains_key(kitty_id),
            old(self)@.kitties[kitty_id] == kitty,
            old(self)@.kitty_owner.contains_key(kitty_id),
            old(self)@.kitty_owner[kitty_id] == from,
            old(self)@.owned(from).index_of_first(kitty) == Some(index as int),
            index < old(self)@.owned(from).len() <= old(self).max_length_spec(),
            to != from ==> old(self)@.owned(to).len() < old(self).max_length_spec(),
        ensures
            final(self).bounds_agree(),
            final(self)@ == old(self)@.transferred(kitty_id, to),
            final(self).host_spec() == old(self).host_spec(),
            final(self).same_setup(old(self)),
    {
        let mut source = self.take_owned(from);
        let _ = source.swap_remove(index);
        self.put_owned(from, source);
        assert(self@ == old(self)@.released(kitty_id)) by {
            assert(self@.all_owner_kitty =~= old(self)@.released(kitty_id).all_owner_kitty);
        }
        self.kitty_owner.insert(kitty_id, to);
        let mut target = self.take_owned(to);
        let _ = target.try_push(kitty);
        self.put_owned(to, target);
        proof {
            assert(self@.all_owner_kitty =~= old(self)@.transferred(kitty_id, to).all_owner_kitty);
        }
    }

    /// Creates a kitty with a fresh genome for `who`, against a deposit.
    pub fn create(&mut self, who: AccountId) -> (r: Result<Event, Error>)
        requires
            old(self).wf(),
        ensures
            final(self).wf(),
            match r {
                Ok(event) => {
                    &&& old(self).create_error(who) is None
                    &&& match event {
                        Event::KittyCreated(owner, kitty_id, kitty) => {
                            &&& owner == who
                            &&& kitty_id == old(self)@.next_kitty_id
                            &&& kitty.dna() == old(self).random_value_spec(who)
                            &&& final(self)@ == old(self)@.created(who, kitty)
                        },
                        _ => false,
                    }
                    &&& stake_reserved(
                        old(self).host_spec(),
                        final(self).host_spec(),
                        who,
                        old(self).kitty_reserve_spec(),
                    )
                    &&& final(self).same_setup(old(self))
                },
                Err(e) => old(self).create_error(who) == Some(e) && *final(self) == *old(self),
            },
    {
        let dna = self.random_value(who);
        self.create_kitty(who, Kitty(dna))
    }

    /// Enters `kitty` for `who` under the next identifier, against a deposit.
    pub fn create_kitty(&mut self, who: AccountId, kitty: Kitty) -> (r: Result<Event, Error>)
        requires
            old(self).wf(),
        ensures
            final(self).wf(),
            match r {
                Ok(event) => {
                    &&& old(self).create_error(who) is None
                    &&& event == Event::KittyCreated(who, old(self)@.next_kitty_id, kitty)
                    &&& final(self)@ == old(self)@.created(who, kitty)
                    &&& stake_reserved(
                        old(self).host_spec(),
                        final(self).host_spec(),
                        who,
                        old(self).kitty_reserve_spec(),
                    )
                    &&& final(self).same_setup(old(self))
                },
                Err(e) => old(self).create_error(who) == Some(e) && *final(self) == *old(self),
            },
    {
        let kitty_id = match self.get_next_id() {
            Ok(id) => id,
            Err(e) => {
                return Err(e);
            },
        };
        if !self.host.can_reserve(who, self.kitty_reserve) {
            return Err(Error::TokenNotEnough);
        }
        if self.owned_len(who) >= self.max_length as usize {
            return Err(Error::ExceedMaxKittyOwned);
        }
        match self.host.reserve(who, self.kitty_reserve) {
            Ok(()) => {},
            Err(_) => {
                return Err(Error::TokenNotEnough);
            },
        }
        self.create_asset(kitty_id, kitty, who);
        self.next_kitty_id = kitty_id + 1;
        proof {
            self.lemma_minted(old(self), who, kitty);
        }
        Ok(Event::KittyCreated(who, kitty_id, kitty))
    }

    /// Breeds a kitty for `who` from two different existing kitties,
    /// against a deposit: a freshly drawn selector decides, bit by bit,
    /// which parent the child takes after.
    pub fn breed(&mut self, who: AccountId, kitty_id_1: KittyIndex, kitty_id_2: KittyIndex) -> (r:
        Result<Event, Error>)
        requires
            old(self).wf(),
        ensures
            final(self).wf(),
            match r {
                Ok(event) => {
                    &&& old(self).breed_error(who, kitty_id_1, kitty_id_2) is None
                    &&& match event {
                        Event::KittyCreated(owner, kitty_id, kitty) => {
                            &&& owner == who
                            &&& kitty_id == old(self)@.next_kitty_id
                            &&& kitty.dna() == combine_spec(
                                old(self)@.kitties[kitty_id_1].dna(),
                                old(self)@.kitties[kitty_id_2].dna(),
                                old(self).random_value_spec(who),
                            )
                            &&& final(self)@ == old(self)@.created(who, kitty)
                        },
                        _ => false,
                    }
                    &&& stake_reserved(
                        old(self).host_spec(),
                        final(self).host_spec(),
                        who,
                        old(self).kitty_reserve_spec(),
                    )
                    &&& final(self).same_setup(old(self))
                },
                Err(e) => old(self).breed_error(who, kitty_id_1, kitty_id_2) == Some(e)
                    && *final(self) == *old(self),
            },
    {
        let selector = self.random_value(who);
        self.breed_with(who, kitty_id_1, kitty_id_2, &selector)
    }

    /// Breeds a kitty for `who` from two different existing kitties under
    /// the given selector, against a deposit.
    pub fn breed_with(
        &mut self,
        who: AccountId,
        kitty_id_1: KittyIndex,
        kitty_id_2: KittyIndex,
        selector: &[u8; 16],
    ) -> (r: Result<Event, Error>)
        requires
            old(self).wf(),
        ensures
            final(self).wf(),
            match r {
                Ok(event) => {
                    &&& old(self).breed_error(who, kitty_id_1, kitty_id_2) is None
                    &&& match event {
                        Event::KittyCreated(owner, kitty_id, kitty) => {
                            &&& owner == who
                            &&& kitty_id == old(self)@.next_kitty_id
                            &&& kitty.dna() == combine_spec(
                                old(self)@.kitties[kitty_id_1].dna(),
                                old(self)@.kitties[kitty_id_2].dna(),
                                selector@,
                            )
                            &&& final(self)@ == old(self)@.created(who, kitty)
                        },
                        _ => false,
                    }
                    &&& stake_reserved(
                        old(self).host_spec(),
                        final(self).host_spec(),
                        who,
                        old(self).kitty_reserve_spec(),
                    )
                    &&& final(self).same_setup(old(self))
                },
                Err(e) => old(self).breed_error(who, kitty_id_1, kitty_id_2) == Some(e)
                    && *final(self) == *old(self),
            },
    {
        if kitty_id_1 == kitty_id_2 {
            return Err(Error::SameKittyId);
        }
        let kitty_1 = match self.get_kitty(kitty_id_1) {
            Ok(kitty) => kitty,
            Err(_) => {
                return Err(Error::InvalidKittyId);
            },
        };
        let kitty_2 = match self.get_kitty(kitty_id_2) {
            Ok(kitty) => kitty,
            Err(_) => {
                return Err(Error::InvalidKittyId);
            },
        };
        let new_kitty = Kitty(combine(&kitty_1.0, &kitty_2.0, selector));
        self.create_kitty(who, new_kitty)
    }

    /// Hands the kitty under `kitty_id` from `prev_owner` to `new_owner`:
    /// the new owner's deposit is reserved, the previous owner's released.
    pub fn transfer(&mut self, prev_owner: AccountId, kitty_id: KittyIndex, new_owner: AccountId) -> (r:
        Result<Event, Error>)
        requires
            old(self).wf(),
        ensures
            final(self).wf(),
            match r {
                Ok(event) => {
                    &&& old(self).transfer_error(prev_owner, kitty_id, new_owner) is None
                    &&& event == Event::KittyTransferred(prev_owner, new_owner, kitty_id)
                    &&& final(self)@ == old(self)@.transferred(kitty_id, new_owner)
                    &&& stake_passed(
                        old(self).host_spec(),
                        final(self).host_spec(),
                        prev_owner,
                        new_owner,
                        old(self).kitty_reserve_spec(),
                    )
                    &&& final(self).same_setup(old(self))
                },
                Err(e) => old(self).transfer_error(prev_owner, kitty_id, new_owner) == Some(e)
                    && *final(self) == *old(self),
            },
    {
        let kitty = match self.get_kitty(kitty_id) {
            Ok(kitty) => kitty,
            Err(_) => {
                return Err(Error::InvalidKittyId);
            },
        };
        match self.kitty_owner(kitty_id) {
            Some(owner) => {
                if owner != prev_owner {
                    return Err(Error::NotOwner);
                }
            },
            None => {
                return Err(Error::NotOwner);
            },
        }
        if !self.host.can_reserve(new_owner, self.kitty_reserve) {
            return Err(Error::TokenNotEnough);
        }
        proof {
            lemma_owner_holds(self@, self.max_length as nat, kitty_id);
        }
        let index = match self.position(prev_owner, &kitty) {
            Some(index) => index,
            None => {
                return Err(Error::NotOwner);
            },
        };
        if new_owner != prev_owner && self.owned_len(new_owner) >= self.max_length as usize {
            return Err(Error::ExceedMaxKittyOwned);
        }
        match self.host.reserve(new_owner, self.kitty_reserve) {
            Ok(()) => {},
            Err(_) => {
                return Err(Error::TokenNotEnough);
            },
        }
        self.move_ownership(kitty_id, kitty, index, prev_owner, new_owner);
        let ghost reserved = self.host;
        proof {
            assert(old(self).host_spec().reserved_balance(prev_owner) >= old(self)@.owned(
                prev_owner,
            ).len() * old(self).kitty_reserve_spec());
            lemma_mul_step((old(self)@.owned(prev_owner).len() - 1) as nat, self.kitty_reserve as nat);
            assert(reserved.reserved_balance(prev_owner) >= self.kitty_reserve);
        }
        let _ = self.host.unreserve(prev_owner, self.kitty_reserve);
        proof {
            lemma_transferred_wf(old(self)@, self.max_length as nat, kitty_id, new_owner);
            self.lemma_passed(old(self), kitty_id, prev_owner, new_owner);
        }
        Ok(Event::KittyTransferred(prev_owner, new_owner, kitty_id))
    }

    /// After a new kitty was entered for `who` and a deposit reserved,
    /// the registry is consistent again.
    proof fn lemma_minted(&self, before: &Self, who: AccountId, kitty: Kitty)
        requires
            before.wf(),
            before.create_error(who) is None,
            self.bounds_agree(),
            self.host_spec().inv(),
            self@ == before@.created(who, kitty),
            self.same_setup(before),
            stake_reserved(before.host_spec(), self.host_spec(), who, before.kitty_reserve_spec()),
        ensures
            self.wf(),
    {
        lemma_created_wf(before@, before.max_length_spec() as nat, who, kitty);
        assert forall|w: AccountId| #[trigger]
            self.host_spec().reserved_balance(w) >= self@.owned(w).len()
                * self.kitty_reserve_spec() by {
            assert(before.host_spec().reserved_balance(w) >= before@.owned(w).len()
                * before.kitty_reserve_spec());
            if w == who {
                lemma_mul_step(before@.owned(w).len(), before.kitty_reserve_spec() as nat);
            }
        }
    }

    /// After a kitty and its deposit passed from one account to another,
    /// every kitty is still backed by a deposit.
    proof fn lemma_passed(&self, before: &Self, kitty_id: KittyIndex, from: AccountId, to: AccountId)
        requires
            before.wf(),
            before@.kitties.contains_key(kitty_id),
            before@.kitty_owner[kitty_id] == from,
            self@ == before@.transferred(kitty_id, to),
            self.same_setup(before),
            stake_passed(before.host_spec(), self.host_spec(), from, to, before.kitty_reserve_spec()),
        ensures
            self.stake_covered(),
    {
        lemma_owner_holds(before@, before.max_length_spec() as nat, kitty_id);
        let taken = before@.released(kitty_id);
        assert forall|w: AccountId| #[trigger]
            self.host_spec().reserved_balance(w) >= self@.owned(w).len()
                * self.kitty_reserve_spec() by {
            assert(before.host_spec().reserved_balance(w) >= before@.owned(w).len()
                * before.kitty_reserve_spec());
            assert(taken.owned(w).len() == if w == from {
                before@.owned(w).len() - 1
            } else {
                before@.owned(w).len() as int
            });
            assert(self@.owned(w).len() == if w == to {
                taken.owned(w).len() + 1
            } else {
                taken.owned(w).len()
            });
            lemma_mul_step(taken.owned(w).len(), before.kitty_reserve_spec() as nat);
        }
    }
}

impl Pallet<LocalHost> {
    /// Tells the host which extrinsic is being executed from now on; the
    /// registry and all balances stay as they are.
    pub fn set_extrinsic_index(&mut self, index: Option<u32>)
        requires
            old(self).wf(),
        ensures
            final(self).wf(),
            final(self)@ == old(self)@,
            final(self).same_setup(old(self)),
            final(self).host_spec().extrinsic_index_spec() == index,
            final(self).host_spec().random_seed_spec() == old(self).host_spec().random_seed_spec(),
            forall|w: AccountId| #[trigger]
                final(self).host_spec().free_balance(w) == old(self).host_spec().free_balance(w),
            forall|w: AccountId| #[trigger]
                final(self).host_spec().reserved_balance(w) == old(
                    self,
                ).host_spec().reserved_balance(w),
    {
        self.host.set_extrinsic_index(index);
        proof {
            assert forall|who: AccountId| #[trigger]
                self.host_spec().reserved_balance(who) >= self@.owned(who).len()
                    * self.kitty_reserve_spec() by {
                assert(old(self).host_spec().reserved_balance(who) >= old(self)@.owned(who).len()
                    * old(self).kitty_reserve_spec());
            }
        }
    }
}

/// One more of something costs its price more.
pub proof fn lemma_mul_step(count: nat, price: nat)
    ensures
        (count + 1) * price == count * price + price,
{
    assert((count + 1) * price == count * price + price) by (nonlinear_arith);
}

} // verus!
