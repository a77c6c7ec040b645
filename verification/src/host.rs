//! What the registry needs from the chain around it: a ledger on which funds
//! can be reserved and released, and a source of entropy.

use crate::types::{AccountId, Balance, BlockNumber};
use std::collections::HashMap;
use vstd::prelude::*;

verus! {

/// The services of the chain that the registry is configured with.
///
/// The ledger is seen through the free and the reserved balance of each
/// account; the entropy through the current seed and the index of the
/// extrinsic that is being executed. A host says what these are of itself;
/// where it does not, nothing is known of them.
pub trait Config: Sized {
    /// What the host keeps true of itself between calls.
    open spec fn inv(&self) -> bool {
        arbitrary()
    }

    /// Funds of `who` that are not reserved.
    open spec fn free_balance(&self, who: AccountId) -> nat {
        arbitrary()
    }

    /// Funds of `who` that are reserved.
    open spec fn reserved_balance(&self, who: AccountId) -> nat {
        arbitrary()
    }

    /// Whether the ledger would let `who` reserve `value` now.
    open spec fn can_reserve_spec(&self, who: AccountId, value: Balance) -> bool {
        arbitrary()
    }

    /// The current seed and the block since which it could be known.
    open spec fn random_seed_spec(&self) -> ([u8; 32], BlockNumber) {
        arbitrary()
    }

    /// The index of the extrinsic that is being executed, if one is.
    open spec fn extrinsic_index_spec(&self) -> Option<u32> {
        arbitrary()
    }

    /// Says whether `reserve` would succeed, without moving anything.
    fn can_reserve(&self, who: AccountId, value: Balance) -> (r: bool)
        requires
            self.inv(),
        ensures
            r == self.can_reserve_spec(who, value),
            r ==> self.free_balance(who) >= value,
    ;

    /// Moves `value` from the free to the reserved balance of `who`, or
    /// refuses and changes nothing.
    fn reserve(&mut self, who: AccountId, value: Balance) -> (r: Result<(), ()>)
        requires
            old(self).inv(),
        ensures
            final(self).inv(),
            r is Ok <==> old(self).can_reserve_spec(who, value),
            r is Err ==> *final(self) == *old(self),
            r is Ok ==> final(self).random_seed_spec() == old(self).random_seed_spec(),
            r is Ok ==> final(self).extrinsic_index_spec() == old(self).extrinsic_index_spec(),
            r is Ok ==> forall|w: AccountId| #[trigger]
                final(self).free_balance(w) == if w == who {
                    old(self).free_balance(w) - value
                } else {
                    old(self).free_balance(w) as int
                },
            r is Ok ==> forall|w: AccountId| #[trigger]
                final(self).reserved_balance(w) == if w == who {
                    old(self).reserved_balance(w) + value
                } else {
                    old(self).reserved_balance(w) as int
                },
    ;

    /// Moves up to `value` from the reserved back to the free balance of
    /// `who`, and returns what could not be moved.
    fn unreserve(&mut self, who: AccountId, value: Balance) -> (rest: Balance)
        requires
            old(self).inv(),
        ensures
            final(self).inv(),
            rest == if old(self).reserved_balance(who) < value {
                value - old(self).reserved_balance(who)
            } else {
                0
            },
            final(self).random_seed_spec() == old(self).random_seed_spec(),
            final(self).extrinsic_index_spec() == old(self).extrinsic_index_spec(),
            forall|w: AccountId| #[trigger]
                final(self).free_balance(w) == if w == who {
                    old(self).free_balance(w) + value - rest
                } else {
                    old(self).free_balance(w) as int
                },
            forall|w: AccountId| #[trigger]
                final(self).reserved_balance(w) == if w == who {
                    old(self).reserved_balance(w) - value + rest
                } else {
                    old(self).reserved_balance(w) as int
                },
    ;

    /// The current seed and the block since which it could be known.
    fn random_seed(&self) -> (r: ([u8; 32], BlockNumber))
        requires
            self.inv(),
        ensures
            r == self.random_seed_spec(),
    ;

    /// The index of the extrinsic that is being executed, if one is.
    fn extrinsic_index(&self) -> (r: Option<u32>)
        requires
            self.inv(),
        ensures
            r == self.extrinsic_index_spec(),
    ;
}

/// The two balances of one account.
#[derive(Clone, Copy, Debug, PartialEq, Eq, Structural)]
pub struct AccountData {
    /// Funds that are not reserved.
    pub free: Balance,
    /// Funds that are reserved.
    pub reserved: Balance,
}

/// A host that keeps everything in memory: a table of balances, a seed that
/// stays as it was set, and an extrinsic index that the caller sets.
pub struct LocalHost {
    accounts: HashMap<AccountId, AccountData>,
    seed: [u8; 32],
    since: BlockNumber,
    index: Option<u32>,
}

impl LocalHost {
    /// The balances of `who`; an account that was never funded has none.
    pub closed spec fn account(&self, who: AccountId) -> AccountData {
        if self.accounts@.contains_key(who) {
            self.accounts@[who]
        } else {
            AccountData { free: 0, reserved: 0 }
        }
    }

    /// A host with no funds anywhere, the given seed and no extrinsic running.
    pub fn new(seed: [u8; 32], since: BlockNumber) -> (host: LocalHost)
        ensures
            host.inv(),
            host.random_seed_spec() == (seed, since),
            host.extrinsic_index_spec() == None::<u32>,
            forall|w: AccountId| #[trigger] host.free_balance(w) == 0,
            forall|w: AccountId| #[trigger] host.reserved_balance(w) == 0,
    {
        LocalHost { accounts: HashMap::new(), seed, since, index: None }
    }

    /// Sets the balances of `who`. Refuses, and changes nothing, when the two
    /// together would not fit into a `Balance`.
    pub fn set_balance(&mut self, who: AccountId, free: Balance, reserved: Balance) -> (done: bool)
        requires
            old(self).inv(),
        ensures
            final(self).inv(),
            done == (free + reserved <= Balance::MAX),
            !done ==> *final(self) == *old(self),
            done ==> {
                &&& final(self).random_seed_spec() == old(self).random_seed_spec()
                &&& final(self).extrinsic_index_spec() == old(self).extrinsic_index_spec()
                &&& forall|w: AccountId| #[trigger]
                    final(self).free_balance(w) == if w == who {
                        free as nat
                    } else {
                        old(self).free_balance(w)
                    }
                &&& forall|w: AccountId| #[trigger]
                    final(self).reserved_balance(w) == if w == who {
                        reserved as nat
                    } else {
                        old(self).reserved_balance(w)
                    }
            },
    {
        if free > Balance::MAX - reserved {
            return false;
        }
        self.accounts.insert(who, AccountData { free, reserved });
        true
    }

    /// Sets the index of the extrinsic that is being executed.
    pub fn set_extrinsic_index(&mut self, index: Option<u32>)
        requires
            old(self).inv(),
        ensures
            final(self).inv(),
            final(self).extrinsic_index_spec() == index,
            final(self).random_seed_spec() == old(self).random_seed_spec(),
            forall|w: AccountId| #[trigger] final(self).free_balance(w) == old(self).free_balance(w),
            forall|w: AccountId| #[trigger]
                final(self).reserved_balance(w) == old(self).reserved_balance(w),
    {
        self.index = index;
    }

    /// This ledger lets an account reserve whatever it has free.
    pub proof fn lemma_can_reserve(&self, who: AccountId, value: Balance)
        ensures
            self.can_reserve_spec(who, value) == (self.free_balance(who) >= value),
    {
    }

    /// The balances of `who`.
    pub fn balances(&self, who: AccountId) -> (data: AccountData)
        ensures
            data.free == self.free_balance(who),
            data.reserved == self.reserved_balance(who),
    {
        match self.accounts.get(&who) {
            Some(data) => *data,
            None => AccountData { free: 0, reserved: 0 },
        }
    }
}

impl Config for LocalHost {
    closed spec fn inv(&self) -> bool {
        forall|w: AccountId| #[trigger]
            self.accounts@.contains_key(w) ==> self.accounts@[w].free + self.accounts@[w].reserved
                <= Balance::MAX
    }

    closed spec fn free_balance(&self, who: AccountId) -> nat {
        self.account(who).free as nat
    }

    closed spec fn reserved_balance(&self, who: AccountId) -> nat {
        self.account(who).reserved as nat
    }

    closed spec fn can_reserve_spec(&self, who: AccountId, value: Balance) -> bool {
        self.account(who).free >= value
    }

    closed spec fn random_seed_spec(&self) -> ([u8; 32], BlockNumber) {
        (self.seed, self.since)
    }

    closed spec fn extrinsic_index_spec(&self) -> Option<u32> {
        self.index
    }

    fn can_reserve(&self, who: AccountId, value: Balance) -> (r: bool) {
        self.balances(who).free >= value
    }

    fn reserve(&mut self, who: AccountId, value: Balance) -> (r: Result<(), ()>) {
        let data = self.balances(who);
        if data.free < value {
            return Err(());
        }
        self.accounts.insert(
            who,
            AccountData { free: data.free - value, reserved: data.reserved + value },
        );
        Ok(())
    }

    fn unreserve(&mut self, who: AccountId, value: Balance) -> (rest: Balance) {
        let data = self.balances(who);
        let actual: Balance = if data.reserved < value {
            data.reserved
        } else {
            value
        };
        self.accounts.insert(
            who,
            AccountData { free: data.free + actual, reserved: data.reserved - actual },
        );
        value - actual
    }

    fn random_seed(&self) -> (r: ([u8; 32], BlockNumber)) {
        (self.seed, self.since)
    }

    fn extrinsic_index(&self) -> (r: Option<u32>) {
        self.index
    }
}

} // verus!
