//! The plain integer types that identify accounts and kitties and count funds.

use vstd::prelude::*;

verus! {

/// Identifies an account.
pub type AccountId = u64;

/// Identifies a kitty; handed out in increasing order.
pub type KittyIndex = u32;

/// An amount of funds.
pub type Balance = u128;

/// Counts blocks.
pub type BlockNumber = u64;

} // verus!
