//! A registry of kitties: uniquely numbered assets that carry sixteen bytes of
//! genome, belong to one account at a time, and can be created, bred and
//! transferred against a deposit that the owner keeps reserved.

pub mod genome;
pub mod host;
pub mod kitty;
pub mod laws;
pub mod owned;
pub mod pallet;
pub mod registry;
pub mod types;

pub use host::{AccountData, Config, LocalHost};
pub use kitty::{combine, Kitty};
pub use owned::OwnedKitties;
pub use pallet::{Error, Event, Pallet};
pub use registry::Registry;
pub use types::{AccountId, Balance, BlockNumber, KittyIndex};
