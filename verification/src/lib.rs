//! A crowdfunding escrow ledger: wishes with a funding target and a deadline,
//! pledges toward them, and their settlement.
//!
//! The ledger decides and keeps the books. Who calls, what value came with
//! the call, what time it is and whether a payment went through are the
//! host's to say: they come in as arguments, and the payments to make go
//! out as results.

pub mod account;
pub mod amount;
pub mod item;
pub mod laws;
pub mod ledger;

pub use crate::account::AccountId;
pub use crate::amount::Amount;
pub use crate::item::{Error, Transfer, WishListItem, WishlistAdded};
pub use crate::ledger::Wishlist;
