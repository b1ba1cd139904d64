//! A crowdfunding escrow: campaigns that collect donations in a vault of
//! their own and release them to their owner once the goal is met and the
//! deadline has passed.
//!
//! - [`address`]: the 32-byte identities of accounts.
//! - [`derive`]: the addresses of campaigns and vaults, derived from owner,
//!   name and campaign, never chosen.
//! - [`campaign`]: the campaign record and the rules that read and change it.
//! - [`ledger`]: the account store, with the lamports that each account
//!   holds and the invariant that ties every campaign to its vault.
//! - [`escrow`]: the three operations on the store: creating a campaign,
//!   donating to it, withdrawing from it.
//! - [`laws`]: what holds of the operations whatever the store and the
//!   arguments.
//!
//! Every operation either takes place as a whole or is refused with an
//! [`campaign::ErrorCode`] and changes nothing.

pub mod address;
pub mod campaign;
pub mod derive;
pub mod escrow;
pub mod laws;
pub mod ledger;
