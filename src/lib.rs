//! An escrowed marketplace for unique collectible assets: identity registry,
//! marketplace configuration, listings with asset custody in a vault, and an
//! escrow engine that settles each purchase exactly once.

pub mod escrow;
pub mod instructions;
pub mod laws;
pub mod ledger;
pub mod listing;
pub mod model;
pub mod program;
pub mod state;
pub mod sums;

pub use instructions::{List, ReleaseEscrow};
pub use ledger::Ledger;
pub use program::{initialize_marketplace, mint_and_list, register_user};
pub use state::{
    Asset, Escrow, EscrowStatus, Holder, ListingAccount, ListingStatus, MarketError, MarketPlace,
    Pubkey, UserAccount, MAX_FEE_BPS,
};
