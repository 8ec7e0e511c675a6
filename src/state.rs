use vstd::prelude::*;

verus! {

/// Identities are 64-bit public keys.
pub type Pubkey = u64;

/// Largest fee rate, in basis points (100%).
pub const MAX_FEE_BPS: u64 = 10000;

/// Every way an operation can be rejected. A rejected operation leaves the
/// ledger exactly as it was.
#[derive(PartialEq, Eq, Structural, Clone, Copy, Debug)]
pub enum MarketError {
    AlreadyRegistered,
    InvalidFee,
    Unauthorized,
    AssetNotVerified,
    DuplicateListing,
    InvalidListingState,
    InsufficientFunds,
    EscrowAlreadySettled,
    CustodyTransferFailed,
    /// No identity, marketplace, asset, listing or escrow under that key.
    UnknownAccount,
    /// A counter or a balance would leave the range of `u64`.
    ArithmeticOverflow,
}

/// The record of a registered identity.
#[derive(Clone, Copy, Debug)]
pub struct UserAccount {
    pub owner: Pubkey,
    /// Listings of this identity that are open (active or pending).
    pub nft_listed: u64,
    /// Funds of this identity.
    pub balance: u64,
}

/// Marketplace-wide policy of one authority.
#[derive(Clone, Copy, Debug)]
pub struct MarketPlace {
    pub authority: Pubkey,
    /// Fee rate in basis points, at most `MAX_FEE_BPS`.
    pub fee: u64,
    /// The collection that listed assets must belong to.
    pub collection: Pubkey,
}

#[derive(PartialEq, Eq, Structural, Clone, Copy, Debug)]
pub enum ListingStatus {
    Active,
    Pending,
    Sold,
    Cancelled,
}

/// Where a unit of an asset is.
#[derive(PartialEq, Eq, Structural, Clone, Copy, Debug)]
pub enum Holder {
    /// In the holding of an identity.
    Owner(Pubkey),
    /// In the vault of the listing with this index.
    Vault(usize),
}

impl Holder {
    /// Whether this is the vault of the listing with index `l`.
    pub open spec fn in_vault(self, l: int) -> bool {
        match self {
            Holder::Vault(v) => v as int == l,
            Holder::Owner(_) => false,
        }
    }
}

/// A minted asset, with its collection metadata.
#[derive(Clone, Copy, Debug)]
pub struct Asset {
    pub collection: Pubkey,
    /// Whether membership in `collection` is verified.
    pub verified: bool,
    pub holder: Holder,
}

/// One asset offered for sale on one marketplace.
#[derive(Debug)]
pub struct ListingAccount {
    pub owner: Pubkey,
    /// The marketplace, by its authority.
    pub marketplace: Pubkey,
    /// The index of the listed asset.
    pub nft_address: usize,
    pub card_metadata: String,
    pub image_url: String,
    pub listing_price: u64,
    pub status: ListingStatus,
    pub created_at: i64,
}

#[derive(PartialEq, Eq, Structural, Clone, Copy, Debug)]
pub enum EscrowStatus {
    Open,
    Released,
    Refunded,
}

/// Funds held in trust for one purchase.
#[derive(Clone, Copy, Debug)]
pub struct Escrow {
    pub seller: Pubkey,
    pub buyer: Pubkey,
    /// The index of the listing bought.
    pub listing: usize,
    /// What the escrow holds: the price while open, zero once settled.
    pub locked_amount: u64,
    pub status: EscrowStatus,
}

} // verus!
