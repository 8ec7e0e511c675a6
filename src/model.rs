use vstd::prelude::*;
use crate::state::{
    Asset, Escrow, EscrowStatus, Holder, ListingAccount, ListingStatus, MarketError, MarketPlace, Pubkey,
    UserAccount, MAX_FEE_BPS,
};
use crate::sums::{sum_balances, sum_locked};

verus! {

/// The whole marketplace state as mathematical values.
pub struct LedgerModel {
    pub users: Seq<UserAccount>,
    pub marketplaces: Seq<MarketPlace>,
    pub assets: Seq<Asset>,
    pub listings: Seq<ListingAccount>,
    pub escrows: Seq<Escrow>,
    /// Fees deducted by settled sales.
    pub fees_collected: int,
    /// All funds ever deposited: balances, escrow custody and fees.
    pub supply: int,
}

pub open spec fn is_open(s: ListingStatus) -> bool {
    s == ListingStatus::Active || s == ListingStatus::Pending
}

/// The listing status changes that any operation may make.
pub open spec fn allowed_transition(a: ListingStatus, b: ListingStatus) -> bool {
    ||| a == b
    ||| a == ListingStatus::Active && b == ListingStatus::Pending
    ||| a == ListingStatus::Pending && b == ListingStatus::Sold
    ||| a == ListingStatus::Pending && b == ListingStatus::Active
    ||| a == ListingStatus::Active && b == ListingStatus::Cancelled
}

/// Fee on `amount` at `bps` basis points, rounded down.
pub open spec fn fee_for(amount: int, bps: int) -> int {
    amount * bps / (MAX_FEE_BPS as int)
}

impl LedgerModel {
    pub open spec fn owners(self) -> Seq<Pubkey> {
        self.users.map_values(|u: UserAccount| u.owner)
    }

    pub open spec fn authorities(self) -> Seq<Pubkey> {
        self.marketplaces.map_values(|m: MarketPlace| m.authority)
    }

    pub open spec fn has_user(self, id: Pubkey) -> bool {
        self.owners().contains(id)
    }

    pub open spec fn has_market(self, authority: Pubkey) -> bool {
        self.authorities().contains(authority)
    }

    pub open spec fn user_index(self, id: Pubkey) -> int {
        choose|i: int| 0 <= i < self.users.len() && self.users[i].owner == id
    }

    pub open spec fn market_index(self, authority: Pubkey) -> int {
        choose|k: int| 0 <= k < self.marketplaces.len() && self.marketplaces[k].authority == authority
    }

    pub open spec fn user(self, id: Pubkey) -> UserAccount {
        self.users[self.user_index(id)]
    }

    pub open spec fn market(self, authority: Pubkey) -> MarketPlace {
        self.marketplaces[self.market_index(authority)]
    }

    /// Whether an active or pending listing of `asset` stands on `marketplace`.
    pub open spec fn has_open_listing(self, marketplace: Pubkey, asset: int) -> bool {
        exists|l: int|
            0 <= l < self.listings.len() && #[trigger] self.listings[l].marketplace == marketplace
                && self.listings[l].nft_address == asset && is_open(self.listings[l].status)
    }

    /// Funds held by identities and escrows, fees excluded.
    pub open spec fn funds(self) -> int {
        sum_balances(self.users) + sum_locked(self.escrows)
    }

    pub open spec fn users_unique(self) -> bool {
        forall|i: int, j: int|
            0 <= i < self.users.len() && 0 <= j < self.users.len() && #[trigger] self.users[i].owner
                == #[trigger] self.users[j].owner ==> i == j
    }

    pub open spec fn markets_unique(self) -> bool {
        forall|i: int, j: int|
            0 <= i < self.marketplaces.len() && 0 <= j < self.marketplaces.len()
                && #[trigger] self.marketplaces[i].authority
                == #[trigger] self.marketplaces[j].authority ==> i == j
    }

    pub open spec fn fees_valid(self) -> bool {
        forall|k: int| 0 <= k < self.marketplaces.len() ==> #[trigger] self.marketplaces[k].fee <= MAX_FEE_BPS
    }

    pub open spec fn listings_valid(self) -> bool {
        forall|l: int|
            0 <= l < self.listings.len() ==> {
                let x = #[trigger] self.listings[l];
                &&& x.nft_address < self.assets.len()
                &&& self.has_user(x.owner)
                &&& self.has_market(x.marketplace)
                &&& is_open(x.status) ==> self.assets[x.nft_address as int].holder.in_vault(l)
            }
    }

    /// An asset in a vault is there for an open listing of that very asset.
    pub open spec fn vaults_valid(self) -> bool {
        forall|a: int|
            0 <= a < self.assets.len() ==> match #[trigger] self.assets[a].holder {
                Holder::Vault(l) => l < self.listings.len() && self.listings[l as int].nft_address == a
                    && is_open(self.listings[l as int].status),
                Holder::Owner(_) => true,
            }
    }

    pub open spec fn escrows_valid(self) -> bool {
        forall|e: int|
            0 <= e < self.escrows.len() ==> {
                let x = #[trigger] self.escrows[e];
                &&& x.listing < self.listings.len()
                &&& self.has_user(x.buyer)
                &&& x.seller == self.listings[x.listing as int].owner
                &&& x.status == EscrowStatus::Open ==> {
                    &&& self.listings[x.listing as int].status == ListingStatus::Pending
                    &&& x.locked_amount == self.listings[x.listing as int].listing_price
                }
                &&& x.status != EscrowStatus::Open ==> x.locked_amount == 0
            }
    }

    /// A listing has at most one open escrow.
    pub open spec fn open_escrows_unique(self) -> bool {
        forall|e1: int, e2: int|
            0 <= e1 < self.escrows.len() && 0 <= e2 < self.escrows.len()
                && #[trigger] self.escrows[e1].listing == #[trigger] self.escrows[e2].listing
                && self.escrows[e1].status == EscrowStatus::Open
                && self.escrows[e2].status == EscrowStatus::Open ==> e1 == e2
    }

    pub open spec fn wf(self) -> bool {
        &&& self.users_unique()
        &&& self.markets_unique()
        &&& self.fees_valid()
        &&& self.listings_valid()
        &&& self.vaults_valid()
        &&& self.escrows_valid()
        &&& self.open_escrows_unique()
        &&& self.fees_collected >= 0
        &&& self.supply == self.funds() + self.fees_collected
        &&& self.supply <= u64::MAX
    }

    /// Every listing keeps its record but for its status, which moves only
    /// along the allowed transitions; no listing disappears.
    pub open spec fn listings_follow(self, next: LedgerModel) -> bool {
        &&& self.listings.len() <= next.listings.len()
        &&& forall|l: int|
            0 <= l < self.listings.len() ==> allowed_transition(
                #[trigger] self.listings[l].status,
                next.listings[l].status,
            )
    }
    /// Why listing `asset` by `seller` on `marketplace` is rejected, if it is.
    pub open spec fn create_error(self, seller: Pubkey, marketplace: Pubkey, asset: int) -> Option<MarketError> {
        if !self.has_user(seller) || !self.has_market(marketplace) || !(0 <= asset < self.assets.len()) {
            Some(MarketError::UnknownAccount)
        } else if self.assets[asset].collection != self.market(marketplace).collection
            || !self.assets[asset].verified {
            Some(MarketError::AssetNotVerified)
        } else if self.has_open_listing(marketplace, asset) {
            Some(MarketError::DuplicateListing)
        } else if self.assets[asset].holder != Holder::Owner(seller) {
            Some(MarketError::CustodyTransferFailed)
        } else if self.user(seller).nft_listed == u64::MAX {
            Some(MarketError::ArithmeticOverflow)
        } else {
            None
        }
    }

    /// Why cancelling listing `l` by `caller` is rejected, if it is.
    pub open spec fn cancel_error(self, caller: Pubkey, l: int) -> Option<MarketError> {
        if !(0 <= l < self.listings.len()) {
            Some(MarketError::UnknownAccount)
        } else if self.listings[l].status != ListingStatus::Active {
            Some(MarketError::InvalidListingState)
        } else if caller != self.listings[l].owner {
            Some(MarketError::Unauthorized)
        } else {
            None
        }
    }

    /// The record of `id` with one open listing fewer (never below zero).
    pub open spec fn with_one_listing_less(self, id: Pubkey) -> Seq<UserAccount> {
        let u = self.user(id);
        self.users.update(
            self.user_index(id),
            UserAccount { nft_listed: if u.nft_listed > 0 { (u.nft_listed - 1) as u64 } else { 0 }, ..u },
        )
    }
    /// Why opening a purchase of listing `l` by `buyer` is rejected, if it is.
    pub open spec fn purchase_error(self, buyer: Pubkey, l: int) -> Option<MarketError> {
        if !(0 <= l < self.listings.len()) {
            Some(MarketError::UnknownAccount)
        } else if self.listings[l].status != ListingStatus::Active {
            Some(MarketError::InvalidListingState)
        } else if buyer == self.listings[l].owner {
            Some(MarketError::Unauthorized)
        } else if !self.has_user(buyer) {
            Some(MarketError::UnknownAccount)
        } else if self.user(buyer).balance < self.listings[l].listing_price {
            Some(MarketError::InsufficientFunds)
        } else {
            None
        }
    }

    /// Why settling escrow `e` (by release or by refund) on the word of
    /// `caller` is rejected, if it is. The buyer and the authority of the
    /// listing's marketplace, who resolves disputes, may settle.
    pub open spec fn settle_error(self, caller: Pubkey, e: int) -> Option<MarketError> {
        if !(0 <= e < self.escrows.len()) {
            Some(MarketError::UnknownAccount)
        } else if self.escrows[e].status != EscrowStatus::Open {
            Some(MarketError::EscrowAlreadySettled)
        } else if caller != self.escrows[e].buyer
            && caller != self.listings[self.escrows[e].listing as int].marketplace {
            Some(MarketError::Unauthorized)
        } else {
            None
        }
    }

    /// The fee that releasing escrow `e` deducts.
    pub open spec fn release_fee(self, e: int) -> int {
        let x = self.escrows[e];
        fee_for(
            x.locked_amount as int,
            self.market(self.listings[x.listing as int].marketplace).fee as int,
        )
    }

    /// The state after opening a purchase of listing `l` by `buyer`.
    pub open spec fn purchased(self, buyer: Pubkey, l: int) -> LedgerModel {
        let x = self.listings[l];
        let u = self.user(buyer);
        LedgerModel {
            users: self.users.update(
                self.user_index(buyer),
                UserAccount { balance: (u.balance - x.listing_price) as u64, ..u },
            ),
            listings: self.listings.update(l, ListingAccount { status: ListingStatus::Pending, ..x }),
            escrows: self.escrows.push(
                Escrow {
                    seller: x.owner,
                    buyer,
                    listing: l as usize,
                    locked_amount: x.listing_price,
                    status: EscrowStatus::Open,
                },
            ),
            ..self
        }
    }

    /// The state after releasing escrow `e`: the seller is paid the locked
    /// amount less the fee, the asset goes to the buyer, the listing is sold.
    pub open spec fn released(self, e: int) -> LedgerModel {
        let x = self.escrows[e];
        let lst = self.listings[x.listing as int];
        let u = self.user(x.seller);
        LedgerModel {
            users: self.users.update(
                self.user_index(x.seller),
                UserAccount {
                    balance: (u.balance + x.locked_amount - self.release_fee(e)) as u64,
                    nft_listed: if u.nft_listed > 0 { (u.nft_listed - 1) as u64 } else { 0 },
                    ..u
                },
            ),
            assets: self.assets.update(
                lst.nft_address as int,
                Asset { holder: Holder::Owner(x.buyer), ..self.assets[lst.nft_address as int] },
            ),
            listings: self.listings.update(x.listing as int, ListingAccount { status: ListingStatus::Sold, ..lst }),
            escrows: self.escrows.update(e, Escrow { locked_amount: 0, status: EscrowStatus::Released, ..x }),
            fees_collected: self.fees_collected + self.release_fee(e),
            ..self
        }
    }

    /// The state after refunding escrow `e`: the buyer gets the whole locked
    /// amount back, the asset stays in the vault, the listing is active again.
    pub open spec fn refunded(self, e: int) -> LedgerModel {
        let x = self.escrows[e];
        let lst = self.listings[x.listing as int];
        let u = self.user(x.buyer);
        LedgerModel {
            users: self.users.update(
                self.user_index(x.buyer),
                UserAccount { balance: (u.balance + x.locked_amount) as u64, ..u },
            ),
            listings: self.listings.update(x.listing as int, ListingAccount { status: ListingStatus::Active, ..lst }),
            escrows: self.escrows.update(e, Escrow { locked_amount: 0, status: EscrowStatus::Refunded, ..x }),
            ..self
        }
    }
    /// Why minting an asset of `collection` for `maker` and listing it on
    /// `marketplace` is rejected, if it is.
    pub open spec fn mint_list_error(
        self,
        maker: Pubkey,
        marketplace: Pubkey,
        collection: Pubkey,
        verified: bool,
    ) -> Option<MarketError> {
        if !self.has_user(maker) || !self.has_market(marketplace) {
            Some(MarketError::UnknownAccount)
        } else if collection != self.market(marketplace).collection || !verified {
            Some(MarketError::AssetNotVerified)
        } else if self.user(maker).nft_listed == u64::MAX {
            Some(MarketError::ArithmeticOverflow)
        } else {
            None
        }
    }

    /// Funds and fees together are what they were.
    pub open spec fn conserves_funds(self, next: LedgerModel) -> bool {
        next.funds() + next.fees_collected == self.funds() + self.fees_collected
    }
}

} // verus!
