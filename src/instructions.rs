use vstd::prelude::*;
use crate::ledger::Ledger;
use crate::model::LedgerModel;
use crate::state::{Asset, Holder, ListingAccount, ListingStatus, MarketError, Pubkey, UserAccount};

verus! {

/// The parties of a mint-and-list: the maker, the marketplace (by its
/// authority), and the collection that the minted asset's metadata names,
/// with whether that membership is verified.
pub struct List {
    pub maker: Pubkey,
    pub marketplace: Pubkey,
    pub collection_mint: Pubkey,
    pub collection_verified: bool,
}

impl List {
    /// Mints one asset to the maker and lists it at `listing_price`: the asset
    /// moves into the new listing's vault, the listing is active, and the
    /// maker counts one more open listing. Nothing changes on an error.
    /// Returns the index of the listing; the asset is the last one minted.
    pub fn mint_and_list(
        &self,
        ledger: &mut Ledger,
        listing_price: u64,
        card_metadata: String,
        image_url: String,
        created_at: i64,
    ) -> (r: Result<usize, MarketError>)
        requires
            old(ledger).wf(),
            old(ledger).assets.len() < usize::MAX,
            old(ledger).listings.len() < usize::MAX,
        ensures
            final(ledger).wf(),
            old(ledger)@.listings_follow(final(ledger)@),
            old(ledger)@.conserves_funds(final(ledger)@),
            match old(ledger)@.mint_list_error(
                self.maker,
                self.marketplace,
                self.collection_mint,
                self.collection_verified,
            ) {
                Some(e) => r == Err::<usize, MarketError>(e) && final(ledger)@ == old(ledger)@,
                None => r == Ok::<usize, MarketError>(old(ledger)@.listings.len() as usize)
                    && final(ledger)@ == (LedgerModel {
                    users: old(ledger)@.users.update(
                        old(ledger)@.user_index(self.maker),
                        UserAccount {
                            nft_listed: (old(ledger)@.user(self.maker).nft_listed + 1) as u64,
                            ..old(ledger)@.user(self.maker)
                        },
                    ),
                    assets: old(ledger)@.assets.push(
                        Asset {
                            collection: self.collection_mint,
                            verified: true,
                            holder: Holder::Vault(old(ledger)@.listings.len() as usize),
                        },
                    ),
                    listings: old(ledger)@.listings.push(
                        ListingAccount {
                            owner: self.maker,
                            marketplace: self.marketplace,
                            nft_address: old(ledger)@.assets.len() as usize,
                            card_metadata,
                            image_url,
                            listing_price,
                            status: ListingStatus::Active,
                            created_at,
                        },
                    ),
                    ..old(ledger)@
                }),
            },
    {
        let i = match ledger.find_user(self.maker) {
            Some(i) => i,
            None => return Err(MarketError::UnknownAccount),
        };
        let k = match ledger.find_marketplace(self.marketplace) {
            Some(k) => k,
            None => return Err(MarketError::UnknownAccount),
        };
        if self.collection_mint != ledger.marketplaces[k].collection || !self.collection_verified {
            return Err(MarketError::AssetNotVerified);
        }
        if ledger.users[i].nft_listed == u64::MAX {
            return Err(MarketError::ArithmeticOverflow);
        }
        let ghost pre = ledger@;
        let asset = ledger.mint_asset(self.maker, self.collection_mint, true);
        proof {
            let mid = ledger@;
            assert(mid.owners() =~= pre.owners());
            assert(mid.authorities() =~= pre.authorities());
            assert(!mid.has_open_listing(self.marketplace, asset as int)) by {
                assert forall|l: int| 0 <= l < mid.listings.len() implies #[trigger] mid.listings[l].nft_address
                    != asset by {
                    assert(pre.listings[l].nft_address < pre.assets.len());
                }
            }
            assert(mid.create_error(self.maker, self.marketplace, asset as int) is None);
        }
        let r = ledger.create_listing(
            self.maker,
            self.marketplace,
            asset,
            listing_price,
            card_metadata,
            image_url,
            created_at,
        );
        proof {
            let mid_assets = pre.assets.push(
                Asset { collection: self.collection_mint, verified: true, holder: Holder::Owner(self.maker) },
            );
            assert(ledger@.assets =~= pre.assets.push(
                Asset {
                    collection: self.collection_mint,
                    verified: true,
                    holder: Holder::Vault(pre.listings.len() as usize),
                },
            )) by {
                assert(ledger@.assets == mid_assets.update(
                    asset as int,
                    Asset { holder: Holder::Vault(pre.listings.len() as usize), ..mid_assets[asset as int] },
                ));
            }
        }
        r
    }
}

/// A request to release an escrow, signed by `caller`.
pub struct ReleaseEscrow {
    pub caller: Pubkey,
    pub escrow: usize,
}

impl ReleaseEscrow {
    /// Releases the escrow (see `Ledger::release`).
    pub fn release_escrow(&self, ledger: &mut Ledger) -> (r: Result<(), MarketError>)
        requires
            old(ledger).wf(),
        ensures
            final(ledger).wf(),
            old(ledger)@.listings_follow(final(ledger)@),
            match old(ledger)@.settle_error(self.caller, self.escrow as int) {
                Some(err) => r == Err::<(), MarketError>(err) && final(ledger)@ == old(ledger)@,
                None => r is Ok && final(ledger)@ == old(ledger)@.released(self.escrow as int),
            },
    {
        ledger.release(self.caller, self.escrow)
    }
}

} // verus!
