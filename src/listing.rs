use vstd::prelude::*;
use crate::ledger::Ledger;
use crate::model::{is_open, LedgerModel};
use crate::state::{Asset, Holder, ListingAccount, ListingStatus, MarketError, Pubkey, UserAccount};
use crate::sums::lemma_balances_update;

verus! {

impl Ledger {
    /// Whether an active or pending listing of `asset` stands on `marketplace`.
    pub fn has_open_listing(&self, marketplace: Pubkey, asset: usize) -> (r: bool)
        ensures
            r == self@.has_open_listing(marketplace, asset as int),
    {
        let mut l: usize = 0;
        while l < self.listings.len()
            invariant
                l <= self.listings.len(),
                forall|j: int|
                    0 <= j < l ==> !(#[trigger] self.listings@[j].marketplace == marketplace
                        && self.listings@[j].nft_address == asset && is_open(self.listings@[j].status)),
            decreases self.listings.len() - l,
        {
            let x = &self.listings[l];
            if x.marketplace == marketplace && x.nft_address == asset && (x.status
                == ListingStatus::Active || x.status == ListingStatus::Pending) {
                return true;
            }
            l = l + 1;
        }
        false
    }

    /// Lists `asset` of `seller` on `marketplace` at `price`: the asset moves
    /// from the seller's holding into the new listing's vault, the listing is
    /// active, and the seller counts one more open listing. Returns the index
    /// of the listing.
    pub fn create_listing(
        &mut self,
        seller: Pubkey,
        marketplace: Pubkey,
        asset: usize,
        price: u64,
        card_metadata: String,
        image_url: String,
        created_at: i64,
    ) -> (r: Result<usize, MarketError>)
        requires
            old(self).wf(),
            old(self).listings.len() < usize::MAX,
        ensures
            final(self).wf(),
            old(self)@.conserves_funds(final(self)@),
            old(self)@.listings_follow(final(self)@),
            match old(self)@.create_error(seller, marketplace, asset as int) {
                Some(e) => r == Err::<usize, MarketError>(e) && final(self)@ == old(self)@,
                None => r == Ok::<usize, MarketError>(old(self)@.listings.len() as usize)
                    && final(self)@ == (LedgerModel {
                    users: old(self)@.users.update(
                        old(self)@.user_index(seller),
                        UserAccount {
                            nft_listed: (old(self)@.user(seller).nft_listed + 1) as u64,
                            ..old(self)@.user(seller)
                        },
                    ),
                    assets: old(self)@.assets.update(
                        asset as int,
                        Asset {
                            holder: Holder::Vault(old(self)@.listings.len() as usize),
                            ..old(self)@.assets[asset as int]
                        },
                    ),
                    listings: old(self)@.listings.push(
                        ListingAccount {
                            owner: seller,
                            marketplace,
                            nft_address: asset,
                            card_metadata,
                            image_url,
                            listing_price: price,
                            status: ListingStatus::Active,
                            created_at,
                        },
                    ),
                    ..old(self)@
                }),
            },
    {
        let i = match self.find_user(seller) {
            Some(i) => i,
            None => return Err(MarketError::UnknownAccount),
        };
        let k = match self.find_marketplace(marketplace) {
            Some(k) => k,
            None => return Err(MarketError::UnknownAccount),
        };
        if asset >= self.assets.len() {
            return Err(MarketError::UnknownAccount);
        }
        let a = self.assets[asset];
        if a.collection != self.marketplaces[k].collection || !a.verified {
            return Err(MarketError::AssetNotVerified);
        }
        if self.has_open_listing(marketplace, asset) {
            return Err(MarketError::DuplicateListing);
        }
        if a.holder != Holder::Owner(seller) {
            return Err(MarketError::CustodyTransferFailed);
        }
        if self.users[i].nft_listed == u64::MAX {
            return Err(MarketError::ArithmeticOverflow);
        }
        let ghost pre = self@;
        let n = self.listings.len();
        let u = UserAccount { nft_listed: self.users[i].nft_listed + 1, ..self.users[i] };
        self.users.set(i, u);
        self.assets.set(asset, Asset { holder: Holder::Vault(n), ..a });
        self.listings.push(
            ListingAccount {
                owner: seller,
                marketplace,
                nft_address: asset,
                card_metadata,
                image_url,
                listing_price: price,
                status: ListingStatus::Active,
                created_at,
            },
        );
        proof {
            let post = self@;
            assert(post.owners() =~= pre.owners());
            lemma_balances_update(pre.users, i as int, u);
            assert(post.users_unique()) by {
                assert forall|x: int, y: int|
                    0 <= x < post.users.len() && 0 <= y < post.users.len()
                        && #[trigger] post.users[x].owner == #[trigger] post.users[y].owner implies x
                    == y by {
                    assert(pre.users[x].owner == post.users[x].owner);
                    assert(pre.users[y].owner == post.users[y].owner);
                }
            }
            assert(post.listings_valid()) by {
                assert forall|l: int| 0 <= l < post.listings.len() implies {
                    let x = #[trigger] post.listings[l];
                    &&& x.nft_address < post.assets.len()
                    &&& post.has_user(x.owner)
                    &&& post.has_market(x.marketplace)
                    &&& is_open(x.status) ==> post.assets[x.nft_address as int].holder.in_vault(l)
                } by {
                    if l < n {
                        assert(pre.listings[l] == post.listings[l]);
                        let y = pre.listings[l];
                        if is_open(y.status) && y.nft_address == asset {
                            assert(pre.assets[asset as int].holder.in_vault(l));
                        }
                    } else {
                        crate::ledger::lemma_user_index(pre, i as int);
                        crate::ledger::lemma_market_index(pre, k as int);
                    }
                }
            }
            assert(post.vaults_valid()) by {
                assert forall|b: int| 0 <= b < post.assets.len() implies match #[trigger] post.assets[b].holder {
                    Holder::Vault(l) => l < post.listings.len() && post.listings[l as int].nft_address == b
                        && is_open(post.listings[l as int].status),
                    Holder::Owner(_) => true,
                } by {
                    if b != asset {
                        assert(pre.assets[b] == post.assets[b]);
                        match pre.assets[b].holder {
                            Holder::Vault(l) => {
                                assert(pre.listings[l as int] == post.listings[l as int]);
                            },
                            Holder::Owner(_) => {},
                        }
                    }
                }
            }
            assert(post.escrows_valid()) by {
                assert forall|e: int| 0 <= e < post.escrows.len() implies {
                    let x = #[trigger] post.escrows[e];
                    &&& x.listing < post.listings.len()
                    &&& post.has_user(x.buyer)
                    &&& x.seller == post.listings[x.listing as int].owner
                    &&& x.status == crate::state::EscrowStatus::Open ==> {
                        &&& post.listings[x.listing as int].status == ListingStatus::Pending
                        &&& x.locked_amount == post.listings[x.listing as int].listing_price
                    }
                    &&& x.status != crate::state::EscrowStatus::Open ==> x.locked_amount == 0
                } by {
                    assert(pre.escrows[e] == post.escrows[e]);
                    assert(pre.listings[pre.escrows[e].listing as int] == post.listings[pre.escrows[e].listing as int]);
                }
            }
            assert(pre.listings_follow(post)) by {
                assert forall|l: int| 0 <= l < pre.listings.len() implies crate::model::allowed_transition(
                    #[trigger] pre.listings[l].status,
                    post.listings[l].status,
                ) by {
                    assert(pre.listings[l] == post.listings[l]);
                }
            }
        }
        Ok(n)
    }
    /// Cancels active listing `l` of `caller`: the asset returns from the vault
    /// to the seller, the listing is cancelled, and the seller counts one open
    /// listing fewer.
    pub fn cancel_listing(&mut self, caller: Pubkey, l: usize) -> (r: Result<(), MarketError>)
        requires
            old(self).wf(),
        ensures
            final(self).wf(),
            old(self)@.conserves_funds(final(self)@),
            old(self)@.listings_follow(final(self)@),
            match old(self)@.cancel_error(caller, l as int) {
                Some(e) => r == Err::<(), MarketError>(e) && final(self)@ == old(self)@,
                None => r is Ok && final(self)@ == (LedgerModel {
                    users: old(self)@.with_one_listing_less(caller),
                    assets: old(self)@.assets.update(
                        old(self)@.listings[l as int].nft_address as int,
                        Asset {
                            holder: Holder::Owner(caller),
                            ..old(self)@.assets[old(self)@.listings[l as int].nft_address as int]
                        },
                    ),
                    listings: old(self)@.listings.update(
                        l as int,
                        ListingAccount { status: ListingStatus::Cancelled, ..old(self)@.listings[l as int] },
                    ),
                    ..old(self)@
                }),
            },
    {
        if l >= self.listings.len() {
            return Err(MarketError::UnknownAccount);
        }
        if self.listings[l].status != ListingStatus::Active {
            return Err(MarketError::InvalidListingState);
        }
        if caller != self.listings[l].owner {
            return Err(MarketError::Unauthorized);
        }
        let ghost pre = self@;
        let asset = self.listings[l].nft_address;
        let i = match self.find_user(caller) {
            Some(i) => i,
            None => {
                assert(false);
                return Err(MarketError::UnknownAccount);
            },
        };
        let listed = self.users[i].nft_listed;
        let u = UserAccount { nft_listed: if listed > 0 { listed - 1 } else { 0 }, ..self.users[i] };
        self.users.set(i, u);
        let a = self.assets[asset];
        self.assets.set(asset, Asset { holder: Holder::Owner(caller), ..a });
        self.listings[l].status = ListingStatus::Cancelled;
        proof {
            let post = self@;
            assert(post.users =~= pre.with_one_listing_less(caller));
            assert(post.listings =~= pre.listings.update(
                l as int,
                ListingAccount { status: ListingStatus::Cancelled, ..pre.listings[l as int] },
            ));
            assert(post.owners() =~= pre.owners());
            lemma_balances_update(pre.users, i as int, u);
            assert(post.users_unique()) by {
                assert forall|x: int, y: int|
                    0 <= x < post.users.len() && 0 <= y < post.users.len()
                        && #[trigger] post.users[x].owner == #[trigger] post.users[y].owner implies x
                    == y by {
                    assert(pre.users[x].owner == post.users[x].owner);
                    assert(pre.users[y].owner == post.users[y].owner);
                }
            }
            assert(post.listings_valid()) by {
                assert forall|j: int| 0 <= j < post.listings.len() implies {
                    let x = #[trigger] post.listings[j];
                    &&& x.nft_address < post.assets.len()
                    &&& post.has_user(x.owner)
                    &&& post.has_market(x.marketplace)
                    &&& is_open(x.status) ==> post.assets[x.nft_address as int].holder.in_vault(j)
                } by {
                    let y = pre.listings[j];
                    if j != l && is_open(y.status) && y.nft_address == asset {
                        assert(pre.assets[asset as int].holder.in_vault(j));
                    }
                }
            }
            assert(post.vaults_valid()) by {
                assert forall|b: int| 0 <= b < post.assets.len() implies match #[trigger] post.assets[b].holder {
                    Holder::Vault(j) => j < post.listings.len() && post.listings[j as int].nft_address == b
                        && is_open(post.listings[j as int].status),
                    Holder::Owner(_) => true,
                } by {
                    if b != asset {
                        assert(pre.assets[b] == post.assets[b]);
                        match pre.assets[b].holder {
                            Holder::Vault(j) => {
                                assert(j != l);
                            },
                            Holder::Owner(_) => {},
                        }
                    }
                }
            }
            assert(post.escrows_valid()) by {
                assert forall|e: int| 0 <= e < post.escrows.len() implies {
                    let x = #[trigger] post.escrows[e];
                    &&& x.listing < post.listings.len()
                    &&& post.has_user(x.buyer)
                    &&& x.seller == post.listings[x.listing as int].owner
                    &&& x.status == crate::state::EscrowStatus::Open ==> {
                        &&& post.listings[x.listing as int].status == ListingStatus::Pending
                        &&& x.locked_amount == post.listings[x.listing as int].listing_price
                    }
                    &&& x.status != crate::state::EscrowStatus::Open ==> x.locked_amount == 0
                } by {
                    assert(pre.escrows[e] == post.escrows[e]);
                }
            }
            assert(pre.listings_follow(post)) by {
                assert forall|j: int| 0 <= j < pre.listings.len() implies crate::model::allowed_transition(
                    #[trigger] pre.listings[j].status,
                    post.listings[j].status,
                ) by {}
            }
        }
        Ok(())
    }
}


} // verus!
