use vstd::prelude::*;
use crate::ledger::{lemma_same_owners, Ledger};
use crate::model::{allowed_transition, fee_for, is_open};
use crate::state::{
    Escrow, EscrowStatus, Holder, ListingStatus, MarketError, Pubkey, UserAccount, MAX_FEE_BPS,
};
use crate::sums::{lemma_balances_update, lemma_locked_push, lemma_locked_update};

verus! {

impl Ledger {
    /// Opens a purchase of active listing `l` by `buyer`: the price moves from
    /// the buyer's balance into a new escrow and the listing becomes pending.
    /// Returns the index of the escrow.
    pub fn open_purchase(&mut self, buyer: Pubkey, l: usize) -> (r: Result<usize, MarketError>)
        requires
            old(self).wf(),
            old(self).escrows.len() < usize::MAX,
        ensures
            final(self).wf(),
            old(self)@.conserves_funds(final(self)@),
            old(self)@.listings_follow(final(self)@),
            match old(self)@.purchase_error(buyer, l as int) {
                Some(e) => r == Err::<usize, MarketError>(e) && final(self)@ == old(self)@,
                None => r == Ok::<usize, MarketError>(old(self)@.escrows.len() as usize)
                    && final(self)@ == old(self)@.purchased(buyer, l as int),
            },
    {
        if l >= self.listings.len() {
            return Err(MarketError::UnknownAccount);
        }
        if self.listings[l].status != ListingStatus::Active {
            return Err(MarketError::InvalidListingState);
        }
        let seller = self.listings[l].owner;
        if buyer == seller {
            return Err(MarketError::Unauthorized);
        }
        let i = match self.find_user(buyer) {
            Some(i) => i,
            None => return Err(MarketError::UnknownAccount),
        };
        let price = self.listings[l].listing_price;
        if self.users[i].balance < price {
            return Err(MarketError::InsufficientFunds);
        }
        let ghost pre = self@;
        let u = UserAccount { balance: self.users[i].balance - price, ..self.users[i] };
        self.users.set(i, u);
        self.listings[l].status = ListingStatus::Pending;
        let x = Escrow { seller, buyer, listing: l, locked_amount: price, status: EscrowStatus::Open };
        let n = self.escrows.len();
        self.escrows.push(x);
        proof {
            let post = self@;
            assert(post.listings =~= pre.purchased(buyer, l as int).listings);
            lemma_same_owners(pre, post);
            lemma_balances_update(pre.users, i as int, u);
            lemma_locked_push(pre.escrows, x);
            assert(post.listings_valid()) by {
                assert forall|j: int| 0 <= j < post.listings.len() implies {
                    let y = #[trigger] post.listings[j];
                    &&& y.nft_address < post.assets.len()
                    &&& post.has_user(y.owner)
                    &&& post.has_market(y.marketplace)
                    &&& is_open(y.status) ==> post.assets[y.nft_address as int].holder.in_vault(j)
                } by {
                    assert(pre.listings[j].nft_address == post.listings[j].nft_address);
                }
            }
            assert(post.vaults_valid()) by {
                assert forall|b: int| 0 <= b < post.assets.len() implies match #[trigger] post.assets[b].holder {
                    Holder::Vault(j) => j < post.listings.len() && post.listings[j as int].nft_address == b
                        && is_open(post.listings[j as int].status),
                    Holder::Owner(_) => true,
                } by {
                    assert(pre.assets[b] == post.assets[b]);
                }
            }
            assert(post.escrows_valid()) by {
                assert forall|e: int| 0 <= e < post.escrows.len() implies {
                    let y = #[trigger] post.escrows[e];
                    &&& y.listing < post.listings.len()
                    &&& post.has_user(y.buyer)
                    &&& y.seller == post.listings[y.listing as int].owner
                    &&& y.status == EscrowStatus::Open ==> {
                        &&& post.listings[y.listing as int].status == ListingStatus::Pending
                        &&& y.locked_amount == post.listings[y.listing as int].listing_price
                    }
                    &&& y.status != EscrowStatus::Open ==> y.locked_amount == 0
                } by {
                    if e < n {
                        assert(pre.escrows[e] == post.escrows[e]);
                    } else {
                        crate::ledger::lemma_user_index(pre, i as int);
                    }
                }
            }
            assert(post.open_escrows_unique()) by {
                assert forall|e1: int, e2: int|
                    0 <= e1 < post.escrows.len() && 0 <= e2 < post.escrows.len()
                        && #[trigger] post.escrows[e1].listing == #[trigger] post.escrows[e2].listing
                        && post.escrows[e1].status == EscrowStatus::Open
                        && post.escrows[e2].status == EscrowStatus::Open implies e1 == e2 by {
                    if e1 < n {
                        assert(pre.escrows[e1] == post.escrows[e1]);
                    }
                    if e2 < n {
                        assert(pre.escrows[e2] == post.escrows[e2]);
                    }
                }
            }
            assert(pre.listings_follow(post)) by {
                assert forall|j: int| 0 <= j < pre.listings.len() implies allowed_transition(
                    #[trigger] pre.listings[j].status,
                    post.listings[j].status,
                ) by {}
            }
            assert(post =~= pre.purchased(buyer, l as int));
        }
        Ok(n)
    }
    /// Checks that escrow `e` may be settled on the word of `caller`.
    fn check_settle(&self, caller: Pubkey, e: usize) -> (r: Result<(), MarketError>)
        requires
            self.wf(),
        ensures
            match self@.settle_error(caller, e as int) {
                Some(err) => r == Err::<(), MarketError>(err),
                None => r is Ok,
            },
    {
        if e >= self.escrows.len() {
            return Err(MarketError::UnknownAccount);
        }
        let x = self.escrows[e];
        if x.status != EscrowStatus::Open {
            return Err(MarketError::EscrowAlreadySettled);
        }
        if caller != x.buyer && caller != self.listings[x.listing].marketplace {
            return Err(MarketError::Unauthorized);
        }
        Ok(())
    }

    /// Releases escrow `e`, on the word of the buyer (receipt confirmed) or of
    /// the marketplace authority: the seller is paid the locked amount less
    /// the marketplace fee, the asset moves from the vault to the buyer, the
    /// listing is sold and the escrow is closed.
    pub fn release(&mut self, caller: Pubkey, e: usize) -> (r: Result<(), MarketError>)
        requires
            old(self).wf(),
        ensures
            final(self).wf(),
            old(self)@.conserves_funds(final(self)@),
            r is Ok ==> final(self)@.funds() == old(self)@.funds() - old(self)@.release_fee(e as int)
                && final(self)@.fees_collected == old(self)@.fees_collected + old(self)@.release_fee(e as int),
            old(self)@.listings_follow(final(self)@),
            match old(self)@.settle_error(caller, e as int) {
                Some(err) => r == Err::<(), MarketError>(err) && final(self)@ == old(self)@,
                None => r is Ok && final(self)@ == old(self)@.released(e as int),
            },
    {
        match self.check_settle(caller, e) {
            Ok(()) => {},
            Err(err) => return Err(err),
        }
        let ghost pre = self@;
        let x = self.escrows[e];
        let l = x.listing;
        let asset = self.listings[l].nft_address;
        let k = match self.find_marketplace(self.listings[l].marketplace) {
            Some(k) => k,
            None => {
                assert(false);
                return Err(MarketError::UnknownAccount);
            },
        };
        let i = match self.find_user(x.seller) {
            Some(i) => i,
            None => {
                assert(false);
                return Err(MarketError::UnknownAccount);
            },
        };
        let amount = x.locked_amount;
        let bps = self.marketplaces[k].fee;
        assert((amount as int) * (bps as int) <= (amount as int) * (MAX_FEE_BPS as int)) by (nonlinear_arith)
            requires
                bps <= MAX_FEE_BPS,
        ;
        assert((amount as int) * (MAX_FEE_BPS as int) / (MAX_FEE_BPS as int) == amount as int) by (nonlinear_arith);
        assert(fee_for(amount as int, bps as int) <= amount) by (nonlinear_arith)
            requires
                (amount as int) * (bps as int) <= (amount as int) * (MAX_FEE_BPS as int),
                (amount as int) * (MAX_FEE_BPS as int) / (MAX_FEE_BPS as int) == amount as int,
        ;
        let fee = ((amount as u128) * (bps as u128) / (MAX_FEE_BPS as u128)) as u64;
        assert(fee == fee_for(amount as int, bps as int));
        proof {
            lemma_balances_update(pre.users, i as int, pre.users[i as int]);
            lemma_locked_update(pre.escrows, e as int, x);
        }
        let seller = self.users[i];
        let listed = seller.nft_listed;
        let u = UserAccount {
            balance: seller.balance + (amount - fee),
            nft_listed: if listed > 0 { listed - 1 } else { 0 },
            ..seller
        };
        let closed = Escrow { locked_amount: 0, status: EscrowStatus::Released, ..x };
        self.escrows.set(e, closed);
        self.users.set(i, u);
        self.fees_collected = self.fees_collected + fee;
        let a = self.assets[asset];
        self.assets.set(asset, crate::state::Asset { holder: Holder::Owner(x.buyer), ..a });
        self.listings[l].status = ListingStatus::Sold;
        proof {
            let post = self@;
            assert(post.listings =~= pre.released(e as int).listings);
            lemma_same_owners(pre, post);
            lemma_balances_update(pre.users, i as int, u);
            lemma_locked_update(pre.escrows, e as int, closed);
            assert(post.listings_valid()) by {
                assert forall|j: int| 0 <= j < post.listings.len() implies {
                    let y = #[trigger] post.listings[j];
                    &&& y.nft_address < post.assets.len()
                    &&& post.has_user(y.owner)
                    &&& post.has_market(y.marketplace)
                    &&& is_open(y.status) ==> post.assets[y.nft_address as int].holder.in_vault(j)
                } by {
                    let y = pre.listings[j];
                    assert(pre.escrows[e as int] == x);
                    assert(pre.listings[l as int].status == ListingStatus::Pending);
                    assert(pre.assets[asset as int].holder == Holder::Vault(l));
                    if j != l {
                        assert(pre.listings[j] == post.listings[j]);
                        if is_open(y.status) {
                            assert(pre.assets[y.nft_address as int].holder.in_vault(j));
                            assert(y.nft_address != asset);
                            assert(post.assets[y.nft_address as int] == pre.assets[y.nft_address as int]);
                        }
                    }
                }
            }
            assert(post.vaults_valid()) by {
                assert forall|b: int| 0 <= b < post.assets.len() implies match #[trigger] post.assets[b].holder {
                    Holder::Vault(j) => j < post.listings.len() && post.listings[j as int].nft_address == b
                        && is_open(post.listings[j as int].status),
                    Holder::Owner(_) => true,
                } by {
                    if b != asset {
                        assert(pre.assets[b] == post.assets[b]);
                        match pre.assets[b].holder {
                            Holder::Vault(j) => {
                                assert(j != l);
                            },
                            Holder::Owner(_) => {},
                        }
                    }
                }
            }
            assert(post.escrows_valid()) by {
                assert forall|f: int| 0 <= f < post.escrows.len() implies {
                    let y = #[trigger] post.escrows[f];
                    &&& y.listing < post.listings.len()
                    &&& post.has_user(y.buyer)
                    &&& y.seller == post.listings[y.listing as int].owner
                    &&& y.status == EscrowStatus::Open ==> {
                        &&& post.listings[y.listing as int].status == ListingStatus::Pending
                        &&& y.locked_amount == post.listings[y.listing as int].listing_price
                    }
                    &&& y.status != EscrowStatus::Open ==> y.locked_amount == 0
                } by {
                    if f != e {
                        assert(pre.escrows[f] == post.escrows[f]);
                        if pre.escrows[f].status == EscrowStatus::Open {
                            assert(pre.escrows[f].listing != l);
                        }
                    }
                }
            }
            assert(post.open_escrows_unique()) by {
                assert forall|e1: int, e2: int|
                    0 <= e1 < post.escrows.len() && 0 <= e2 < post.escrows.len()
                        && #[trigger] post.escrows[e1].listing == #[trigger] post.escrows[e2].listing
                        && post.escrows[e1].status == EscrowStatus::Open
                        && post.escrows[e2].status == EscrowStatus::Open implies e1 == e2 by {
                    assert(pre.escrows[e1] == post.escrows[e1]);
                    assert(pre.escrows[e2] == post.escrows[e2]);
                }
            }
            assert(pre.listings_follow(post)) by {
                assert forall|j: int| 0 <= j < pre.listings.len() implies allowed_transition(
                    #[trigger] pre.listings[j].status,
                    post.listings[j].status,
                ) by {}
            }
            assert(post =~= pre.released(e as int));
        }
        Ok(())
    }

    /// Refunds escrow `e`, on the word of the buyer or of the marketplace
    /// authority: the buyer gets the whole locked amount back with no fee, the
    /// asset stays in the vault, the listing is active again and the escrow is
    /// closed.
    pub fn refund(&mut self, caller: Pubkey, e: usize) -> (r: Result<(), MarketError>)
        requires
            old(self).wf(),
        ensures
            final(self).wf(),
            old(self)@.conserves_funds(final(self)@),
            old(self)@.listings_follow(final(self)@),
            match old(self)@.settle_error(caller, e as int) {
                Some(err) => r == Err::<(), MarketError>(err) && final(self)@ == old(self)@,
                None => r is Ok && final(self)@ == old(self)@.refunded(e as int),
            },
    {
        match self.check_settle(caller, e) {
            Ok(()) => {},
            Err(err) => return Err(err),
        }
        let ghost pre = self@;
        let x = self.escrows[e];
        let l = x.listing;
        let i = match self.find_user(x.buyer) {
            Some(i) => i,
            None => {
                assert(false);
                return Err(MarketError::UnknownAccount);
            },
        };
        proof {
            lemma_balances_update(pre.users, i as int, pre.users[i as int]);
            lemma_locked_update(pre.escrows, e as int, x);
        }
        let buyer = self.users[i];
        let u = UserAccount { balance: buyer.balance + x.locked_amount, ..buyer };
        let closed = Escrow { locked_amount: 0, status: EscrowStatus::Refunded, ..x };
        self.escrows.set(e, closed);
        self.users.set(i, u);
        self.listings[l].status = ListingStatus::Active;
        proof {
            let post = self@;
            assert(post.listings =~= pre.refunded(e as int).listings);
            lemma_same_owners(pre, post);
            lemma_balances_update(pre.users, i as int, u);
            lemma_locked_update(pre.escrows, e as int, closed);
            assert(post.listings_valid()) by {
                assert forall|j: int| 0 <= j < post.listings.len() implies {
                    let y = #[trigger] post.listings[j];
                    &&& y.nft_address < post.assets.len()
                    &&& post.has_user(y.owner)
                    &&& post.has_market(y.marketplace)
                    &&& is_open(y.status) ==> post.assets[y.nft_address as int].holder.in_vault(j)
                } by {
                    assert(pre.listings[j].nft_address == post.listings[j].nft_address);
                }
            }
            assert(post.vaults_valid()) by {
                assert forall|b: int| 0 <= b < post.assets.len() implies match #[trigger] post.assets[b].holder {
                    Holder::Vault(j) => j < post.listings.len() && post.listings[j as int].nft_address == b
                        && is_open(post.listings[j as int].status),
                    Holder::Owner(_) => true,
                } by {
                    assert(pre.assets[b] == post.assets[b]);
                }
            }
            assert(post.escrows_valid()) by {
                assert forall|f: int| 0 <= f < post.escrows.len() implies {
                    let y = #[trigger] post.escrows[f];
                    &&& y.listing < post.listings.len()
                    &&& post.has_user(y.buyer)
                    &&& y.seller == post.listings[y.listing as int].owner
                    &&& y.status == EscrowStatus::Open ==> {
                        &&& post.listings[y.listing as int].status == ListingStatus::Pending
                        &&& y.locked_amount == post.listings[y.listing as int].listing_price
                    }
                    &&& y.status != EscrowStatus::Open ==> y.locked_amount == 0
                } by {
                    if f != e {
                        assert(pre.escrows[f] == post.escrows[f]);
                        if pre.escrows[f].status == EscrowStatus::Open {
                            assert(pre.escrows[f].listing != l);
                        }
                    }
                }
            }
            assert(post.open_escrows_unique()) by {
                assert forall|e1: int, e2: int|
                    0 <= e1 < post.escrows.len() && 0 <= e2 < post.escrows.len()
                        && #[trigger] post.escrows[e1].listing == #[trigger] post.escrows[e2].listing
                        && post.escrows[e1].status == EscrowStatus::Open
                        && post.escrows[e2].status == EscrowStatus::Open implies e1 == e2 by {
                    assert(pre.escrows[e1] == post.escrows[e1]);
                    assert(pre.escrows[e2] == post.escrows[e2]);
                }
            }
            assert(pre.listings_follow(post)) by {
                assert forall|j: int| 0 <= j < pre.listings.len() implies allowed_transition(
                    #[trigger] pre.listings[j].status,
                    post.listings[j].status,
                ) by {}
            }
            assert(post =~= pre.refunded(e as int));
        }
        Ok(())
    }
}

} // verus!
