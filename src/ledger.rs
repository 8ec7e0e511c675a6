use vstd::prelude::*;
use crate::model::{is_open, LedgerModel};
use crate::state::{
    Asset, Escrow, Holder, ListingAccount, MarketError, MarketPlace, Pubkey, UserAccount,
    MAX_FEE_BPS,
};
use crate::sums::{lemma_balances_push, lemma_balances_update};

verus! {

/// The marketplace state: identity registry, marketplace configurations,
/// minted assets, listings and escrows. Records are addressed by their key
/// (an identity, an authority) or by their index.
pub struct Ledger {
    pub users: Vec<UserAccount>,
    pub marketplaces: Vec<MarketPlace>,
    pub assets: Vec<Asset>,
    pub listings: Vec<ListingAccount>,
    pub escrows: Vec<Escrow>,
    pub fees_collected: u64,
    pub supply: u64,
}

impl View for Ledger {
    type V = LedgerModel;

    open spec fn view(&self) -> LedgerModel {
        LedgerModel {
            users: self.users@,
            marketplaces: self.marketplaces@,
            assets: self.assets@,
            listings: self.listings@,
            escrows: self.escrows@,
            fees_collected: self.fees_collected as int,
            supply: self.supply as int,
        }
    }
}

pub proof fn lemma_user_index(m: LedgerModel, i: int)
    requires
        m.users_unique(),
        0 <= i < m.users.len(),
    ensures
        m.user_index(m.users[i].owner) == i,
        m.has_user(m.users[i].owner),
{
    assert(m.owners()[i] == m.users[i].owner);
}

pub proof fn lemma_market_index(m: LedgerModel, k: int)
    requires
        m.markets_unique(),
        0 <= k < m.marketplaces.len(),
    ensures
        m.market_index(m.marketplaces[k].authority) == k,
        m.has_market(m.marketplaces[k].authority),
{
    assert(m.authorities()[k] == m.marketplaces[k].authority);
}

pub proof fn lemma_contains_push(s: Seq<Pubkey>, x: Pubkey, y: Pubkey)
    ensures
        s.push(x).contains(y) == (s.contains(y) || y == x),
{
    if s.contains(y) {
        let i = choose|i: int| 0 <= i < s.len() && s[i] == y;
        assert(s.push(x)[i] == y);
    }
    if y == x {
        assert(s.push(x)[s.len() as int] == y);
    }
    if s.push(x).contains(y) && y != x {
        let i = choose|i: int| 0 <= i < s.len() + 1 && s.push(x)[i] == y;
        assert(s[i] == y);
    }
}

/// A change that keeps every identity's key keeps the registry well keyed.
pub proof fn lemma_same_owners(pre: LedgerModel, post: LedgerModel)
    requires
        pre.users_unique(),
        post.users.len() == pre.users.len(),
        forall|i: int| 0 <= i < pre.users.len() ==> #[trigger] post.users[i].owner == pre.users[i].owner,
    ensures
        post.users_unique(),
        post.owners() == pre.owners(),
        forall|id: Pubkey| pre.has_user(id) ==> post.user_index(id) == pre.user_index(id),
{
    assert(post.owners() =~= pre.owners());
    assert forall|x: int, y: int|
        0 <= x < post.users.len() && 0 <= y < post.users.len()
            && #[trigger] post.users[x].owner == #[trigger] post.users[y].owner implies x == y by {
        assert(pre.users[x].owner == post.users[x].owner);
        assert(pre.users[y].owner == post.users[y].owner);
    }
    assert forall|id: Pubkey| pre.has_user(id) implies post.user_index(id) == pre.user_index(id) by {
        let pi = pre.user_index(id);
        let w = choose|i: int| 0 <= i < pre.owners().len() && pre.owners()[i] == id;
        assert(pre.users[w].owner == id);
        assert(0 <= pi < pre.users.len() && pre.users[pi].owner == id);
        assert(post.users[pi].owner == id);
        let qi = post.user_index(id);
        assert(0 <= qi < post.users.len() && post.users[qi].owner == id);
        assert(pre.users[qi].owner == id);
    }
}

impl Ledger {
    pub open spec fn wf(&self) -> bool {
        self@.wf()
    }

    /// An empty ledger.
    pub fn new() -> (r: Ledger)
        ensures
            r.wf(),
            r@.users.len() == 0,
            r@.marketplaces.len() == 0,
            r@.assets.len() == 0,
            r@.listings.len() == 0,
            r@.escrows.len() == 0,
            r@.fees_collected == 0,
            r@.supply == 0,
    {
        Ledger {
            users: Vec::new(),
            marketplaces: Vec::new(),
            assets: Vec::new(),
            listings: Vec::new(),
            escrows: Vec::new(),
            fees_collected: 0,
            supply: 0,
        }
    }

    /// The index of the record of identity `id`.
    pub fn find_user(&self, id: Pubkey) -> (r: Option<usize>)
        requires
            self.wf(),
        ensures
            match r {
                Some(i) => i < self.users.len() && self.users@[i as int].owner == id
                    && self@.user_index(id) == i && self@.has_user(id),
                None => !self@.has_user(id),
            },
    {
        let mut i: usize = 0;
        while i < self.users.len()
            invariant
                self.wf(),
                i <= self.users.len(),
                forall|j: int| 0 <= j < i ==> #[trigger] self.users@[j].owner != id,
            decreases self.users.len() - i,
        {
            if self.users[i].owner == id {
                proof {
                    lemma_user_index(self@, i as int);
                }
                return Some(i);
            }
            i = i + 1;
        }
        proof {
            assert forall|j: int| 0 <= j < self@.owners().len() implies self@.owners()[j] != id by {
                assert(self.users@[j].owner != id);
            }
        }
        None
    }

    /// The index of the configuration of the marketplace of `authority`.
    pub fn find_marketplace(&self, authority: Pubkey) -> (r: Option<usize>)
        requires
            self.wf(),
        ensures
            match r {
                Some(k) => k < self.marketplaces.len() && self.marketplaces@[k as int].authority
                    == authority && self@.market_index(authority) == k && self@.has_market(authority),
                None => !self@.has_market(authority),
            },
    {
        let mut k: usize = 0;
        while k < self.marketplaces.len()
            invariant
                self.wf(),
                k <= self.marketplaces.len(),
                forall|j: int| 0 <= j < k ==> #[trigger] self.marketplaces@[j].authority != authority,
            decreases self.marketplaces.len() - k,
        {
            if self.marketplaces[k].authority == authority {
                proof {
                    lemma_market_index(self@, k as int);
                }
                return Some(k);
            }
            k = k + 1;
        }
        proof {
            assert forall|j: int| 0 <= j < self@.authorities().len() implies self@.authorities()[j]
                != authority by {
                assert(self.marketplaces@[j].authority != authority);
            }
        }
        None
    }

    /// Registers identity `id` with a zeroed record.
    pub fn register(&mut self, id: Pubkey) -> (r: Result<(), MarketError>)
        requires
            old(self).wf(),
        ensures
            final(self).wf(),
            old(self)@.conserves_funds(final(self)@),
            old(self)@.listings_follow(final(self)@),
            old(self)@.has_user(id) ==> r == Err::<(), MarketError>(MarketError::AlreadyRegistered)
                && final(self)@ == old(self)@,
            !old(self)@.has_user(id) ==> r is Ok && final(self)@ == (LedgerModel {
                users: old(self)@.users.push(UserAccount { owner: id, nft_listed: 0, balance: 0 }),
                ..old(self)@
            }),
    {
        if self.find_user(id).is_some() {
            return Err(MarketError::AlreadyRegistered);
        }
        let ghost pre = self@;
        let u = UserAccount { owner: id, nft_listed: 0, balance: 0 };
        self.users.push(u);
        proof {
            let post = self@;
            assert(post.owners() =~= pre.owners().push(id));
            assert forall|x: Pubkey| pre.has_user(x) implies post.has_user(x) by {
                lemma_contains_push(pre.owners(), id, x);
            }
            assert(post.users_unique()) by {
                assert forall|i: int, j: int|
                    0 <= i < post.users.len() && 0 <= j < post.users.len()
                        && #[trigger] post.users[i].owner == #[trigger] post.users[j].owner implies i
                    == j by {
                    if i < pre.users.len() {
                        assert(pre.owners()[i] == pre.users[i].owner);
                    }
                    if j < pre.users.len() {
                        assert(pre.owners()[j] == pre.users[j].owner);
                    }
                }
            }
            lemma_balances_push(pre.users, u);
        }
        Ok(())
    }

    /// Credits `amount` of outside funds to the balance of `id`.
    pub fn deposit(&mut self, id: Pubkey, amount: u64) -> (r: Result<(), MarketError>)
        requires
            old(self).wf(),
        ensures
            final(self).wf(),
            old(self)@.listings_follow(final(self)@),
            r is Ok ==> final(self)@.funds() == old(self)@.funds() + amount,
            !old(self)@.has_user(id) ==> r == Err::<(), MarketError>(MarketError::UnknownAccount),
            old(self)@.has_user(id) && old(self)@.supply + amount > u64::MAX ==> r == Err::<
                (),
                MarketError,
            >(MarketError::ArithmeticOverflow),
            r is Err ==> final(self)@ == old(self)@,
            r is Ok <==> old(self)@.has_user(id) && old(self)@.supply + amount <= u64::MAX,
            r is Ok ==> final(self)@ == (LedgerModel {
                users: old(self)@.users.update(
                    old(self)@.user_index(id),
                    UserAccount { balance: (old(self)@.user(id).balance + amount) as u64, ..old(self)@.user(id) },
                ),
                supply: old(self)@.supply + amount,
                ..old(self)@
            }),
    {
        let i = match self.find_user(id) {
            Some(i) => i,
            None => return Err(MarketError::UnknownAccount),
        };
        if amount > u64::MAX - self.supply {
            return Err(MarketError::ArithmeticOverflow);
        }
        let ghost pre = self@;
        proof {
            lemma_balances_update(pre.users, i as int, pre.users[i as int]);
            crate::sums::lemma_locked_nonneg(pre.escrows);
        }
        let u = UserAccount { balance: self.users[i].balance + amount, ..self.users[i] };
        self.users.set(i, u);
        self.supply = self.supply + amount;
        proof {
            let post = self@;
            assert(post.owners() =~= pre.owners());
            lemma_balances_update(pre.users, i as int, u);
        }
        Ok(())
    }
    /// Creates the marketplace of `authority`, charging `fee` basis points on
    /// each sale of assets of `collection`.
    pub fn initialize(&mut self, authority: Pubkey, fee: u16, collection: Pubkey) -> (r: Result<(), MarketError>)
        requires
            old(self).wf(),
        ensures
            final(self).wf(),
            old(self)@.conserves_funds(final(self)@),
            old(self)@.listings_follow(final(self)@),
            fee > MAX_FEE_BPS ==> r == Err::<(), MarketError>(MarketError::InvalidFee),
            fee <= MAX_FEE_BPS && old(self)@.has_market(authority) ==> r == Err::<(), MarketError>(
                MarketError::AlreadyRegistered,
            ),
            r is Err ==> final(self)@ == old(self)@,
            r is Ok <==> fee <= MAX_FEE_BPS && !old(self)@.has_market(authority),
            r is Ok ==> final(self)@ == (LedgerModel {
                marketplaces: old(self)@.marketplaces.push(
                    MarketPlace { authority, fee: fee as u64, collection },
                ),
                ..old(self)@
            }),
    {
        if fee as u64 > MAX_FEE_BPS {
            return Err(MarketError::InvalidFee);
        }
        if self.find_marketplace(authority).is_some() {
            return Err(MarketError::AlreadyRegistered);
        }
        let ghost pre = self@;
        self.marketplaces.push(MarketPlace { authority, fee: fee as u64, collection });
        proof {
            let post = self@;
            assert(post.authorities() =~= pre.authorities().push(authority));
            assert forall|x: Pubkey| pre.has_market(x) implies post.has_market(x) by {
                lemma_contains_push(pre.authorities(), authority, x);
            }
            assert(post.markets_unique()) by {
                assert forall|i: int, j: int|
                    0 <= i < post.marketplaces.len() && 0 <= j < post.marketplaces.len()
                        && #[trigger] post.marketplaces[i].authority
                        == #[trigger] post.marketplaces[j].authority implies i == j by {
                    if i < pre.marketplaces.len() {
                        assert(pre.authorities()[i] == pre.marketplaces[i].authority);
                    }
                    if j < pre.marketplaces.len() {
                        assert(pre.authorities()[j] == pre.marketplaces[j].authority);
                    }
                }
            }
            assert(post.fees_valid()) by {
                assert forall|k: int| 0 <= k < post.marketplaces.len() implies #[trigger] post.marketplaces[k].fee
                    <= MAX_FEE_BPS by {
                    if k < pre.marketplaces.len() {
                        assert(pre.marketplaces[k] == post.marketplaces[k]);
                    }
                }
            }
        }
        Ok(())
    }

    /// Sets the fee of the marketplace of `authority`; only the authority may.
    pub fn update_fee(&mut self, caller: Pubkey, authority: Pubkey, fee: u16) -> (r: Result<(), MarketError>)
        requires
            old(self).wf(),
        ensures
            final(self).wf(),
            old(self)@.conserves_funds(final(self)@),
            old(self)@.listings_follow(final(self)@),
            !old(self)@.has_market(authority) ==> r == Err::<(), MarketError>(MarketError::UnknownAccount),
            old(self)@.has_market(authority) && caller != authority ==> r == Err::<(), MarketError>(
                MarketError::Unauthorized,
            ),
            old(self)@.has_market(authority) && caller == authority && fee > MAX_FEE_BPS ==> r == Err::<
                (),
                MarketError,
            >(MarketError::InvalidFee),
            r is Err ==> final(self)@ == old(self)@,
            r is Ok <==> old(self)@.has_market(authority) && caller == authority && fee <= MAX_FEE_BPS,
            r is Ok ==> final(self)@ == (LedgerModel {
                marketplaces: old(self)@.marketplaces.update(
                    old(self)@.market_index(authority),
                    MarketPlace { fee: fee as u64, ..old(self)@.market(authority) },
                ),
                ..old(self)@
            }),
    {
        let k = match self.find_marketplace(authority) {
            Some(k) => k,
            None => return Err(MarketError::UnknownAccount),
        };
        if caller != authority {
            return Err(MarketError::Unauthorized);
        }
        if fee as u64 > MAX_FEE_BPS {
            return Err(MarketError::InvalidFee);
        }
        let ghost pre = self@;
        let m = MarketPlace { fee: fee as u64, ..self.marketplaces[k] };
        self.marketplaces.set(k, m);
        proof {
            let post = self@;
            assert(post.authorities() =~= pre.authorities());
            assert(post.markets_unique()) by {
                assert forall|i: int, j: int|
                    0 <= i < post.marketplaces.len() && 0 <= j < post.marketplaces.len()
                        && #[trigger] post.marketplaces[i].authority
                        == #[trigger] post.marketplaces[j].authority implies i == j by {
                    assert(pre.marketplaces[i].authority == post.marketplaces[i].authority);
                    assert(pre.marketplaces[j].authority == post.marketplaces[j].authority);
                }
            }
            assert(post.fees_valid()) by {
                assert forall|j: int| 0 <= j < post.marketplaces.len() implies #[trigger] post.marketplaces[j].fee
                    <= MAX_FEE_BPS by {
                    if j != k {
                        assert(pre.marketplaces[j] == post.marketplaces[j]);
                    }
                }
            }
        }
        Ok(())
    }

    /// Records a newly minted asset of `collection`, in the holding of `owner`;
    /// returns its index.
    pub fn mint_asset(&mut self, owner: Pubkey, collection: Pubkey, verified: bool) -> (r: usize)
        requires
            old(self).wf(),
            old(self).assets.len() < usize::MAX,
        ensures
            final(self).wf(),
            old(self)@.conserves_funds(final(self)@),
            old(self)@.listings_follow(final(self)@),
            r == old(self)@.assets.len(),
            final(self)@ == (LedgerModel {
                assets: old(self)@.assets.push(Asset { collection, verified, holder: Holder::Owner(owner) }),
                ..old(self)@
            }),
    {
        let r = self.assets.len();
        let ghost pre = self@;
        self.assets.push(Asset { collection, verified, holder: Holder::Owner(owner) });
        proof {
            let post = self@;
            assert(post.listings_valid()) by {
                assert forall|l: int| 0 <= l < post.listings.len() implies {
                    let x = #[trigger] post.listings[l];
                    &&& x.nft_address < post.assets.len()
                    &&& post.has_user(x.owner)
                    &&& post.has_market(x.marketplace)
                    &&& is_open(x.status) ==> post.assets[x.nft_address as int].holder.in_vault(l)
                } by {
                    assert(pre.listings[l] == post.listings[l]);
                }
            }
            assert(post.vaults_valid()) by {
                assert forall|a: int| 0 <= a < post.assets.len() implies match #[trigger] post.assets[a].holder {
                    Holder::Vault(l) => l < post.listings.len() && post.listings[l as int].nft_address == a
                        && is_open(post.listings[l as int].status),
                    Holder::Owner(_) => true,
                } by {
                    if a < pre.assets.len() {
                        assert(pre.assets[a] == post.assets[a]);
                    }
                }
            }
        }
        r
    }
}

} // verus!
