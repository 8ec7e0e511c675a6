use vstd::prelude::*;
use crate::model::{is_open, LedgerModel};
use crate::state::{EscrowStatus, Holder, ListingStatus, MarketError, Pubkey};

verus! {

/// Listing `l` is open and holds asset `a` in its vault.
pub open spec fn listed_in(m: LedgerModel, l: int, a: int) -> bool {
    0 <= l < m.listings.len() && m.listings[l].nft_address == a && is_open(m.listings[l].status)
}

/// Every asset is in exactly one place: either in the holding of one
/// identity, with no open listing of it anywhere, or in the vault of the
/// one open listing of it.
pub proof fn lemma_asset_in_one_place(m: LedgerModel, a: int)
    requires
        m.wf(),
        0 <= a < m.assets.len(),
    ensures
        match m.assets[a].holder {
            Holder::Owner(_) => forall|l: int| !#[trigger] listed_in(m, l, a),
            Holder::Vault(v) => forall|l: int| #[trigger] listed_in(m, l, a) <==> l == v,
        },
{
    assert(m.assets[a] == m.assets[a]);
    assert forall|l: int| #[trigger] listed_in(m, l, a) implies m.assets[a].holder.in_vault(l) by {
        assert(m.listings[l] == m.listings[l]);
    }
}

/// Release and refund exclude each other: once an escrow is settled either
/// way, any further release or refund, by anyone, fails with
/// `EscrowAlreadySettled`.
pub proof fn lemma_settled_once(m: LedgerModel, caller: Pubkey, next_caller: Pubkey, e: int)
    requires
        m.wf(),
        m.settle_error(caller, e) is None,
    ensures
        m.released(e).settle_error(next_caller, e) == Some(MarketError::EscrowAlreadySettled),
        m.refunded(e).settle_error(next_caller, e) == Some(MarketError::EscrowAlreadySettled),
{
}

/// A listing leaves no state but `Active` by cancellation or purchase: from
/// any other state both fail with `InvalidListingState`. A sold or cancelled
/// listing has no open escrow either, so nothing moves it again.
pub proof fn lemma_only_active_moves(m: LedgerModel, caller: Pubkey, l: int)
    requires
        m.wf(),
        0 <= l < m.listings.len(),
        m.listings[l].status != ListingStatus::Active,
    ensures
        m.cancel_error(caller, l) == Some(MarketError::InvalidListingState),
        m.purchase_error(caller, l) == Some(MarketError::InvalidListingState),
        !is_open(m.listings[l].status) ==> forall|e: int|
            0 <= e < m.escrows.len() && #[trigger] m.escrows[e].listing == l ==> m.escrows[e].status
                != EscrowStatus::Open,
{
}

/// Over any run of operations that each conserve funds and fees together,
/// the funds held by identities and escrows fall by exactly the fees
/// collected during the run.
pub proof fn lemma_funds_over_run(states: Seq<LedgerModel>)
    requires
        states.len() > 0,
        forall|i: int| 0 <= i < states.len() - 1 ==> #[trigger] states[i].conserves_funds(states[i + 1]),
    ensures
        states.last().funds() == states[0].funds() - (states.last().fees_collected - states[0].fees_collected),
    decreases states.len(),
{
    if states.len() > 1 {
        let prefix = states.drop_last();
        assert forall|i: int| 0 <= i < prefix.len() - 1 implies #[trigger] prefix[i].conserves_funds(prefix[i + 1]) by {
            assert(states[i].conserves_funds(states[i + 1]));
        }
        lemma_funds_over_run(prefix);
        let k = states.len() - 2;
        assert(states[k].conserves_funds(states[k + 1]));
    }
}

} // verus!
