use vstd::prelude::*;
use crate::instructions::List;
use crate::ledger::Ledger;
use crate::model::LedgerModel;
use crate::state::{MarketError, Pubkey, UserAccount, MAX_FEE_BPS};

verus! {

/// Registers `user` in the identity registry (see `Ledger::register`).
pub fn register_user(ledger: &mut Ledger, user: Pubkey) -> (r: Result<(), MarketError>)
    requires
        old(ledger).wf(),
    ensures
        final(ledger).wf(),
        old(ledger)@.has_user(user) ==> r == Err::<(), MarketError>(MarketError::AlreadyRegistered)
            && final(ledger)@ == old(ledger)@,
        !old(ledger)@.has_user(user) ==> r is Ok && final(ledger)@ == (LedgerModel {
            users: old(ledger)@.users.push(UserAccount { owner: user, nft_listed: 0, balance: 0 }),
            ..old(ledger)@
        }),
{
    ledger.register(user)
}

/// Creates the marketplace of `authority` (see `Ledger::initialize`).
pub fn initialize_marketplace(
    ledger: &mut Ledger,
    authority: Pubkey,
    fee: u16,
    collection: Pubkey,
) -> (r: Result<(), MarketError>)
    requires
        old(ledger).wf(),
    ensures
        final(ledger).wf(),
        fee > MAX_FEE_BPS ==> r == Err::<(), MarketError>(MarketError::InvalidFee),
        fee <= MAX_FEE_BPS && old(ledger)@.has_market(authority) ==> r == Err::<(), MarketError>(
            MarketError::AlreadyRegistered,
        ),
        r is Err ==> final(ledger)@ == old(ledger)@,
        r is Ok <==> fee <= MAX_FEE_BPS && !old(ledger)@.has_market(authority),
        r is Ok ==> final(ledger)@ == (LedgerModel {
            marketplaces: old(ledger)@.marketplaces.push(
                crate::state::MarketPlace { authority, fee: fee as u64, collection },
            ),
            ..old(ledger)@
        }),
{
    ledger.initialize(authority, fee, collection)
}

/// Mints and lists one asset (see `List::mint_and_list`).
pub fn mint_and_list(
    ledger: &mut Ledger,
    ctx: &List,
    listing_price: u64,
    card_metadata: String,
    image_url: String,
    created_at: i64,
) -> (r: Result<usize, MarketError>)
    requires
        old(ledger).wf(),
        old(ledger).assets.len() < usize::MAX,
        old(ledger).listings.len() < usize::MAX,
    ensures
        final(ledger).wf(),
        old(ledger)@.listings_follow(final(ledger)@),
        old(ledger)@.conserves_funds(final(ledger)@),
        old(ledger)@.mint_list_error(ctx.maker, ctx.marketplace, ctx.collection_mint, ctx.collection_verified)
            matches Some(e) ==> r == Err::<usize, MarketError>(e) && final(ledger)@ == old(ledger)@,
        old(ledger)@.mint_list_error(ctx.maker, ctx.marketplace, ctx.collection_mint, ctx.collection_verified)
            is None ==> r == Ok::<usize, MarketError>(old(ledger)@.listings.len() as usize)
            && final(ledger)@.listings == old(ledger)@.listings.push(
            crate::state::ListingAccount {
                owner: ctx.maker,
                marketplace: ctx.marketplace,
                nft_address: old(ledger)@.assets.len() as usize,
                card_metadata,
                image_url,
                listing_price,
                status: crate::state::ListingStatus::Active,
                created_at,
            },
        ) && final(ledger)@.assets.len() == old(ledger)@.assets.len() + 1
            && final(ledger)@.assets.last().holder == crate::state::Holder::Vault(
            old(ledger)@.listings.len() as usize,
        ),
{
    ctx.mint_and_list(ledger, listing_price, card_metadata, image_url, created_at)
}

} // verus!
