use pika_vault::{
    initialize_marketplace, mint_and_list, register_user, EscrowStatus, Holder, Ledger, List,
    ListingStatus, MarketError, ReleaseEscrow,
};

const SELLER: u64 = 1;
const BUYER: u64 = 2;
const OTHER_BUYER: u64 = 3;
const AUTHORITY: u64 = 9;
const COLLECTION: u64 = 7;

fn balance(ledger: &Ledger, id: u64) -> u64 {
    ledger.users[ledger.find_user(id).unwrap()].balance
}

fn nft_listed(ledger: &Ledger, id: u64) -> u64 {
    ledger.users[ledger.find_user(id).unwrap()].nft_listed
}

fn total(ledger: &Ledger) -> u64 {
    let held: u64 = ledger.users.iter().map(|u| u.balance).sum();
    let locked: u64 = ledger.escrows.iter().map(|e| e.locked_amount).sum();
    held + locked + ledger.fees_collected
}

/// A marketplace charging `fee` basis points, a seller, two funded buyers,
/// and one active listing of asset 0 at `price`.
fn listed(fee: u16, price: u64) -> Ledger {
    let mut ledger = Ledger::new();
    register_user(&mut ledger, SELLER).unwrap();
    register_user(&mut ledger, BUYER).unwrap();
    register_user(&mut ledger, OTHER_BUYER).unwrap();
    ledger.deposit(BUYER, 1000).unwrap();
    ledger.deposit(OTHER_BUYER, 500).unwrap();
    initialize_marketplace(&mut ledger, AUTHORITY, fee, COLLECTION).unwrap();
    let ctx = List {
        maker: SELLER,
        marketplace: AUTHORITY,
        collection_mint: COLLECTION,
        collection_verified: true,
    };
    let l = mint_and_list(&mut ledger, &ctx, price, "holo".to_string(), "img".to_string(), 5).unwrap();
    assert_eq!(l, 0);
    ledger
}

#[test]
fn purchase_then_release_then_refund_fails() {
    let mut ledger = listed(250, 100);
    assert_eq!(ledger.listings[0].status, ListingStatus::Active);
    assert_eq!(ledger.assets[0].holder, Holder::Vault(0));
    assert_eq!(nft_listed(&ledger, SELLER), 1);

    let e = ledger.open_purchase(BUYER, 0).unwrap();
    assert_eq!(e, 0);
    assert_eq!(balance(&ledger, BUYER), 900);
    assert_eq!(ledger.escrows[0].locked_amount, 100);
    assert_eq!(ledger.escrows[0].seller, SELLER);
    assert_eq!(ledger.listings[0].status, ListingStatus::Pending);

    let req = ReleaseEscrow { caller: BUYER, escrow: 0 };
    assert_eq!(req.release_escrow(&mut ledger), Ok(()));
    // 2.5% of 100, rounded down.
    assert_eq!(balance(&ledger, SELLER), 98);
    assert_eq!(ledger.fees_collected, 2);
    assert_eq!(ledger.assets[0].holder, Holder::Owner(BUYER));
    assert_eq!(ledger.listings[0].status, ListingStatus::Sold);
    assert_eq!(ledger.escrows[0].status, EscrowStatus::Released);
    assert_eq!(ledger.escrows[0].locked_amount, 0);
    assert_eq!(nft_listed(&ledger, SELLER), 0);

    assert_eq!(ledger.refund(BUYER, 0), Err(MarketError::EscrowAlreadySettled));
    assert_eq!(ledger.refund(AUTHORITY, 0), Err(MarketError::EscrowAlreadySettled));
    assert_eq!(req.release_escrow(&mut ledger), Err(MarketError::EscrowAlreadySettled));
    assert_eq!(balance(&ledger, BUYER), 900);
    assert_eq!(balance(&ledger, SELLER), 98);
}

#[test]
fn resolver_refund_restores_buyer() {
    let mut ledger = listed(250, 100);
    ledger.open_purchase(BUYER, 0).unwrap();
    assert_eq!(ledger.refund(AUTHORITY, 0), Ok(()));
    assert_eq!(balance(&ledger, BUYER), 1000);
    assert_eq!(ledger.assets[0].holder, Holder::Vault(0));
    assert_eq!(ledger.listings[0].status, ListingStatus::Active);
    assert_eq!(ledger.escrows[0].status, EscrowStatus::Refunded);
    assert_eq!(ledger.escrows[0].locked_amount, 0);
    assert_eq!(ledger.fees_collected, 0);
    assert_eq!(ledger.release(BUYER, 0), Err(MarketError::EscrowAlreadySettled));

    // A new buyer may now purchase.
    assert_eq!(ledger.open_purchase(OTHER_BUYER, 0), Ok(1));
    assert_eq!(balance(&ledger, OTHER_BUYER), 400);
    assert_eq!(ledger.release(OTHER_BUYER, 1), Ok(()));
    assert_eq!(ledger.assets[0].holder, Holder::Owner(OTHER_BUYER));
}

#[test]
fn refund_then_seller_cancels() {
    let mut ledger = listed(250, 100);
    ledger.open_purchase(BUYER, 0).unwrap();
    ledger.refund(BUYER, 0).unwrap();
    assert_eq!(ledger.cancel_listing(SELLER, 0), Ok(()));
    assert_eq!(ledger.listings[0].status, ListingStatus::Cancelled);
    assert_eq!(ledger.assets[0].holder, Holder::Owner(SELLER));
    assert_eq!(nft_listed(&ledger, SELLER), 0);
    assert_eq!(ledger.cancel_listing(SELLER, 0), Err(MarketError::InvalidListingState));
    assert_eq!(ledger.open_purchase(BUYER, 0), Err(MarketError::InvalidListingState));
}

#[test]
fn concurrent_purchases_one_wins() {
    let mut ledger = listed(250, 100);
    assert_eq!(ledger.open_purchase(BUYER, 0), Ok(0));
    assert_eq!(ledger.open_purchase(OTHER_BUYER, 0), Err(MarketError::InvalidListingState));
    assert_eq!(balance(&ledger, OTHER_BUYER), 500);
    assert_eq!(ledger.escrows.len(), 1);
}

#[test]
fn funds_conserved_but_for_fees() {
    let mut ledger = listed(1000, 300);
    let start = total(&ledger);
    let funds = |l: &Ledger| total(l) - l.fees_collected;
    ledger.open_purchase(BUYER, 0).unwrap();
    assert_eq!(total(&ledger), start);
    ledger.refund(BUYER, 0).unwrap();
    assert_eq!(total(&ledger), start);
    ledger.open_purchase(OTHER_BUYER, 0).unwrap();
    let before = funds(&ledger);
    ledger.release(AUTHORITY, 1).unwrap();
    assert_eq!(ledger.fees_collected, 30);
    assert_eq!(funds(&ledger), before - 30);
    assert_eq!(total(&ledger), start);
    assert_eq!(balance(&ledger, SELLER), 270);
}

#[test]
fn asset_in_one_place_throughout() {
    let mut ledger = listed(0, 100);
    let open_listings_of = |l: &Ledger| {
        l.listings
            .iter()
            .filter(|x| x.nft_address == 0 && matches!(x.status, ListingStatus::Active | ListingStatus::Pending))
            .count()
    };
    assert_eq!(open_listings_of(&ledger), 1);
    ledger.open_purchase(BUYER, 0).unwrap();
    assert_eq!(ledger.assets[0].holder, Holder::Vault(0));
    ledger.release(BUYER, 0).unwrap();
    assert_eq!(open_listings_of(&ledger), 0);
    assert_eq!(ledger.assets.len(), 1);
    assert_eq!(ledger.assets[0].holder, Holder::Owner(BUYER));
    // The new holder relists it.
    assert_eq!(
        ledger.create_listing(BUYER, AUTHORITY, 0, 50, "holo".to_string(), "img".to_string(), 6),
        Ok(1)
    );
    assert_eq!(ledger.assets[0].holder, Holder::Vault(1));
    assert_eq!(open_listings_of(&ledger), 1);
}

#[test]
fn fee_rounds_down() {
    let mut ledger = listed(250, 999);
    ledger.open_purchase(BUYER, 0).unwrap();
    ledger.release(BUYER, 0).unwrap();
    assert_eq!(ledger.fees_collected, 24);
    assert_eq!(balance(&ledger, SELLER), 975);
}

#[test]
fn full_and_zero_fee() {
    let mut ledger = listed(10000, 100);
    ledger.open_purchase(BUYER, 0).unwrap();
    ledger.release(BUYER, 0).unwrap();
    assert_eq!(balance(&ledger, SELLER), 0);
    assert_eq!(ledger.fees_collected, 100);

    let mut ledger = listed(0, 100);
    ledger.open_purchase(BUYER, 0).unwrap();
    ledger.release(BUYER, 0).unwrap();
    assert_eq!(balance(&ledger, SELLER), 100);
    assert_eq!(ledger.fees_collected, 0);
}

#[test]
fn registration_twice_fails() {
    let mut ledger = Ledger::new();
    assert_eq!(register_user(&mut ledger, SELLER), Ok(()));
    assert_eq!(register_user(&mut ledger, SELLER), Err(MarketError::AlreadyRegistered));
    assert_eq!(ledger.users.len(), 1);
    assert_eq!(ledger.users[0].nft_listed, 0);
    assert_eq!(ledger.users[0].balance, 0);
}

#[test]
fn marketplace_fee_rules() {
    let mut ledger = Ledger::new();
    assert_eq!(initialize_marketplace(&mut ledger, AUTHORITY, 10001, COLLECTION), Err(MarketError::InvalidFee));
    assert_eq!(initialize_marketplace(&mut ledger, AUTHORITY, 10000, COLLECTION), Ok(()));
    assert_eq!(initialize_marketplace(&mut ledger, AUTHORITY, 5, COLLECTION), Err(MarketError::AlreadyRegistered));
    assert_eq!(ledger.update_fee(SELLER, AUTHORITY, 10), Err(MarketError::Unauthorized));
    assert_eq!(ledger.update_fee(AUTHORITY, AUTHORITY, 10001), Err(MarketError::InvalidFee));
    assert_eq!(ledger.update_fee(AUTHORITY, 4, 10), Err(MarketError::UnknownAccount));
    assert_eq!(ledger.update_fee(AUTHORITY, AUTHORITY, 10), Ok(()));
    assert_eq!(ledger.marketplaces[0].fee, 10);
}

#[test]
fn listing_rejections() {
    let mut ledger = listed(250, 100);
    let unverified = List {
        maker: SELLER,
        marketplace: AUTHORITY,
        collection_mint: COLLECTION,
        collection_verified: false,
    };
    assert_eq!(
        unverified.mint_and_list(&mut ledger, 10, String::new(), String::new(), 0),
        Err(MarketError::AssetNotVerified)
    );
    let foreign = List { collection_mint: 8, collection_verified: true, ..unverified };
    assert_eq!(
        foreign.mint_and_list(&mut ledger, 10, String::new(), String::new(), 0),
        Err(MarketError::AssetNotVerified)
    );
    let stranger = List { maker: 42, collection_mint: COLLECTION, ..foreign };
    assert_eq!(
        stranger.mint_and_list(&mut ledger, 10, String::new(), String::new(), 0),
        Err(MarketError::UnknownAccount)
    );
    assert_eq!(ledger.assets.len(), 1);
    assert_eq!(
        ledger.create_listing(SELLER, AUTHORITY, 0, 10, String::new(), String::new(), 0),
        Err(MarketError::DuplicateListing)
    );
    let a = ledger.mint_asset(SELLER, COLLECTION, true);
    assert_eq!(
        ledger.create_listing(BUYER, AUTHORITY, a, 10, String::new(), String::new(), 0),
        Err(MarketError::CustodyTransferFailed)
    );
    let b = ledger.mint_asset(SELLER, COLLECTION, false);
    assert_eq!(
        ledger.create_listing(SELLER, AUTHORITY, b, 10, String::new(), String::new(), 0),
        Err(MarketError::AssetNotVerified)
    );
    assert_eq!(
        ledger.create_listing(SELLER, AUTHORITY, 99, 10, String::new(), String::new(), 0),
        Err(MarketError::UnknownAccount)
    );
    assert_eq!(ledger.cancel_listing(BUYER, 0), Err(MarketError::Unauthorized));
    assert_eq!(ledger.cancel_listing(SELLER, 7), Err(MarketError::UnknownAccount));
}

#[test]
fn purchase_rejections() {
    let mut ledger = listed(250, 800);
    assert_eq!(ledger.open_purchase(SELLER, 0), Err(MarketError::Unauthorized));
    assert_eq!(ledger.open_purchase(OTHER_BUYER, 0), Err(MarketError::InsufficientFunds));
    assert_eq!(ledger.open_purchase(42, 0), Err(MarketError::UnknownAccount));
    assert_eq!(ledger.open_purchase(BUYER, 3), Err(MarketError::UnknownAccount));
    ledger.open_purchase(BUYER, 0).unwrap();
    assert_eq!(ledger.cancel_listing(SELLER, 0), Err(MarketError::InvalidListingState));
    assert_eq!(ledger.release(SELLER, 0), Err(MarketError::Unauthorized));
    assert_eq!(ledger.refund(OTHER_BUYER, 0), Err(MarketError::Unauthorized));
    assert_eq!(ledger.release(BUYER, 5), Err(MarketError::UnknownAccount));
    assert_eq!(ledger.listings[0].status, ListingStatus::Pending);
}

#[test]
fn deposit_rules() {
    let mut ledger = Ledger::new();
    assert_eq!(ledger.deposit(SELLER, 5), Err(MarketError::UnknownAccount));
    register_user(&mut ledger, SELLER).unwrap();
    register_user(&mut ledger, BUYER).unwrap();
    assert_eq!(ledger.deposit(SELLER, u64::MAX), Ok(()));
    assert_eq!(ledger.deposit(BUYER, 1), Err(MarketError::ArithmeticOverflow));
    assert_eq!(balance(&ledger, BUYER), 0);
    assert_eq!(ledger.supply, u64::MAX);
}
