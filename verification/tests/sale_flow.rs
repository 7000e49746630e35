//! End-to-end sale lifecycle: creation, stocking, start, quotas,
//! exhaustion, pre-launch edits and pausing.

use nft_sale::{NonFungibleToken, SaleError};

fn engine() -> NonFungibleToken {
    NonFungibleToken::new(
        String::from("admin"),
        String::from("xp.asset"),
        5,
        Vec::new(),
    )
}

fn admin() -> String {
    String::from("admin")
}

fn stocked_sale(e: &mut NonFungibleToken, id: &str, amount: u64, price: u128) {
    e.nft_sale_add(
        &admin(),
        String::from(id),
        String::from("campaign"),
        amount,
        price,
        1,
        2,
        2,
        None,
    )
    .unwrap();
    let mut i: u64 = 0;
    while i < amount {
        let tok = format!("{}-tok{}", id, i);
        e.nft_mint(
            &admin(),
            tok,
            None,
            0,
            String::from("warrior"),
            Some(String::from(id)),
        )
        .unwrap();
        i += 1;
    }
}

#[test]
fn end_to_end_quota_and_exhaustion() {
    let mut e = engine();
    stocked_sale(&mut e, "s1", 3, 10);
    e.nft_sale_start(&admin(), String::from("s1"), 100).unwrap();

    let alice = String::from("alice");
    let bob = String::from("bob");
    let sale = String::from("s1");

    e.nft_buy(&alice, &sale, 2, 20, 100).unwrap();
    assert_eq!(e.nft_sale_account_minted(&sale, &alice), 2);
    assert_eq!(e.nft_sale_not_minted(&sale).unwrap(), 1);

    assert_eq!(e.nft_buy(&alice, &sale, 1, 10, 100), Err(SaleError::QuotaExceeded));
    assert_eq!(e.nft_sale_account_minted(&sale, &alice), 2);

    e.nft_buy(&bob, &sale, 1, 10, 100).unwrap();
    assert_eq!(e.nft_sale_account_minted(&sale, &bob), 1);
    assert_eq!(e.nft_sale_not_minted(&sale).unwrap(), 0);

    assert_eq!(
        e.nft_buy(&String::from("carol"), &sale, 1, 10, 100),
        Err(SaleError::InsufficientInventory)
    );

    // Every token left the pool owner for alice or bob, and the split is 2/1.
    let mut alice_owned = 0;
    let mut bob_owned = 0;
    for i in 0..3u64 {
        let id = format!("s1-tok{}", i);
        let t = e.nft_token(&id).unwrap();
        if t.owner_id == "alice" {
            alice_owned += 1;
        } else if t.owner_id == "bob" {
            bob_owned += 1;
        } else {
            panic!("token still with {}", t.owner_id);
        }
    }
    assert_eq!(alice_owned, 2);
    assert_eq!(bob_owned, 1);
}

#[test]
fn start_requires_fully_stocked_pool() {
    let mut e = engine();
    e.nft_sale_add(
        &admin(),
        String::from("s2"),
        String::from("campaign"),
        3,
        10,
        1,
        2,
        2,
        None,
    )
    .unwrap();
    e.nft_mint(
        &admin(),
        String::from("s2-a"),
        None,
        0,
        String::from("warrior"),
        Some(String::from("s2")),
    )
    .unwrap();
    assert_eq!(
        e.nft_sale_start(&admin(), String::from("s2"), 100),
        Err(SaleError::NotFullyStocked)
    );
    // still locked, not available
    assert!(e.nft_sales_locked().contains(&String::from("s2")));
    assert_eq!(e.nft_sales().len(), 0);

    e.nft_mint(&admin(), String::from("s2-b"), None, 0, String::from("warrior"), Some(String::from("s2"))).unwrap();
    e.nft_mint(&admin(), String::from("s2-c"), None, 0, String::from("warrior"), Some(String::from("s2"))).unwrap();
    let j = e.nft_sale_start(&admin(), String::from("s2"), 100).unwrap();
    assert!(!j.locked);
    assert_eq!(j.start_date, Some(100));
    assert!(!e.nft_sales_locked().contains(&String::from("s2")));
    assert_eq!(e.nft_sales().len(), 1);

    // the transition is irreversible
    assert_eq!(e.nft_sale_start(&admin(), String::from("s2"), 200), Err(SaleError::State));
}

#[test]
fn buy_respects_time_gate_and_transaction_bounds() {
    let mut e = engine();
    // lifetime maximum of 5 so the per-transaction bounds fail first
    e.nft_sale_add(
        &admin(),
        String::from("s3"),
        String::from("campaign"),
        3,
        10,
        1,
        2,
        5,
        None,
    )
    .unwrap();
    for i in 0..3u64 {
        e.nft_mint(
            &admin(),
            format!("s3-tok{}", i),
            None,
            0,
            String::from("warrior"),
            Some(String::from("s3")),
        )
        .unwrap();
    }
    e.nft_sale_start(&admin(), String::from("s3"), 500).unwrap();
    let who = String::from("alice");
    let sale = String::from("s3");
    assert_eq!(e.nft_buy(&who, &sale, 1, 10, 499), Err(SaleError::NotStarted));
    assert_eq!(e.nft_buy(&who, &sale, 3, 30, 500), Err(SaleError::TooMany));
    assert_eq!(e.nft_buy(&who, &sale, 0, 0, 500), Err(SaleError::TooFew));
    e.nft_buy(&who, &sale, 1, 10, 500).unwrap();
}

#[test]
fn update_only_while_locked() {
    let mut e = engine();
    stocked_sale(&mut e, "s4", 1, 10);
    let j = e
        .nft_sale_update(&admin(), String::from("s4"), 7, 1, 5, 9)
        .unwrap();
    assert_eq!(j.per_transaction_max, 5);
    assert_eq!(j.buy_max, 9);
    assert_eq!(j.start_date, Some(7));
    // price, name, amount stay immutable
    assert_eq!(j.price, 10);
    assert_eq!(j.amount, 1);

    e.nft_sale_start(&admin(), String::from("s4"), 100).unwrap();
    assert_eq!(
        e.nft_sale_update(&admin(), String::from("s4"), 8, 1, 5, 9),
        Err(SaleError::State)
    );
}

#[test]
fn pause_toggles_availability_only() {
    let mut e = engine();
    stocked_sale(&mut e, "s5", 2, 10);
    e.nft_sale_start(&admin(), String::from("s5"), 100).unwrap();
    let who = String::from("alice");
    let sale = String::from("s5");
    e.nft_buy(&who, &sale, 1, 10, 100).unwrap();

    e.nft_sale_pause(&admin(), String::from("s5"), true).unwrap();
    assert_eq!(e.nft_sales().len(), 0);
    assert_eq!(e.nft_buy(&who, &sale, 1, 10, 100), Err(SaleError::State));
    // pool and quota untouched
    assert_eq!(e.nft_sale_not_minted(&sale).unwrap(), 1);
    assert_eq!(e.nft_sale_account_minted(&sale, &who), 1);

    e.nft_sale_pause(&admin(), String::from("s5"), false).unwrap();
    assert_eq!(e.nft_sales().len(), 1);
    e.nft_buy(&who, &sale, 1, 10, 100).unwrap();
}

#[test]
fn registry_mutations_are_owner_only() {
    let mut e = engine();
    let stranger = String::from("mallory");
    assert_eq!(
        e.nft_sale_add(
            &stranger,
            String::from("s6"),
            String::from("campaign"),
            1,
            10,
            1,
            1,
            1,
            None
        ),
        Err(SaleError::Authorization)
    );
    stocked_sale(&mut e, "s6", 1, 10);
    assert_eq!(
        e.nft_sale_start(&stranger, String::from("s6"), 1),
        Err(SaleError::Authorization)
    );
    assert_eq!(
        e.nft_sale_update(&stranger, String::from("s6"), 1, 1, 1, 1),
        Err(SaleError::Authorization)
    );
    assert_eq!(
        e.nft_sale_pause(&stranger, String::from("s6"), true),
        Err(SaleError::Authorization)
    );
    assert_eq!(
        e.nft_mint(&stranger, String::from("x"), None, 0, String::from("warrior"), None),
        Err(SaleError::Authorization)
    );
}

#[test]
fn duplicate_identifiers_are_rejected() {
    let mut e = engine();
    stocked_sale(&mut e, "s7", 1, 10);
    assert_eq!(
        e.nft_sale_add(
            &admin(),
            String::from("s7"),
            String::from("again"),
            1,
            10,
            1,
            1,
            1,
            None
        ),
        Err(SaleError::IdInUse)
    );
    assert_eq!(
        e.nft_mint(&admin(), String::from("s7-tok0"), None, 0, String::from("warrior"), None),
        Err(SaleError::IdInUse)
    );
    // the same token cannot enter the same pool twice
    assert_eq!(
        e.internal_sale_add_token(&String::from("s7"), &String::from("s7-tok0")),
        Err(SaleError::AlreadyInSale)
    );
}

#[test]
fn counters_stay_within_limits_and_pool_balances() {
    let mut e = engine();
    stocked_sale(&mut e, "s8", 3, 10);
    e.nft_sale_start(&admin(), String::from("s8"), 0).unwrap();
    let sale = String::from("s8");
    let alice = String::from("alice");
    let bob = String::from("bob");

    // after every step: each counter <= buy_max (2), their sum <= buyers x 2,
    // and remaining + minted == declared amount (3)
    e.nft_buy(&alice, &sale, 2, 20, 0).unwrap();
    let a = e.nft_sale_account_minted(&sale, &alice) as u64;
    assert!(a <= 2);
    assert_eq!(e.nft_sale_not_minted(&sale).unwrap() + a, 3);

    let _ = e.nft_buy(&alice, &sale, 1, 10, 0); // refused: would break the bound
    let _ = e.nft_buy(&bob, &sale, 1, 10, 0);
    let a = e.nft_sale_account_minted(&sale, &alice) as u64;
    let b = e.nft_sale_account_minted(&sale, &bob) as u64;
    assert!(a <= 2 && b <= 2);
    assert!(a + b <= 2 * 2);
    assert_eq!(e.nft_sale_not_minted(&sale).unwrap() + a + b, 3);
}

#[test]
fn unknown_sale_reads_not_found() {
    let e = engine();
    assert_eq!(e.nft_sale(&String::from("ghost")), Err(SaleError::NotFound));
    assert_eq!(e.nft_sale_not_minted(&String::from("ghost")), Err(SaleError::NotFound));
    assert_eq!(e.nft_sale_token_locked(&String::from("ghost")), Err(SaleError::NotFound));
}
