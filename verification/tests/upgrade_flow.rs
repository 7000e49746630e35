//! The rarity-upgrade pricer: exact-fee application, the fixed tier order,
//! and the single bound asset of the notification upgrade path.

use nft_sale::{FtTransferArgs, NonFungibleToken, SaleError, UpgradePrice};

fn engine() -> NonFungibleToken {
    let prices = vec![
        UpgradePrice { token_type: String::from("warrior"), rarity: 1, price: 10 },
        UpgradePrice { token_type: String::from("warrior"), rarity: 2, price: 25 },
        UpgradePrice { token_type: String::from("mage"), rarity: 1, price: 7 },
    ];
    NonFungibleToken::new(String::from("admin"), String::from("xp.asset"), 2, prices)
}

fn admin() -> String {
    String::from("admin")
}

fn upgrade_args(token: &str) -> FtTransferArgs {
    FtTransferArgs {
        token_id: Some(String::from(token)),
        sale_id: None,
        receiver_id: None,
        mint_amount: None,
    }
}

#[test]
fn apply_requires_the_exact_fee() {
    let mut e = engine();
    e.nft_mint(
        &admin(),
        String::from("t1"),
        Some(String::from("alice")),
        0,
        String::from("warrior"),
        None,
    )
    .unwrap();

    // fee for (warrior, tier 2) is 25
    assert_eq!(e.upgrade_price(&String::from("warrior"), 2), Ok(25));
    e.upgrade_apply(&String::from("t1"), 25, 2).unwrap();
    assert_eq!(e.nft_token(&String::from("t1")).unwrap().rarity, 2);

    // underpayment by one unit is refused and changes nothing
    e.nft_mint(
        &admin(),
        String::from("t2"),
        Some(String::from("alice")),
        0,
        String::from("warrior"),
        None,
    )
    .unwrap();
    assert_eq!(e.upgrade_apply(&String::from("t2"), 24, 2), Err(SaleError::PaymentMismatch));
    assert_eq!(e.nft_token(&String::from("t2")).unwrap().rarity, 0);
    // overpayment is refused too
    assert_eq!(e.upgrade_apply(&String::from("t2"), 26, 2), Err(SaleError::PaymentMismatch));
    assert_eq!(e.nft_token(&String::from("t2")).unwrap().rarity, 0);
}

#[test]
fn missing_table_row_means_no_such_transition() {
    let mut e = engine();
    e.nft_mint(
        &admin(),
        String::from("m1"),
        Some(String::from("alice")),
        1,
        String::from("mage"),
        None,
    )
    .unwrap();
    // (mage, tier 2) has no row in the sparse table
    assert_eq!(e.upgrade_price(&String::from("mage"), 2), Err(SaleError::NoSuchTransition));
    assert_eq!(e.upgrade_apply(&String::from("m1"), 25, 2), Err(SaleError::NoSuchTransition));
    assert_eq!(e.nft_token(&String::from("m1")).unwrap().rarity, 1);
}

#[test]
fn notification_upgrade_moves_one_tier_at_the_exact_fee() {
    let mut e = engine();
    e.nft_mint(
        &admin(),
        String::from("w1"),
        Some(String::from("alice")),
        0,
        String::from("warrior"),
        None,
    )
    .unwrap();
    let alice = String::from("alice");
    let xp = String::from("xp.asset");

    // next tier from 0 is 1, priced 10; a wrong amount refunds in full
    let r = e.ft_on_transfer(&alice, &xp, 9, upgrade_args("w1"), 0);
    assert_eq!(r.error, Some(SaleError::PaymentMismatch));
    assert_eq!(r.refund, 9);
    assert_eq!(e.nft_token(&String::from("w1")).unwrap().rarity, 0);

    let r = e.ft_on_transfer(&alice, &xp, 10, upgrade_args("w1"), 0);
    assert_eq!(r.error, None);
    assert_eq!(r.refund, 0);
    assert_eq!(e.nft_token(&String::from("w1")).unwrap().rarity, 1);

    // and once more to the top tier
    let r = e.ft_on_transfer(&alice, &xp, 25, upgrade_args("w1"), 0);
    assert_eq!(r.error, None);
    assert_eq!(e.nft_token(&String::from("w1")).unwrap().rarity, 2);

    // at the top, no further upgrade exists
    let r = e.ft_on_transfer(&alice, &xp, 99, upgrade_args("w1"), 0);
    assert_eq!(r.error, Some(SaleError::MaxTierReached));
    assert_eq!(r.refund, 99);
    assert_eq!(e.next_rarity(&String::from("w1")), Err(SaleError::MaxTierReached));
}

#[test]
fn notification_upgrade_guards_asset_sender_and_amount() {
    let mut e = engine();
    e.nft_mint(
        &admin(),
        String::from("w2"),
        Some(String::from("alice")),
        0,
        String::from("warrior"),
        None,
    )
    .unwrap();
    let alice = String::from("alice");

    // only the one bound asset pays for upgrades
    let r = e.ft_on_transfer(&alice, &String::from("pay.asset"), 10, upgrade_args("w2"), 0);
    assert_eq!(r.error, Some(SaleError::UnsupportedAsset));
    assert_eq!(r.refund, 10);

    // a zero amount is meaningless
    let r = e.ft_on_transfer(&alice, &String::from("xp.asset"), 0, upgrade_args("w2"), 0);
    assert_eq!(r.error, Some(SaleError::InvalidArgs));
    assert_eq!(r.refund, 0);

    // only the token's owner may pay for its upgrade
    let r = e.ft_on_transfer(
        &String::from("mallory"),
        &String::from("xp.asset"),
        10,
        upgrade_args("w2"),
        0,
    );
    assert_eq!(r.error, Some(SaleError::Authorization));
    assert_eq!(r.refund, 10);

    // an unknown token cannot be upgraded
    let r = e.ft_on_transfer(&alice, &String::from("xp.asset"), 10, upgrade_args("ghost"), 0);
    assert_eq!(r.error, Some(SaleError::NotFound));
    assert_eq!(r.refund, 10);

    assert_eq!(e.nft_token(&String::from("w2")).unwrap().rarity, 0);
}
