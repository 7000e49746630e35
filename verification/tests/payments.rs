//! Payment matching on both entry paths: native deposits on the direct
//! path, exact amounts and the refund obligation on the notification path.

use nft_sale::{FtTransferArgs, NonFungibleToken, SaleError};

fn engine() -> NonFungibleToken {
    NonFungibleToken::new(String::from("admin"), String::from("xp.asset"), 5, Vec::new())
}

fn admin() -> String {
    String::from("admin")
}

fn purchase_args(sale: &str, receiver: &str, n: u64) -> FtTransferArgs {
    FtTransferArgs {
        token_id: None,
        sale_id: Some(String::from(sale)),
        receiver_id: Some(String::from(receiver)),
        mint_amount: Some(n),
    }
}

fn stocked_sale(e: &mut NonFungibleToken, id: &str, amount: u64, ft: Option<&str>) {
    e.nft_sale_add(
        &admin(),
        String::from(id),
        String::from("campaign"),
        amount,
        10,
        1,
        2,
        2,
        ft.map(String::from),
    )
    .unwrap();
    let mut i: u64 = 0;
    while i < amount {
        e.nft_mint(
            &admin(),
            format!("{}-tok{}", id, i),
            None,
            0,
            String::from("warrior"),
            Some(String::from(id)),
        )
        .unwrap();
        i += 1;
    }
    e.nft_sale_start(&admin(), String::from(id), 100).unwrap();
}

#[test]
fn direct_buy_on_asset_bound_sale_is_rejected_whatever_the_deposit() {
    let mut e = engine();
    stocked_sale(&mut e, "s1", 2, Some("pay.asset"));
    let who = String::from("alice");
    let sale = String::from("s1");
    assert_eq!(e.nft_buy(&who, &sale, 1, 10, 100), Err(SaleError::PaymentMismatch));
    assert_eq!(e.nft_buy(&who, &sale, 1, 0, 100), Err(SaleError::PaymentMismatch));
    assert_eq!(
        e.nft_buy(&who, &sale, 1, u128::MAX, 100),
        Err(SaleError::PaymentMismatch)
    );
    assert_eq!(e.nft_sale_not_minted(&sale).unwrap(), 2);
}

#[test]
fn direct_buy_requires_covering_deposit() {
    let mut e = engine();
    stocked_sale(&mut e, "s2", 2, None);
    let who = String::from("alice");
    let sale = String::from("s2");
    assert_eq!(e.nft_buy(&who, &sale, 2, 19, 100), Err(SaleError::InsufficientPayment));
    // overpaying natively is tolerated
    e.nft_buy(&who, &sale, 2, 25, 100).unwrap();
    assert_eq!(e.nft_sale_account_minted(&sale, &who), 2);
}

#[test]
fn notification_purchase_requires_exact_amount_and_reports_full_refund() {
    let mut e = engine();
    stocked_sale(&mut e, "s3", 3, Some("pay.asset"));
    let sender = String::from("alice");
    let asset = String::from("pay.asset");

    // price 10 x 2 = 20; both underpay and overpay are refused in full
    let under = e.ft_on_transfer(&sender, &asset, 19, purchase_args("s3", "alice", 2), 100);
    assert_eq!(under.error, Some(SaleError::PaymentMismatch));
    assert_eq!(under.refund, 19);

    let over = e.ft_on_transfer(&sender, &asset, 21, purchase_args("s3", "alice", 2), 100);
    assert_eq!(over.error, Some(SaleError::PaymentMismatch));
    assert_eq!(over.refund, 21);

    assert_eq!(e.nft_sale_not_minted(&String::from("s3")).unwrap(), 3);
    assert_eq!(e.nft_sale_account_minted(&String::from("s3"), &sender), 0);

    let exact = e.ft_on_transfer(&sender, &asset, 20, purchase_args("s3", "alice", 2), 100);
    assert_eq!(exact.error, None);
    assert_eq!(exact.refund, 0);
    assert_eq!(e.nft_sale_not_minted(&String::from("s3")).unwrap(), 1);
    assert_eq!(e.nft_sale_account_minted(&String::from("s3"), &sender), 2);
}

#[test]
fn notification_purchase_rejects_wrong_asset_and_unbound_sale() {
    let mut e = engine();
    stocked_sale(&mut e, "s4", 2, Some("pay.asset"));
    stocked_sale(&mut e, "s5", 2, None);
    let sender = String::from("alice");

    // a wrong paying asset on the purchase path is a payment mismatch,
    // whatever the attached amount
    let wrong = e.ft_on_transfer(
        &sender,
        &String::from("other.asset"),
        10,
        purchase_args("s4", "alice", 1),
        100,
    );
    assert_eq!(wrong.error, Some(SaleError::PaymentMismatch));
    assert_eq!(wrong.refund, 10);

    let wrong_and_inexact = e.ft_on_transfer(
        &sender,
        &String::from("other.asset"),
        7,
        purchase_args("s4", "alice", 1),
        100,
    );
    assert_eq!(wrong_and_inexact.error, Some(SaleError::PaymentMismatch));
    assert_eq!(wrong_and_inexact.refund, 7);

    let unbound = e.ft_on_transfer(
        &sender,
        &String::from("pay.asset"),
        10,
        purchase_args("s5", "alice", 1),
        100,
    );
    assert_eq!(unbound.error, Some(SaleError::PaymentMismatch));
    assert_eq!(unbound.refund, 10);

    let unknown = e.ft_on_transfer(
        &sender,
        &String::from("pay.asset"),
        10,
        purchase_args("ghost", "alice", 1),
        100,
    );
    assert_eq!(unknown.error, Some(SaleError::NotFound));
    assert_eq!(unknown.refund, 10);
}

#[test]
fn notification_with_malformed_payload_refunds_in_full() {
    let mut e = engine();
    let sender = String::from("alice");
    let args = FtTransferArgs { token_id: None, sale_id: None, receiver_id: None, mint_amount: None };
    let r = e.ft_on_transfer(&sender, &String::from("pay.asset"), 42, args, 100);
    assert_eq!(r.error, Some(SaleError::InvalidArgs));
    assert_eq!(r.refund, 42);

    let partial = FtTransferArgs {
        token_id: None,
        sale_id: Some(String::from("s")),
        receiver_id: None,
        mint_amount: Some(1),
    };
    let r = e.ft_on_transfer(&sender, &String::from("pay.asset"), 7, partial, 100);
    assert_eq!(r.error, Some(SaleError::InvalidArgs));
    assert_eq!(r.refund, 7);
}

#[test]
fn notification_purchase_failures_keep_the_refund_obligation() {
    let mut e = engine();
    stocked_sale(&mut e, "s6", 2, Some("pay.asset"));
    let sender = String::from("alice");
    let asset = String::from("pay.asset");

    // valid asset and exact amount, but over the lifetime quota, which the
    // pipeline checks before the per-transaction bounds
    let r = e.ft_on_transfer(&sender, &asset, 30, purchase_args("s6", "alice", 3), 100);
    assert_eq!(r.error, Some(SaleError::QuotaExceeded));
    assert_eq!(r.refund, 30);

    // before the start timestamp
    let r = e.ft_on_transfer(&sender, &asset, 10, purchase_args("s6", "alice", 1), 99);
    assert_eq!(r.error, Some(SaleError::NotStarted));
    assert_eq!(r.refund, 10);
}
