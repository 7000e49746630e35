//! The random draw: no duplicates within a call, no identifier returned
//! twice across calls, removal in the same invocation, the defensive
//! ownership re-check, and the emitted event records.

use nft_sale::{NonFungibleToken, SaleError};

fn engine() -> NonFungibleToken {
    NonFungibleToken::new(String::from("admin"), String::from("xp.asset"), 5, Vec::new())
}

fn admin() -> String {
    String::from("admin")
}

fn stocked_sale(e: &mut NonFungibleToken, id: &str, amount: u64) {
    e.nft_sale_add(
        &admin(),
        String::from(id),
        String::from("campaign"),
        amount,
        10,
        1,
        5,
        5,
        None,
    )
    .unwrap();
    let mut i: u64 = 0;
    while i < amount {
        e.nft_mint(
            &admin(),
            format!("{}-tok{}", id, i),
            None,
            0,
            String::from("warrior"),
            Some(String::from(id)),
        )
        .unwrap();
        i += 1;
    }
}

#[test]
fn draws_have_no_duplicates_within_or_across_calls() {
    let mut e = engine();
    stocked_sale(&mut e, "s1", 5);
    e.nft_sale_start(&admin(), String::from("s1"), 0).unwrap();
    let sale = String::from("s1");

    let first = e.internal_random_tokens(&sale, 2).unwrap();
    assert_eq!(first.len(), 2);
    assert_ne!(first[0], first[1]);
    assert_eq!(e.nft_sale_not_minted(&sale).unwrap(), 3);

    let second = e.internal_random_tokens(&sale, 3).unwrap();
    assert_eq!(second.len(), 3);
    assert_eq!(e.nft_sale_not_minted(&sale).unwrap(), 0);

    // across both draws all five identifiers come out exactly once
    let mut all: Vec<String> = Vec::new();
    all.extend(first);
    all.extend(second);
    all.sort();
    let mut expected: Vec<String> = (0..5).map(|i| format!("s1-tok{}", i)).collect();
    expected.sort();
    assert_eq!(all, expected);
}

#[test]
fn draw_of_more_than_remaining_is_refused_without_change() {
    let mut e = engine();
    stocked_sale(&mut e, "s2", 2);
    e.nft_sale_start(&admin(), String::from("s2"), 0).unwrap();
    let sale = String::from("s2");
    assert_eq!(e.internal_random_tokens(&sale, 3), Err(SaleError::InsufficientInventory));
    assert_eq!(e.nft_sale_not_minted(&sale).unwrap(), 2);
}

#[test]
fn draw_recheck_catches_a_token_moved_out_of_the_pool_account() {
    let mut e = engine();
    stocked_sale(&mut e, "s3", 1);
    e.nft_sale_start(&admin(), String::from("s3"), 0).unwrap();
    // the pooled token escapes via an unguarded transfer
    e.internal_transfer_unguarded(
        &String::from("s3-tok0"),
        &admin(),
        &String::from("eve"),
    )
    .unwrap();
    let sale = String::from("s3");
    let who = String::from("alice");
    assert_eq!(e.nft_buy(&who, &sale, 1, 10, 0), Err(SaleError::OwnershipMismatch));
    // the whole invocation failed: nothing was drawn, no quota written
    assert_eq!(e.nft_sale_not_minted(&sale).unwrap(), 1);
    assert_eq!(e.nft_sale_account_minted(&sale, &who), 0);
}

#[test]
fn pool_views_follow_the_assignment() {
    let mut e = engine();
    stocked_sale(&mut e, "s4", 3);
    let sale = String::from("s4");
    let ids = e.nft_sale_token_ids(&sale, None, None).unwrap();
    assert_eq!(ids.len(), 3);
    assert!(ids.contains(&String::from("s4-tok1")));
    assert_eq!(
        e.nft_sale_token_ids(&sale, None, Some(0)),
        Err(SaleError::InvalidArgs)
    );
    assert_eq!(
        e.nft_sale_token_ids(&sale, Some(3), None),
        Err(SaleError::InvalidArgs)
    );
    // an unknown sale enumerates as empty
    assert_eq!(e.nft_sale_token_ids(&String::from("ghost"), None, None).unwrap().len(), 0);

    let toks = e.nft_sale_tokens(&sale, None, None).unwrap();
    assert_eq!(toks.len(), 3);
    assert!(toks.iter().all(|t| t.owner_id == "admin" && t.token_type == "warrior"));

    assert_eq!(e.nft_sale_token_locked(&String::from("s4-tok0")), Ok(true));
    e.nft_sale_start(&admin(), String::from("s4"), 0).unwrap();
    assert_eq!(e.nft_sale_token_locked(&String::from("s4-tok0")), Ok(false));
}

#[test]
fn sale_view_reports_descriptor_and_progress() {
    let mut e = engine();
    stocked_sale(&mut e, "s5", 2);
    let j = e.enum_get_sale(&String::from("s5")).unwrap();
    assert_eq!(j.id, "s5");
    assert_eq!(j.name, "campaign");
    assert_eq!(j.price, 10);
    assert_eq!(j.amount, 2);
    assert_eq!(j.not_minted, 2);
    assert!(j.locked);
    assert_eq!(j.ft_token, None);
    e.nft_sale_start(&admin(), String::from("s5"), 42).unwrap();
    e.nft_buy(&String::from("alice"), &String::from("s5"), 1, 10, 50).unwrap();
    let j = e.enum_get_sale(&String::from("s5")).unwrap();
    assert!(!j.locked);
    assert_eq!(j.start_date, Some(42));
    assert_eq!(j.not_minted, 1);
}

#[test]
fn every_transition_leaves_one_event_record() {
    let mut e = engine();
    stocked_sale(&mut e, "s6", 1);
    e.nft_sale_start(&admin(), String::from("s6"), 0).unwrap();
    e.nft_sale_pause(&admin(), String::from("s6"), true).unwrap();
    let tags: Vec<&str> = e.event_log().iter().map(|ev| ev.kind.tag()).collect();
    assert_eq!(tags, vec!["sale_create", "nft_create", "sale_start", "sale_pause"]);
    assert!(e.event_log().iter().all(|ev| ev.version == "1.0.0"));
}
