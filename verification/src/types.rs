//! Data model of the sale engine: sale descriptors, the read-only sale view,
//! token ledger records, the upgrade price table, and the payloads of the
//! asynchronous asset-notification entry point.

use vstd::prelude::*;

verus! {

/// Operator-chosen unique identifier of a sale campaign.
pub type SaleId = String;

/// Identifier of a token in the ledger.
pub type TokenId = String;

/// An account identity, as the host environment names it.
pub type AccountId = String;

/// Rarity tiers form a fixed total order `0 ..= top`; an upgrade moves a
/// token strictly forward one tier.
pub type TokenRarity = u8;

/// A sale descriptor. `name`, `amount` and `price` are immutable after
/// creation; the three limits and the start date may be edited while the
/// sale is still locked.
#[verifier::ext_equal]
#[derive(Debug, PartialEq, Eq)]
pub struct Sale {
    pub name: String,
    pub amount: u64,
    pub price: u128,
    pub per_transaction_min: u32,
    pub per_transaction_max: u32,
    pub buy_max: u32,
}

/// The read-only projection of a sale that every view call returns.
#[verifier::ext_equal]
#[derive(Debug, PartialEq, Eq)]
pub struct JsonSale {
    pub id: SaleId,
    pub name: String,
    pub price: u128,
    pub buy_max: u32,
    pub per_transaction_min: u32,
    pub per_transaction_max: u32,
    pub amount: u64,
    pub not_minted: u64,
    pub locked: bool,
    pub start_date: Option<u64>,
    pub ft_token: Option<AccountId>,
}

/// A token ledger record: owner, rarity tier and type of one token.
#[verifier::ext_equal]
#[derive(Debug, PartialEq, Eq, Clone)]
pub struct Token {
    pub token_id: TokenId,
    pub owner_id: AccountId,
    pub rarity: TokenRarity,
    pub token_type: String,
}

/// One row of the upgrade price table: the fee for moving a token of
/// `token_type` to the target tier `rarity`. The table is sparse; a missing
/// row means the transition is unsupported for that type.
#[verifier::ext_equal]
#[derive(Debug, PartialEq, Eq, Clone)]
pub struct UpgradePrice {
    pub token_type: String,
    pub rarity: TokenRarity,
    pub price: u128,
}

/// The structured payload of an asset-transfer notification. Exactly one of
/// two shapes is meaningful: `token_id` alone requests a rarity upgrade for
/// that token, while `sale_id` + `receiver_id` + `mint_amount` requests a
/// purchase; anything else is rejected.
#[verifier::ext_equal]
#[derive(Debug, PartialEq, Eq)]
pub struct FtTransferArgs {
    pub token_id: Option<TokenId>,
    pub sale_id: Option<SaleId>,
    pub receiver_id: Option<AccountId>,
    pub mint_amount: Option<u64>,
}

/// What the notification handler reports back: how much of the received
/// asset to refund to the sender (the full amount on any failure after the
/// asset has landed, zero on full success), and the failure, if any.
#[verifier::ext_equal]
#[derive(Debug, PartialEq, Eq)]
pub struct FtTransferOutcome {
    pub refund: u128,
    pub error: Option<crate::errors::SaleError>,
}

} // verus!
