//! Event records. Every state transition of the sale engine emits exactly
//! one record, wrapped in a versioned envelope; the host serializes and
//! publishes envelopes, which is outside this library.

use vstd::prelude::*;
use crate::types::{AccountId, JsonSale, SaleId, Token, TokenId, TokenRarity};

verus! {

/// A token was created and registered in the ledger.
#[verifier::ext_equal]
pub struct NftCreate {
    pub token: Token,
}

/// A token was appended to a fractionation set (collaborator ledger tag).
#[verifier::ext_equal]
pub struct FractionationAddToken {
    pub fractionation_id: TokenId,
    pub token_id: TokenId,
}

/// A token's rarity tier was raised against an exact fee.
#[verifier::ext_equal]
pub struct NftUpgrade {
    pub owner_id: AccountId,
    pub rarity: TokenRarity,
    pub token_id: TokenId,
    pub price: u128,
}

/// A sale campaign was created in the locked state.
#[verifier::ext_equal]
pub struct SaleCreate {
    pub sale: JsonSale,
}

/// A locked, fully stocked sale became available.
#[verifier::ext_equal]
pub struct SaleStart {
    pub sale_id: SaleId,
    pub date: u64,
}

/// A still-locked sale's date and limits were overwritten.
#[verifier::ext_equal]
pub struct SaleUpdate {
    pub sale_id: SaleId,
    pub date: u64,
    pub per_transaction_max: u32,
    pub per_transaction_min: u32,
    pub buy_max: u32,
}

/// A sale was removed from, or reinserted into, the available set.
#[verifier::ext_equal]
pub struct SalePause {
    pub sale_id: SaleId,
    pub pause: bool,
}

/// The tagged content of an envelope: which transition happened, with its
/// records.
#[verifier::ext_equal]
pub enum EventKind {
    NftCreate(Vec<NftCreate>),
    FractionationAddToken(Vec<FractionationAddToken>),
    NftUpgrade(Vec<NftUpgrade>),
    SaleCreate(Vec<SaleCreate>),
    SaleStart(Vec<SaleStart>),
    SaleUpdate(Vec<SaleUpdate>),
    SalePause(Vec<SalePause>),
}

/// The versioned envelope around one batch of event records.
#[verifier::ext_equal]
pub struct EventEnvelope {
    pub version: String,
    pub kind: EventKind,
}

/// Wraps a batch of records in an envelope carrying the given version.
pub fn new_171_mf(version: &str, kind: EventKind) -> (e: EventEnvelope)
    ensures
        e.version@ == version@,
        e.kind == kind,
{
    EventEnvelope { version: version.to_owned(), kind }
}

/// Wraps a batch of records in an envelope of the current schema version.
pub fn new_171_mf_v1(kind: EventKind) -> (e: EventEnvelope)
    ensures
        e.version@ == "1.0.0"@,
        e.kind == kind,
{
    new_171_mf("1.0.0", kind)
}

impl NftCreate {
    pub fn emit(self) -> (e: EventEnvelope)
        ensures
            e.version@ == "1.0.0"@,
            e.kind matches EventKind::NftCreate(d) && d@ == seq![self],
    {
        Self::emit_many(vec![self])
    }

    pub fn emit_many(data: Vec<NftCreate>) -> (e: EventEnvelope)
        ensures
            e.version@ == "1.0.0"@,
            e.kind == EventKind::NftCreate(data),
    {
        new_171_mf_v1(EventKind::NftCreate(data))
    }
}

impl FractionationAddToken {
    pub fn emit(self) -> (e: EventEnvelope)
        ensures
            e.version@ == "1.0.0"@,
            e.kind matches EventKind::FractionationAddToken(d) && d@ == seq![self],
    {
        Self::emit_many(vec![self])
    }

    pub fn emit_many(data: Vec<FractionationAddToken>) -> (e: EventEnvelope)
        ensures
            e.version@ == "1.0.0"@,
            e.kind == EventKind::FractionationAddToken(data),
    {
        new_171_mf_v1(EventKind::FractionationAddToken(data))
    }
}

impl NftUpgrade {
    pub fn emit(self) -> (e: EventEnvelope)
        ensures
            e.version@ == "1.0.0"@,
            e.kind matches EventKind::NftUpgrade(d) && d@ == seq![self],
    {
        Self::emit_many(vec![self])
    }

    pub fn emit_many(data: Vec<NftUpgrade>) -> (e: EventEnvelope)
        ensures
            e.version@ == "1.0.0"@,
            e.kind == EventKind::NftUpgrade(data),
    {
        new_171_mf_v1(EventKind::NftUpgrade(data))
    }
}

impl SaleCreate {
    pub fn emit(self) -> (e: EventEnvelope)
        ensures
            e.version@ == "1.0.0"@,
            e.kind matches EventKind::SaleCreate(d) && d@ == seq![self],
    {
        Self::emit_many(vec![self])
    }

    pub fn emit_many(data: Vec<SaleCreate>) -> (e: EventEnvelope)
        ensures
            e.version@ == "1.0.0"@,
            e.kind == EventKind::SaleCreate(data),
    {
        new_171_mf_v1(EventKind::SaleCreate(data))
    }
}

impl SaleStart {
    pub fn emit(self) -> (e: EventEnvelope)
        ensures
            e.version@ == "1.0.0"@,
            e.kind matches EventKind::SaleStart(d) && d@ == seq![self],
    {
        Self::emit_many(vec![self])
    }

    pub fn emit_many(data: Vec<SaleStart>) -> (e: EventEnvelope)
        ensures
            e.version@ == "1.0.0"@,
            e.kind == EventKind::SaleStart(data),
    {
        new_171_mf_v1(EventKind::SaleStart(data))
    }
}

impl SaleUpdate {
    pub fn emit(self) -> (e: EventEnvelope)
        ensures
            e.version@ == "1.0.0"@,
            e.kind matches EventKind::SaleUpdate(d) && d@ == seq![self],
    {
        Self::emit_many(vec![self])
    }

    pub fn emit_many(data: Vec<SaleUpdate>) -> (e: EventEnvelope)
        ensures
            e.version@ == "1.0.0"@,
            e.kind == EventKind::SaleUpdate(data),
    {
        new_171_mf_v1(EventKind::SaleUpdate(data))
    }
}

impl SalePause {
    pub fn emit(self) -> (e: EventEnvelope)
        ensures
            e.version@ == "1.0.0"@,
            e.kind matches EventKind::SalePause(d) && d@ == seq![self],
    {
        Self::emit_many(vec![self])
    }

    pub fn emit_many(data: Vec<SalePause>) -> (e: EventEnvelope)
        ensures
            e.version@ == "1.0.0"@,
            e.kind == EventKind::SalePause(data),
    {
        new_171_mf_v1(EventKind::SalePause(data))
    }
}

/// The tag of an envelope's kind, for hosts and tests that sort records.
impl EventKind {
    pub fn tag(&self) -> (r: &'static str)
        ensures
            r@ == match self {
                EventKind::NftCreate(_) => "nft_create"@,
                EventKind::FractionationAddToken(_) => "fractionation_add_token"@,
                EventKind::NftUpgrade(_) => "nft_upgrade"@,
                EventKind::SaleCreate(_) => "sale_create"@,
                EventKind::SaleStart(_) => "sale_start"@,
                EventKind::SaleUpdate(_) => "sale_update"@,
                EventKind::SalePause(_) => "sale_pause"@,
            },
{
        match self {
            EventKind::NftCreate(_) => "nft_create",
            EventKind::FractionationAddToken(_) => "fractionation_add_token",
            EventKind::NftUpgrade(_) => "nft_upgrade",
            EventKind::SaleCreate(_) => "sale_create",
            EventKind::SaleStart(_) => "sale_start",
            EventKind::SaleUpdate(_) => "sale_update",
            EventKind::SalePause(_) => "sale_pause",
        }
    }
}

} // verus!
