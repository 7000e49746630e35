//! Error taxonomy of the sale engine. Every failure of a registry mutation,
//! a purchase, a draw or an upgrade is one of these values; on the direct
//! payment and registry paths the enclosing invocation aborts with it, while
//! the asynchronous notification path turns it into a full-refund report.

use vstd::prelude::*;

verus! {

/// The reasons a sale-engine call can fail.
#[derive(Clone, Copy, Debug, PartialEq, Eq, Structural)]
pub enum SaleError {
    /// The caller is not the registry owner (or not the token owner).
    Authorization,
    /// The sale or token named by the call does not exist.
    NotFound,
    /// The sale is in the wrong lifecycle phase for this call.
    State,
    /// The sale is available but its start timestamp lies in the future.
    NotStarted,
    /// A sale with this identifier already exists.
    IdInUse,
    /// The pool length does not equal the declared amount at `start`.
    NotFullyStocked,
    /// The token is already assigned to this sale's pool.
    AlreadyInSale,
    /// The account's lifetime purchase quota would be exceeded.
    QuotaExceeded,
    /// More tokens requested than the per-transaction maximum.
    TooMany,
    /// Fewer tokens requested than the per-transaction minimum.
    TooFew,
    /// More tokens requested than remain in the pool.
    InsufficientInventory,
    /// The attached native value is below the total price.
    InsufficientPayment,
    /// Wrong payment amount, wrong asset, or an asset where native was expected.
    PaymentMismatch,
    /// A drawn token is no longer owned by the pool's originating account.
    OwnershipMismatch,
    /// The token is already at the top rarity tier.
    MaxTierReached,
    /// The upgrade price table has no entry for this type and tier.
    NoSuchTransition,
    /// An upgrade was paid with an asset other than the fixed bound one.
    UnsupportedAsset,
    /// A notification payload of neither recognized shape.
    InvalidArgs,
}

impl SaleError {
    /// A human-readable label for the error, for hosts that report it.
    pub fn label(&self) -> (r: String)
        ensures
            r@.len() > 0,
    {
        let s: &str = match self {
            SaleError::Authorization => "authorization error",
            SaleError::NotFound => "not found",
            SaleError::State => "wrong lifecycle state",
            SaleError::NotStarted => "sale is not started",
            SaleError::IdInUse => "sale id in use",
            SaleError::NotFullyStocked => "sale is not fully stocked",
            SaleError::AlreadyInSale => "token already in sale",
            SaleError::QuotaExceeded => "mint limit",
            SaleError::TooMany => "invalid mint max amount",
            SaleError::TooFew => "invalid mint min amount",
            SaleError::InsufficientInventory => "insufficient amount of nft",
            SaleError::InsufficientPayment => "invalid attached deposit",
            SaleError::PaymentMismatch => "invalid attached price",
            SaleError::OwnershipMismatch => "token already minted",
            SaleError::MaxTierReached => "max tier reached",
            SaleError::NoSuchTransition => "no such upgrade",
            SaleError::UnsupportedAsset => "unavailable ft",
            SaleError::InvalidArgs => "invalid args",
        };
        proof {
            reveal_strlit("authorization error");
            reveal_strlit("not found");
            reveal_strlit("wrong lifecycle state");
            reveal_strlit("sale is not started");
            reveal_strlit("sale id in use");
            reveal_strlit("sale is not fully stocked");
            reveal_strlit("token already in sale");
            reveal_strlit("mint limit");
            reveal_strlit("invalid mint max amount");
            reveal_strlit("invalid mint min amount");
            reveal_strlit("insufficient amount of nft");
            reveal_strlit("invalid attached deposit");
            reveal_strlit("invalid attached price");
            reveal_strlit("token already minted");
            reveal_strlit("max tier reached");
            reveal_strlit("no such upgrade");
            reveal_strlit("unavailable ft");
            reveal_strlit("invalid args");
        }
        s.to_owned()
    }
}

} // verus!
