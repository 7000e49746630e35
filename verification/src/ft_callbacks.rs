//! The asynchronous asset-notification entry point. By the time it runs,
//! the paying asset has already irrevocably landed, so no failure may
//! abort bare: every exit reports how much of the received amount to
//! refund to the sender — zero on full success, the full amount on any
//! failure. The payload carries one of two shapes: an upgrade request for
//! one token, or a purchase request against a sale bound to the paying
//! asset.

use vstd::prelude::*;
use crate::buy::{purchase_applied, purchase_error};
use crate::errors::SaleError;
use crate::idvec::has_str;
use crate::state::NonFungibleToken;
use crate::types::{AccountId, FtTransferArgs, FtTransferOutcome};
use crate::upgrade::price_of;

verus! {

/// What the upgrade shape of a notification guarantees: each failure is
/// tied to exactly one violated check, the error set is closed (so a fully
/// valid payment cannot be refused), and on success the token moved one
/// tier forward while everything else stood still.
pub open spec fn upgrade_notification_ok(
    a: NonFungibleToken,
    b: NonFungibleToken,
    tid: Seq<char>,
    sender: Seq<char>,
    ft: Seq<char>,
    amount: u128,
    r: FtTransferOutcome,
) -> bool {
    let asset_ok = ft == a.upgrade_asset@;
    let amount_ok = amount > 0;
    let known = a.has_token(tid);
    let owned = known && a.token_of(tid).owner_id@ == sender;
    let below_top = known && a.token_of(tid).rarity < a.rarity_top;
    let fee = price_of(
        a.upgrade_prices@,
        a.token_of(tid).token_type@,
        (a.token_of(tid).rarity + 1) as u8,
    );
    match r.error {
        Some(e) => {
            &&& (e == SaleError::UnsupportedAsset <==> !asset_ok)
            &&& (e == SaleError::InvalidArgs <==> asset_ok && !amount_ok)
            &&& (e == SaleError::NotFound <==> asset_ok && amount_ok && !known)
            &&& (e == SaleError::Authorization <==> asset_ok && amount_ok && known && !owned)
            &&& (e == SaleError::MaxTierReached <==> asset_ok && amount_ok && owned && !below_top)
            &&& (e == SaleError::NoSuchTransition <==> asset_ok && amount_ok && owned && below_top
                && fee is None)
            &&& (e == SaleError::PaymentMismatch <==> asset_ok && amount_ok && owned && below_top
                && (fee matches Some(p) && p != amount))
            &&& (e == SaleError::UnsupportedAsset || e == SaleError::InvalidArgs || e
                == SaleError::NotFound || e == SaleError::Authorization || e
                == SaleError::MaxTierReached || e == SaleError::NoSuchTransition || e
                == SaleError::PaymentMismatch)
        },
        None => {
            &&& asset_ok
            &&& amount_ok
            &&& owned
            &&& below_top
            &&& fee == Some(amount)
            &&& b.token_of(tid).rarity == a.token_of(tid).rarity + 1
            &&& b.token_of(tid).owner_id@ == a.token_of(tid).owner_id@
            &&& (forall|t: Seq<char>| #![auto]
                t != tid && a.has_token(t) ==> b.token_of(t) == a.token_of(t))
        },
    }
}

/// What the purchase shape of a notification guarantees: the sale must be
/// bound to the paying asset (PaymentMismatch otherwise, whatever the
/// amount) and the amount must match `price x requested` exactly; a valid,
/// fully owner-held request cannot be refused, and on success the shared
/// pipeline's effect holds with nothing refundable.
pub open spec fn purchase_notification_ok(
    a: NonFungibleToken,
    b: NonFungibleToken,
    sid: Seq<char>,
    rid: Seq<char>,
    n: u64,
    ft: Seq<char>,
    amount: u128,
    now: u64,
    r: FtTransferOutcome,
) -> bool {
    let known = a.has_sale(sid);
    let exact = a.sale_of(sid).price * n == amount;
    let asset_ok = a.has_ft_token(sid) && a.ft_token_of(sid)@ == ft;
    let all_owned = forall|t: Seq<char>|
        has_str(a.remaining_of(sid), t) ==> a.has_token(t) && a.token_of(t).owner_id@
            == a.owner_id@;
    &&& (match r.error {
        Some(e) => {
            &&& (e == SaleError::NotFound <==> !known)
            &&& (e == SaleError::PaymentMismatch <==> known && (!asset_ok || !exact))
            &&& (known && asset_ok && exact ==> (match purchase_error(a, sid, rid, n, now) {
                Some(pe) => e == pe,
                None => e == SaleError::OwnershipMismatch,
            }))
        },
        None => known && asset_ok && exact && purchase_error(a, sid, rid, n, now) is None
            && purchase_applied(a, b, sid, rid, n),
    })
    &&& (known && asset_ok && exact && purchase_error(a, sid, rid, n, now) is None && all_owned
        ==> r.error is None)
}

/// A full-refund outcome carrying the failure that caused it.
fn refused(amount: u128, e: SaleError) -> (r: FtTransferOutcome)
    ensures
        r.refund == amount,
        r.error == Some(e),
{
    FtTransferOutcome { refund: amount, error: Some(e) }
}

impl NonFungibleToken {
    /// Handles a landed asset transfer of `amount` from `sender_id`,
    /// reported by the asset contract `ft_token_id`, with the structured
    /// payload `args`. Returns the refundable remainder: zero on full
    /// success, the full amount otherwise, never aborting bare.
    pub fn ft_on_transfer(
        &mut self,
        sender_id: &AccountId,
        ft_token_id: &AccountId,
        amount: u128,
        args: FtTransferArgs,
        now: u64,
    ) -> (r: FtTransferOutcome)
        requires
            old(self).wf(),
        ensures
            final(self).wf(),
            r.refund == if r.error is Some {
                amount
            } else {
                0
            },
            r.error is Some ==> *final(self) == *old(self),
            match args.token_id {
                Some(tid) => upgrade_notification_ok(
                    *old(self),
                    *final(self),
                    tid@,
                    sender_id@,
                    ft_token_id@,
                    amount,
                    r,
                ),
                None => match (args.sale_id, args.receiver_id, args.mint_amount) {
                    (Some(sid), Some(rid), Some(n)) => purchase_notification_ok(
                        *old(self),
                        *final(self),
                        sid@,
                        rid@,
                        n,
                        ft_token_id@,
                        amount,
                        now,
                        r,
                    ),
                    _ => r.error == Some(SaleError::InvalidArgs),
                },
            },
    {
        match args.token_id {
            Some(token_id) => {
                if !(*ft_token_id == self.upgrade_asset) {
                    return refused(amount, SaleError::UnsupportedAsset);
                }
                if amount == 0 {
                    return refused(amount, SaleError::InvalidArgs);
                }
                let owner = match self.tokens.get(token_id.as_str()) {
                    Some(t) => t.owner_id.clone(),
                    None => {
                        return refused(amount, SaleError::NotFound);
                    },
                };
                if !(owner == *sender_id) {
                    return refused(amount, SaleError::Authorization);
                }
                let next = match self.next_rarity(&token_id) {
                    Ok(n) => n,
                    Err(e) => {
                        return refused(amount, e);
                    },
                };
                match self.upgrade_apply(&token_id, amount, next) {
                    Ok(()) => FtTransferOutcome { refund: 0, error: None },
                    Err(e) => refused(amount, e),
                }
            },
            None => {
                let sale_id = match args.sale_id {
                    Some(s) => s,
                    None => {
                        return refused(amount, SaleError::InvalidArgs);
                    },
                };
                let receiver_id = match args.receiver_id {
                    Some(a) => a,
                    None => {
                        return refused(amount, SaleError::InvalidArgs);
                    },
                };
                let mint_amount = match args.mint_amount {
                    Some(n) => n,
                    None => {
                        return refused(amount, SaleError::InvalidArgs);
                    },
                };
                let price: u128 = match self.sale_by_id.get(sale_id.as_str()) {
                    Some(s) => s.price,
                    None => {
                        return refused(amount, SaleError::NotFound);
                    },
                };
                let bound_asset = match self.sale_by_ft_token.get(sale_id.as_str()) {
                    Some(a) => a.clone(),
                    None => {
                        return refused(amount, SaleError::PaymentMismatch);
                    },
                };
                if !(bound_asset == *ft_token_id) {
                    return refused(amount, SaleError::PaymentMismatch);
                }
                let exact: bool = match price.checked_mul(mint_amount as u128) {
                    Some(total) => total == amount,
                    None => {
                        proof {
                            assert(price * (mint_amount as u128) > u128::MAX >= amount);
                        }
                        false
                    },
                };
                if !exact {
                    return refused(amount, SaleError::PaymentMismatch);
                }
                match self.internal_random_mint(&receiver_id, &sale_id, mint_amount, now) {
                    Ok(()) => FtTransferOutcome { refund: 0, error: None },
                    Err(e) => refused(amount, e),
                }
            },
        }
    }
}

} // verus!
