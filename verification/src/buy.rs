//! Purchase orchestrator: the shared pipeline that validates a purchase
//! request in a fixed order, draws tokens, transfers them and overwrites
//! the buyer's quota counter, all within one indivisible invocation; and
//! the direct-payment entry path. A failure at any point leaves the state
//! exactly as it was.

use vstd::prelude::*;
use crate::errors::SaleError;
use crate::idvec::{has_str, vec_contains_string};
use crate::quota::{quota_lookup, quota_of, quota_store, total_minted};
use crate::state::NonFungibleToken;
use crate::types::{AccountId, SaleId, TokenId};

verus! {

/// The first violation, in the validation order of the shared pipeline,
/// that a purchase request hits against a given state; `None` when every
/// check passes. The order is: sale available, sale started, lifetime
/// quota, per-transaction maximum, per-transaction minimum, inventory.
pub open spec fn purchase_error(
    s: NonFungibleToken,
    sale: Seq<char>,
    receiver: Seq<char>,
    amount: u64,
    now: u64,
) -> Option<SaleError> {
    if !s.is_available(sale) {
        Some(SaleError::State)
    } else if !s.has_start_date(sale) {
        Some(SaleError::NotFound)
    } else if now < s.start_date_of(sale) {
        Some(SaleError::NotStarted)
    } else if s.quota(sale, receiver) + amount > s.sale_of(sale).buy_max {
        Some(SaleError::QuotaExceeded)
    } else if amount > s.sale_of(sale).per_transaction_max {
        Some(SaleError::TooMany)
    } else if amount < s.sale_of(sale).per_transaction_min {
        Some(SaleError::TooFew)
    } else if amount > s.remaining_of(sale).len() {
        Some(SaleError::InsufficientInventory)
    } else {
        None
    }
}

/// What a successful purchase of `amount` tokens for `receiver` does to
/// the state: the quota counter is overwritten with its prior reading plus
/// `amount`, exactly `amount` identifiers leave the remaining pool, the
/// tokens that changed hands were drawn from that pool and now belong to
/// the receiver, and nothing else moves.
pub open spec fn purchase_applied(
    a: NonFungibleToken,
    b: NonFungibleToken,
    sale: Seq<char>,
    receiver: Seq<char>,
    amount: u64,
) -> bool {
    &&& b.quota(sale, receiver) == a.quota(sale, receiver) + amount
    &&& (forall|sa: Seq<char>, ac: Seq<char>|
        #![trigger b.quota(sa, ac)]
        !(sa == sale && ac == receiver) ==> b.quota(sa, ac) == a.quota(sa, ac))
    &&& b.minted_total(sale) == a.minted_total(sale) + amount
    &&& (forall|sa: Seq<char>| #![trigger b.minted_total(sa)]
        sa != sale ==> b.minted_total(sa) == a.minted_total(sa))
    &&& b.remaining_of(sale).len() == a.remaining_of(sale).len() - amount
    &&& (forall|t: Seq<char>| #![auto]
        has_str(b.remaining_of(sale), t) ==> has_str(a.remaining_of(sale), t))
    &&& (forall|x: Seq<char>| #![auto] x != sale ==> b.remaining_of(x) == a.remaining_of(x))
    &&& (forall|t: Seq<char>| #![auto] b.has_token(t) == a.has_token(t))
    &&& (forall|t: Seq<char>| #![auto]
        a.has_token(t) && !has_str(a.remaining_of(sale), t) ==> b.token_of(t) == a.token_of(t))
    &&& (forall|t: Seq<char>| #![auto]
        a.has_token(t) && b.token_of(t) != a.token_of(t) ==> b.token_of(t).owner_id@ == receiver
            && has_str(a.remaining_of(sale), t) && !has_str(b.remaining_of(sale), t))
    &&& b.sale_tokens == a.sale_tokens
    &&& b.sale_by_id == a.sale_by_id
    &&& b.sales_locked == a.sales_locked
    &&& b.sales_available == a.sales_available
    &&& b.sale_date_by_id == a.sale_date_by_id
    &&& b.sale_by_ft_token == a.sale_by_ft_token
    &&& b.sale_by_token == a.sale_by_token
    &&& b.owner_id == a.owner_id
    &&& b.upgrade_asset == a.upgrade_asset
    &&& b.rarity_top == a.rarity_top
    &&& b.upgrade_prices == a.upgrade_prices
    &&& b.events == a.events
}

impl NonFungibleToken {
    /// The shared purchase pipeline: validates the request in the fixed
    /// order, draws the tokens at random, transfers each to the receiver
    /// and overwrites the receiver's quota counter, atomically. On any
    /// failure the state is exactly as it was.
    pub fn internal_random_mint(
        &mut self,
        receiver_id: &AccountId,
        sale_id: &SaleId,
        amount: u64,
        now: u64,
    ) -> (r: Result<(), SaleError>)
        requires
            old(self).wf(),
        ensures
            final(self).wf(),
            match r {
                Ok(()) => purchase_error(*old(self), sale_id@, receiver_id@, amount, now) is None
                    && purchase_applied(*old(self), *final(self), sale_id@, receiver_id@, amount),
                Err(e) => *final(self) == *old(self) && (match purchase_error(
                    *old(self),
                    sale_id@,
                    receiver_id@,
                    amount,
                    now,
                ) {
                    Some(pe) => e == pe,
                    None => e == SaleError::OwnershipMismatch && (exists|t: Seq<char>|
                        has_str(old(self).remaining_of(sale_id@), t) && !(old(self).has_token(t)
                            && old(self).token_of(t).owner_id@ == old(self).owner_id@)),
                }),
            },
            (purchase_error(*old(self), sale_id@, receiver_id@, amount, now) is None && (forall|
                t: Seq<char>,
            |
                has_str(old(self).remaining_of(sale_id@), t) ==> old(self).has_token(t) && old(
                    self,
                ).token_of(t).owner_id@ == old(self).owner_id@)) ==> r is Ok,
    {
        if !vec_contains_string(&self.sales_available, sale_id) {
            return Err(SaleError::State);
        }
        match self.assert_sale_started(sale_id, now) {
            Err(e) => {
                return Err(e);
            },
            Ok(()) => {},
        }
        let (buy_max, tx_min, tx_max) = match self.sale_by_id.get(sale_id.as_str()) {
            Some(s) => (s.buy_max, s.per_transaction_min, s.per_transaction_max),
            None => {
                proof {
                    assert(old(self).is_available(sale_id@));
                    assert(old(self).has_sale(sale_id@));
                }
                return Err(SaleError::NotFound);
            },
        };
        let prior = quota_lookup(&self.sale_mint_counter, sale_id, receiver_id);
        if (prior as u128) + (amount as u128) > (buy_max as u128) {
            return Err(SaleError::QuotaExceeded);
        }
        if amount > (tx_max as u64) {
            return Err(SaleError::TooMany);
        }
        if amount < (tx_min as u64) {
            return Err(SaleError::TooFew);
        }
        let remaining_len: usize = match self.sale_random_tokens.get(sale_id.as_str()) {
            Some(v) => v.len(),
            None => 0,
        };
        proof {
            if !self.sale_random_tokens@.contains_key(sale_id@) {
                assert(self.remaining_of(sale_id@) =~= Seq::<String>::empty());
            }
        }
        if amount > (remaining_len as u64) {
            return Err(SaleError::InsufficientInventory);
        }
        let ghost pre = *self;
        proof {
            assert(purchase_error(pre, sale_id@, receiver_id@, amount, now) is None);
            assert(amount <= buy_max as u64);
        }
        let toks = match self.internal_random_tokens(sale_id, amount as u32) {
            Ok(t) => t,
            Err(e) => {
                proof {
                    if e == SaleError::OwnershipMismatch {
                        let t = choose|t: Seq<char>|
                            has_str(old(self).remaining_of(sale_id@), t) && !(old(self).has_token(
                                t,
                            ) && old(self).token_of(t).owner_id@ == old(self).owner_id@);
                        assert(has_str(old(self).remaining_of(sale_id@), t));
                    }
                }
                return Err(e);
            },
        };
        let ghost mid0 = *self;
        let ghost drawn = toks@;
        proof {
            assert forall|t: Seq<char>| #![auto]
                self.has_token(t) implies self.token_of(t).token_id@ == t by {
                assert(pre.has_token(t));
                assert(pre.token_of(t).token_id@ == t);
            }
        }
        let owner = self.owner_id.clone();
        let mut i: usize = 0;
        while i < toks.len()
            invariant
                old(self).wf(),
                pre == *old(self),
                i <= toks@.len(),
                toks@ == drawn,
                drawn.len() <= old(self).remaining_of(sale_id@).len(),
                crate::idvec::distinct_views(drawn),
                owner@ == old(self).owner_id@,
                forall|k: int| #![auto]
                    0 <= k < drawn.len() ==> old(self).has_token(drawn[k]@),
                forall|k: int| #![auto]
                    0 <= k < drawn.len() ==> has_str(old(self).remaining_of(sale_id@), drawn[k]@),
                mid0.tokens == old(self).tokens,
                self.sale_by_id == mid0.sale_by_id,
                self.sales_locked == mid0.sales_locked,
                self.sales_available == mid0.sales_available,
                self.sale_date_by_id == mid0.sale_date_by_id,
                self.sale_by_ft_token == mid0.sale_by_ft_token,
                self.sale_by_token == mid0.sale_by_token,
                self.sale_tokens == mid0.sale_tokens,
                self.sale_random_tokens == mid0.sale_random_tokens,
                self.sale_mint_counter == mid0.sale_mint_counter,
                self.upgrade_prices == mid0.upgrade_prices,
                self.events == mid0.events,
                self.owner_id == mid0.owner_id,
                self.upgrade_asset == mid0.upgrade_asset,
                self.rarity_top == mid0.rarity_top,
                forall|t: Seq<char>| #![auto] self.has_token(t) == mid0.has_token(t),
                forall|t: Seq<char>| #![auto]
                    self.has_token(t) ==> self.token_of(t).token_id@ == t,
                forall|k: int| #![auto]
                    0 <= k < i ==> self.token_of(drawn[k]@).owner_id@ == receiver_id@,
                forall|t: Seq<char>| #![auto]
                    mid0.has_token(t) && !has_str(drawn, t) ==> self.token_of(t) == mid0.token_of(
                        t,
                    ),
                forall|k: int| #![auto]
                    i <= k < drawn.len() ==> self.token_of(drawn[k]@) == mid0.token_of(drawn[k]@),
            decreases toks@.len() - i,
        {
            let ghost before = *self;
            proof {
                assert(old(self).has_token(drawn[i as int]@));
                assert(mid0.has_token(drawn[i as int]@)) by {
                    assert(mid0.tokens@ == old(self).tokens@);
                }
                assert(before.has_token(drawn[i as int]@)) by {
                    assert(before.has_token(drawn[i as int]@) == mid0.has_token(drawn[i as int]@));
                }
            }
            match self.internal_transfer_unguarded(&toks[i], &owner, receiver_id) {
                Ok(()) => {},
                Err(_) => {
                    proof {
                        assert(before.has_token(drawn[i as int]@));
                    }
                    return Err(SaleError::OwnershipMismatch);
                },
            }
            proof {
                let tv = drawn[i as int]@;
                assert(self.tokens@ == before.tokens@.insert(tv, self.tokens@[tv]));
                assert(self.tokens@[tv].token_id == before.tokens@[tv].token_id);
                assert forall|t: Seq<char>| #![auto]
                    self.has_token(t) implies self.token_of(t).token_id@ == t by {
                    assert(before.has_token(t));
                    if t != tv {
                        assert(self.token_of(t) == before.token_of(t));
                        assert(before.token_of(t).token_id@ == t);
                    } else {
                        assert(self.token_of(t).token_id == before.token_of(t).token_id);
                        assert(before.token_of(t).token_id@ == t);
                    }
                }
                assert forall|k: int| #![auto]
                    0 <= k < i + 1 implies self.token_of(drawn[k]@).owner_id@ == receiver_id@ by {
                    if k < i {
                        assert(drawn[k]@ != tv);
                        assert(self.token_of(drawn[k]@) == before.token_of(drawn[k]@));
                    }
                }
                assert forall|t: Seq<char>| #![auto]
                    mid0.has_token(t) && !has_str(drawn, t) implies self.token_of(t)
                    == mid0.token_of(t) by {
                    if t != tv {
                        assert(self.token_of(t) == before.token_of(t));
                    } else {
                        assert(has_str(drawn, tv));
                    }
                }
                assert forall|k: int| #![auto]
                    i + 1 <= k < drawn.len() implies self.token_of(drawn[k]@) == mid0.token_of(
                    drawn[k]@,
                ) by {
                    assert(drawn[k]@ != tv);
                    assert(self.token_of(drawn[k]@) == before.token_of(drawn[k]@));
                }
            }
            i = i + 1;
        }
        let ghost mid1 = *self;
        let new_total: u32 = prior + (amount as u32);
        quota_store(&mut self.sale_mint_counter, sale_id, receiver_id, new_total);
        proof {
            lemma_wf_after_mint(pre, mid0, mid1, *self, sale_id@, receiver_id@, amount, drawn);
            assert(self.quota(sale_id@, receiver_id@) == pre.quota(sale_id@, receiver_id@)
                + amount);
            assert forall|sa: Seq<char>, ac: Seq<char>|
                #![trigger self.quota(sa, ac)]
                !(sa == sale_id@ && ac == receiver_id@) implies self.quota(sa, ac) == pre.quota(
                sa,
                ac,
            ) by {
                assert(quota_of(self.sale_mint_counter@, sa, ac) == quota_of(
                    mid1.sale_mint_counter@,
                    sa,
                    ac,
                ));
                assert(mid1.sale_mint_counter == pre.sale_mint_counter);
            }
            assert forall|sa: Seq<char>| #![trigger self.minted_total(sa)]
                sa != sale_id@ implies self.minted_total(sa) == pre.minted_total(sa) by {
                assert(total_minted(self.sale_mint_counter@, sa) == total_minted(
                    mid1.sale_mint_counter@,
                    sa,
                ));
            }
            assert(self.remaining_of(sale_id@) == mid0.remaining_of(sale_id@));
            assert forall|t: Seq<char>| #![auto]
                has_str(self.remaining_of(sale_id@), t) implies has_str(
                pre.remaining_of(sale_id@),
                t,
            ) by {
                assert(has_str(mid0.remaining_of(sale_id@), t));
            }
            assert forall|x: Seq<char>| #![auto]
                x != sale_id@ implies self.remaining_of(x) == pre.remaining_of(x) by {
                assert(self.remaining_of(x) == mid0.remaining_of(x));
                assert(mid0.remaining_of(x) == pre.remaining_of(x));
            }
            assert forall|t: Seq<char>| #![auto]
                self.has_token(t) == pre.has_token(t) by {
                assert(self.has_token(t) == mid1.has_token(t));
                assert(mid1.has_token(t) == mid0.has_token(t));
                assert(mid0.has_token(t) == pre.has_token(t)) by {
                    assert(mid0.tokens@ == pre.tokens@);
                }
            }
            assert forall|t: Seq<char>| #![auto]
                pre.has_token(t) && !has_str(pre.remaining_of(sale_id@), t) implies self.token_of(
                t,
            ) == pre.token_of(t) by {
                assert(!has_str(drawn, t)) by {
                    if has_str(drawn, t) {
                        let k = choose|k: int| 0 <= k < drawn.len() && drawn[k]@ == t;
                        assert(has_str(pre.remaining_of(sale_id@), drawn[k]@));
                    }
                }
                assert(mid0.has_token(t)) by {
                    assert(mid0.tokens@ == pre.tokens@);
                }
                assert(mid1.token_of(t) == mid0.token_of(t));
                assert(mid0.token_of(t) == pre.token_of(t)) by {
                    assert(mid0.tokens@ == pre.tokens@);
                }
                assert(self.token_of(t) == mid1.token_of(t));
            }
            assert forall|t: Seq<char>| #![auto]
                pre.has_token(t) && self.token_of(t) != pre.token_of(t) implies self.token_of(
                t,
            ).owner_id@ == receiver_id@ && has_str(pre.remaining_of(sale_id@), t) && !has_str(
                self.remaining_of(sale_id@),
                t,
            ) by {
                assert(mid0.has_token(t)) by {
                    assert(mid0.tokens@ == pre.tokens@);
                }
                if !has_str(drawn, t) {
                    assert(mid1.token_of(t) == mid0.token_of(t));
                    assert(mid0.token_of(t) == pre.token_of(t)) by {
                        assert(mid0.tokens@ == pre.tokens@);
                    }
                    assert(self.token_of(t) == mid1.token_of(t));
                    assert(false);
                } else {
                    let k = choose|k: int| 0 <= k < drawn.len() && drawn[k]@ == t;
                    assert(mid1.token_of(drawn[k]@).owner_id@ == receiver_id@);
                    assert(self.token_of(t) == mid1.token_of(t));
                    assert(has_str(pre.remaining_of(sale_id@), drawn[k]@));
                    assert(!has_str(mid0.remaining_of(sale_id@), drawn[k]@));
                    assert(!has_str(self.remaining_of(sale_id@), t));
                }
            }
            assert(purchase_applied(pre, *self, sale_id@, receiver_id@, amount));
        }
        Ok(())
    }

    /// The direct-payment entry path: rejects a sale bound to an alternate
    /// asset outright, requires the attached native value to cover
    /// `price * amount`, and runs the shared pipeline.
    pub fn nft_buy(
        &mut self,
        receiver_id: &AccountId,
        sale_id: &SaleId,
        amount: u64,
        deposit: u128,
        now: u64,
    ) -> (r: Result<(), SaleError>)
        requires
            old(self).wf(),
        ensures
            final(self).wf(),
            match r {
                Ok(()) => {
                    &&& old(self).is_available(sale_id@)
                    &&& !old(self).has_ft_token(sale_id@)
                    &&& deposit >= old(self).sale_of(sale_id@).price * amount
                    &&& purchase_error(*old(self), sale_id@, receiver_id@, amount, now) is None
                    &&& purchase_applied(
                        *old(self),
                        *final(self),
                        sale_id@,
                        receiver_id@,
                        amount,
                    )
                },
                Err(e) => *final(self) == *old(self) && if !old(self).is_available(sale_id@) {
                    e == SaleError::State
                } else if old(self).has_ft_token(sale_id@) {
                    e == SaleError::PaymentMismatch
                } else if !old(self).has_sale(sale_id@) {
                    e == SaleError::NotFound
                } else if deposit < old(self).sale_of(sale_id@).price * amount {
                    e == SaleError::InsufficientPayment
                } else {
                    match purchase_error(*old(self), sale_id@, receiver_id@, amount, now) {
                        Some(pe) => e == pe,
                        None => e == SaleError::OwnershipMismatch,
                    }
                },
            },
            (old(self).is_available(sale_id@) && !old(self).has_ft_token(sale_id@) && deposit
                >= old(self).sale_of(sale_id@).price * amount && purchase_error(
                *old(self),
                sale_id@,
                receiver_id@,
                amount,
                now,
            ) is None && (forall|t: Seq<char>|
                has_str(old(self).remaining_of(sale_id@), t) ==> old(self).has_token(t) && old(
                    self,
                ).token_of(t).owner_id@ == old(self).owner_id@)) ==> r is Ok,
    {
        if !vec_contains_string(&self.sales_available, sale_id) {
            return Err(SaleError::State);
        }
        if self.sale_by_ft_token.get(sale_id.as_str()).is_some() {
            return Err(SaleError::PaymentMismatch);
        }
        let price: u128 = match self.sale_by_id.get(sale_id.as_str()) {
            Some(s) => s.price,
            None => {
                return Err(SaleError::NotFound);
            },
        };
        match price.checked_mul(amount as u128) {
            Some(total) => {
                if deposit < total {
                    return Err(SaleError::InsufficientPayment);
                }
            },
            None => {
                proof {
                    assert(price * (amount as u128) > u128::MAX);
                }
                return Err(SaleError::InsufficientPayment);
            },
        }
        self.internal_random_mint(receiver_id, sale_id, amount, now)
    }
}

/// Re-establishes well-formedness after the three mutation steps of a
/// successful purchase: `a` is the validated starting state, `b` the state
/// after the draw, `c` the state after the transfers, and `d` the state
/// after the quota overwrite.
proof fn lemma_wf_after_mint(
    a: NonFungibleToken,
    b: NonFungibleToken,
    c: NonFungibleToken,
    d: NonFungibleToken,
    sale: Seq<char>,
    receiver: Seq<char>,
    amount: u64,
    drawn: Seq<String>,
)
    requires
        a.wf(),
        a.is_available(sale),
        a.quota(sale, receiver) + amount <= a.sale_of(sale).buy_max,
        amount <= a.remaining_of(sale).len(),
        // the draw step
        drawn.len() == amount,
        b.remaining_of(sale).len() == a.remaining_of(sale).len() - amount,
        crate::idvec::distinct_views(b.remaining_of(sale)),
        forall|t: Seq<char>| #![auto]
            has_str(b.remaining_of(sale), t) ==> has_str(a.remaining_of(sale), t),
        forall|x: Seq<char>| #![auto] x != sale ==> b.remaining_of(x) == a.remaining_of(x),
        b.sale_tokens == a.sale_tokens,
        b.sale_by_id == a.sale_by_id,
        b.sales_locked == a.sales_locked,
        b.sales_available == a.sales_available,
        b.sale_date_by_id == a.sale_date_by_id,
        b.sale_by_ft_token == a.sale_by_ft_token,
        b.sale_mint_counter == a.sale_mint_counter,
        b.tokens == a.tokens,
        b.sale_random_tokens@.dom() == a.sale_random_tokens@.dom(),
        // the transfer step: only the ledger differs
        c.sale_by_id == b.sale_by_id,
        c.sales_locked == b.sales_locked,
        c.sales_available == b.sales_available,
        c.sale_date_by_id == b.sale_date_by_id,
        c.sale_by_ft_token == b.sale_by_ft_token,
        c.sale_tokens == b.sale_tokens,
        c.sale_random_tokens == b.sale_random_tokens,
        c.sale_mint_counter == b.sale_mint_counter,
        forall|t: Seq<char>| #![auto] c.has_token(t) ==> c.token_of(t).token_id@ == t,
        // the quota step: only the counter table differs
        d.sale_by_id == c.sale_by_id,
        d.sales_locked == c.sales_locked,
        d.sales_available == c.sales_available,
        d.sale_date_by_id == c.sale_date_by_id,
        d.sale_by_ft_token == c.sale_by_ft_token,
        d.sale_tokens == c.sale_tokens,
        d.sale_random_tokens == c.sale_random_tokens,
        d.tokens == c.tokens,
        quota_keys_distinct_of(d),
        d.quota(sale, receiver) == a.quota(sale, receiver) + amount,
        d.minted_total(sale) == a.minted_total(sale) + amount,
        forall|sa: Seq<char>| #![trigger d.minted_total(sa)]
            sa != sale ==> d.minted_total(sa) == a.minted_total(sa),
        forall|i: int|
            #![trigger d.sale_mint_counter@[i]]
            0 <= i < d.sale_mint_counter@.len() ==> (d.sale_mint_counter@[i].sale_id@ == sale
                && d.sale_mint_counter@[i].account_id@ == receiver
                && d.sale_mint_counter@[i].minted == a.quota(sale, receiver) + amount) || (exists|
                j: int,
            |
                0 <= j < a.sale_mint_counter@.len() && d.sale_mint_counter@[i]
                    == a.sale_mint_counter@[j]),
    ensures
        d.wf(),
{
    assert(a.has_sale(sale));
    assert(!a.is_locked(sale));
    assert forall|x: Seq<char>| #![auto] d.has_start_date(x) implies d.has_sale(x) by {
        assert(a.has_start_date(x));
        assert(a.has_sale(x));
    }
    assert forall|x: Seq<char>| #![auto] d.has_ft_token(x) implies d.has_sale(x) by {
        assert(a.has_ft_token(x));
        assert(a.has_sale(x));
    }
    assert forall|x: Seq<char>| #![auto] d.is_locked(x) implies !d.is_available(x) by {
        assert(a.is_locked(x));
        assert(!a.is_available(x));
    }
    assert forall|x: Seq<char>| #![auto] d.is_locked(x) implies d.has_sale(x) by {
        assert(a.is_locked(x));
        assert(a.has_sale(x));
    }
    assert forall|x: Seq<char>| #![auto] d.is_available(x) implies d.has_sale(x) by {
        assert(a.is_available(x));
        assert(a.has_sale(x));
    }
    assert forall|x: Seq<char>| #![auto] d.is_started(x) implies d.has_start_date(x) by {
        assert(a.is_started(x));
        assert(a.has_start_date(x));
    }
    assert forall|t: Seq<char>| #![auto] d.has_token(t) implies d.token_of(t).token_id@ == t by {
        assert(c.has_token(t));
        assert(c.token_of(t).token_id@ == t);
    }
    assert forall|x: Seq<char>| #![auto]
        d.sale_tokens@.contains_key(x) implies d.has_sale(x) by {
        assert(a.sale_tokens@.contains_key(x));
        assert(a.has_sale(x));
    }
    assert forall|x: Seq<char>| #![auto]
        d.sale_random_tokens@.contains_key(x) implies d.sale_tokens@.contains_key(x) by {
        assert(a.sale_random_tokens@.dom().contains(x));
        assert(a.sale_random_tokens@.contains_key(x));
        assert(a.sale_tokens@.contains_key(x));
    }
    assert forall|x: Seq<char>| #![auto] crate::idvec::distinct_views(d.assigned_of(x)) by {
        assert(d.assigned_of(x) == a.assigned_of(x));
        assert(crate::idvec::distinct_views(a.assigned_of(x)));
    }
    assert forall|x: Seq<char>| #![auto] crate::idvec::distinct_views(d.remaining_of(x)) by {
        if x == sale {
            assert(d.remaining_of(x) == b.remaining_of(x));
        } else {
            assert(d.remaining_of(x) == a.remaining_of(x));
            assert(crate::idvec::distinct_views(a.remaining_of(x)));
        }
    }
    assert forall|x: Seq<char>, t: Seq<char>| #![auto]
        has_str(d.remaining_of(x), t) implies has_str(d.assigned_of(x), t) by {
        assert(d.assigned_of(x) == a.assigned_of(x));
        if x == sale {
            assert(d.remaining_of(x) == b.remaining_of(x));
            assert(has_str(a.remaining_of(sale), t));
            assert(has_str(a.assigned_of(sale), t));
        } else {
            assert(d.remaining_of(x) == a.remaining_of(x));
            assert(has_str(a.remaining_of(x), t));
            assert(has_str(a.assigned_of(x), t));
        }
    }
    assert forall|x: Seq<char>| #![auto]
        d.is_locked(x) implies d.remaining_of(x) == d.assigned_of(x) by {
        assert(a.is_locked(x));
        assert(x != sale);
        assert(d.remaining_of(x) == a.remaining_of(x));
        assert(d.assigned_of(x) == a.assigned_of(x));
    }
    assert forall|x: Seq<char>| #![auto]
        d.is_started(x) implies d.remaining_of(x).len() + d.minted_total(x) == d.sale_of(
        x,
    ).amount by {
        assert(a.is_started(x));
        assert(d.sale_of(x) == a.sale_of(x));
        if x == sale {
            assert(d.remaining_of(sale) == b.remaining_of(sale));
            assert(a.remaining_of(sale).len() + a.minted_total(sale) == a.sale_of(sale).amount);
        } else {
            assert(d.remaining_of(x) == a.remaining_of(x));
            assert(d.minted_total(x) == a.minted_total(x));
            assert(a.remaining_of(x).len() + a.minted_total(x) == a.sale_of(x).amount);
        }
    }
    assert forall|i: int|
        0 <= i < d.sale_mint_counter@.len() implies d.quota_entry_ok(
        #[trigger] d.sale_mint_counter@[i],
    ) by {
        let e = d.sale_mint_counter@[i];
        if e.sale_id@ == sale && e.account_id@ == receiver && e.minted == a.quota(sale, receiver)
            + amount {
            assert(a.has_sale(sale));
            assert(!a.is_locked(sale));
            assert(d.sale_of(sale) == a.sale_of(sale));
            assert(d.is_locked(sale) == a.is_locked(sale));
        } else {
            let j = choose|j: int|
                0 <= j < a.sale_mint_counter@.len() && e == a.sale_mint_counter@[j];
            assert(a.quota_entry_ok(a.sale_mint_counter@[j]));
            assert(d.sale_of(e.sale_id@) == a.sale_of(e.sale_id@));
            assert(d.is_locked(e.sale_id@) == a.is_locked(e.sale_id@));
        }
    }
}

/// The quota table of the state has pairwise distinct composite keys.
pub open spec fn quota_keys_distinct_of(s: NonFungibleToken) -> bool {
    crate::quota::quota_keys_distinct(s.sale_mint_counter@)
}

} // verus!
