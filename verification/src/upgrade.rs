//! Rarity upgrade pricer: a token moves strictly forward one tier in a
//! fixed total order, against an exact fee looked up in a sparse table
//! keyed by (token type, target tier). Both under- and over-payment are
//! rejected; a missing table row means the transition is unsupported.

use vstd::prelude::*;
use crate::errors::SaleError;
use crate::events::{EventKind, NftUpgrade};
use crate::state::NonFungibleToken;
use crate::types::{AccountId, Token, TokenId, TokenRarity, UpgradePrice};

verus! {

/// The fee of the first table row matching (type, tier); `None` when the
/// transition is unsupported for that type.
pub open spec fn price_of(s: Seq<UpgradePrice>, ty: Seq<char>, tier: TokenRarity) -> Option<u128>
    decreases s.len(),
{
    if s.len() == 0 {
        None
    } else if s[0].token_type@ == ty && s[0].rarity == tier {
        Some(s[0].price)
    } else {
        price_of(s.drop_first(), ty, tier)
    }
}

/// If the first table row matching (type, tier) stands at `i`, the lookup
/// yields that row's fee.
proof fn lemma_price_of_first_match(s: Seq<UpgradePrice>, ty: Seq<char>, tier: TokenRarity, i: int)
    requires
        0 <= i < s.len(),
        s[i].token_type@ == ty && s[i].rarity == tier,
        forall|j: int| 0 <= j < i ==> !(s[j].token_type@ == ty && s[j].rarity == tier),
    ensures
        price_of(s, ty, tier) == Some(s[i].price),
    decreases i,
{
    if i > 0 {
        lemma_price_of_first_match(s.drop_first(), ty, tier, i - 1);
    }
}

/// A pair without a table row has no fee.
proof fn lemma_price_of_no_match(s: Seq<UpgradePrice>, ty: Seq<char>, tier: TokenRarity)
    requires
        forall|j: int| 0 <= j < s.len() ==> !(s[j].token_type@ == ty && s[j].rarity == tier),
    ensures
        price_of(s, ty, tier) is None,
    decreases s.len(),
{
    if s.len() > 0 {
        assert forall|j: int| 0 <= j < s.drop_first().len() implies !(s.drop_first()[j].token_type@
            == ty && s.drop_first()[j].rarity == tier) by {
            assert(s.drop_first()[j] == s[j + 1]);
        }
        lemma_price_of_no_match(s.drop_first(), ty, tier);
    }
}

impl NonFungibleToken {
    /// The next tier in the fixed total order for this token, or
    /// MaxTierReached when the token is already at the top.
    pub fn next_rarity(&self, token_id: &TokenId) -> (r: Result<TokenRarity, SaleError>)
        ensures
            match r {
                Ok(t) => self.has_token(token_id@) && self.token_of(token_id@).rarity
                    < self.rarity_top && t == self.token_of(token_id@).rarity + 1,
                Err(e) => (e == SaleError::NotFound && !self.has_token(token_id@)) || (e
                    == SaleError::MaxTierReached && self.has_token(token_id@) && self.token_of(
                    token_id@,
                ).rarity >= self.rarity_top),
            },
    {
        match self.tokens.get(token_id.as_str()) {
            None => Err(SaleError::NotFound),
            Some(t) => {
                if t.rarity >= self.rarity_top {
                    Err(SaleError::MaxTierReached)
                } else {
                    Ok(t.rarity + 1)
                }
            },
        }
    }

    /// The exact fee for moving a token of the given type to the given
    /// tier; NoSuchTransition when the sparse table has no such row.
    pub fn upgrade_price(&self, token_type: &String, tier: TokenRarity) -> (r: Result<
        u128,
        SaleError,
    >)
        ensures
            match r {
                Ok(p) => price_of(self.upgrade_prices@, token_type@, tier) == Some(p),
                Err(e) => e == SaleError::NoSuchTransition && price_of(
                    self.upgrade_prices@,
                    token_type@,
                    tier,
                ) is None,
            },
    {
        let mut i: usize = 0;
        while i < self.upgrade_prices.len()
            invariant
                i <= self.upgrade_prices@.len(),
                forall|j: int|
                    0 <= j < i ==> !(self.upgrade_prices@[j].token_type@ == token_type@
                        && self.upgrade_prices@[j].rarity == tier),
            decreases self.upgrade_prices@.len() - i,
        {
            if self.upgrade_prices[i].token_type == *token_type && self.upgrade_prices[i].rarity
                == tier {
                proof {
                    lemma_price_of_first_match(
                        self.upgrade_prices@,
                        token_type@,
                        tier,
                        i as int,
                    );
                }
                return Ok(self.upgrade_prices[i].price);
            }
            i = i + 1;
        }
        proof {
            lemma_price_of_no_match(self.upgrade_prices@, token_type@, tier);
        }
        Err(SaleError::NoSuchTransition)
    }

    /// Sets the token's rarity to the target tier and emits an upgrade
    /// record, without any business-rule check: the orchestrating entry
    /// point has already validated owner, tier and fee.
    pub fn internal_upgrade_token_unguarded(
        &mut self,
        owner_id: &AccountId,
        token_id: &TokenId,
        amount: u128,
        rarity: TokenRarity,
    ) -> (r: Result<(), SaleError>)
        requires
            old(self).wf(),
        ensures
            final(self).wf(),
            match r {
                Ok(()) => {
                    &&& old(self).has_token(token_id@)
                    &&& final(self).tokens@ == old(self).tokens@.insert(
                        token_id@,
                        final(self).token_of(token_id@),
                    )
                    &&& final(self).token_of(token_id@).rarity == rarity
                    &&& final(self).token_of(token_id@).owner_id@ == old(self).token_of(
                        token_id@,
                    ).owner_id@
                    &&& final(self).token_of(token_id@).token_type@ == old(self).token_of(
                        token_id@,
                    ).token_type@
                    &&& final(self).events@.len() == old(self).events@.len() + 1
                    &&& final(self).events@.drop_last() == old(self).events@
                    &&& (final(self).events@.last().kind matches EventKind::NftUpgrade(d)
                        && d@.len() == 1 && d@[0].token_id@ == token_id@ && d@[0].rarity == rarity
                        && d@[0].price == amount && d@[0].owner_id@ == owner_id@)
                    &&& final(self).sale_by_id == old(self).sale_by_id
                    &&& final(self).sales_locked == old(self).sales_locked
                    &&& final(self).sales_available == old(self).sales_available
                    &&& final(self).sale_date_by_id == old(self).sale_date_by_id
                    &&& final(self).sale_by_ft_token == old(self).sale_by_ft_token
                    &&& final(self).sale_by_token == old(self).sale_by_token
                    &&& final(self).sale_tokens == old(self).sale_tokens
                    &&& final(self).sale_random_tokens == old(self).sale_random_tokens
                    &&& final(self).sale_mint_counter == old(self).sale_mint_counter
                    &&& final(self).owner_id == old(self).owner_id
                    &&& final(self).upgrade_asset == old(self).upgrade_asset
                    &&& final(self).rarity_top == old(self).rarity_top
                    &&& final(self).upgrade_prices == old(self).upgrade_prices
                },
                Err(e) => *final(self) == *old(self) && e == SaleError::NotFound && !old(
                    self,
                ).has_token(token_id@),
            },
    {
        let record = match self.tokens.get(token_id.as_str()) {
            Some(t) => Token {
                token_id: t.token_id.clone(),
                owner_id: t.owner_id.clone(),
                rarity,
                token_type: t.token_type.clone(),
            },
            None => {
                return Err(SaleError::NotFound);
            },
        };
        let ghost pre = *self;
        let ghost rec = record;
        self.tokens.insert(token_id.clone(), record);
        proof {
            assert(rec.token_id == pre.token_of(token_id@).token_id);
            assert(pre.has_token(token_id@));
            assert(pre.token_of(token_id@).token_id@ == token_id@);
            assert forall|t: Seq<char>| #![auto]
                self.has_token(t) implies self.token_of(t).token_id@ == t by {
                if t == token_id@ {
                    assert(self.token_of(t) == rec);
                } else {
                    assert(pre.has_token(t));
                    assert(self.token_of(t) == pre.token_of(t));
                }
            }
            NonFungibleToken::lemma_wf_frame(pre, *self);
        }
        let ghost mid = *self;
        let ev = (NftUpgrade {
            owner_id: owner_id.clone(),
            rarity,
            token_id: token_id.clone(),
            price: amount,
        }).emit();
        self.events.push(ev);
        proof {
            assert(self.events@.drop_last() =~= mid.events@);
            NonFungibleToken::lemma_wf_frame_same_tokens(mid, *self);
        }
        Ok(())
    }

    /// Applies a rarity transition against an exact fee: fails unless the
    /// paid amount equals the table fee for (token type, target tier), to
    /// the unit; on success the token's rarity becomes the target tier.
    /// Verifying that the payer owns the token is the entry point's duty.
    pub fn upgrade_apply(&mut self, token_id: &TokenId, paid: u128, target: TokenRarity) -> (r:
        Result<(), SaleError>)
        requires
            old(self).wf(),
        ensures
            final(self).wf(),
            match r {
                Ok(()) => {
                    &&& old(self).has_token(token_id@)
                    &&& price_of(
                        old(self).upgrade_prices@,
                        old(self).token_of(token_id@).token_type@,
                        target,
                    ) == Some(paid)
                    &&& final(self).token_of(token_id@).rarity == target
                    &&& final(self).token_of(token_id@).owner_id@ == old(self).token_of(
                        token_id@,
                    ).owner_id@
                    &&& (forall|t: Seq<char>| #![auto]
                        t != token_id@ && old(self).has_token(t) ==> final(self).token_of(t)
                            == old(self).token_of(t))
                    &&& (forall|t: Seq<char>| #![auto]
                        final(self).has_token(t) == old(self).has_token(t))
                    &&& final(self).events@.len() == old(self).events@.len() + 1
                    &&& (final(self).events@.last().kind matches EventKind::NftUpgrade(d)
                        && d@.len() == 1 && d@[0].token_id@ == token_id@ && d@[0].rarity == target
                        && d@[0].price == paid)
                },
                Err(e) => {
                    &&& *final(self) == *old(self)
                    &&& (e == SaleError::NotFound <==> !old(self).has_token(token_id@))
                    &&& (e == SaleError::NoSuchTransition <==> old(self).has_token(token_id@)
                        && price_of(
                        old(self).upgrade_prices@,
                        old(self).token_of(token_id@).token_type@,
                        target,
                    ) is None)
                    &&& (e == SaleError::PaymentMismatch <==> old(self).has_token(token_id@)
                        && (price_of(
                        old(self).upgrade_prices@,
                        old(self).token_of(token_id@).token_type@,
                        target,
                    ) matches Some(p) && p != paid))
                    &&& (e == SaleError::NotFound || e == SaleError::NoSuchTransition || e
                        == SaleError::PaymentMismatch)
                },
            },
    {
        let (owner, token_type) = match self.tokens.get(token_id.as_str()) {
            Some(t) => (t.owner_id.clone(), t.token_type.clone()),
            None => {
                return Err(SaleError::NotFound);
            },
        };
        let price = match self.upgrade_price(&token_type, target) {
            Ok(p) => p,
            Err(e) => {
                return Err(e);
            },
        };
        if paid != price {
            return Err(SaleError::PaymentMismatch);
        }
        match self.internal_upgrade_token_unguarded(&owner, token_id, paid, target) {
            Ok(()) => Ok(()),
            Err(e) => Err(e),
        }
    }
}

} // verus!
