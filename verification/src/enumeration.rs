//! Read-only projections over the sale registry, the pools and the quota
//! table: the views a host exposes for browsing sales and their tokens.

use vstd::prelude::*;
use crate::errors::SaleError;
use crate::idvec::vec_copy_strings;
use crate::state::NonFungibleToken;
use crate::types::{AccountId, JsonSale, SaleId, Token, TokenId};

verus! {

impl NonFungibleToken {
    /// The views of every currently available sale, in the order of the
    /// available set.
    pub fn nft_sales(&self) -> (r: Vec<JsonSale>)
        requires
            self.wf(),
        ensures
            r@.len() == self.sales_available@.len(),
            forall|i: int| #![auto]
                0 <= i < r@.len() ==> self.is_sale_view(self.sales_available@[i]@, r@[i]),
    {
        let mut r: Vec<JsonSale> = Vec::new();
        let mut i: usize = 0;
        while i < self.sales_available.len()
            invariant
                self.wf(),
                i <= self.sales_available@.len(),
                r@.len() == i,
                forall|j: int| #![auto]
                    0 <= j < i ==> self.is_sale_view(self.sales_available@[j]@, r@[j]),
            decreases self.sales_available@.len() - i,
        {
            proof {
                assert(self.is_available(self.sales_available@[i as int]@));
            }
            match self.enum_get_sale(&self.sales_available[i]) {
                Ok(j) => r.push(j),
                Err(_) => {
                    proof {
                        assert(self.has_sale(self.sales_available@[i as int]@));
                    }
                    return r;
                },
            }
            i = i + 1;
        }
        r
    }

    /// The view of one sale.
    pub fn nft_sale(&self, sale_id: &SaleId) -> (r: Result<JsonSale, SaleError>)
        ensures
            match r {
                Ok(j) => self.has_sale(sale_id@) && self.is_sale_view(sale_id@, j),
                Err(e) => e == SaleError::NotFound && !self.has_sale(sale_id@),
            },
    {
        self.enum_get_sale(sale_id)
    }

    /// How many tokens of the sale's pool are still unsold.
    pub fn nft_sale_not_minted(&self, sale_id: &SaleId) -> (r: Result<u64, SaleError>)
        ensures
            match r {
                Ok(n) => self.sale_random_tokens@.contains_key(sale_id@) && n == self.remaining_of(
                    sale_id@,
                ).len(),
                Err(e) => e == SaleError::NotFound && !self.sale_random_tokens@.contains_key(
                    sale_id@,
                ),
            },
    {
        match self.sale_random_tokens.get(sale_id.as_str()) {
            Some(v) => Ok(v.len() as u64),
            None => Err(SaleError::NotFound),
        }
    }

    /// The identifiers of every sale still in its stocking phase.
    pub fn nft_sales_locked(&self) -> (r: Vec<String>)
        ensures
            r@ == self.sales_locked@,
    {
        vec_copy_strings(&self.sales_locked)
    }

    /// Whether the sale this token was assigned to is still locked.
    pub fn nft_sale_token_locked(&self, token_id: &TokenId) -> (r: Result<bool, SaleError>)
        ensures
            match r {
                Ok(b) => self.sale_by_token@.contains_key(token_id@) && b == self.is_locked(
                    self.sale_by_token@[token_id@]@,
                ),
                Err(e) => e == SaleError::NotFound && !self.sale_by_token@.contains_key(token_id@),
            },
    {
        match self.sale_by_token.get(token_id.as_str()) {
            Some(sid) => Ok(crate::idvec::vec_contains_string(&self.sales_locked, sid)),
            None => Err(SaleError::NotFound),
        }
    }

    /// Every token identifier assigned to the sale's pool, sold or not; an
    /// unknown sale reads as empty. The bounds arguments are validated as
    /// the host expects, and the full assignment is returned.
    pub fn nft_sale_token_ids(
        &self,
        sale_id: &SaleId,
        from_index: Option<u128>,
        limit: Option<u64>,
    ) -> (r: Result<Vec<TokenId>, SaleError>)
        ensures
            match r {
                Ok(v) => (self.sale_tokens@.contains_key(sale_id@) ==> v@ == self.assigned_of(
                    sale_id@,
                )) && (!self.sale_tokens@.contains_key(sale_id@) ==> v@.len() == 0),
                Err(e) => e == SaleError::InvalidArgs && self.sale_tokens@.contains_key(sale_id@)
                    && (limit == Some(0u64) || (match from_index {
                    Some(s) => s >= self.assigned_of(sale_id@).len(),
                    None => self.assigned_of(sale_id@).len() == 0,
                })),
            },
    {
        let assigned = match self.sale_tokens.get(sale_id.as_str()) {
            Some(v) => v,
            None => {
                return Ok(Vec::new());
            },
        };
        match limit {
            Some(l) => {
                if l == 0 {
                    return Err(SaleError::InvalidArgs);
                }
            },
            None => {},
        }
        let start: u128 = match from_index {
            Some(s) => s,
            None => 0,
        };
        if (assigned.len() as u128) <= start {
            return Err(SaleError::InvalidArgs);
        }
        Ok(vec_copy_strings(assigned))
    }

    /// The full ledger records of the sale's assigned tokens, under the
    /// same bounds validation as the identifier view.
    pub fn nft_sale_tokens(
        &self,
        sale_id: &SaleId,
        from_index: Option<u128>,
        limit: Option<u64>,
    ) -> (r: Result<Vec<Token>, SaleError>)
        ensures
            match r {
                Ok(v) => (self.sale_tokens@.contains_key(sale_id@) ==> v@.len()
                    == self.assigned_of(sale_id@).len() && (forall|i: int| #![auto]
                    0 <= i < v@.len() ==> self.has_token(self.assigned_of(sale_id@)[i]@)
                        && v@[i] == self.token_of(self.assigned_of(sale_id@)[i]@))) && (
                !self.sale_tokens@.contains_key(sale_id@) ==> v@.len() == 0),
                Err(e) => (e == SaleError::InvalidArgs || e == SaleError::NotFound),
            },
    {
        let ids = match self.nft_sale_token_ids(sale_id, from_index, limit) {
            Ok(v) => v,
            Err(e) => {
                return Err(e);
            },
        };
        let mut r: Vec<Token> = Vec::new();
        let mut i: usize = 0;
        while i < ids.len()
            invariant
                self.sale_tokens@.contains_key(sale_id@) ==> ids@ == self.assigned_of(sale_id@),
                !self.sale_tokens@.contains_key(sale_id@) ==> ids@.len() == 0,
                i <= ids@.len(),
                r@.len() == i,
                forall|j: int| 0 <= j < i ==> self.has_token(#[trigger] ids@[j]@),
                forall|j: int| 0 <= j < i ==> #[trigger] r@[j] == self.token_of(ids@[j]@),
            decreases ids@.len() - i,
        {
            let ghost rpre = r@;
            match self.tokens.get(ids[i].as_str()) {
                Some(t) => {
                    r.push(
                        Token {
                            token_id: t.token_id.clone(),
                            owner_id: t.owner_id.clone(),
                            rarity: t.rarity,
                            token_type: t.token_type.clone(),
                        },
                    );
                    proof {
                        assert(self.has_token(ids@[i as int]@));
                        assert(r@[i as int] == self.token_of(ids@[i as int]@));
                        assert forall|j: int| 0 <= j < i + 1 implies self.has_token(
                            #[trigger] ids@[j]@,
                        ) by {
                            if j < i {
                                assert(self.has_token(ids@[j]@));
                            }
                        }
                        assert forall|j: int| 0 <= j < i + 1 implies #[trigger] r@[j]
                            == self.token_of(ids@[j]@) by {
                            if j < i {
                                assert(r@[j] == rpre[j]);
                                assert(rpre[j] == self.token_of(ids@[j]@));
                            }
                        }
                    }
                },
                None => {
                    return Err(SaleError::NotFound);
                },
            }
            i = i + 1;
        }
        Ok(r)
    }

    /// The account's cumulative minted amount in the sale; zero when the
    /// account never bought there.
    pub fn nft_sale_account_minted(&self, sale_id: &SaleId, account_id: &AccountId) -> (r: u32)
        ensures
            r == self.quota(sale_id@, account_id@),
    {
        self.internal_mint_counter_by_sale(account_id, sale_id)
    }

    /// The quota tracker's read side: the counter recorded for the account
    /// in the sale, zero when absent.
    pub fn internal_mint_counter_by_sale(&self, owner_id: &AccountId, sale_id: &SaleId) -> (r: u32)
        ensures
            r == self.quota(sale_id@, owner_id@),
    {
        crate::quota::quota_lookup(&self.sale_mint_counter, sale_id, owner_id)
    }
}

} // verus!
