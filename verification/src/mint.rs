//! The in-scope residue of the minting pipeline: registering a token in
//! the ledger and, when a sale is named, stocking that sale's pool with it
//! in the same invocation. The wider metadata machinery of minting lives
//! outside this engine.

use vstd::prelude::*;
use crate::errors::SaleError;
use crate::events::{EventKind, NftCreate};
use crate::idvec::{has_str, vec_contains_string, vec_copy_strings};
use crate::state::NonFungibleToken;
use crate::types::{AccountId, SaleId, Token, TokenId, TokenRarity};

verus! {

impl NonFungibleToken {
    /// Creates a token owned by the receiver (the registry owner when no
    /// receiver is named), emits a creation record, and, when a sale is
    /// named, appends the token to that still-locked sale's pool.
    pub fn nft_mint(
        &mut self,
        caller: &AccountId,
        token_id: TokenId,
        receiver_id: Option<AccountId>,
        rarity: TokenRarity,
        token_type: String,
        sale_id: Option<SaleId>,
    ) -> (r: Result<Token, SaleError>)
        requires
            old(self).wf(),
        ensures
            final(self).wf(),
            match r {
                Ok(tok) => {
                    &&& old(self).spec_is_owner(caller@)
                    &&& !old(self).has_token(token_id@)
                    &&& final(self).has_token(token_id@)
                    &&& final(self).token_of(token_id@) == tok
                    &&& tok.token_id@ == token_id@
                    &&& tok.rarity == rarity
                    &&& tok.token_type@ == token_type@
                    &&& tok.owner_id@ == (match receiver_id {
                        Some(a) => a@,
                        None => old(self).owner_id@,
                    })
                    &&& (forall|t: Seq<char>| #![auto]
                        t != token_id@ ==> final(self).has_token(t) == old(self).has_token(t)
                            && (old(self).has_token(t) ==> final(self).token_of(t) == old(
                            self,
                        ).token_of(t)))
                    &&& final(self).events@.len() == old(self).events@.len() + 1
                    &&& (final(self).events@.last().kind matches EventKind::NftCreate(d)
                        && d@.len() == 1 && d@[0].token.token_id@ == token_id@)
                    &&& (match sale_id {
                        Some(sid) => {
                            &&& old(self).is_locked(sid@)
                            &&& final(self).assigned_of(sid@) == old(self).assigned_of(sid@).push(
                                final(self).assigned_of(sid@).last(),
                            )
                            &&& final(self).assigned_of(sid@).last()@ == token_id@
                            &&& final(self).remaining_of(sid@) == final(self).assigned_of(sid@)
                        },
                        None => final(self).sale_tokens == old(self).sale_tokens
                            && final(self).sale_random_tokens == old(self).sale_random_tokens
                            && final(self).sale_by_token == old(self).sale_by_token,
                    })
                    &&& final(self).sale_by_id == old(self).sale_by_id
                    &&& final(self).sales_locked == old(self).sales_locked
                    &&& final(self).sales_available == old(self).sales_available
                    &&& final(self).sale_date_by_id == old(self).sale_date_by_id
                    &&& final(self).sale_by_ft_token == old(self).sale_by_ft_token
                    &&& final(self).sale_mint_counter == old(self).sale_mint_counter
                    &&& final(self).owner_id == old(self).owner_id
                    &&& final(self).upgrade_asset == old(self).upgrade_asset
                    &&& final(self).rarity_top == old(self).rarity_top
                    &&& final(self).upgrade_prices == old(self).upgrade_prices
                },
                Err(e) => {
                    &&& *final(self) == *old(self)
                    &&& (e == SaleError::Authorization <==> !old(self).spec_is_owner(caller@))
                    &&& (e == SaleError::IdInUse <==> old(self).spec_is_owner(caller@) && old(
                        self,
                    ).has_token(token_id@))
                    &&& (e == SaleError::State <==> old(self).spec_is_owner(caller@) && !old(
                        self,
                    ).has_token(token_id@) && (sale_id matches Some(sid) && !old(self).is_locked(
                        sid@,
                    )))
                    &&& (e == SaleError::AlreadyInSale <==> old(self).spec_is_owner(caller@)
                        && !old(self).has_token(token_id@) && (sale_id matches Some(sid) && old(
                        self,
                    ).is_locked(sid@) && has_str(old(self).assigned_of(sid@), token_id@)))
                    &&& (e == SaleError::Authorization || e == SaleError::IdInUse || e
                        == SaleError::State || e == SaleError::AlreadyInSale)
                },
            },
    {
        if *caller != self.owner_id {
            return Err(SaleError::Authorization);
        }
        if self.tokens.get(token_id.as_str()).is_some() {
            return Err(SaleError::IdInUse);
        }
        match &sale_id {
            Some(sid) => {
                if !vec_contains_string(&self.sales_locked, sid) {
                    return Err(SaleError::State);
                }
                let assigned: Vec<TokenId> = match self.sale_tokens.get(sid.as_str()) {
                    Some(v) => vec_copy_strings(v),
                    None => Vec::new(),
                };
                if vec_contains_string(&assigned, &token_id) {
                    return Err(SaleError::AlreadyInSale);
                }
            },
            None => {},
        }
        let owner: AccountId = match &receiver_id {
            Some(a) => a.clone(),
            None => self.owner_id.clone(),
        };
        let record = Token { token_id: token_id.clone(), owner_id: owner, rarity, token_type };
        let out = Token {
            token_id: record.token_id.clone(),
            owner_id: record.owner_id.clone(),
            rarity: record.rarity,
            token_type: record.token_type.clone(),
        };
        let ghost pre = *self;
        let ghost rec = record;
        self.tokens.insert(token_id.clone(), record);
        proof {
            assert(rec.token_id@ == token_id@);
            assert forall|t: Seq<char>| #![auto]
                self.has_token(t) implies self.token_of(t).token_id@ == t by {
                if t == token_id@ {
                    assert(self.token_of(t) == rec);
                } else {
                    assert(pre.has_token(t));
                    assert(self.token_of(t) == pre.token_of(t));
                }
            }
            NonFungibleToken::lemma_wf_frame(pre, *self);
            assert(out =~= rec);
        }
        let ghost mid = *self;
        let ev = (NftCreate {
            token: Token {
                token_id: out.token_id.clone(),
                owner_id: out.owner_id.clone(),
                rarity: out.rarity,
                token_type: out.token_type.clone(),
            },
        }).emit();
        self.events.push(ev);
        proof {
            assert(self.events@.drop_last() =~= mid.events@);
            NonFungibleToken::lemma_wf_frame_same_tokens(mid, *self);
        }
        match &sale_id {
            Some(sid) => {
                match self.internal_sale_add_token(sid, &token_id) {
                    Ok(()) => {},
                    Err(e) => {
                        return Err(e);
                    },
                }
            },
            None => {},
        }
        Ok(out)
    }
}

} // verus!
