//! Token pool allocator: stocking a locked sale's pool and drawing tokens
//! from it uniformly at random, without replacement and without
//! duplication. A draw removes what it returns within the same invocation;
//! there is no state in which an identifier is both drawn and still
//! present. The entropy comes from the process's thread-local generator
//! and is not resistant to an adversary who controls the ordering of
//! invocations; that is accepted for this domain.

use vstd::prelude::*;
use crate::errors::SaleError;
use crate::idvec::{distinct_views, has_str, vec_contains_string, vec_copy_strings, vec_take_at};
use crate::state::NonFungibleToken;
use crate::types::{SaleId, TokenId};

verus! {

/// Relies on rand::Rng::gen_range over `0..bound` on the thread-local
/// generator: the result is an index strictly below `bound`, drawn
/// uniformly. The call panics only on an empty range, which the
/// precondition rules out; nothing more is promised of a random value.
#[verifier::external_body]
fn random_index(bound: usize) -> (r: usize)
    requires
        bound >= 1,
    ensures
        r < bound,
{
    rand::Rng::gen_range(&mut rand::thread_rng(), 0..bound)
}

impl NonFungibleToken {
    /// Appends a token to both the assigned set and the remaining draw
    /// sequence of a still-locked sale, and records the token's sale.
    /// Fails when the token is already in this sale's pool.
    pub fn internal_sale_add_token(&mut self, sale_id: &SaleId, token_id: &TokenId) -> (r: Result<
        (),
        SaleError,
    >)
        requires
            old(self).wf(),
        ensures
            final(self).wf(),
            match r {
                Ok(()) => {
                    &&& old(self).is_locked(sale_id@)
                    &&& !has_str(old(self).assigned_of(sale_id@), token_id@)
                    &&& final(self).assigned_of(sale_id@) == old(self).assigned_of(
                        sale_id@,
                    ).push(*token_id)
                    &&& final(self).remaining_of(sale_id@) == old(self).remaining_of(
                        sale_id@,
                    ).push(*token_id)
                    &&& (forall|x: Seq<char>| #![auto]
                        x != sale_id@ ==> final(self).assigned_of(x) == old(self).assigned_of(x)
                            && final(self).remaining_of(x) == old(self).remaining_of(x))
                    &&& final(self).sale_by_token@ == old(self).sale_by_token@.insert(
                        token_id@,
                        *sale_id,
                    )
                    &&& final(self).sale_by_id == old(self).sale_by_id
                    &&& final(self).sales_locked == old(self).sales_locked
                    &&& final(self).sales_available == old(self).sales_available
                    &&& final(self).sale_date_by_id == old(self).sale_date_by_id
                    &&& final(self).sale_by_ft_token == old(self).sale_by_ft_token
                    &&& final(self).sale_mint_counter == old(self).sale_mint_counter
                    &&& final(self).tokens == old(self).tokens
                    &&& final(self).owner_id == old(self).owner_id
                    &&& final(self).upgrade_asset == old(self).upgrade_asset
                    &&& final(self).rarity_top == old(self).rarity_top
                    &&& final(self).upgrade_prices == old(self).upgrade_prices
                    &&& final(self).events == old(self).events
                },
                Err(e) => {
                    &&& *final(self) == *old(self)
                    &&& (e == SaleError::State <==> !old(self).is_locked(sale_id@))
                    &&& (e == SaleError::AlreadyInSale <==> old(self).is_locked(sale_id@)
                        && has_str(old(self).assigned_of(sale_id@), token_id@))
                    &&& (e == SaleError::State || e == SaleError::AlreadyInSale)
                },
            },
    {
        if !vec_contains_string(&self.sales_locked, sale_id) {
            return Err(SaleError::State);
        }
        let assigned: Vec<TokenId> = match self.sale_tokens.get(sale_id.as_str()) {
            Some(v) => vec_copy_strings(v),
            None => Vec::new(),
        };
        if vec_contains_string(&assigned, token_id) {
            return Err(SaleError::AlreadyInSale);
        }
        let remaining: Vec<TokenId> = match self.sale_random_tokens.get(sale_id.as_str()) {
            Some(v) => vec_copy_strings(v),
            None => Vec::new(),
        };
        let ghost pre = *self;
        proof {
            assert(assigned@ == pre.assigned_of(sale_id@));
            assert(pre.remaining_of(sale_id@) == pre.assigned_of(sale_id@));
            assert(remaining@ == pre.remaining_of(sale_id@));
        }
        let mut assigned = assigned;
        let mut remaining = remaining;
        assigned.push(token_id.clone());
        remaining.push(token_id.clone());
        self.sale_tokens.insert(sale_id.clone(), assigned);
        self.sale_random_tokens.insert(sale_id.clone(), remaining);
        self.sale_by_token.insert(token_id.clone(), sale_id.clone());
        proof {
            assert(self.assigned_of(sale_id@) =~= pre.assigned_of(sale_id@).push(*token_id));
            assert(self.remaining_of(sale_id@) =~= pre.remaining_of(sale_id@).push(*token_id));
            lemma_wf_after_add_token(pre, *self, sale_id@, token_id@);
        }
        Ok(())
    }

    /// Draws `amount` tokens from the sale's remaining pool, each picked at
    /// a uniformly random index and removed in the same invocation. The
    /// result has no duplicate, every drawn identifier leaves the pool, and
    /// nothing else does. Before removing an identifier its current owner
    /// is re-checked against the pool's originating account; on a mismatch
    /// the whole invocation fails and the state is exactly as it was.
    pub fn internal_random_tokens(&mut self, sale_id: &SaleId, amount: u32) -> (r: Result<
        Vec<TokenId>,
        SaleError,
    >)
        requires
            old(self).wf(),
        ensures
            match r {
                Ok(toks) => {
                    &&& toks@.len() == amount
                    &&& amount <= old(self).remaining_of(sale_id@).len()
                    &&& distinct_views(toks@)
                    &&& (forall|k: int| #![auto]
                        0 <= k < toks@.len() ==> has_str(
                            old(self).remaining_of(sale_id@),
                            toks@[k]@,
                        ))
                    &&& (forall|k: int| #![auto]
                        0 <= k < toks@.len() ==> old(self).has_token(toks@[k]@) && old(
                            self,
                        ).token_of(toks@[k]@).owner_id@ == old(self).owner_id@)
                    &&& (forall|k: int| #![auto]
                        0 <= k < toks@.len() ==> !has_str(
                            final(self).remaining_of(sale_id@),
                            toks@[k]@,
                        ))
                    &&& final(self).remaining_of(sale_id@).len() == old(self).remaining_of(
                        sale_id@,
                    ).len() - amount
                    &&& distinct_views(final(self).remaining_of(sale_id@))
                    &&& (forall|t: Seq<char>| #![auto]
                        has_str(final(self).remaining_of(sale_id@), t) ==> has_str(
                            old(self).remaining_of(sale_id@),
                            t,
                        ))
                    &&& (forall|t: Seq<char>| #![auto]
                        has_str(old(self).remaining_of(sale_id@), t) && !has_str(toks@, t)
                            ==> has_str(final(self).remaining_of(sale_id@), t))
                    &&& (forall|x: Seq<char>| #![auto]
                        x != sale_id@ ==> final(self).remaining_of(x) == old(self).remaining_of(x))
                    &&& (amount > 0 ==> old(self).sale_random_tokens@.contains_key(sale_id@)
                        && final(self).sale_random_tokens@.contains_key(sale_id@))
                    &&& (amount == 0 ==> *final(self) == *old(self))
                    &&& final(self).sale_random_tokens@.dom() == old(
                        self,
                    ).sale_random_tokens@.dom()
                    &&& final(self).sale_tokens == old(self).sale_tokens
                    &&& final(self).sale_by_id == old(self).sale_by_id
                    &&& final(self).sales_locked == old(self).sales_locked
                    &&& final(self).sales_available == old(self).sales_available
                    &&& final(self).sale_date_by_id == old(self).sale_date_by_id
                    &&& final(self).sale_by_ft_token == old(self).sale_by_ft_token
                    &&& final(self).sale_by_token == old(self).sale_by_token
                    &&& final(self).sale_mint_counter == old(self).sale_mint_counter
                    &&& final(self).tokens == old(self).tokens
                    &&& final(self).owner_id == old(self).owner_id
                    &&& final(self).upgrade_asset == old(self).upgrade_asset
                    &&& final(self).rarity_top == old(self).rarity_top
                    &&& final(self).upgrade_prices == old(self).upgrade_prices
                    &&& final(self).events == old(self).events
                },
                Err(e) => {
                    &&& *final(self) == *old(self)
                    &&& (e == SaleError::InsufficientInventory <==> amount > old(
                        self,
                    ).remaining_of(sale_id@).len())
                    &&& (e == SaleError::OwnershipMismatch ==> exists|t: Seq<char>|
                        has_str(old(self).remaining_of(sale_id@), t) && !(old(self).has_token(t)
                            && old(self).token_of(t).owner_id@ == old(self).owner_id@))
                    &&& (e == SaleError::InsufficientInventory || e == SaleError::OwnershipMismatch)
                },
            },
            (amount <= old(self).remaining_of(sale_id@).len() && (forall|t: Seq<char>|
                has_str(old(self).remaining_of(sale_id@), t) ==> old(self).has_token(t) && old(
                    self,
                ).token_of(t).owner_id@ == old(self).owner_id@)) ==> r is Ok,
    {
        let pool_src: Option<&Vec<TokenId>> = self.sale_random_tokens.get(sale_id.as_str());
        let mut pool: Vec<TokenId> = match pool_src {
            Some(v) => vec_copy_strings(v),
            None => Vec::new(),
        };
        let ghost all = pool@;
        proof {
            assert(all == old(self).remaining_of(sale_id@));
        }
        if (amount as usize) > pool.len() {
            return Err(SaleError::InsufficientInventory);
        }
        if amount == 0 {
            return Ok(Vec::new());
        }
        let mut tokens: Vec<TokenId> = Vec::new();
        let mut index: u32 = 0;
        while index < amount
            invariant
                *self == *old(self),
                index <= amount,
                amount <= all.len(),
                all == old(self).remaining_of(sale_id@),
                self.wf(),
                pool@.len() == all.len() - index,
                tokens@.len() == index,
                distinct_views(pool@),
                distinct_views(tokens@),
                forall|t: Seq<char>| #![auto] has_str(pool@, t) ==> has_str(all, t),
                forall|k: int| #![auto] 0 <= k < tokens@.len() ==> has_str(all, tokens@[k]@),
                forall|k: int| #![auto]
                    0 <= k < tokens@.len() ==> !has_str(pool@, tokens@[k]@),
                forall|t: Seq<char>| #![auto]
                    has_str(all, t) ==> has_str(pool@, t) || has_str(tokens@, t),
                forall|k: int| #![auto]
                    0 <= k < tokens@.len() ==> self.has_token(tokens@[k]@) && self.token_of(
                        tokens@[k]@,
                    ).owner_id@ == self.owner_id@,
            decreases amount - index,
        {
            let rand_index = random_index(pool.len());
            let ghost pool_before = pool@;
            let ghost tokens_before = tokens@;
            let ghost tview = pool@[rand_index as int]@;
            proof {
                assert(has_str(pool_before, tview));
                assert(has_str(all, tview));
            }
            match self.tokens.get(pool[rand_index].as_str()) {
                Some(t) => {
                    if !(t.owner_id == self.owner_id) {
                        proof {
                            assert(*self == *old(self));
                            assert(old(self).has_token(tview));
                            assert(old(self).token_of(tview).owner_id@ != old(self).owner_id@);
                            assert(has_str(old(self).remaining_of(sale_id@), tview));
                            assert(!(old(self).has_token(tview) && old(self).token_of(
                                tview,
                            ).owner_id@ == old(self).owner_id@));
                        }
                        return Err(SaleError::OwnershipMismatch);
                    }
                },
                None => {
                    proof {
                        assert(!self.has_token(tview));
                    }
                    return Err(SaleError::OwnershipMismatch);
                },
            }
            let tok = vec_take_at(&mut pool, rand_index);
            proof {
                assert(tok@ == tview);
                assert(has_str(all, tok@));
                assert forall|k: int| 0 <= k < tokens_before.len() implies tokens_before[k]@
                    != tok@ by {
                    assert(!has_str(pool_before, tokens_before[k]@));
                }
                assert forall|t: Seq<char>| has_str(pool@, t) implies has_str(
                    pool_before,
                    t,
                ) by {
                    if t != tok@ {
                        assert(has_str(pool_before, t));
                    }
                }
            }
            tokens.push(tok);
            proof {
                assert forall|t: Seq<char>| has_str(all, t) implies has_str(pool@, t) || has_str(
                    tokens@,
                    t,
                ) by {
                    if has_str(pool_before, t) {
                        if t == tview {
                            assert(tokens@[tokens_before.len() as int]@ == t);
                        } else {
                            assert(has_str(pool@, t));
                        }
                    } else {
                        assert(has_str(tokens_before, t));
                        let k = choose|k: int|
                            0 <= k < tokens_before.len() && tokens_before[k]@ == t;
                        assert(tokens@[k]@ == t);
                    }
                }
                assert forall|k: int| 0 <= k < tokens@.len() implies !has_str(
                    pool@,
                    tokens@[k]@,
                ) by {
                    if k < tokens_before.len() {
                        assert(!has_str(pool_before, tokens_before[k]@));
                        assert(tokens@[k] == tokens_before[k]);
                    } else {
                        assert(tokens@[k]@ == tview);
                    }
                }
                assert forall|p: int, q: int| 0 <= p < q < tokens@.len() implies tokens@[p]@
                    != tokens@[q]@ by {
                    if q < tokens_before.len() {
                        assert(tokens_before[p]@ != tokens_before[q]@);
                    } else {
                        assert(tokens@[q]@ == tview);
                        assert(!has_str(pool_before, tokens_before[p]@));
                    }
                }
                assert forall|k: int| 0 <= k < tokens@.len() implies has_str(
                    all,
                    tokens@[k]@,
                ) by {
                    if k < tokens_before.len() {
                        assert(tokens@[k] == tokens_before[k]);
                    }
                }
            }
            index = index + 1;
        }
        let ghost pre = *self;
        self.sale_random_tokens.insert(sale_id.clone(), pool);
        proof {
            assert(self.remaining_of(sale_id@) == pool@);
            assert(pre.sale_random_tokens@.contains_key(sale_id@)) by {
                if !pre.sale_random_tokens@.contains_key(sale_id@) {
                    assert(all.len() == 0);
                }
            }
            assert(self.sale_random_tokens@.dom() =~= pre.sale_random_tokens@.dom());
            assert forall|x: Seq<char>| #![auto]
                x != sale_id@ implies self.remaining_of(x) == pre.remaining_of(x) by {}
        }
        Ok(tokens)
    }
}

/// After appending a fresh token to the pool of the locked sale `id` from a
/// well-formed state, the state is well-formed again.
proof fn lemma_wf_after_add_token(
    a: NonFungibleToken,
    b: NonFungibleToken,
    id: Seq<char>,
    tok: Seq<char>,
)
    requires
        a.wf(),
        a.is_locked(id),
        !has_str(a.assigned_of(id), tok),
        b.assigned_of(id).len() == a.assigned_of(id).len() + 1,
        b.assigned_of(id) == a.assigned_of(id).push(b.assigned_of(id).last()),
        b.assigned_of(id).last()@ == tok,
        b.remaining_of(id) == b.assigned_of(id),
        b.sale_tokens@.dom() == a.sale_tokens@.dom().insert(id),
        b.sale_random_tokens@.dom() == a.sale_random_tokens@.dom().insert(id),
        forall|x: Seq<char>| x != id ==> #[trigger] b.assigned_of(x) == a.assigned_of(x),
        forall|x: Seq<char>| x != id ==> #[trigger] b.remaining_of(x) == a.remaining_of(x),
        b.sale_by_id == a.sale_by_id,
        b.sales_locked == a.sales_locked,
        b.sales_available == a.sales_available,
        b.sale_date_by_id == a.sale_date_by_id,
        b.sale_by_ft_token == a.sale_by_ft_token,
        b.sale_mint_counter == a.sale_mint_counter,
        b.tokens == a.tokens,
    ensures
        b.wf(),
{
    assert forall|x: Seq<char>| #![auto] b.has_start_date(x) implies b.has_sale(x) by {
        assert(a.has_start_date(x));
        assert(a.has_sale(x));
    }
    assert forall|x: Seq<char>| #![auto] b.has_ft_token(x) implies b.has_sale(x) by {
        assert(a.has_ft_token(x));
        assert(a.has_sale(x));
    }
    assert forall|x: Seq<char>| #![auto] b.is_locked(x) implies !b.is_available(x) by {
        assert(a.is_locked(x));
        assert(!a.is_available(x));
    }
    assert forall|x: Seq<char>| #![auto] b.is_locked(x) implies b.has_sale(x) by {
        assert(a.is_locked(x));
        assert(a.has_sale(x));
    }
    assert forall|x: Seq<char>| #![auto] b.is_available(x) implies b.has_sale(x) by {
        assert(a.is_available(x));
        assert(a.has_sale(x));
    }
    assert forall|x: Seq<char>| #![auto] b.is_started(x) implies b.has_start_date(x) by {
        assert(a.is_started(x));
        assert(a.has_start_date(x));
    }
    assert forall|t: Seq<char>| #![auto] b.has_token(t) implies b.token_of(t).token_id@ == t by {
        assert(a.has_token(t));
        assert(a.token_of(t).token_id@ == t);
    }
    assert forall|x: Seq<char>| #![auto]
        b.sale_tokens@.contains_key(x) implies b.has_sale(x) by {
        if x == id {
            assert(a.is_locked(id));
            assert(a.has_sale(id));
        } else {
            assert(a.sale_tokens@.contains_key(x));
            assert(a.has_sale(x));
        }
    }
    assert forall|x: Seq<char>| #![auto]
        b.sale_random_tokens@.contains_key(x) implies b.sale_tokens@.contains_key(x) by {
        if x != id {
            assert(a.sale_random_tokens@.contains_key(x));
            assert(a.sale_tokens@.contains_key(x));
        }
    }
    assert forall|x: Seq<char>| #![auto] distinct_views(b.assigned_of(x)) by {
        if x == id {
            let s = b.assigned_of(id);
            assert forall|p: int, q: int| 0 <= p < q < s.len() implies s[p]@ != s[q]@ by {
                if q < s.len() - 1 {
                    assert(a.assigned_of(id)[p]@ != a.assigned_of(id)[q]@);
                } else {
                    assert(s[q]@ == tok);
                    assert(!has_str(a.assigned_of(id), tok));
                    assert(s[p] == a.assigned_of(id)[p]);
                }
            }
        } else {
            assert(b.assigned_of(x) == a.assigned_of(x));
            assert(distinct_views(a.assigned_of(x)));
        }
    }
    assert forall|x: Seq<char>| #![auto] distinct_views(b.remaining_of(x)) by {
        if x == id {
            assert(distinct_views(b.assigned_of(id)));
        } else {
            assert(b.remaining_of(x) == a.remaining_of(x));
            assert(distinct_views(a.remaining_of(x)));
        }
    }
    assert forall|x: Seq<char>, t: Seq<char>| #![auto]
        has_str(b.remaining_of(x), t) implies has_str(b.assigned_of(x), t) by {
        if x != id {
            assert(b.remaining_of(x) == a.remaining_of(x));
            assert(b.assigned_of(x) == a.assigned_of(x));
            assert(has_str(a.remaining_of(x), t));
        }
    }
    assert forall|x: Seq<char>| #![auto]
        b.is_locked(x) implies b.remaining_of(x) == b.assigned_of(x) by {
        if x != id {
            assert(a.is_locked(x));
            assert(b.remaining_of(x) == a.remaining_of(x));
            assert(b.assigned_of(x) == a.assigned_of(x));
        }
    }
    assert forall|x: Seq<char>| #![auto]
        b.is_started(x) implies b.remaining_of(x).len() + b.minted_total(x) == b.sale_of(
        x,
    ).amount by {
        assert(x != id);
        assert(a.is_started(x));
        assert(b.remaining_of(x) == a.remaining_of(x));
        assert(b.sale_of(x) == a.sale_of(x));
    }
    assert forall|i: int|
        0 <= i < b.sale_mint_counter@.len() implies b.quota_entry_ok(
        #[trigger] b.sale_mint_counter@[i],
    ) by {
        assert(a.quota_entry_ok(a.sale_mint_counter@[i]));
        let e = b.sale_mint_counter@[i];
        assert(b.is_locked(e.sale_id@) == a.is_locked(e.sale_id@));
        assert(b.sale_of(e.sale_id@) == a.sale_of(e.sale_id@));
    }
}

} // verus!
