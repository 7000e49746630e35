//! Sale registry: creating a campaign in the locked state, the irreversible
//! locked-to-available start transition, pre-launch edits, and pausing.
//! Every mutation is owner-only, checks before it writes, and emits one
//! event record; a failed call leaves the state exactly as it found it.

use vstd::prelude::*;
use crate::errors::SaleError;
use crate::events::{EventKind, SaleCreate, SalePause, SaleStart, SaleUpdate};
use crate::idvec::{has_str, vec_contains_string, vec_insert_string, vec_remove_string};
use crate::quota::lemma_total_minted_no_entries;
use crate::state::NonFungibleToken;
use crate::types::{AccountId, JsonSale, Sale, SaleId};

verus! {

impl NonFungibleToken {
    /// Creates a sale campaign: inserts the descriptor, marks the sale
    /// locked (stocking phase), and binds the alternate asset if one is
    /// given. Fails when the identifier is already taken.
    pub fn nft_sale_add(
        &mut self,
        caller: &AccountId,
        id: SaleId,
        name: String,
        amount: u64,
        price: u128,
        per_transaction_min: u32,
        per_transaction_max: u32,
        buy_max: u32,
        ft_token: Option<AccountId>,
    ) -> (r: Result<JsonSale, SaleError>)
        requires
            old(self).wf(),
        ensures
            final(self).wf(),
            match r {
                Ok(j) => {
                    &&& old(self).spec_is_owner(caller@)
                    &&& !old(self).is_locked(id@)
                    &&& !old(self).has_sale(id@)
                    &&& final(self).sale_by_id@ == old(self).sale_by_id@.insert(
                        id@,
                        final(self).sale_of(id@),
                    )
                    &&& final(self).sale_of(id@).name@ == name@
                    &&& final(self).sale_of(id@).amount == amount
                    &&& final(self).sale_of(id@).price == price
                    &&& final(self).sale_of(id@).per_transaction_min == per_transaction_min
                    &&& final(self).sale_of(id@).per_transaction_max == per_transaction_max
                    &&& final(self).sale_of(id@).buy_max == buy_max
                    &&& final(self).is_locked(id@)
                    &&& (forall|x: Seq<char>| #![auto]
                        x != id@ ==> final(self).is_locked(x) == old(self).is_locked(x))
                    &&& final(self).sales_available == old(self).sales_available
                    &&& final(self).sale_date_by_id == old(self).sale_date_by_id
                    &&& (match ft_token {
                        Some(a) => final(self).sale_by_ft_token@
                            == old(self).sale_by_ft_token@.insert(id@, a),
                        None => final(self).sale_by_ft_token == old(self).sale_by_ft_token,
                    })
                    &&& final(self).sale_tokens == old(self).sale_tokens
                    &&& final(self).sale_random_tokens == old(self).sale_random_tokens
                    &&& final(self).sale_mint_counter == old(self).sale_mint_counter
                    &&& final(self).tokens == old(self).tokens
                    &&& final(self).sale_by_token == old(self).sale_by_token
                    &&& final(self).owner_id == old(self).owner_id
                    &&& final(self).upgrade_asset == old(self).upgrade_asset
                    &&& final(self).rarity_top == old(self).rarity_top
                    &&& final(self).upgrade_prices == old(self).upgrade_prices
                    &&& final(self).events@.len() == old(self).events@.len() + 1
                    &&& final(self).events@.drop_last() == old(self).events@
                    &&& (final(self).events@.last().kind matches EventKind::SaleCreate(d)
                        && d@.len() == 1 && d@[0].sale.id@ == id@)
                    &&& !old(self).has_start_date(id@)
                    &&& !old(self).has_ft_token(id@)
                    &&& final(self).is_sale_view(id@, j)
                    &&& j.locked
                    &&& j.amount == amount
                    &&& j.not_minted == amount
                    &&& j.start_date is None
                },
                Err(e) => {
                    &&& *final(self) == *old(self)
                    &&& (e == SaleError::Authorization <==> !old(self).spec_is_owner(caller@))
                    &&& (e == SaleError::IdInUse <==> old(self).spec_is_owner(caller@) && (old(
                        self,
                    ).is_locked(id@) || old(self).has_sale(id@)))
                    &&& (e == SaleError::Authorization || e == SaleError::IdInUse)
                },
            },
    {
        if *caller != self.owner_id {
            return Err(SaleError::Authorization);
        }
        if vec_contains_string(&self.sales_locked, &id) {
            return Err(SaleError::IdInUse);
        }
        if self.sale_by_id.get(id.as_str()).is_some() {
            return Err(SaleError::IdInUse);
        }
        let ghost pre = *self;
        let sale = Sale { name, amount, price, per_transaction_min, per_transaction_max, buy_max };
        vec_insert_string(&mut self.sales_locked, id.clone());
        self.sale_by_id.insert(id.clone(), sale);
        match ft_token {
            Some(a) => {
                self.sale_by_ft_token.insert(id.clone(), a);
            },
            None => {},
        }
        proof {
            lemma_wf_after_add(pre, *self, id@);
            assert(!pre.sale_random_tokens@.contains_key(id@)) by {
                if pre.sale_random_tokens@.contains_key(id@) {
                    assert(pre.sale_tokens@.contains_key(id@));
                    assert(pre.has_sale(id@));
                }
            }
            assert(!pre.has_start_date(id@)) by {
                if pre.has_start_date(id@) {
                    assert(pre.has_sale(id@));
                }
            }
            assert(!pre.has_ft_token(id@)) by {
                if pre.has_ft_token(id@) {
                    assert(pre.has_sale(id@));
                }
            }
        }
        let json = match self.enum_get_sale(&id) {
            Ok(j) => j,
            Err(_) => {
                return Err(SaleError::NotFound);
            },
        };
        let ghost mid = *self;
        let ev = (SaleCreate { sale: json }).emit();
        self.events.push(ev);
        proof {
            assert(self.events@.drop_last() =~= mid.events@);
            NonFungibleToken::lemma_wf_frame_same_tokens(mid, *self);
        }
        let json_out = match self.enum_get_sale(&id) {
            Ok(j) => j,
            Err(_) => {
                return Err(SaleError::NotFound);
            },
        };
        Ok(json_out)
    }
}

impl NonFungibleToken {
    /// The irreversible locked-to-available transition. Requires the pool
    /// to hold exactly the declared amount of tokens (fully stocked), sets
    /// the start timestamp, and makes the sale purchasable.
    pub fn nft_sale_start(&mut self, caller: &AccountId, sale_id: SaleId, date: u64) -> (r: Result<
        JsonSale,
        SaleError,
    >)
        requires
            old(self).wf(),
        ensures
            final(self).wf(),
            match r {
                Ok(j) => {
                    &&& old(self).spec_is_owner(caller@)
                    &&& old(self).has_sale(sale_id@)
                    &&& old(self).is_locked(sale_id@)
                    &&& old(self).assigned_of(sale_id@).len() == old(self).sale_of(sale_id@).amount
                    &&& !final(self).is_locked(sale_id@)
                    &&& final(self).is_available(sale_id@)
                    &&& final(self).is_started(sale_id@)
                    &&& (forall|x: Seq<char>| #![auto]
                        x != sale_id@ ==> final(self).is_locked(x) == old(self).is_locked(x))
                    &&& (forall|x: Seq<char>| #![auto]
                        x != sale_id@ ==> final(self).is_available(x) == old(self).is_available(x))
                    &&& final(self).sale_date_by_id@ == old(self).sale_date_by_id@.insert(
                        sale_id@,
                        date,
                    )
                    &&& final(self).sale_by_id == old(self).sale_by_id
                    &&& final(self).sale_tokens == old(self).sale_tokens
                    &&& final(self).sale_random_tokens == old(self).sale_random_tokens
                    &&& final(self).sale_mint_counter == old(self).sale_mint_counter
                    &&& final(self).tokens == old(self).tokens
                    &&& final(self).sale_by_ft_token == old(self).sale_by_ft_token
                    &&& final(self).sale_by_token == old(self).sale_by_token
                    &&& final(self).owner_id == old(self).owner_id
                    &&& final(self).upgrade_asset == old(self).upgrade_asset
                    &&& final(self).rarity_top == old(self).rarity_top
                    &&& final(self).upgrade_prices == old(self).upgrade_prices
                    &&& final(self).events@.len() == old(self).events@.len() + 1
                    &&& final(self).events@.drop_last() == old(self).events@
                    &&& (final(self).events@.last().kind matches EventKind::SaleStart(d) && d@.len()
                        == 1 && d@[0].sale_id@ == sale_id@ && d@[0].date == date)
                    &&& final(self).is_sale_view(sale_id@, j)
                    &&& !j.locked
                    &&& j.start_date == Some(date)
                },
                Err(e) => {
                    &&& *final(self) == *old(self)
                    &&& (e == SaleError::Authorization <==> !old(self).spec_is_owner(caller@))
                    &&& (e == SaleError::NotFound <==> old(self).spec_is_owner(caller@) && !old(
                        self,
                    ).has_sale(sale_id@))
                    &&& (e == SaleError::State <==> old(self).spec_is_owner(caller@) && old(
                        self,
                    ).has_sale(sale_id@) && !old(self).is_locked(sale_id@))
                    &&& (e == SaleError::NotFullyStocked <==> old(self).spec_is_owner(caller@)
                        && old(self).has_sale(sale_id@) && old(self).is_locked(sale_id@) && old(
                        self,
                    ).assigned_of(sale_id@).len() != old(self).sale_of(sale_id@).amount)
                    &&& (e == SaleError::Authorization || e == SaleError::NotFound || e
                        == SaleError::State || e == SaleError::NotFullyStocked)
                },
            },
    {
        if *caller != self.owner_id {
            return Err(SaleError::Authorization);
        }
        let amount: u64 = match self.sale_by_id.get(sale_id.as_str()) {
            Some(s) => s.amount,
            None => {
                return Err(SaleError::NotFound);
            },
        };
        if !vec_contains_string(&self.sales_locked, &sale_id) {
            return Err(SaleError::State);
        }
        let stocked: u64 = match self.sale_tokens.get(sale_id.as_str()) {
            Some(v) => v.len() as u64,
            None => 0u64,
        };
        proof {
            if !self.sale_tokens@.contains_key(sale_id@) {
                assert(self.assigned_of(sale_id@) =~= Seq::<String>::empty());
            }
        }
        if stocked != amount {
            return Err(SaleError::NotFullyStocked);
        }
        let ghost pre = *self;
        vec_insert_string(&mut self.sales_available, sale_id.clone());
        vec_remove_string(&mut self.sales_locked, &sale_id);
        self.sale_date_by_id.insert(sale_id.clone(), date);
        proof {
            assert forall|i: int| 0 <= i < pre.sale_mint_counter@.len() implies pre.sale_mint_counter@[i].sale_id@
                != sale_id@ by {
                assert(pre.quota_entry_ok(pre.sale_mint_counter@[i]));
            }
            lemma_total_minted_no_entries(pre.sale_mint_counter@, sale_id@);
            lemma_wf_after_start(pre, *self, sale_id@);
        }
        let ghost mid = *self;
        let ev = (SaleStart { sale_id: sale_id.clone(), date }).emit();
        self.events.push(ev);
        proof {
            assert(self.events@.drop_last() =~= mid.events@);
            NonFungibleToken::lemma_wf_frame_same_tokens(mid, *self);
        }
        match self.enum_get_sale(&sale_id) {
            Ok(j) => Ok(j),
            Err(_) => Err(SaleError::NotFound),
        }
    }
}

impl NonFungibleToken {
    /// Overwrites the date and the three limits of a still-locked sale.
    /// Name, amount and price are immutable after creation; once the sale
    /// has started the descriptor can no longer be edited.
    pub fn nft_sale_update(
        &mut self,
        caller: &AccountId,
        sale_id: SaleId,
        date: u64,
        per_transaction_min: u32,
        per_transaction_max: u32,
        buy_max: u32,
    ) -> (r: Result<JsonSale, SaleError>)
        requires
            old(self).wf(),
        ensures
            final(self).wf(),
            match r {
                Ok(j) => {
                    &&& old(self).spec_is_owner(caller@)
                    &&& old(self).has_sale(sale_id@)
                    &&& old(self).is_locked(sale_id@)
                    &&& final(self).sale_by_id@ == old(self).sale_by_id@.insert(
                        sale_id@,
                        final(self).sale_of(sale_id@),
                    )
                    &&& final(self).sale_of(sale_id@).name@ == old(self).sale_of(sale_id@).name@
                    &&& final(self).sale_of(sale_id@).amount == old(self).sale_of(sale_id@).amount
                    &&& final(self).sale_of(sale_id@).price == old(self).sale_of(sale_id@).price
                    &&& final(self).sale_of(sale_id@).per_transaction_min == per_transaction_min
                    &&& final(self).sale_of(sale_id@).per_transaction_max == per_transaction_max
                    &&& final(self).sale_of(sale_id@).buy_max == buy_max
                    &&& final(self).sale_date_by_id@ == old(self).sale_date_by_id@.insert(
                        sale_id@,
                        date,
                    )
                    &&& final(self).sales_locked == old(self).sales_locked
                    &&& final(self).sales_available == old(self).sales_available
                    &&& final(self).sale_tokens == old(self).sale_tokens
                    &&& final(self).sale_random_tokens == old(self).sale_random_tokens
                    &&& final(self).sale_mint_counter == old(self).sale_mint_counter
                    &&& final(self).tokens == old(self).tokens
                    &&& final(self).sale_by_ft_token == old(self).sale_by_ft_token
                    &&& final(self).sale_by_token == old(self).sale_by_token
                    &&& final(self).owner_id == old(self).owner_id
                    &&& final(self).upgrade_asset == old(self).upgrade_asset
                    &&& final(self).rarity_top == old(self).rarity_top
                    &&& final(self).upgrade_prices == old(self).upgrade_prices
                    &&& final(self).events@.len() == old(self).events@.len() + 1
                    &&& final(self).events@.drop_last() == old(self).events@
                    &&& (final(self).events@.last().kind matches EventKind::SaleUpdate(d)
                        && d@.len() == 1 && d@[0].sale_id@ == sale_id@ && d@[0].date == date
                        && d@[0].per_transaction_min == per_transaction_min
                        && d@[0].per_transaction_max == per_transaction_max && d@[0].buy_max
                        == buy_max)
                    &&& final(self).is_sale_view(sale_id@, j)
                    &&& j.per_transaction_min == per_transaction_min
                    &&& j.per_transaction_max == per_transaction_max
                    &&& j.buy_max == buy_max
                },
                Err(e) => {
                    &&& *final(self) == *old(self)
                    &&& (e == SaleError::Authorization <==> !old(self).spec_is_owner(caller@))
                    &&& (e == SaleError::NotFound <==> old(self).spec_is_owner(caller@) && !old(
                        self,
                    ).has_sale(sale_id@))
                    &&& (e == SaleError::State <==> old(self).spec_is_owner(caller@) && old(
                        self,
                    ).has_sale(sale_id@) && !old(self).is_locked(sale_id@))
                    &&& (e == SaleError::Authorization || e == SaleError::NotFound || e
                        == SaleError::State)
                },
            },
    {
        if *caller != self.owner_id {
            return Err(SaleError::Authorization);
        }
        let new_sale = match self.sale_by_id.get(sale_id.as_str()) {
            Some(s) => Sale {
                name: s.name.clone(),
                amount: s.amount,
                price: s.price,
                per_transaction_min,
                per_transaction_max,
                buy_max,
            },
            None => {
                return Err(SaleError::NotFound);
            },
        };
        if !vec_contains_string(&self.sales_locked, &sale_id) {
            return Err(SaleError::State);
        }
        let ghost pre = *self;
        self.sale_date_by_id.insert(sale_id.clone(), date);
        self.sale_by_id.insert(sale_id.clone(), new_sale);
        proof {
            lemma_wf_after_update(pre, *self, sale_id@);
        }
        let ghost mid = *self;
        let ev = (SaleUpdate {
            sale_id: sale_id.clone(),
            date,
            per_transaction_max,
            per_transaction_min,
            buy_max,
        }).emit();
        self.events.push(ev);
        proof {
            assert(self.events@.drop_last() =~= mid.events@);
            NonFungibleToken::lemma_wf_frame_same_tokens(mid, *self);
        }
        match self.enum_get_sale(&sale_id) {
            Ok(j) => Ok(j),
            Err(_) => Err(SaleError::NotFound),
        }
    }

    /// Removes the sale from the available set (`pause` true) or reinserts
    /// it (`pause` false). The pool and the quota counters are untouched.
    /// Only the registry owner may do this, and only once the sale has
    /// left its stocking phase.
    pub fn nft_sale_pause(&mut self, caller: &AccountId, sale_id: SaleId, pause: bool) -> (r:
        Result<JsonSale, SaleError>)
        requires
            old(self).wf(),
        ensures
            final(self).wf(),
            match r {
                Ok(j) => {
                    &&& old(self).spec_is_owner(caller@)
                    &&& old(self).has_sale(sale_id@)
                    &&& !old(self).is_locked(sale_id@)
                    &&& final(self).is_available(sale_id@) == !pause
                    &&& (forall|x: Seq<char>| #![auto]
                        x != sale_id@ ==> final(self).is_available(x) == old(self).is_available(x))
                    &&& final(self).sales_locked == old(self).sales_locked
                    &&& final(self).sale_by_id == old(self).sale_by_id
                    &&& final(self).sale_date_by_id == old(self).sale_date_by_id
                    &&& final(self).sale_tokens == old(self).sale_tokens
                    &&& final(self).sale_random_tokens == old(self).sale_random_tokens
                    &&& final(self).sale_mint_counter == old(self).sale_mint_counter
                    &&& final(self).tokens == old(self).tokens
                    &&& final(self).sale_by_ft_token == old(self).sale_by_ft_token
                    &&& final(self).sale_by_token == old(self).sale_by_token
                    &&& final(self).owner_id == old(self).owner_id
                    &&& final(self).upgrade_asset == old(self).upgrade_asset
                    &&& final(self).rarity_top == old(self).rarity_top
                    &&& final(self).upgrade_prices == old(self).upgrade_prices
                    &&& final(self).events@.len() == old(self).events@.len() + 1
                    &&& final(self).events@.drop_last() == old(self).events@
                    &&& (final(self).events@.last().kind matches EventKind::SalePause(d)
                        && d@.len() == 1 && d@[0].sale_id@ == sale_id@ && d@[0].pause == pause)
                    &&& old(self).is_sale_view(sale_id@, j)
                    &&& final(self).is_sale_view(sale_id@, j)
                },
                Err(e) => {
                    &&& *final(self) == *old(self)
                    &&& (e == SaleError::Authorization <==> !old(self).spec_is_owner(caller@))
                    &&& (e == SaleError::NotFound <==> old(self).spec_is_owner(caller@) && !old(
                        self,
                    ).has_sale(sale_id@))
                    &&& (e == SaleError::State <==> old(self).spec_is_owner(caller@) && old(
                        self,
                    ).has_sale(sale_id@) && old(self).is_locked(sale_id@))
                    &&& (e == SaleError::Authorization || e == SaleError::NotFound || e
                        == SaleError::State)
                },
            },
    {
        if *caller != self.owner_id {
            return Err(SaleError::Authorization);
        }
        let json = match self.enum_get_sale(&sale_id) {
            Ok(j) => j,
            Err(_) => {
                return Err(SaleError::NotFound);
            },
        };
        if vec_contains_string(&self.sales_locked, &sale_id) {
            return Err(SaleError::State);
        }
        let ghost pre = *self;
        if pause {
            vec_remove_string(&mut self.sales_available, &sale_id);
        } else {
            vec_insert_string(&mut self.sales_available, sale_id.clone());
        }
        proof {
            lemma_wf_after_pause(pre, *self, sale_id@);
        }
        let ghost mid = *self;
        let ev = (SalePause { sale_id, pause }).emit();
        self.events.push(ev);
        proof {
            assert(self.events@.drop_last() =~= mid.events@);
            NonFungibleToken::lemma_wf_frame_same_tokens(mid, *self);
        }
        Ok(json)
    }
}

/// After overwriting the date and limits of the still-locked sale `id`
/// from a well-formed state, the state is well-formed again.
proof fn lemma_wf_after_update(a: NonFungibleToken, b: NonFungibleToken, id: Seq<char>)
    requires
        a.wf(),
        a.has_sale(id),
        a.is_locked(id),
        b.sale_by_id@ == a.sale_by_id@.insert(id, b.sale_of(id)),
        b.sale_date_by_id@ == a.sale_date_by_id@.insert(id, b.sale_date_by_id@[id]),
        b.sale_by_ft_token == a.sale_by_ft_token,
        b.sales_locked == a.sales_locked,
        b.sales_available == a.sales_available,
        b.sale_tokens == a.sale_tokens,
        b.sale_random_tokens == a.sale_random_tokens,
        b.sale_mint_counter == a.sale_mint_counter,
        b.tokens == a.tokens,
    ensures
        b.wf(),
{
    assert forall|x: Seq<char>| #![auto] b.is_locked(x) implies !b.is_available(x) by {
        assert(a.is_locked(x));
        assert(!a.is_available(x));
    }
    assert forall|x: Seq<char>| #![auto] b.has_start_date(x) implies b.has_sale(x) by {
        if x != id {
            assert(a.has_start_date(x));
            assert(a.has_sale(x));
        }
    }
    assert forall|x: Seq<char>| #![auto] b.has_ft_token(x) implies b.has_sale(x) by {
        assert(a.has_ft_token(x));
        assert(a.has_sale(x));
    }
    assert forall|x: Seq<char>| #![auto] b.is_locked(x) implies b.has_sale(x) by {
        assert(a.is_locked(x));
        assert(a.has_sale(x));
    }
    assert forall|x: Seq<char>| #![auto] b.is_available(x) implies b.has_sale(x) by {
        assert(a.is_available(x));
        assert(a.has_sale(x));
    }
    assert forall|x: Seq<char>| #![auto] b.is_started(x) implies b.has_start_date(x) by {
        if x != id {
            assert(a.is_started(x));
            assert(a.has_start_date(x));
        }
    }
    assert forall|t: Seq<char>| #![auto] b.has_token(t) implies b.token_of(t).token_id@ == t by {
        assert(a.has_token(t));
        assert(a.token_of(t).token_id@ == t);
    }
    assert forall|x: Seq<char>| #![auto]
        b.sale_tokens@.contains_key(x) implies b.has_sale(x) by {
        assert(a.sale_tokens@.contains_key(x));
        assert(a.has_sale(x));
    }
    assert forall|x: Seq<char>| #![auto]
        b.sale_random_tokens@.contains_key(x) implies b.sale_tokens@.contains_key(x) by {
        assert(a.sale_random_tokens@.contains_key(x));
    }
    assert forall|x: Seq<char>| #![auto] crate::idvec::distinct_views(b.assigned_of(x)) by {
        assert(b.assigned_of(x) == a.assigned_of(x));
        assert(crate::idvec::distinct_views(a.assigned_of(x)));
    }
    assert forall|x: Seq<char>| #![auto] crate::idvec::distinct_views(b.remaining_of(x)) by {
        assert(b.remaining_of(x) == a.remaining_of(x));
        assert(crate::idvec::distinct_views(a.remaining_of(x)));
    }
    assert forall|x: Seq<char>, t: Seq<char>| #![auto]
        has_str(b.remaining_of(x), t) implies has_str(b.assigned_of(x), t) by {
        assert(b.remaining_of(x) == a.remaining_of(x));
        assert(b.assigned_of(x) == a.assigned_of(x));
        assert(has_str(a.remaining_of(x), t));
    }
    assert forall|x: Seq<char>| #![auto]
        b.is_locked(x) implies b.remaining_of(x) == b.assigned_of(x) by {
        assert(a.is_locked(x));
        assert(b.remaining_of(x) == a.remaining_of(x));
        assert(b.assigned_of(x) == a.assigned_of(x));
    }
    assert forall|x: Seq<char>| #![auto]
        b.is_started(x) implies b.remaining_of(x).len() + b.minted_total(x) == b.sale_of(
        x,
    ).amount by {
        assert(x != id);
        assert(a.is_started(x));
        assert(b.remaining_of(x) == a.remaining_of(x));
        assert(b.sale_of(x) == a.sale_of(x));
    }
    assert forall|i: int|
        0 <= i < b.sale_mint_counter@.len() implies b.quota_entry_ok(
        #[trigger] b.sale_mint_counter@[i],
    ) by {
        assert(a.quota_entry_ok(a.sale_mint_counter@[i]));
        let e = b.sale_mint_counter@[i];
        assert(e.sale_id@ != id);
        assert(b.is_locked(e.sale_id@) == a.is_locked(e.sale_id@));
        assert(b.sale_of(e.sale_id@) == a.sale_of(e.sale_id@));
    }
}

/// After toggling the availability of the started sale `id` from a
/// well-formed state, the state is well-formed again.
proof fn lemma_wf_after_pause(a: NonFungibleToken, b: NonFungibleToken, id: Seq<char>)
    requires
        a.wf(),
        a.has_sale(id),
        !a.is_locked(id),
        crate::idvec::distinct_views(b.sales_available@),
        forall|y: Seq<char>|
            y != id ==> has_str(b.sales_available@, y) == has_str(a.sales_available@, y),
        b.sales_locked == a.sales_locked,
        b.sale_by_id == a.sale_by_id,
        b.sale_date_by_id == a.sale_date_by_id,
        b.sale_by_ft_token == a.sale_by_ft_token,
        b.sale_tokens == a.sale_tokens,
        b.sale_random_tokens == a.sale_random_tokens,
        b.sale_mint_counter == a.sale_mint_counter,
        b.tokens == a.tokens,
    ensures
        b.wf(),
{
    assert forall|x: Seq<char>| #![auto] b.is_locked(x) implies !b.is_available(x) by {
        assert(a.is_locked(x));
        assert(x != id);
        assert(!a.is_available(x));
    }
    assert forall|x: Seq<char>| #![auto] b.has_start_date(x) implies b.has_sale(x) by {
        assert(a.has_start_date(x));
        assert(a.has_sale(x));
    }
    assert forall|x: Seq<char>| #![auto] b.has_ft_token(x) implies b.has_sale(x) by {
        assert(a.has_ft_token(x));
        assert(a.has_sale(x));
    }
    assert forall|x: Seq<char>| #![auto] b.is_locked(x) implies b.has_sale(x) by {
        assert(a.is_locked(x));
        assert(a.has_sale(x));
    }
    assert forall|x: Seq<char>| #![auto] b.is_available(x) implies b.has_sale(x) by {
        if x != id {
            assert(a.is_available(x));
        }
        assert(a.has_sale(x));
    }
    assert forall|x: Seq<char>| #![auto] b.is_started(x) implies b.has_start_date(x) by {
        assert(a.is_started(x));
        assert(a.has_start_date(x));
    }
    assert forall|t: Seq<char>| #![auto] b.has_token(t) implies b.token_of(t).token_id@ == t by {
        assert(a.has_token(t));
        assert(a.token_of(t).token_id@ == t);
    }
    assert forall|x: Seq<char>| #![auto]
        b.sale_tokens@.contains_key(x) implies b.has_sale(x) by {
        assert(a.sale_tokens@.contains_key(x));
        assert(a.has_sale(x));
    }
    assert forall|x: Seq<char>| #![auto]
        b.sale_random_tokens@.contains_key(x) implies b.sale_tokens@.contains_key(x) by {
        assert(a.sale_random_tokens@.contains_key(x));
    }
    assert forall|x: Seq<char>| #![auto] crate::idvec::distinct_views(b.assigned_of(x)) by {
        assert(b.assigned_of(x) == a.assigned_of(x));
        assert(crate::idvec::distinct_views(a.assigned_of(x)));
    }
    assert forall|x: Seq<char>| #![auto] crate::idvec::distinct_views(b.remaining_of(x)) by {
        assert(b.remaining_of(x) == a.remaining_of(x));
        assert(crate::idvec::distinct_views(a.remaining_of(x)));
    }
    assert forall|x: Seq<char>, t: Seq<char>| #![auto]
        has_str(b.remaining_of(x), t) implies has_str(b.assigned_of(x), t) by {
        assert(b.remaining_of(x) == a.remaining_of(x));
        assert(b.assigned_of(x) == a.assigned_of(x));
        assert(has_str(a.remaining_of(x), t));
    }
    assert forall|x: Seq<char>| #![auto]
        b.is_locked(x) implies b.remaining_of(x) == b.assigned_of(x) by {
        assert(a.is_locked(x));
        assert(b.remaining_of(x) == a.remaining_of(x));
        assert(b.assigned_of(x) == a.assigned_of(x));
    }
    assert forall|x: Seq<char>| #![auto]
        b.is_started(x) implies b.remaining_of(x).len() + b.minted_total(x) == b.sale_of(
        x,
    ).amount by {
        assert(a.is_started(x));
        assert(b.remaining_of(x) == a.remaining_of(x));
        assert(b.sale_of(x) == a.sale_of(x));
    }
    assert forall|i: int|
        0 <= i < b.sale_mint_counter@.len() implies b.quota_entry_ok(
        #[trigger] b.sale_mint_counter@[i],
    ) by {
        assert(a.quota_entry_ok(a.sale_mint_counter@[i]));
        let e = b.sale_mint_counter@[i];
        assert(b.is_locked(e.sale_id@) == a.is_locked(e.sale_id@));
        assert(b.sale_of(e.sale_id@) == a.sale_of(e.sale_id@));
    }
}

/// After the start transition of a locked, fully stocked sale `id` (made
/// available, unlocked, timestamp set) from a well-formed state, the state
/// is well-formed again.
proof fn lemma_wf_after_start(a: NonFungibleToken, b: NonFungibleToken, id: Seq<char>)
    requires
        a.wf(),
        a.has_sale(id),
        a.is_locked(id),
        a.assigned_of(id).len() == a.sale_of(id).amount,
        a.minted_total(id) == 0,
        crate::idvec::distinct_views(b.sales_locked@),
        crate::idvec::distinct_views(b.sales_available@),
        !has_str(b.sales_locked@, id),
        forall|y: Seq<char>| y != id ==> has_str(b.sales_locked@, y) == has_str(a.sales_locked@, y),
        has_str(b.sales_available@, id),
        forall|y: Seq<char>|
            y != id ==> has_str(b.sales_available@, y) == has_str(a.sales_available@, y),
        b.sale_date_by_id@ == a.sale_date_by_id@.insert(id, b.sale_date_by_id@[id]),
        b.sale_by_id == a.sale_by_id,
        b.sale_by_ft_token == a.sale_by_ft_token,
        b.sale_tokens == a.sale_tokens,
        b.sale_random_tokens == a.sale_random_tokens,
        b.sale_mint_counter == a.sale_mint_counter,
        b.tokens == a.tokens,
    ensures
        b.wf(),
{
    assert forall|x: Seq<char>| #![auto] b.is_locked(x) implies !b.is_available(x) by {
        assert(x != id);
        assert(a.is_locked(x));
        assert(!a.is_available(x));
        assert(x != id ==> b.is_available(x) == a.is_available(x));
    }
    assert forall|x: Seq<char>| #![auto] b.has_start_date(x) implies b.has_sale(x) by {
        if x != id {
            assert(a.has_start_date(x));
            assert(a.has_sale(x));
        } else {
            assert(a.has_sale(id));
        }
    }
    assert forall|x: Seq<char>| #![auto] b.has_ft_token(x) implies b.has_sale(x) by {
        assert(a.has_ft_token(x));
        assert(a.has_sale(x));
    }
    assert forall|x: Seq<char>| #![auto] b.is_locked(x) implies b.has_sale(x) by {
        assert(x != id);
        assert(a.is_locked(x));
        assert(a.has_sale(x));
    }
    assert forall|x: Seq<char>| #![auto] b.is_available(x) implies b.has_sale(x) by {
        if x != id {
            assert(a.is_available(x));
            assert(a.has_sale(x));
        }
    }
    assert forall|x: Seq<char>| #![auto] b.is_started(x) implies b.has_start_date(x) by {
        if x != id {
            assert(a.is_started(x));
            assert(a.has_start_date(x));
        }
    }
    assert forall|t: Seq<char>| #![auto] b.has_token(t) implies b.token_of(t).token_id@ == t by {
        assert(a.has_token(t));
        assert(a.token_of(t).token_id@ == t);
    }
    assert forall|x: Seq<char>| #![auto]
        b.sale_tokens@.contains_key(x) implies b.has_sale(x) by {
        assert(a.sale_tokens@.contains_key(x));
        assert(a.has_sale(x));
    }
    assert forall|x: Seq<char>| #![auto]
        b.sale_random_tokens@.contains_key(x) implies b.sale_tokens@.contains_key(x) by {
        assert(a.sale_random_tokens@.contains_key(x));
    }
    assert forall|x: Seq<char>| #![auto] crate::idvec::distinct_views(b.assigned_of(x)) by {
        assert(b.assigned_of(x) == a.assigned_of(x));
        assert(crate::idvec::distinct_views(a.assigned_of(x)));
    }
    assert forall|x: Seq<char>| #![auto] crate::idvec::distinct_views(b.remaining_of(x)) by {
        assert(b.remaining_of(x) == a.remaining_of(x));
        assert(crate::idvec::distinct_views(a.remaining_of(x)));
    }
    assert forall|x: Seq<char>, t: Seq<char>| #![auto]
        has_str(b.remaining_of(x), t) implies has_str(b.assigned_of(x), t) by {
        assert(b.remaining_of(x) == a.remaining_of(x));
        assert(b.assigned_of(x) == a.assigned_of(x));
        assert(has_str(a.remaining_of(x), t));
    }
    assert forall|x: Seq<char>| #![auto]
        b.is_locked(x) implies b.remaining_of(x) == b.assigned_of(x) by {
        assert(x != id);
        assert(a.is_locked(x));
        assert(b.remaining_of(x) == a.remaining_of(x));
        assert(b.assigned_of(x) == a.assigned_of(x));
    }
    assert forall|x: Seq<char>| #![auto]
        b.is_started(x) implies b.remaining_of(x).len() + b.minted_total(x) == b.sale_of(
        x,
    ).amount by {
        assert(b.remaining_of(x) == a.remaining_of(x));
        assert(b.sale_of(x) == a.sale_of(x));
        if x == id {
            assert(a.remaining_of(id) == a.assigned_of(id));
        } else {
            assert(a.is_started(x));
        }
    }
    assert forall|i: int|
        0 <= i < b.sale_mint_counter@.len() implies b.quota_entry_ok(
        #[trigger] b.sale_mint_counter@[i],
    ) by {
        assert(a.quota_entry_ok(a.sale_mint_counter@[i]));
        let e = b.sale_mint_counter@[i];
        assert(e.sale_id@ != id);
        assert(b.is_locked(e.sale_id@) == a.is_locked(e.sale_id@));
        assert(b.sale_of(e.sale_id@) == a.sale_of(e.sale_id@));
    }
}

/// After creating a sale `id` (descriptor inserted, locked flag set, maybe
/// an asset binding) from a well-formed state where `id` was unknown, the
/// state is well-formed again.
proof fn lemma_wf_after_add(a: NonFungibleToken, b: NonFungibleToken, id: Seq<char>)
    requires
        a.wf(),
        !a.has_sale(id),
        !a.is_locked(id),
        b.sale_by_id@ == a.sale_by_id@.insert(id, b.sale_of(id)),
        has_str(b.sales_locked@, id),
        crate::idvec::distinct_views(b.sales_locked@),
        forall|y: Seq<char>| y != id ==> has_str(b.sales_locked@, y) == has_str(a.sales_locked@, y),
        b.sales_available == a.sales_available,
        b.sale_date_by_id == a.sale_date_by_id,
        forall|y: Seq<char>| y != id ==> #[trigger] b.has_ft_token(y) == a.has_ft_token(y),
        b.sale_tokens == a.sale_tokens,
        b.sale_random_tokens == a.sale_random_tokens,
        b.sale_mint_counter == a.sale_mint_counter,
        b.tokens == a.tokens,
    ensures
        b.wf(),
{
    assert forall|x: Seq<char>| #![auto] b.has_start_date(x) implies b.has_sale(x) by {
        assert(a.has_start_date(x));
        assert(a.has_sale(x));
    }
    assert forall|x: Seq<char>| #![auto] b.has_ft_token(x) implies b.has_sale(x) by {
        if x != id {
            assert(a.has_ft_token(x));
            assert(a.has_sale(x));
        }
    }
    assert forall|x: Seq<char>| #![auto] b.is_locked(x) implies !b.is_available(x) by {
        if x == id {
            assert(!a.is_available(id));
            assert(b.is_available(x) == a.is_available(x));
        } else {
            assert(a.is_locked(x));
            assert(!a.is_available(x));
        }
    }
    assert forall|x: Seq<char>| #![auto] b.is_locked(x) implies b.has_sale(x) by {
        if x != id {
            assert(a.is_locked(x));
            assert(a.has_sale(x));
        }
    }
    assert forall|x: Seq<char>| #![auto] b.is_available(x) implies b.has_sale(x) by {
        assert(a.is_available(x));
        assert(a.has_sale(x));
    }
    assert forall|x: Seq<char>| #![auto] b.is_started(x) implies b.has_start_date(x) by {
        if x != id {
            assert(a.is_started(x));
        }
    }
    assert forall|t: Seq<char>| #![auto] b.has_token(t) implies b.token_of(t).token_id@ == t by {
        assert(a.has_token(t));
    }
    assert forall|x: Seq<char>| #![auto]
        b.sale_tokens@.contains_key(x) implies b.has_sale(x) by {
        assert(a.sale_tokens@.contains_key(x));
        assert(a.has_sale(x));
    }
    assert forall|x: Seq<char>| #![auto]
        b.sale_random_tokens@.contains_key(x) implies b.sale_tokens@.contains_key(x) by {
        assert(a.sale_random_tokens@.contains_key(x));
    }
    assert forall|x: Seq<char>| #![auto] crate::idvec::distinct_views(b.assigned_of(x)) by {
        assert(b.assigned_of(x) == a.assigned_of(x));
        assert(crate::idvec::distinct_views(a.assigned_of(x)));
    }
    assert forall|x: Seq<char>| #![auto] crate::idvec::distinct_views(b.remaining_of(x)) by {
        assert(b.remaining_of(x) == a.remaining_of(x));
        assert(crate::idvec::distinct_views(a.remaining_of(x)));
    }
    assert forall|x: Seq<char>, t: Seq<char>| #![auto]
        has_str(b.remaining_of(x), t) implies has_str(b.assigned_of(x), t) by {
        assert(b.remaining_of(x) == a.remaining_of(x));
        assert(b.assigned_of(x) == a.assigned_of(x));
        assert(has_str(a.remaining_of(x), t));
    }
    assert forall|x: Seq<char>| #![auto]
        b.is_locked(x) implies b.remaining_of(x) == b.assigned_of(x) by {
        assert(b.remaining_of(x) == a.remaining_of(x));
        assert(b.assigned_of(x) == a.assigned_of(x));
        if x == id {
            assert(!a.sale_tokens@.contains_key(id));
            assert(!a.sale_random_tokens@.contains_key(id));
        } else {
            assert(a.is_locked(x));
        }
    }
    assert forall|x: Seq<char>| #![auto]
        b.is_started(x) implies b.remaining_of(x).len() + b.minted_total(x) == b.sale_of(
        x,
    ).amount by {
        assert(x != id);
        assert(a.is_started(x));
        assert(b.remaining_of(x) == a.remaining_of(x));
        assert(b.sale_of(x) == a.sale_of(x));
    }
    assert forall|i: int|
        0 <= i < b.sale_mint_counter@.len() implies b.quota_entry_ok(
        #[trigger] b.sale_mint_counter@[i],
    ) by {
        assert(a.quota_entry_ok(a.sale_mint_counter@[i]));
        let e = b.sale_mint_counter@[i];
        assert(e.sale_id@ != id);
        assert(b.sale_of(e.sale_id@) == a.sale_of(e.sale_id@));
        assert(b.is_locked(e.sale_id@) == a.is_locked(e.sale_id@));
    }
}

} // verus!
