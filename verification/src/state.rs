//! The persisted state of the sale engine, its abstract views, and its
//! well-formedness invariant, together with the small read-side helpers
//! that the registry, the orchestrator and the views share.
//!
//! Every invocation runs as an indivisible unit against this state: a
//! function either completes and reports success, or reports an error and
//! leaves every abstract view of the state as it found it.

use vstd::prelude::*;
use vstd::hash_map::StringHashMap;
use crate::errors::SaleError;
use crate::events::EventEnvelope;
use crate::idvec::{distinct_views, has_str, vec_contains_string};
use crate::quota::{quota_keys_distinct, quota_of, total_minted, QuotaEntry};
use crate::types::{AccountId, JsonSale, Sale, SaleId, Token, TokenId, UpgradePrice};

verus! {

/// The whole sale-engine state: the token ledger slice it owns, the sale
/// registry, the per-sale pools, the quota table, the upgrade price table
/// and the event log.
pub struct NonFungibleToken {
    /// The registry owner; also the account holding unsold pool inventory.
    pub owner_id: AccountId,
    /// The one asset identity accepted for rarity-upgrade payments.
    pub upgrade_asset: AccountId,
    /// The highest rarity tier; upgrades beyond it are impossible.
    pub rarity_top: u8,
    /// Token ledger: identifier to owner, rarity and type.
    pub tokens: StringHashMap<Token>,
    /// Sale descriptors by identifier.
    pub sale_by_id: StringHashMap<Sale>,
    /// Sales still in the stocking phase.
    pub sales_locked: Vec<SaleId>,
    /// Sales currently purchasable.
    pub sales_available: Vec<SaleId>,
    /// Start timestamps, set at the locked-to-available transition.
    pub sale_date_by_id: StringHashMap<u64>,
    /// The bound alternate asset of a sale, when payment goes through the
    /// notification path.
    pub sale_by_ft_token: StringHashMap<AccountId>,
    /// The sale a token was assigned to.
    pub sale_by_token: StringHashMap<SaleId>,
    /// Per sale, every token identifier ever assigned to its pool.
    pub sale_tokens: StringHashMap<Vec<TokenId>>,
    /// Per sale, the shrinking sequence of still-undrawn token identifiers.
    pub sale_random_tokens: StringHashMap<Vec<TokenId>>,
    /// The per-(sale, account) cumulative-minted counters.
    pub sale_mint_counter: Vec<QuotaEntry>,
    /// The sparse rarity-upgrade price table.
    pub upgrade_prices: Vec<UpgradePrice>,
    /// One event record per state transition, in order.
    pub events: Vec<EventEnvelope>,
}

impl NonFungibleToken {
    /// The registry knows a sale under this identifier.
    pub open spec fn has_sale(self, id: Seq<char>) -> bool {
        self.sale_by_id@.contains_key(id)
    }

    /// The sale's descriptor.
    pub open spec fn sale_of(self, id: Seq<char>) -> Sale {
        self.sale_by_id@[id]
    }

    /// The sale is in the stocking phase.
    pub open spec fn is_locked(self, id: Seq<char>) -> bool {
        has_str(self.sales_locked@, id)
    }

    /// The sale is purchasable.
    pub open spec fn is_available(self, id: Seq<char>) -> bool {
        has_str(self.sales_available@, id)
    }

    /// The sale has gone through its irreversible locked-to-available
    /// transition (it may be paused since).
    pub open spec fn is_started(self, id: Seq<char>) -> bool {
        self.has_sale(id) && !self.is_locked(id)
    }

    /// The sale has a start timestamp.
    pub open spec fn has_start_date(self, id: Seq<char>) -> bool {
        self.sale_date_by_id@.contains_key(id)
    }

    /// The sale's start timestamp.
    pub open spec fn start_date_of(self, id: Seq<char>) -> u64 {
        self.sale_date_by_id@[id]
    }

    /// The sale is bound to an alternate asset.
    pub open spec fn has_ft_token(self, id: Seq<char>) -> bool {
        self.sale_by_ft_token@.contains_key(id)
    }

    /// The bound alternate asset of the sale.
    pub open spec fn ft_token_of(self, id: Seq<char>) -> AccountId {
        self.sale_by_ft_token@[id]
    }

    /// Every token identifier ever assigned to the sale's pool.
    pub open spec fn assigned_of(self, id: Seq<char>) -> Seq<String> {
        if self.sale_tokens@.contains_key(id) {
            self.sale_tokens@[id]@
        } else {
            Seq::<String>::empty()
        }
    }

    /// The still-undrawn token identifiers of the sale.
    pub open spec fn remaining_of(self, id: Seq<char>) -> Seq<String> {
        if self.sale_random_tokens@.contains_key(id) {
            self.sale_random_tokens@[id]@
        } else {
            Seq::<String>::empty()
        }
    }

    /// The cumulative amount minted by the account in the sale.
    pub open spec fn quota(self, id: Seq<char>, account: Seq<char>) -> u32 {
        quota_of(self.sale_mint_counter@, id, account)
    }

    /// The sum of all accounts' counters for the sale.
    pub open spec fn minted_total(self, id: Seq<char>) -> int {
        total_minted(self.sale_mint_counter@, id)
    }

    /// The ledger knows this token.
    pub open spec fn has_token(self, t: Seq<char>) -> bool {
        self.tokens@.contains_key(t)
    }

    /// The ledger record of the token.
    pub open spec fn token_of(self, t: Seq<char>) -> Token {
        self.tokens@[t]
    }

    /// The caller is the registry owner.
    pub open spec fn spec_is_owner(self, caller: Seq<char>) -> bool {
        caller == self.owner_id@
    }

    /// A quota entry speaks of a started sale and obeys its lifetime bound.
    pub open spec fn quota_entry_ok(self, e: QuotaEntry) -> bool {
        self.has_sale(e.sale_id@) && !self.is_locked(e.sale_id@) && e.minted <= self.sale_of(
            e.sale_id@,
        ).buy_max
    }

    /// Well-formedness: the lifecycle, pool, and quota invariants that every
    /// public operation preserves.
    pub open spec fn wf(self) -> bool {
        &&& distinct_views(self.sales_locked@)
        &&& distinct_views(self.sales_available@)
        &&& (forall|id: Seq<char>| #![auto] self.is_locked(id) ==> !self.is_available(id))
        &&& (forall|id: Seq<char>| #![auto] self.is_locked(id) ==> self.has_sale(id))
        &&& (forall|id: Seq<char>| #![auto] self.is_available(id) ==> self.has_sale(id))
        &&& (forall|id: Seq<char>| #![auto] self.is_started(id) ==> self.has_start_date(id))
        &&& (forall|id: Seq<char>| #![auto] self.has_start_date(id) ==> self.has_sale(id))
        &&& (forall|id: Seq<char>| #![auto] self.has_ft_token(id) ==> self.has_sale(id))
        &&& (forall|t: Seq<char>| #![auto]
            self.has_token(t) ==> self.token_of(t).token_id@ == t)
        &&& (forall|id: Seq<char>| #![auto]
            self.sale_tokens@.contains_key(id) ==> self.has_sale(id))
        &&& (forall|id: Seq<char>| #![auto]
            self.sale_random_tokens@.contains_key(id) ==> self.sale_tokens@.contains_key(id))
        &&& (forall|id: Seq<char>| #![auto] distinct_views(self.assigned_of(id)))
        &&& (forall|id: Seq<char>| #![auto] distinct_views(self.remaining_of(id)))
        &&& (forall|id: Seq<char>, t: Seq<char>| #![auto]
            has_str(self.remaining_of(id), t) ==> has_str(self.assigned_of(id), t))
        &&& (forall|id: Seq<char>| #![auto]
            self.is_locked(id) ==> self.remaining_of(id) == self.assigned_of(id))
        &&& (forall|id: Seq<char>| #![auto]
            self.is_started(id) ==> self.remaining_of(id).len() + self.minted_total(id)
                == self.sale_of(id).amount)
        &&& quota_keys_distinct(self.sale_mint_counter@)
        &&& (forall|i: int|
            0 <= i < self.sale_mint_counter@.len() ==> self.quota_entry_ok(
                #[trigger] self.sale_mint_counter@[i],
            ))
    }

    /// States that well-formedness only reads the registry, lifecycle,
    /// pool and quota components, plus the token-key clause: a state that
    /// keeps those of a well-formed one, and whose ledger still keys every
    /// record by its own identifier, is well-formed.
    pub proof fn lemma_wf_frame(a: NonFungibleToken, b: NonFungibleToken)
        requires
            a.wf(),
            b.sales_locked == a.sales_locked,
            b.sales_available == a.sales_available,
            b.sale_by_id == a.sale_by_id,
            b.sale_date_by_id == a.sale_date_by_id,
            b.sale_by_ft_token == a.sale_by_ft_token,
            b.sale_tokens == a.sale_tokens,
            b.sale_random_tokens == a.sale_random_tokens,
            b.sale_mint_counter == a.sale_mint_counter,
            forall|t: Seq<char>| #![auto] b.has_token(t) ==> b.token_of(t).token_id@ == t,
        ensures
            b.wf(),
    {
        assert forall|id: Seq<char>| #![auto] b.is_locked(id) implies !b.is_available(id) by {
            assert(a.is_locked(id) && !a.is_available(id));
        }
        assert forall|id: Seq<char>| #![auto] b.has_start_date(id) implies b.has_sale(id) by {
            assert(a.has_start_date(id) && a.has_sale(id));
        }
        assert forall|id: Seq<char>| #![auto] b.has_ft_token(id) implies b.has_sale(id) by {
            assert(a.has_ft_token(id) && a.has_sale(id));
        }
        assert forall|id: Seq<char>| #![auto] b.is_locked(id) implies b.has_sale(id) by {
            assert(a.is_locked(id) && a.has_sale(id));
        }
        assert forall|id: Seq<char>| #![auto] b.is_available(id) implies b.has_sale(id) by {
            assert(a.is_available(id) && a.has_sale(id));
        }
        assert forall|id: Seq<char>| #![auto] b.is_started(id) implies b.has_start_date(id) by {
            assert(a.is_started(id) && a.has_start_date(id));
        }
        assert forall|id: Seq<char>| #![auto]
            b.sale_tokens@.contains_key(id) implies b.has_sale(id) by {
            assert(a.sale_tokens@.contains_key(id) && a.has_sale(id));
        }
        assert forall|id: Seq<char>| #![auto]
            b.sale_random_tokens@.contains_key(id) implies b.sale_tokens@.contains_key(id) by {
            assert(a.sale_random_tokens@.contains_key(id) && a.sale_tokens@.contains_key(id));
        }
        assert forall|id: Seq<char>| #![auto] distinct_views(b.assigned_of(id)) by {
            assert(b.assigned_of(id) == a.assigned_of(id));
            assert(distinct_views(a.assigned_of(id)));
        }
        assert forall|id: Seq<char>| #![auto] distinct_views(b.remaining_of(id)) by {
            assert(b.remaining_of(id) == a.remaining_of(id));
            assert(distinct_views(a.remaining_of(id)));
        }
        assert forall|id: Seq<char>, t: Seq<char>| #![auto]
            has_str(b.remaining_of(id), t) implies has_str(b.assigned_of(id), t) by {
            assert(b.remaining_of(id) == a.remaining_of(id));
            assert(b.assigned_of(id) == a.assigned_of(id));
            assert(has_str(a.remaining_of(id), t));
        }
        assert forall|id: Seq<char>| #![auto]
            b.is_locked(id) implies b.remaining_of(id) == b.assigned_of(id) by {
            assert(a.is_locked(id));
            assert(b.remaining_of(id) == a.remaining_of(id));
            assert(b.assigned_of(id) == a.assigned_of(id));
        }
        assert forall|id: Seq<char>| #![auto]
            b.is_started(id) implies b.remaining_of(id).len() + b.minted_total(id) == b.sale_of(
            id,
        ).amount by {
            assert(a.is_started(id));
            assert(b.remaining_of(id) == a.remaining_of(id));
        }
        assert forall|i: int|
            0 <= i < b.sale_mint_counter@.len() implies b.quota_entry_ok(
            #[trigger] b.sale_mint_counter@[i],
        ) by {
            assert(a.quota_entry_ok(a.sale_mint_counter@[i]));
            let e = b.sale_mint_counter@[i];
            assert(a.is_locked(e.sale_id@) == b.is_locked(e.sale_id@));
        }
    }

    /// The frame lemma for transitions that leave the ledger untouched as
    /// well: only the price table, configuration or event log may differ.
    pub proof fn lemma_wf_frame_same_tokens(a: NonFungibleToken, b: NonFungibleToken)
        requires
            a.wf(),
            b.tokens == a.tokens,
            b.sales_locked == a.sales_locked,
            b.sales_available == a.sales_available,
            b.sale_by_id == a.sale_by_id,
            b.sale_date_by_id == a.sale_date_by_id,
            b.sale_by_ft_token == a.sale_by_ft_token,
            b.sale_tokens == a.sale_tokens,
            b.sale_random_tokens == a.sale_random_tokens,
            b.sale_mint_counter == a.sale_mint_counter,
        ensures
            b.wf(),
    {
        assert forall|t: Seq<char>| #![auto]
            b.has_token(t) implies b.token_of(t).token_id@ == t by {
            assert(a.has_token(t));
            assert(a.token_of(t).token_id@ == t);
        }
        Self::lemma_wf_frame(a, b);
    }

    /// A fresh engine: a registry owner, the fixed upgrade-payment asset,
    /// the top rarity tier, and the upgrade price table; no sales, no
    /// tokens, no counters, no events yet.
    pub fn new(
        owner_id: AccountId,
        upgrade_asset: AccountId,
        rarity_top: u8,
        upgrade_prices: Vec<UpgradePrice>,
    ) -> (r: NonFungibleToken)
        ensures
            r.wf(),
            r.owner_id@ == owner_id@,
            r.upgrade_asset@ == upgrade_asset@,
            r.rarity_top == rarity_top,
            r.upgrade_prices == upgrade_prices,
            r.sale_by_id@ == Map::<Seq<char>, Sale>::empty(),
            r.tokens@ == Map::<Seq<char>, Token>::empty(),
            r.sale_date_by_id@ == Map::<Seq<char>, u64>::empty(),
            r.sale_by_ft_token@ == Map::<Seq<char>, AccountId>::empty(),
            r.sale_by_token@ == Map::<Seq<char>, SaleId>::empty(),
            r.sale_tokens@ == Map::<Seq<char>, Vec<TokenId>>::empty(),
            r.sale_random_tokens@ == Map::<Seq<char>, Vec<TokenId>>::empty(),
            r.sales_locked@.len() == 0,
            r.sales_available@.len() == 0,
            r.sale_mint_counter@.len() == 0,
            r.events@.len() == 0,
    {
        NonFungibleToken {
            owner_id,
            upgrade_asset,
            rarity_top,
            tokens: StringHashMap::new(),
            sale_by_id: StringHashMap::new(),
            sales_locked: Vec::new(),
            sales_available: Vec::new(),
            sale_date_by_id: StringHashMap::new(),
            sale_by_ft_token: StringHashMap::new(),
            sale_by_token: StringHashMap::new(),
            sale_tokens: StringHashMap::new(),
            sale_random_tokens: StringHashMap::new(),
            sale_mint_counter: Vec::new(),
            upgrade_prices,
            events: Vec::new(),
        }
    }

    /// The ledger record of a token, if any.
    pub fn nft_token(&self, token_id: &TokenId) -> (r: Option<&Token>)
        ensures
            match r {
                Some(t) => self.has_token(token_id@) && *t == self.token_of(token_id@),
                None => !self.has_token(token_id@),
            },
    {
        self.tokens.get(token_id.as_str())
    }

    /// The external transfer primitive: reassigns a token's owner, without
    /// any business-rule check. The pool, registry and quota views are
    /// untouched.
    pub fn internal_transfer_unguarded(
        &mut self,
        token_id: &TokenId,
        from: &AccountId,
        to: &AccountId,
    ) -> (r: Result<(), SaleError>)
        ensures
            match r {
                Ok(()) => old(self).has_token(token_id@) && final(self).tokens@
                    == old(self).tokens@.insert(
                    token_id@,
                    Token {
                        owner_id: final(self).tokens@[token_id@].owner_id,
                        ..old(self).token_of(token_id@)
                    },
                ) && final(self).tokens@[token_id@].owner_id@ == to@,
                Err(e) => e == SaleError::NotFound && !old(self).has_token(token_id@)
                    && final(self).tokens@ == old(self).tokens@,
            },
            final(self).owner_id == old(self).owner_id,
            final(self).upgrade_asset == old(self).upgrade_asset,
            final(self).rarity_top == old(self).rarity_top,
            final(self).sale_by_id == old(self).sale_by_id,
            final(self).sales_locked == old(self).sales_locked,
            final(self).sales_available == old(self).sales_available,
            final(self).sale_date_by_id == old(self).sale_date_by_id,
            final(self).sale_by_ft_token == old(self).sale_by_ft_token,
            final(self).sale_by_token == old(self).sale_by_token,
            final(self).sale_tokens == old(self).sale_tokens,
            final(self).sale_random_tokens == old(self).sale_random_tokens,
            final(self).sale_mint_counter == old(self).sale_mint_counter,
            final(self).upgrade_prices == old(self).upgrade_prices,
            final(self).events == old(self).events,
            old(self).wf() ==> final(self).wf(),
    {
        let _ = from;
        let record = match self.tokens.get(token_id.as_str()) {
            Some(t) => Token {
                token_id: t.token_id.clone(),
                owner_id: to.clone(),
                rarity: t.rarity,
                token_type: t.token_type.clone(),
            },
            None => {
                return Err(SaleError::NotFound);
            },
        };
        let ghost pre = *self;
        let ghost rec = record;
        self.tokens.insert(token_id.clone(), record);
        proof {
            assert(final(self).tokens@[token_id@].owner_id@ == to@);
            if pre.wf() {
                assert(pre.has_token(token_id@));
                assert(rec.token_id == pre.token_of(token_id@).token_id);
                assert(pre.token_of(token_id@).token_id@ == token_id@);
                assert(rec.token_id@ == token_id@);
                assert(self.tokens@ == pre.tokens@.insert(token_id@, rec));
                assert forall|t: Seq<char>| #![auto]
                    self.has_token(t) implies self.token_of(t).token_id@ == t by {
                    if t == token_id@ {
                        assert(self.token_of(t) == rec);
                        assert(rec.token_id@ == t);
                    } else {
                        assert(pre.has_token(t));
                        assert(self.token_of(t) == pre.token_of(t));
                        assert(pre.token_of(t).token_id@ == t);
                    }
                }
                Self::lemma_wf_frame(pre, *self);
            }
        }
        Ok(())
    }

    /// Fails while the sale is in its stocking phase, as every purchase
    /// path must.
    pub fn assert_sale_not_locked(&self, sale_id: &SaleId) -> (r: Result<(), SaleError>)
        ensures
            match r {
                Ok(()) => !self.is_locked(sale_id@),
                Err(e) => e == SaleError::State && self.is_locked(sale_id@),
            },
    {
        if vec_contains_string(&self.sales_locked, sale_id) {
            Err(SaleError::State)
        } else {
            Ok(())
        }
    }

    /// Fails unless the sale has a start timestamp lying at or before
    /// `now`. Purchases before the timestamp are rejected even on an
    /// available sale.
    pub fn assert_sale_started(&self, sale_id: &SaleId, now: u64) -> (r: Result<(), SaleError>)
        ensures
            match r {
                Ok(()) => self.has_start_date(sale_id@) && now >= self.start_date_of(sale_id@),
                Err(e) => (e == SaleError::NotFound && !self.has_start_date(sale_id@)) || (e
                    == SaleError::NotStarted && self.has_start_date(sale_id@) && now
                    < self.start_date_of(sale_id@)),
            },
    {
        match self.sale_date_by_id.get(sale_id.as_str()) {
            None => Err(SaleError::NotFound),
            Some(date) => {
                if now < *date {
                    Err(SaleError::NotStarted)
                } else {
                    Ok(())
                }
            },
        }
    }

    /// Fails when the token sits in a sale's pool and is still held by the
    /// unsold-inventory account, i.e. it must not be moved by outside
    /// pipelines.
    pub fn assert_token_not_in_sale(&self, token_id: &TokenId) -> (r: Result<(), SaleError>)
        ensures
            match r {
                Ok(()) => !self.sale_by_token@.contains_key(token_id@) || (self.has_token(token_id@)
                    && self.token_of(token_id@).owner_id@ != self.owner_id@),
                Err(e) => self.sale_by_token@.contains_key(token_id@) && ((e == SaleError::NotFound
                    && !self.has_token(token_id@)) || (e == SaleError::State && self.has_token(
                    token_id@,
                ) && self.token_of(token_id@).owner_id@ == self.owner_id@)),
            },
    {
        if self.sale_by_token.get(token_id.as_str()).is_some() {
            match self.tokens.get(token_id.as_str()) {
                None => Err(SaleError::NotFound),
                Some(t) => {
                    if t.owner_id == self.owner_id {
                        Err(SaleError::State)
                    } else {
                        Ok(())
                    }
                },
            }
        } else {
            Ok(())
        }
    }

    /// `j` is exactly the read-only projection of the sale `id` in this
    /// state: the descriptor fields, lifecycle flag, unsold count, start
    /// date and bound asset all pinned.
    pub open spec fn is_sale_view(self, id: Seq<char>, j: JsonSale) -> bool {
        &&& j.id@ == id
        &&& j.name@ == self.sale_of(id).name@
        &&& j.price == self.sale_of(id).price
        &&& j.buy_max == self.sale_of(id).buy_max
        &&& j.per_transaction_min == self.sale_of(id).per_transaction_min
        &&& j.per_transaction_max == self.sale_of(id).per_transaction_max
        &&& j.amount == self.sale_of(id).amount
        &&& j.locked == self.is_locked(id)
        &&& j.not_minted == (if self.sale_random_tokens@.contains_key(id) {
            self.remaining_of(id).len() as u64
        } else {
            self.sale_of(id).amount
        })
        &&& (match j.start_date {
            Some(d) => self.has_start_date(id) && d == self.start_date_of(id),
            None => !self.has_start_date(id),
        })
        &&& (match j.ft_token {
            Some(a) => self.has_ft_token(id) && a@ == self.ft_token_of(id)@,
            None => !self.has_ft_token(id),
        })
    }

    /// The read-only projection of a sale: its descriptor, lifecycle flags,
    /// start date, bound asset and how much of the pool is still unsold.
    pub fn enum_get_sale(&self, sale_id: &SaleId) -> (r: Result<JsonSale, SaleError>)
        ensures
            match r {
                Ok(j) => self.has_sale(sale_id@) && self.is_sale_view(sale_id@, j),
                Err(e) => e == SaleError::NotFound && !self.has_sale(sale_id@),
            },
    {
        let sale = match self.sale_by_id.get(sale_id.as_str()) {
            Some(s) => s,
            None => {
                return Err(SaleError::NotFound);
            },
        };
        let locked = vec_contains_string(&self.sales_locked, sale_id);
        let start_date: Option<u64> = match self.sale_date_by_id.get(sale_id.as_str()) {
            Some(d) => Some(*d),
            None => None,
        };
        let ft_token: Option<AccountId> = match self.sale_by_ft_token.get(sale_id.as_str()) {
            Some(a) => Some(a.clone()),
            None => None,
        };
        let not_minted: u64 = match self.sale_random_tokens.get(sale_id.as_str()) {
            Some(v) => v.len() as u64,
            None => sale.amount,
        };
        Ok(JsonSale {
            id: sale_id.clone(),
            name: sale.name.clone(),
            price: sale.price,
            buy_max: sale.buy_max,
            per_transaction_min: sale.per_transaction_min,
            per_transaction_max: sale.per_transaction_max,
            amount: sale.amount,
            not_minted,
            locked,
            start_date,
            ft_token,
        })
    }

    /// The event log so far, oldest first.
    pub fn event_log(&self) -> (r: &Vec<EventEnvelope>)
        ensures
            r@ == self.events@,
    {
        &self.events
    }
}

} // verus!
