//! The engine-wide laws: what holds of every well-formed state and of
//! every pair of draws, stated over the same views that the operations'
//! own contracts use.

use vstd::prelude::*;
use crate::idvec::{distinct_views, has_str};
use crate::quota::{buyers_of, lemma_quota_of_cases, lemma_total_minted_bound};
use crate::state::NonFungibleToken;

verus! {

/// For every sale, at all times: each account's counter is at most the
/// sale's lifetime maximum, and the sum of all counters for the sale is at
/// most the number of distinct buyers times that maximum.
pub proof fn lemma_quota_within_limits(s: NonFungibleToken, sale: Seq<char>)
    requires
        s.wf(),
        s.has_sale(sale),
    ensures
        forall|account: Seq<char>| #![auto] s.quota(sale, account) <= s.sale_of(sale).buy_max,
        s.minted_total(sale) <= buyers_of(s.sale_mint_counter@, sale) * s.sale_of(sale).buy_max,
{
    assert forall|account: Seq<char>| #![auto]
        s.quota(sale, account) <= s.sale_of(sale).buy_max by {
        lemma_quota_of_cases(s.sale_mint_counter@, sale, account);
        if s.quota(sale, account) != 0 {
            let i = choose|i: int|
                0 <= i < s.sale_mint_counter@.len() && s.sale_mint_counter@[i].sale_id@ == sale
                    && s.sale_mint_counter@[i].account_id@ == account
                    && s.sale_mint_counter@[i].minted == s.quota(sale, account);
            assert(s.quota_entry_ok(s.sale_mint_counter@[i]));
        }
    }
    assert forall|i: int|
        0 <= i < s.sale_mint_counter@.len() && s.sale_mint_counter@[i].sale_id@
            == sale implies s.sale_mint_counter@[i].minted <= s.sale_of(sale).buy_max as int by {
        assert(s.quota_entry_ok(s.sale_mint_counter@[i]));
    }
    lemma_total_minted_bound(s.sale_mint_counter@, sale, s.sale_of(sale).buy_max as int);
}

/// At all times after a sale's start transition, the length of its
/// remaining pool plus the sum of everything minted from it equals its
/// declared amount: tokens are neither created nor lost by draws.
pub proof fn lemma_pool_conservation(s: NonFungibleToken, sale: Seq<char>)
    requires
        s.wf(),
        s.is_started(sale),
    ensures
        s.remaining_of(sale).len() + s.minted_total(sale) == s.sale_of(sale).amount,
{
}

/// A draw never repeats an identifier, within one call or across two: the
/// identifiers of one draw leave the pool in the same invocation, so a
/// later draw, working on a pool that only ever shrinks, cannot return any
/// of them again. The hypotheses are exactly what the draw's contract
/// gives: the first draw's results are absent from the pool it leaves
/// behind, the second draw starts from a pool no larger than that, and its
/// results come from its own pool.
pub proof fn lemma_draws_disjoint(
    first_result: Seq<String>,
    pool_after_first: Seq<String>,
    pool_before_second: Seq<String>,
    second_result: Seq<String>,
)
    requires
        forall|k: int| #![auto]
            0 <= k < first_result.len() ==> !has_str(pool_after_first, first_result[k]@),
        forall|t: Seq<char>| #![auto]
            has_str(pool_before_second, t) ==> has_str(pool_after_first, t),
        forall|k: int| #![auto]
            0 <= k < second_result.len() ==> has_str(pool_before_second, second_result[k]@),
    ensures
        forall|k1: int, k2: int| #![auto]
            0 <= k1 < first_result.len() && 0 <= k2 < second_result.len() ==> first_result[k1]@
                != second_result[k2]@,
{
    assert forall|k1: int, k2: int| #![auto]
        0 <= k1 < first_result.len() && 0 <= k2
            < second_result.len() implies first_result[k1]@ != second_result[k2]@ by {
        assert(has_str(pool_after_first, second_result[k2]@));
    }
}

/// Within a single draw the result itself carries no duplicate; this is
/// the in-call half of the no-repetition guarantee, restated here over the
/// draw contract's distinctness clause.
pub proof fn lemma_draw_result_distinct(result: Seq<String>)
    requires
        distinct_views(result),
    ensures
        forall|k1: int, k2: int| #![auto]
            0 <= k1 < k2 < result.len() ==> result[k1]@ != result[k2]@,
{
}

} // verus!
