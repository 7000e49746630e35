//! Mint quota tracker: per-(sale, account) cumulative-minted counters, kept
//! as a flat table under a composite key so that two sales' counters can
//! never alias. The store operation overwrites a counter with an absolute
//! total; it is not an increment.

use vstd::prelude::*;
use crate::types::{AccountId, SaleId};

verus! {

/// One per-(sale, account) cumulative-minted counter.
#[verifier::ext_equal]
pub struct QuotaEntry {
    pub sale_id: SaleId,
    pub account_id: AccountId,
    pub minted: u32,
}

/// No two entries share both sale and account.
pub open spec fn quota_keys_distinct(s: Seq<QuotaEntry>) -> bool {
    forall|i: int, j: int|
        0 <= i < j < s.len() ==> !(s[i].sale_id@ == s[j].sale_id@ && s[i].account_id@
            == s[j].account_id@)
}

/// The table holds a counter for (sale, account).
pub open spec fn has_quota(s: Seq<QuotaEntry>, sale: Seq<char>, account: Seq<char>) -> bool {
    exists|i: int| 0 <= i < s.len() && s[i].sale_id@ == sale && s[i].account_id@ == account
}

/// The counter recorded for (sale, account); zero when absent.
pub open spec fn quota_of(s: Seq<QuotaEntry>, sale: Seq<char>, account: Seq<char>) -> u32
    decreases s.len(),
{
    if s.len() == 0 {
        0u32
    } else if s[0].sale_id@ == sale && s[0].account_id@ == account {
        s[0].minted
    } else {
        quota_of(s.drop_first(), sale, account)
    }
}

/// Sum of all counters recorded for the sale.
pub open spec fn total_minted(s: Seq<QuotaEntry>, sale: Seq<char>) -> int
    decreases s.len(),
{
    if s.len() == 0 {
        0
    } else {
        (if s[0].sale_id@ == sale {
            s[0].minted as int
        } else {
            0
        }) + total_minted(s.drop_first(), sale)
    }
}

/// Number of accounts holding a counter for the sale (the distinct buyers).
pub open spec fn buyers_of(s: Seq<QuotaEntry>, sale: Seq<char>) -> int
    decreases s.len(),
{
    if s.len() == 0 {
        0
    } else {
        (if s[0].sale_id@ == sale {
            1int
        } else {
            0int
        }) + buyers_of(s.drop_first(), sale)
    }
}

/// If the first match for (sale, account) stands at index `i`, the recorded
/// counter is that entry's.
pub proof fn lemma_quota_of_first_match(s: Seq<QuotaEntry>, sale: Seq<char>, account: Seq<char>, i: int)
    requires
        0 <= i < s.len(),
        s[i].sale_id@ == sale && s[i].account_id@ == account,
        forall|j: int| 0 <= j < i ==> !(s[j].sale_id@ == sale && s[j].account_id@ == account),
    ensures
        quota_of(s, sale, account) == s[i].minted,
    decreases i,
{
    if i > 0 {
        lemma_quota_of_first_match(s.drop_first(), sale, account, i - 1);
    }
}

/// A key with no entry reads as zero.
pub proof fn lemma_quota_of_no_match(s: Seq<QuotaEntry>, sale: Seq<char>, account: Seq<char>)
    requires
        !has_quota(s, sale, account),
    ensures
        quota_of(s, sale, account) == 0,
    decreases s.len(),
{
    if s.len() > 0 {
        assert(!has_quota(s.drop_first(), sale, account)) by {
            if has_quota(s.drop_first(), sale, account) {
                let k = choose|k: int|
                    0 <= k < s.drop_first().len() && s.drop_first()[k].sale_id@ == sale
                        && s.drop_first()[k].account_id@ == account;
                assert(s[k + 1].sale_id@ == sale && s[k + 1].account_id@ == account);
            }
        }
        lemma_quota_of_no_match(s.drop_first(), sale, account);
    }
}

/// Appending an entry adds its counter to its sale's sum, counts one more
/// buyer for that sale, and leaves every other key's reading unchanged.
pub proof fn lemma_quota_push(s: Seq<QuotaEntry>, e: QuotaEntry)
    ensures
        forall|sa: Seq<char>| #![trigger total_minted(s.push(e), sa)]
            total_minted(s.push(e), sa) == total_minted(s, sa) + (if e.sale_id@ == sa {
                e.minted as int
            } else {
                0int
            }),
        forall|sa: Seq<char>| #![trigger buyers_of(s.push(e), sa)]
            buyers_of(s.push(e), sa) == buyers_of(s, sa) + (if e.sale_id@ == sa {
                1int
            } else {
                0int
            }),
    decreases s.len(),
{
    if s.len() == 0 {
        assert forall|sa: Seq<char>|
            total_minted(s.push(e), sa) == total_minted(s, sa) + (if e.sale_id@ == sa {
                e.minted as int
            } else {
                0int
            }) && buyers_of(s.push(e), sa) == buyers_of(s, sa) + (if e.sale_id@ == sa {
                1int
            } else {
                0int
            }) by {
            assert(s.push(e)[0] == e);
            assert(s.push(e).drop_first() =~= Seq::<QuotaEntry>::empty());
            assert(total_minted(s.push(e), sa) == (if e.sale_id@ == sa {
                e.minted as int
            } else {
                0int
            }) + total_minted(s.push(e).drop_first(), sa));
            assert(total_minted(s.push(e).drop_first(), sa) == 0);
            assert(total_minted(s, sa) == 0);
            assert(buyers_of(s.push(e).drop_first(), sa) == 0);
            assert(buyers_of(s, sa) == 0);
        }
    } else {
        lemma_quota_push(s.drop_first(), e);
        assert forall|sa: Seq<char>|
            total_minted(s.push(e), sa) == total_minted(s, sa) + (if e.sale_id@ == sa {
                e.minted as int
            } else {
                0int
            }) && buyers_of(s.push(e), sa) == buyers_of(s, sa) + (if e.sale_id@ == sa {
                1int
            } else {
                0int
            }) by {
            assert(s.push(e)[0] == s[0]);
            assert(s.push(e).drop_first() =~= s.drop_first().push(e));
            assert(total_minted(s.drop_first().push(e), sa) == total_minted(s.drop_first(), sa) + (
            if e.sale_id@ == sa {
                e.minted as int
            } else {
                0int
            }));
            assert(buyers_of(s.drop_first().push(e), sa) == buyers_of(s.drop_first(), sa) + (
            if e.sale_id@ == sa {
                1int
            } else {
                0int
            }));
        }
    }
}

/// Replacing the entry at `i` by one with the same composite key overwrites
/// that key's reading, shifts its sale's sum by the difference, and leaves
/// every other key and every sale's buyer count unchanged.
pub proof fn lemma_quota_update(s: Seq<QuotaEntry>, i: int, e: QuotaEntry)
    requires
        0 <= i < s.len(),
        s[i].sale_id@ == e.sale_id@,
        s[i].account_id@ == e.account_id@,
    ensures
        forall|sa: Seq<char>| #![trigger total_minted(s.update(i, e), sa)]
            total_minted(s.update(i, e), sa) == total_minted(s, sa) + (if e.sale_id@ == sa {
                e.minted - s[i].minted
            } else {
                0int
            }),
        forall|sa: Seq<char>| #![trigger buyers_of(s.update(i, e), sa)]
            buyers_of(s.update(i, e), sa) == buyers_of(s, sa),
        forall|sa: Seq<char>, ac: Seq<char>|
            #![trigger quota_of(s.update(i, e), sa, ac)]
            !(sa == e.sale_id@ && ac == e.account_id@) ==> quota_of(s.update(i, e), sa, ac)
                == quota_of(s, sa, ac),
    decreases s.len(),
{
    let t = s.update(i, e);
    if i == 0 {
        assert(t.drop_first() =~= s.drop_first());
        assert(t[0] == e);
        assert forall|sa: Seq<char>|
            total_minted(t, sa) == total_minted(s, sa) + (if e.sale_id@ == sa {
                e.minted - s[0].minted
            } else {
                0int
            }) by {
            assert(total_minted(t, sa) == (if t[0].sale_id@ == sa {
                t[0].minted as int
            } else {
                0int
            }) + total_minted(t.drop_first(), sa));
        }
        assert forall|sa: Seq<char>, ac: Seq<char>|
            !(sa == e.sale_id@ && ac == e.account_id@) implies quota_of(t, sa, ac) == quota_of(
            s,
            sa,
            ac,
        ) by {
            assert(quota_of(t, sa, ac) == quota_of(t.drop_first(), sa, ac));
            assert(quota_of(s, sa, ac) == quota_of(s.drop_first(), sa, ac));
        }
    } else {
        assert(t.drop_first() =~= s.drop_first().update(i - 1, e));
        assert(t[0] == s[0]);
        lemma_quota_update(s.drop_first(), i - 1, e);
        assert(s.drop_first()[i - 1] == s[i]);
        assert forall|sa: Seq<char>|
            total_minted(t, sa) == total_minted(s, sa) + (if e.sale_id@ == sa {
                e.minted - s[i].minted
            } else {
                0int
            }) && buyers_of(t, sa) == buyers_of(s, sa) by {
            assert(total_minted(s.drop_first().update(i - 1, e), sa) == total_minted(
                s.drop_first(),
                sa,
            ) + (if e.sale_id@ == sa {
                e.minted - s.drop_first()[i - 1].minted
            } else {
                0int
            }));
            assert(buyers_of(s.drop_first().update(i - 1, e), sa) == buyers_of(s.drop_first(), sa));
        }
        assert forall|sa: Seq<char>, ac: Seq<char>|
            !(sa == e.sale_id@ && ac == e.account_id@) implies quota_of(t, sa, ac) == quota_of(
            s,
            sa,
            ac,
        ) by {
            assert(quota_of(s.drop_first().update(i - 1, e), sa, ac) == quota_of(
                s.drop_first(),
                sa,
                ac,
            ));
        }
    }
}

/// A key's reading is zero or the counter of an entry bearing that key.
pub proof fn lemma_quota_of_cases(s: Seq<QuotaEntry>, sale: Seq<char>, account: Seq<char>)
    ensures
        quota_of(s, sale, account) == 0 || exists|i: int|
            0 <= i < s.len() && s[i].sale_id@ == sale && s[i].account_id@ == account
                && s[i].minted == quota_of(s, sale, account),
    decreases s.len(),
{
    if s.len() > 0 {
        if s[0].sale_id@ == sale && s[0].account_id@ == account {
            assert(s[0].minted == quota_of(s, sale, account));
        } else {
            lemma_quota_of_cases(s.drop_first(), sale, account);
            if quota_of(s, sale, account) != 0 {
                let i = choose|i: int|
                    0 <= i < s.drop_first().len() && s.drop_first()[i].sale_id@ == sale
                        && s.drop_first()[i].account_id@ == account && s.drop_first()[i].minted
                        == quota_of(s.drop_first(), sale, account);
                assert(s[i + 1].sale_id@ == sale && s[i + 1].account_id@ == account && s[i
                    + 1].minted == quota_of(s, sale, account));
            }
        }
    }
}

/// A sale without entries has a zero sum and no buyers.
pub proof fn lemma_total_minted_no_entries(s: Seq<QuotaEntry>, sale: Seq<char>)
    requires
        forall|i: int| 0 <= i < s.len() ==> s[i].sale_id@ != sale,
    ensures
        total_minted(s, sale) == 0,
        buyers_of(s, sale) == 0,
    decreases s.len(),
{
    if s.len() > 0 {
        assert forall|i: int| 0 <= i < s.drop_first().len() implies s.drop_first()[i].sale_id@
            != sale by {
            assert(s.drop_first()[i] == s[i + 1]);
        }
        lemma_total_minted_no_entries(s.drop_first(), sale);
    }
}

/// Under composite-key distinctness, a sale's sum of counters is bounded by
/// its number of buyers times any bound that each single counter obeys.
pub proof fn lemma_total_minted_bound(s: Seq<QuotaEntry>, sale: Seq<char>, bound: int)
    requires
        forall|i: int| 0 <= i < s.len() && s[i].sale_id@ == sale ==> s[i].minted <= bound,
    ensures
        total_minted(s, sale) <= buyers_of(s, sale) * bound,
    decreases s.len(),
{
    if s.len() > 0 {
        assert forall|i: int|
            0 <= i < s.drop_first().len() && s.drop_first()[i].sale_id@ == sale implies s.drop_first()[i].minted
            <= bound by {
            assert(s.drop_first()[i] == s[i + 1]);
        }
        lemma_total_minted_bound(s.drop_first(), sale, bound);
        if s[0].sale_id@ == sale {
            assert((buyers_of(s.drop_first(), sale) + 1) * bound == buyers_of(s.drop_first(), sale)
                * bound + bound) by (nonlinear_arith);
        }
    }
}

/// Linear lookup of the counter for (sale, account); zero when absent.
pub fn quota_lookup(entries: &Vec<QuotaEntry>, sale_id: &String, account_id: &String) -> (r: u32)
    ensures
        r == quota_of(entries@, sale_id@, account_id@),
{
    let mut i: usize = 0;
    while i < entries.len()
        invariant
            i <= entries@.len(),
            forall|j: int|
                0 <= j < i ==> !(entries@[j].sale_id@ == sale_id@ && entries@[j].account_id@
                    == account_id@),
        decreases entries@.len() - i,
    {
        if entries[i].sale_id == *sale_id && entries[i].account_id == *account_id {
            proof {
                lemma_quota_of_first_match(entries@, sale_id@, account_id@, i as int);
            }
            return entries[i].minted;
        }
        i = i + 1;
    }
    proof {
        assert(!has_quota(entries@, sale_id@, account_id@));
        lemma_quota_of_no_match(entries@, sale_id@, account_id@);
    }
    0
}

/// Overwrites the counter for (sale, account) with an absolute total,
/// creating the entry if absent. Every other key's reading, and every other
/// sale's sum, is untouched.
pub fn quota_store(entries: &mut Vec<QuotaEntry>, sale_id: &String, account_id: &String, value: u32)
    requires
        quota_keys_distinct(old(entries)@),
    ensures
        quota_keys_distinct(final(entries)@),
        quota_of(final(entries)@, sale_id@, account_id@) == value,
        forall|sa: Seq<char>, ac: Seq<char>|
            #![trigger quota_of(final(entries)@, sa, ac)]
            !(sa == sale_id@ && ac == account_id@) ==> quota_of(final(entries)@, sa, ac)
                == quota_of(old(entries)@, sa, ac),
        total_minted(final(entries)@, sale_id@) == total_minted(old(entries)@, sale_id@) + value
            - quota_of(old(entries)@, sale_id@, account_id@),
        forall|sa: Seq<char>| #![trigger total_minted(final(entries)@, sa)]
            sa != sale_id@ ==> total_minted(final(entries)@, sa) == total_minted(old(entries)@, sa),
        forall|sa: Seq<char>| #![trigger buyers_of(final(entries)@, sa)]
            buyers_of(final(entries)@, sa) == buyers_of(old(entries)@, sa) + (if sa == sale_id@
                && !has_quota(old(entries)@, sale_id@, account_id@) {
                1int
            } else {
                0int
            }),
        forall|i: int|
            #![trigger final(entries)@[i]]
            0 <= i < final(entries)@.len() ==> (final(entries)@[i].sale_id@ == sale_id@
                && final(entries)@[i].account_id@ == account_id@ && final(entries)@[i].minted
                == value) || (exists|j: int|
                0 <= j < old(entries)@.len() && final(entries)@[i] == old(entries)@[j]),
{
    let ghost pre = old(entries)@;
    let mut i: usize = 0;
    while i < entries.len()
        invariant
            entries@ == old(entries)@,
            pre == old(entries)@,
            quota_keys_distinct(pre),
            i <= pre.len(),
            forall|j: int|
                0 <= j < i ==> !(pre[j].sale_id@ == sale_id@ && pre[j].account_id@ == account_id@),
        decreases pre.len() - i,
    {
        if entries[i].sale_id == *sale_id && entries[i].account_id == *account_id {
            let e = QuotaEntry {
                sale_id: sale_id.clone(),
                account_id: account_id.clone(),
                minted: value,
            };
            proof {
                lemma_quota_of_first_match(pre, sale_id@, account_id@, i as int);
            }
            entries[i] = e;
            proof {
                assert(quota_keys_distinct(pre));
                assert(e.sale_id@ == sale_id@);
                assert(e.account_id@ == account_id@);
                assert(pre[i as int].sale_id@ == sale_id@);
                assert(pre[i as int].account_id@ == account_id@);
                assert(entries@ =~= pre.update(i as int, e));
                lemma_quota_update(pre, i as int, e);
                lemma_quota_of_first_match(entries@, sale_id@, account_id@, i as int);
                assert(has_quota(pre, sale_id@, account_id@));
                assert(e.sale_id@ == sale_id@ && e.account_id@ == account_id@);
                assert(pre[i as int].sale_id@ == sale_id@ && pre[i as int].account_id@
                    == account_id@);
                assert forall|p: int, q: int| 0 <= p < q < entries@.len() implies !(
                entries@[p].sale_id@ == entries@[q].sale_id@ && entries@[p].account_id@
                    == entries@[q].account_id@) by {
                    assert(pre[p].sale_id@ == entries@[p].sale_id@ && pre[p].account_id@
                        == entries@[p].account_id@);
                    assert(pre[q].sale_id@ == entries@[q].sale_id@ && pre[q].account_id@
                        == entries@[q].account_id@);
                }
                assert forall|k: int| 0 <= k < entries@.len() implies (entries@[k].sale_id@
                    == sale_id@ && entries@[k].account_id@ == account_id@ && entries@[k].minted
                    == value) || (exists|j: int|
                    0 <= j < pre.len() && entries@[k] == pre[j]) by {
                    if k != i {
                        assert(entries@[k] == pre[k]);
                    }
                }
                assert forall|sa: Seq<char>, ac: Seq<char>|
                    !(sa == sale_id@ && ac == account_id@) implies quota_of(entries@, sa, ac)
                    == quota_of(pre, sa, ac) by {
                    assert(quota_of(pre.update(i as int, e), sa, ac) == quota_of(pre, sa, ac));
                }
            }
            return;
        }
        i = i + 1;
    }
    let e = QuotaEntry { sale_id: sale_id.clone(), account_id: account_id.clone(), minted: value };
    proof {
        assert(!has_quota(pre, sale_id@, account_id@));
        lemma_quota_of_no_match(pre, sale_id@, account_id@);
    }
    entries.push(e);
    proof {
        assert(e.sale_id@ == sale_id@ && e.account_id@ == account_id@);
        lemma_quota_push(pre, e);
        assert forall|j: int|
            0 <= j < pre.len() implies !(pre[j].sale_id@ == sale_id@ && pre[j].account_id@
            == account_id@) by {}
        lemma_quota_of_first_match(entries@, sale_id@, account_id@, pre.len() as int);
        assert forall|sa: Seq<char>, ac: Seq<char>|
            !(sa == sale_id@ && ac == account_id@) implies quota_of(entries@, sa, ac) == quota_of(
            pre,
            sa,
            ac,
        ) by {
            lemma_quota_of_other_key_push(pre, e, sa, ac);
        }
        assert forall|k: int| 0 <= k < entries@.len() implies (entries@[k].sale_id@ == sale_id@
            && entries@[k].account_id@ == account_id@ && entries@[k].minted == value) || (exists|
        j: int|
            0 <= j < pre.len() && entries@[k] == pre[j]) by {
            if k < pre.len() {
                assert(entries@[k] == pre[k]);
            }
        }
    }
}

/// Appending an entry leaves every other composite key's reading unchanged.
pub proof fn lemma_quota_of_other_key_push(
    s: Seq<QuotaEntry>,
    e: QuotaEntry,
    sa: Seq<char>,
    ac: Seq<char>,
)
    requires
        !(sa == e.sale_id@ && ac == e.account_id@),
    ensures
        quota_of(s.push(e), sa, ac) == quota_of(s, sa, ac),
    decreases s.len(),
{
    if s.len() == 0 {
        assert(s.push(e)[0] == e);
        assert(s.push(e).drop_first() =~= Seq::<QuotaEntry>::empty());
        assert(!(s.push(e)[0].sale_id@ == sa && s.push(e)[0].account_id@ == ac));
        assert(quota_of(s.push(e), sa, ac) == quota_of(s.push(e).drop_first(), sa, ac));
        assert(quota_of(s.push(e).drop_first(), sa, ac) == 0);
        assert(quota_of(s, sa, ac) == 0);
    } else {
        assert(s.push(e)[0] == s[0]);
        assert(s.push(e).drop_first() =~= s.drop_first().push(e));
        if s[0].sale_id@ == sa && s[0].account_id@ == ac {
            assert(quota_of(s.push(e), sa, ac) == s[0].minted);
            assert(quota_of(s, sa, ac) == s[0].minted);
        } else {
            lemma_quota_of_other_key_push(s.drop_first(), e, sa, ac);
            assert(quota_of(s.drop_first().push(e), sa, ac) == quota_of(s.drop_first(), sa, ac));
            assert(quota_of(s.push(e), sa, ac) == quota_of(s.push(e).drop_first(), sa, ac));
            assert(quota_of(s, sa, ac) == quota_of(s.drop_first(), sa, ac));
        }
    }
}

} // verus!
