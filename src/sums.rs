use vstd::prelude::*;
use crate::state::{Escrow, UserAccount};

verus! {

/// Funds held by registered identities.
pub open spec fn sum_balances(s: Seq<UserAccount>) -> int
    decreases s.len(),
{
    if s.len() == 0 {
        0
    } else {
        sum_balances(s.drop_last()) + s.last().balance
    }
}

/// Funds held in escrow custody.
pub open spec fn sum_locked(s: Seq<Escrow>) -> int
    decreases s.len(),
{
    if s.len() == 0 {
        0
    } else {
        sum_locked(s.drop_last()) + s.last().locked_amount
    }
}

pub proof fn lemma_balances_push(s: Seq<UserAccount>, u: UserAccount)
    ensures
        sum_balances(s.push(u)) == sum_balances(s) + u.balance,
{
    assert(s.push(u).drop_last() =~= s);
}

pub proof fn lemma_balances_update(s: Seq<UserAccount>, i: int, u: UserAccount)
    requires
        0 <= i < s.len(),
    ensures
        sum_balances(s.update(i, u)) == sum_balances(s) - s[i].balance + u.balance,
        0 <= s[i].balance <= sum_balances(s),
    decreases s.len(),
{
    lemma_balances_nonneg(s.drop_last());
    if i == s.len() - 1 {
        assert(s.update(i, u).drop_last() =~= s.drop_last());
    } else {
        lemma_balances_update(s.drop_last(), i, u);
        assert(s.update(i, u).drop_last() =~= s.drop_last().update(i, u));
    }
}

pub proof fn lemma_balances_nonneg(s: Seq<UserAccount>)
    ensures
        sum_balances(s) >= 0,
    decreases s.len(),
{
    if s.len() > 0 {
        lemma_balances_nonneg(s.drop_last());
    }
}

pub proof fn lemma_locked_push(s: Seq<Escrow>, e: Escrow)
    ensures
        sum_locked(s.push(e)) == sum_locked(s) + e.locked_amount,
{
    assert(s.push(e).drop_last() =~= s);
}

pub proof fn lemma_locked_update(s: Seq<Escrow>, i: int, e: Escrow)
    requires
        0 <= i < s.len(),
    ensures
        sum_locked(s.update(i, e)) == sum_locked(s) - s[i].locked_amount + e.locked_amount,
        0 <= s[i].locked_amount <= sum_locked(s),
    decreases s.len(),
{
    lemma_locked_nonneg(s.drop_last());
    if i == s.len() - 1 {
        assert(s.update(i, e).drop_last() =~= s.drop_last());
    } else {
        lemma_locked_update(s.drop_last(), i, e);
        assert(s.update(i, e).drop_last() =~= s.drop_last().update(i, e));
    }
}

pub proof fn lemma_locked_nonneg(s: Seq<Escrow>)
    ensures
        sum_locked(s) >= 0,
    decreases s.len(),
{
    if s.len() > 0 {
        lemma_locked_nonneg(s.drop_last());
    }
}

} // verus!
