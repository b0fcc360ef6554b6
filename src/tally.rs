use vstd::prelude::*;
use crate::types::{Entity, EntityData, TokenData};

verus! {

/// How many records of `t` have owner `o` (`None` counts burned tokens).
pub open spec fn count_owner(t: Seq<TokenData>, o: Option<Entity>) -> nat
    decreases t.len(),
{
    if t.len() == 0 {
        0
    } else {
        count_owner(t.drop_last(), o) + if t.last().owner == o {
            1nat
        } else {
            0nat
        }
    }
}

/// How many records of `t` are not burned.
pub open spec fn count_live(t: Seq<TokenData>) -> int {
    t.len() - count_owner(t, None)
}

/// The sum of the balances of an entity table.
pub open spec fn sum_balances(s: Seq<(Entity, EntityData)>) -> int
    decreases s.len(),
{
    if s.len() == 0 {
        0
    } else {
        sum_balances(s.drop_last()) + s.last().1.balance
    }
}

/// Appending a record adds one to the count of its owner.
pub proof fn lemma_count_push(t: Seq<TokenData>, d: TokenData, o: Option<Entity>)
    ensures
        count_owner(t.push(d), o) == count_owner(t, o) + if d.owner == o {
            1int
        } else {
            0int
        },
{
    assert(t.push(d).drop_last() =~= t);
}

/// Replacing a record moves one unit of count from its old owner to its new one.
pub proof fn lemma_count_update(t: Seq<TokenData>, i: int, d: TokenData, o: Option<Entity>)
    requires
        0 <= i < t.len(),
    ensures
        count_owner(t.update(i, d), o) == count_owner(t, o) - (if t[i].owner == o {
            1int
        } else {
            0int
        }) + (if d.owner == o {
            1int
        } else {
            0int
        }),
    decreases t.len(),
{
    if i == t.len() - 1 {
        assert(t.update(i, d).drop_last() =~= t.drop_last());
    } else {
        assert(t.update(i, d).drop_last() =~= t.drop_last().update(i, d));
        lemma_count_update(t.drop_last(), i, d, o);
    }
}

/// No owner has more records than there are.
pub proof fn lemma_count_bound(t: Seq<TokenData>, o: Option<Entity>)
    ensures
        count_owner(t, o) <= t.len(),
    decreases t.len(),
{
    if t.len() > 0 {
        lemma_count_bound(t.drop_last(), o);
    }
}

/// An owner of some record has a positive count.
pub proof fn lemma_count_positive(t: Seq<TokenData>, i: int, o: Option<Entity>)
    requires
        0 <= i < t.len(),
        t[i].owner == o,
    ensures
        count_owner(t, o) >= 1,
    decreases t.len(),
{
    if i < t.len() - 1 {
        lemma_count_positive(t.drop_last(), i, o);
    }
}

/// An owner of no record has count zero.
pub proof fn lemma_count_zero(t: Seq<TokenData>, o: Option<Entity>)
    requires
        forall|i: int| 0 <= i < t.len() ==> #[trigger] t[i].owner != o,
    ensures
        count_owner(t, o) == 0,
    decreases t.len(),
{
    if t.len() > 0 {
        lemma_count_zero(t.drop_last(), o);
    }
}

/// Appending a row adds its balance to the sum.
pub proof fn lemma_sum_push(s: Seq<(Entity, EntityData)>, x: (Entity, EntityData))
    ensures
        sum_balances(s.push(x)) == sum_balances(s) + x.1.balance,
{
    assert(s.push(x).drop_last() =~= s);
}

/// Replacing a row swaps its balance in the sum.
pub proof fn lemma_sum_update(s: Seq<(Entity, EntityData)>, k: int, x: (Entity, EntityData))
    requires
        0 <= k < s.len(),
    ensures
        sum_balances(s.update(k, x)) == sum_balances(s) - s[k].1.balance + x.1.balance,
    decreases s.len(),
{
    if k == s.len() - 1 {
        assert(s.update(k, x).drop_last() =~= s.drop_last());
    } else {
        assert(s.update(k, x).drop_last() =~= s.drop_last().update(k, x));
        lemma_sum_update(s.drop_last(), k, x);
    }
}

} // verus!
