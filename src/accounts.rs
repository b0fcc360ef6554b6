use vstd::prelude::*;
use crate::tally::{lemma_sum_push, lemma_sum_update, sum_balances};
use crate::types::{Entity, EntityData};

verus! {

/// Some row of the entity table belongs to `e`.
pub open spec fn has_entity(s: Seq<(Entity, EntityData)>, e: Entity) -> bool {
    exists|k: int| 0 <= k < s.len() && #[trigger] s[k].0 == e
}

/// `e` has a row whose whitelist flag is set.
pub open spec fn is_whitelisted(s: Seq<(Entity, EntityData)>, e: Entity) -> bool {
    exists|k: int| 0 <= k < s.len() && #[trigger] s[k].0 == e && s[k].1.whitelisted
}

/// No entity has two rows.
pub open spec fn accounts_wf(s: Seq<(Entity, EntityData)>) -> bool {
    forall|i: int, j: int|
        #![trigger s[i], s[j]]
        0 <= i < s.len() && 0 <= j < s.len() && i != j ==> s[i].0 != s[j].0
}

/// Row of `e`, if it has one.
pub fn find_entity(s: &Vec<(Entity, EntityData)>, e: Entity) -> (r: Option<usize>)
    ensures
        match r {
            Some(k) => k < s@.len() && s@[k as int].0 == e,
            None => !has_entity(s@, e),
        },
{
    let mut k: usize = 0;
    while k < s.len()
        invariant
            k <= s@.len(),
            forall|j: int| 0 <= j < k ==> s@[j].0 != e,
        decreases s.len() - k,
    {
        if s[k].0 == e {
            return Some(k);
        }
        k += 1;
    }
    None
}

/// Adds one to the balance of `e`, creating its row if it has none.
pub fn credit(s: &mut Vec<(Entity, EntityData)>, e: Entity)
    requires
        accounts_wf(old(s)@),
        forall|k: int| 0 <= k < old(s)@.len() && #[trigger] old(s)@[k].0 == e ==> old(s)@[k].1.balance < u64::MAX,
    ensures
        accounts_wf(final(s)@),
        final(s)@.len() == old(s)@.len() || (final(s)@.len() == old(s)@.len() + 1 && !has_entity(old(s)@, e)
            && final(s)@.last().0 == e && final(s)@.last().1.balance == 1),
        forall|k: int| 0 <= k < old(s)@.len() ==> #[trigger] final(s)@[k].0 == old(s)@[k].0
            && final(s)@[k].1.balance == old(s)@[k].1.balance + (if old(s)@[k].0 == e { 1int } else { 0int }),
        has_entity(final(s)@, e),
        forall|x: Entity| has_entity(old(s)@, x) ==> has_entity(final(s)@, x),
        forall|x: Entity| is_whitelisted(final(s)@, x) == is_whitelisted(old(s)@, x),
        sum_balances(final(s)@) == sum_balances(old(s)@) + 1,
{
    let ghost pre = s@;
    match find_entity(s, e) {
        Some(k) => {
            let old_data = s[k].1;
            let row = (e, EntityData { balance: old_data.balance + 1, whitelisted: old_data.whitelisted });
            s.set(k, row);
            proof {
                lemma_sum_update(pre, k as int, row);
                assert forall|j: int| 0 <= j < pre.len() implies #[trigger] s@[j].0 == pre[j].0
                    && s@[j].1.balance == pre[j].1.balance + (if pre[j].0 == e { 1int } else { 0int }) by {
                    if j != k {
                        assert(pre[j].0 != pre[k as int].0);
                    }
                }
                assert forall|i: int, j: int|
                    #![trigger s@[i], s@[j]]
                    0 <= i < s@.len() && 0 <= j < s@.len() && i != j implies s@[i].0 != s@[j].0 by {
                    assert(pre[i].0 != pre[j].0);
                }
                assert forall|x: Entity| has_entity(pre, x) implies has_entity(s@, x) by {
                    let j = choose|j: int| 0 <= j < pre.len() && #[trigger] pre[j].0 == x;
                    assert(s@[j].0 == x);
                }
                assert forall|x: Entity| is_whitelisted(s@, x) == is_whitelisted(pre, x) by {
                    if is_whitelisted(pre, x) {
                        let j = choose|j: int| 0 <= j < pre.len() && #[trigger] pre[j].0 == x && pre[j].1.whitelisted;
                        assert(s@[j].0 == x);
                    }
                    if is_whitelisted(s@, x) {
                        let j = choose|j: int| 0 <= j < s@.len() && #[trigger] s@[j].0 == x && s@[j].1.whitelisted;
                        assert(pre[j].0 == x);
                    }
                }
                assert(s@[k as int].0 == e);
            }
        },
        None => {
            let row = (e, EntityData { balance: 1, whitelisted: false });
            s.push(row);
            proof {
                lemma_sum_push(pre, row);
                assert(s@[pre.len() as int].0 == e);
                assert forall|i: int, j: int|
                    #![trigger s@[i], s@[j]]
                    0 <= i < s@.len() && 0 <= j < s@.len() && i != j implies s@[i].0 != s@[j].0 by {
                    if i < pre.len() && j < pre.len() {
                        assert(pre[i].0 != pre[j].0);
                    } else if i < pre.len() {
                        assert(pre[i].0 != e);
                    } else {
                        assert(pre[j].0 != e);
                    }
                }
                assert forall|x: Entity| has_entity(pre, x) implies has_entity(s@, x) by {
                    let j = choose|j: int| 0 <= j < pre.len() && #[trigger] pre[j].0 == x;
                    assert(s@[j].0 == x);
                }
                assert forall|x: Entity| is_whitelisted(s@, x) == is_whitelisted(pre, x) by {
                    if is_whitelisted(pre, x) {
                        let j = choose|j: int| 0 <= j < pre.len() && #[trigger] pre[j].0 == x && pre[j].1.whitelisted;
                        assert(s@[j].0 == x);
                    }
                    if is_whitelisted(s@, x) {
                        let j = choose|j: int| 0 <= j < s@.len() && #[trigger] s@[j].0 == x && s@[j].1.whitelisted;
                        assert(pre[j].0 == x);
                    }
                }
            }
        },
    }
}

/// Takes one from the balance of `e`, whose row must exist with a positive
/// balance.
pub fn debit(s: &mut Vec<(Entity, EntityData)>, e: Entity)
    requires
        accounts_wf(old(s)@),
        has_entity(old(s)@, e),
        forall|k: int| 0 <= k < old(s)@.len() && #[trigger] old(s)@[k].0 == e ==> old(s)@[k].1.balance >= 1,
    ensures
        accounts_wf(final(s)@),
        final(s)@.len() == old(s)@.len(),
        forall|k: int| 0 <= k < old(s)@.len() ==> #[trigger] final(s)@[k].0 == old(s)@[k].0
            && final(s)@[k].1.balance == old(s)@[k].1.balance - (if old(s)@[k].0 == e { 1int } else { 0int }),
        forall|x: Entity| has_entity(old(s)@, x) ==> has_entity(final(s)@, x),
        forall|x: Entity| is_whitelisted(final(s)@, x) == is_whitelisted(old(s)@, x),
        sum_balances(final(s)@) == sum_balances(old(s)@) - 1,
{
    let ghost pre = s@;
    let k = match find_entity(s, e) {
        Some(k) => k,
        None => {
            proof {
                let j = choose|j: int| 0 <= j < pre.len() && #[trigger] pre[j].0 == e;
            }
            return;
        },
    };
    let old_data = s[k].1;
    let row = (e, EntityData { balance: old_data.balance - 1, whitelisted: old_data.whitelisted });
    s.set(k, row);
    proof {
        lemma_sum_update(pre, k as int, row);
        assert forall|j: int| 0 <= j < pre.len() implies #[trigger] s@[j].0 == pre[j].0
            && s@[j].1.balance == pre[j].1.balance - (if pre[j].0 == e { 1int } else { 0int }) by {
            if j != k {
                assert(pre[j].0 != pre[k as int].0);
            }
        }
        assert forall|i: int, j: int|
            #![trigger s@[i], s@[j]]
            0 <= i < s@.len() && 0 <= j < s@.len() && i != j implies s@[i].0 != s@[j].0 by {
            assert(pre[i].0 != pre[j].0);
        }
        assert forall|x: Entity| has_entity(pre, x) implies has_entity(s@, x) by {
            let j = choose|j: int| 0 <= j < pre.len() && #[trigger] pre[j].0 == x;
            assert(s@[j].0 == x);
        }
        assert forall|x: Entity| is_whitelisted(s@, x) == is_whitelisted(pre, x) by {
            if is_whitelisted(pre, x) {
                let j = choose|j: int| 0 <= j < pre.len() && #[trigger] pre[j].0 == x && pre[j].1.whitelisted;
                assert(s@[j].0 == x);
            }
            if is_whitelisted(s@, x) {
                let j = choose|j: int| 0 <= j < s@.len() && #[trigger] s@[j].0 == x && s@[j].1.whitelisted;
                assert(pre[j].0 == x);
            }
        }
    }
}

/// Sets the whitelist flag of `e`, creating its row (with balance zero) if
/// it has none.
pub fn set_flag(s: &mut Vec<(Entity, EntityData)>, e: Entity, flag: bool)
    requires
        accounts_wf(old(s)@),
    ensures
        accounts_wf(final(s)@),
        final(s)@.len() == old(s)@.len() || (final(s)@.len() == old(s)@.len() + 1 && !has_entity(old(s)@, e)
            && final(s)@.last().0 == e && final(s)@.last().1.balance == 0),
        forall|k: int| 0 <= k < old(s)@.len() ==> #[trigger] final(s)@[k].0 == old(s)@[k].0
            && final(s)@[k].1.balance == old(s)@[k].1.balance,
        forall|x: Entity| has_entity(old(s)@, x) ==> has_entity(final(s)@, x),
        forall|x: Entity| is_whitelisted(final(s)@, x) == if x == e { flag } else { is_whitelisted(old(s)@, x) },
        sum_balances(final(s)@) == sum_balances(old(s)@),
{
    let ghost pre = s@;
    let k = match find_entity(s, e) {
        Some(k) => {
            let row = (e, EntityData { balance: s[k].1.balance, whitelisted: flag });
            s.set(k, row);
            proof {
                lemma_sum_update(pre, k as int, row);
            }
            k
        },
        None => {
            let row = (e, EntityData { balance: 0, whitelisted: flag });
            let n = s.len();
            s.push(row);
            proof {
                lemma_sum_push(pre, row);
            }
            n
        },
    };
    proof {
        assert(s@[k as int].0 == e && s@[k as int].1.whitelisted == flag);
        assert forall|i: int, j: int|
            #![trigger s@[i], s@[j]]
            0 <= i < s@.len() && 0 <= j < s@.len() && i != j implies s@[i].0 != s@[j].0 by {
            if i < pre.len() && j < pre.len() {
                assert(pre[i].0 != pre[j].0);
            } else if i < pre.len() {
                assert(pre[i].0 != e);
            } else {
                assert(pre[j].0 != e);
            }
        }
        assert forall|j: int| 0 <= j < pre.len() implies #[trigger] s@[j].0 == pre[j].0
            && s@[j].1.balance == pre[j].1.balance by {
            if j != k {
                assert(s@[j] == pre[j]);
            }
        }
        assert forall|x: Entity| has_entity(pre, x) implies has_entity(s@, x) by {
            let j = choose|j: int| 0 <= j < pre.len() && #[trigger] pre[j].0 == x;
            assert(s@[j].0 == x);
        }
        assert forall|x: Entity| is_whitelisted(s@, x) == if x == e { flag } else { is_whitelisted(pre, x) } by {
            if x == e {
                if is_whitelisted(s@, x) {
                    let j = choose|j: int| 0 <= j < s@.len() && #[trigger] s@[j].0 == x && s@[j].1.whitelisted;
                    assert(j == k);
                }
            } else {
                if is_whitelisted(pre, x) {
                    let j = choose|j: int| 0 <= j < pre.len() && #[trigger] pre[j].0 == x && pre[j].1.whitelisted;
                    assert(s@[j] == pre[j]);
                }
                if is_whitelisted(s@, x) {
                    let j = choose|j: int| 0 <= j < s@.len() && #[trigger] s@[j].0 == x && s@[j].1.whitelisted;
                    assert(s@[j] == pre[j]);
                }
            }
        }
    }
}

} // verus!
