use vstd::prelude::*;
use crate::types::{Entity, NftError, OperatorEntry};

verus! {

/// `edge` is one of the stored operator edges.
pub open spec fn has_edge(ops: Seq<OperatorEntry>, edge: OperatorEntry) -> bool {
    exists|i: int| 0 <= i < ops.len() && #[trigger] ops[i] == edge
}

/// No `(owner, operator)` pair is stored twice.
pub open spec fn edges_wf(ops: Seq<OperatorEntry>) -> bool {
    forall|i: int, j: int|
        #![trigger ops[i], ops[j]]
        0 <= i < ops.len() && 0 <= j < ops.len() && i != j ==> ops[i] != ops[j]
}

/// `edge` is stored exactly once.
pub open spec fn exactly_one_edge(ops: Seq<OperatorEntry>, edge: OperatorEntry) -> bool {
    exists|i: int|
        0 <= i < ops.len() && #[trigger] ops[i] == edge && forall|j: int|
            0 <= j < ops.len() && #[trigger] ops[j] == edge ==> j == i
}

/// `caller` may act on a token whose owner is `owner` and whose approved
/// delegate is `approved`.
pub open spec fn authorized(
    ops: Seq<OperatorEntry>,
    caller: Entity,
    owner: Entity,
    approved: Option<Entity>,
) -> bool {
    caller == owner || approved == Some(caller) || has_edge(ops, OperatorEntry { key: owner, value: caller })
}

/// The edge that lets `operator` act for `owner`.
pub open spec fn edge_of(owner: Entity, operator: Entity) -> OperatorEntry {
    OperatorEntry { key: owner, value: operator }
}

/// Position of `edge` among the stored edges, if it is stored.
pub fn find_edge(ops: &Vec<OperatorEntry>, edge: OperatorEntry) -> (r: Option<usize>)
    ensures
        match r {
            Some(i) => i < ops@.len() && ops@[i as int] == edge,
            None => !has_edge(ops@, edge),
        },
{
    let mut i: usize = 0;
    while i < ops.len()
        invariant
            i <= ops@.len(),
            forall|k: int| 0 <= k < i ==> ops@[k] != edge,
        decreases ops.len() - i,
    {
        if ops[i] == edge {
            return Some(i);
        }
        i += 1;
    }
    None
}

/// Adds the edge `(owner, operator)`; `DuplicateOperator` if it exists.
pub fn grant_operator(ops: &mut Vec<OperatorEntry>, owner: Entity, operator: Entity) -> (r: Result<
    (),
    NftError,
>)
    requires
        edges_wf(old(ops)@),
    ensures
        edges_wf(final(ops)@),
        has_edge(old(ops)@, edge_of(owner, operator)) ==> r == Err::<
            (),
            NftError,
        >(NftError::DuplicateOperator) && final(ops)@ == old(ops)@,
        !has_edge(old(ops)@, edge_of(owner, operator)) ==> r is Ok
            && final(ops)@ == old(ops)@.push(edge_of(owner, operator)),
{
    let edge = OperatorEntry { key: owner, value: operator };
    if find_edge(ops, edge).is_some() {
        return Err(NftError::DuplicateOperator);
    }
    let ghost pre = ops@;
    ops.push(edge);
    assert forall|i: int, j: int|
        #![trigger ops@[i], ops@[j]]
        0 <= i < ops@.len() && 0 <= j < ops@.len() && i != j implies ops@[i] != ops@[j] by {
        if i < pre.len() && j < pre.len() {
            assert(pre[i] != pre[j]);
        } else if i < pre.len() {
            assert(pre[i] != edge);
        } else {
            assert(pre[j] != edge);
        }
    }
    Ok(())
}

/// Removes the edge `(owner, operator)`; `NotFound` if it is absent.
pub fn revoke_operator(ops: &mut Vec<OperatorEntry>, owner: Entity, operator: Entity) -> (r: Result<
    (),
    NftError,
>)
    requires
        edges_wf(old(ops)@),
    ensures
        edges_wf(final(ops)@),
        has_edge(old(ops)@, edge_of(owner, operator)) ==> r is Ok && !has_edge(final(ops)@, edge_of(owner, operator)) && forall|e: OperatorEntry|
            e != edge_of(owner, operator) ==> (has_edge(final(ops)@, e)
                == has_edge(old(ops)@, e)),
        !has_edge(old(ops)@, edge_of(owner, operator)) ==> r == Err::<
            (),
            NftError,
        >(NftError::NotFound) && final(ops)@ == old(ops)@,
{
    let edge = OperatorEntry { key: owner, value: operator };
    match find_edge(ops, edge) {
        None => Err(NftError::NotFound),
        Some(i) => {
            let ghost pre = ops@;
            ops.remove(i);
            assert(ops@ =~= pre.remove(i as int));
            assert forall|k: int| 0 <= k < ops@.len() implies #[trigger] ops@[k] != edge by {
                if k < i {
                    assert(pre[k] != pre[i as int]);
                } else {
                    assert(pre[k + 1] != pre[i as int]);
                }
            }
            assert forall|e: OperatorEntry| e != edge implies (has_edge(ops@, e) == has_edge(
                pre,
                e,
            )) by {
                if has_edge(pre, e) {
                    let k = choose|k: int| 0 <= k < pre.len() && #[trigger] pre[k] == e;
                    if k < i {
                        assert(ops@[k] == e);
                    } else {
                        assert(ops@[k - 1] == e);
                    }
                }
                if has_edge(ops@, e) {
                    let k = choose|k: int| 0 <= k < ops@.len() && #[trigger] ops@[k] == e;
                    if k < i {
                        assert(pre[k] == e);
                    } else {
                        assert(pre[k + 1] == e);
                    }
                }
            }
            assert forall|a: int, b: int|
                #![trigger ops@[a], ops@[b]]
                0 <= a < ops@.len() && 0 <= b < ops@.len() && a != b implies ops@[a] != ops@[b] by {
                let pa = if a < i { a } else { a + 1 };
                let pb = if b < i { b } else { b + 1 };
                assert(pre[pa] != pre[pb]);
            }
            Ok(())
        },
    }
}

/// The single authorization gate: the caller is the owner, the token's
/// approved delegate, or an operator of the owner.
pub fn is_authorized(
    ops: &Vec<OperatorEntry>,
    caller: Entity,
    owner: Entity,
    approved: Option<Entity>,
) -> (r: bool)
    ensures
        r == authorized(ops@, caller, owner, approved),
{
    if caller == owner {
        return true;
    }
    if let Some(a) = approved {
        if a == caller {
            return true;
        }
    }
    find_edge(ops, OperatorEntry { key: owner, value: caller }).is_some()
}

/// Granting an edge twice in a row leaves it stored exactly once, and the
/// second grant changes nothing.
pub proof fn lemma_grant_twice(ops: Seq<OperatorEntry>, edge: OperatorEntry)
    requires
        edges_wf(ops),
    ensures
        edges_wf(granted(ops, edge)),
        granted(granted(ops, edge), edge) == granted(ops, edge),
        exactly_one_edge(granted(granted(ops, edge), edge), edge),
{
    let g = granted(ops, edge);
    if has_edge(ops, edge) {
        let i = choose|i: int| 0 <= i < ops.len() && #[trigger] ops[i] == edge;
        assert forall|j: int| 0 <= j < ops.len() && #[trigger] ops[j] == edge implies j == i by {
            if j != i {
                assert(ops[i] != ops[j]);
            }
        }
    } else {
        let i = ops.len() as int;
        assert(g[i] == edge);
        assert(has_edge(g, edge));
        assert forall|j: int| 0 <= j < g.len() && #[trigger] g[j] == edge implies j == i by {
            if j < i {
                assert(ops[j] == edge);
            }
        }
        assert forall|a: int, b: int|
            #![trigger g[a], g[b]]
            0 <= a < g.len() && 0 <= b < g.len() && a != b implies g[a] != g[b] by {
            if a < i && b < i {
                assert(ops[a] != ops[b]);
            } else if a < i {
                assert(ops[a] != edge);
            } else {
                assert(ops[b] != edge);
            }
        }
    }
}

/// The edge table after a grant that tolerates an existing edge.
pub open spec fn granted(ops: Seq<OperatorEntry>, edge: OperatorEntry) -> Seq<OperatorEntry> {
    if has_edge(ops, edge) {
        ops
    } else {
        ops.push(edge)
    }
}

} // verus!
