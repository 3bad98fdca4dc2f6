//! The membership graph is stored in both directions, and the two always
//! agree.

use vstd::prelude::*;
use crate::batch::{edges_paired, is_link, is_unlink, OpModel};
use crate::model::{commit_push, Directory};

verus! {

/// Whether every forward edge has its reverse edge and every reverse edge
/// its forward edge.
pub open spec fn symmetric(d: Directory) -> bool {
    forall|a: u32, b: u32|
        #![trigger d.is_member_of(a, b)]
        #![trigger d.has_member(b, a)]
        d.is_member_of(a, b) <==> d.has_member(b, a)
}

/// An operation that touches no edge leaves the edges as they are.
proof fn untouched_edges(d: Directory, op: OpModel, id: u32)
    requires
        !op.touches_edge(),
    ensures
        d.apply(op, id) matches Some(after) ==> forall|a: u32, b: u32|
            #![trigger after.is_member_of(a, b)]
            #![trigger after.has_member(a, b)]
            after.is_member_of(a, b) == d.is_member_of(a, b) && after.has_member(a, b)
                == d.has_member(a, b),
{
}

/// A pair of matching edge operations keeps the two directions in step.
proof fn pair_keeps_symmetry(d: Directory, first: OpModel, second: OpModel, id: u32)
    requires
        symmetric(d),
        is_link(first, second) || is_unlink(first, second),
    ensures
        d.apply(first, id) matches Some(between) && (between.apply(second, id) matches Some(after)
            && symmetric(after)),
{
    let between = d.apply(first, id)->0;
    let after = between.apply(second, id)->0;
    assert forall|a: u32, b: u32| after.is_member_of(a, b) <==> after.has_member(b, a) by {
        assert(d.is_member_of(a, b) <==> d.has_member(b, a));
    }
}

/// Committing a batch whose edge operations are paired to a store whose
/// edges agree in both directions gives a store whose edges agree in both
/// directions. Every batch of the engine is paired.
pub proof fn paired_batch_keeps_symmetry(d: Directory, ops: Seq<OpModel>, id: u32)
    requires
        symmetric(d),
        edges_paired(ops),
    ensures
        d.commit(ops, id) matches Some(after) ==> symmetric(after),
    decreases ops.len(),
{
    if ops.len() == 0 {
    } else if !ops.last().touches_edge() {
        paired_batch_keeps_symmetry(d, ops.drop_last(), id);
        match d.commit(ops.drop_last(), id) {
            Some(before) => {
                untouched_edges(before, ops.last(), id);
                match before.apply(ops.last(), id) {
                    Some(after) => {
                        assert forall|a: u32, b: u32| after.is_member_of(a, b) <==> after.has_member(
                            b,
                            a,
                        ) by {
                            assert(before.is_member_of(a, b) <==> before.has_member(b, a));
                        }
                    },
                    None => {},
                }
            },
            None => {},
        }
    } else {
        let n = ops.len() as int;
        let head = ops.take(n - 2);
        paired_batch_keeps_symmetry(d, head, id);
        assert(ops =~= head.push(ops[n - 2]).push(ops[n - 1]));
        commit_push(d, head.push(ops[n - 2]), ops[n - 1], id);
        commit_push(d, head, ops[n - 2], id);
        match d.commit(head, id) {
            Some(before) => {
                pair_keeps_symmetry(before, ops[n - 2], ops[n - 1], id);
            },
            None => {},
        }
    }
}

} // verus!
