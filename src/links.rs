use vstd::prelude::*;
use crate::records::{RfpSnapshotRecord, RfpSnapshotView};

verus! {

/// `ids` with `p` appended, unless it is there already.
pub open spec fn with_linked(ids: Seq<i32>, p: i32) -> Seq<i32> {
    if ids.contains(p) {
        ids
    } else {
        ids.push(p)
    }
}

/// `ids` with every occurrence of `p` taken out, order kept.
pub open spec fn without_linked(ids: Seq<i32>, p: i32) -> Seq<i32>
    decreases ids.len(),
{
    if ids.len() == 0 {
        ids
    } else {
        let rest = without_linked(ids.drop_last(), p);
        if ids.last() == p {
            rest
        } else {
            rest.push(ids.last())
        }
    }
}

/// The linked proposals that an RFP snapshot lists; none when it holds no list.
pub open spec fn linked_ids(v: RfpSnapshotView) -> Seq<i32> {
    match v.linked_proposals {
        Some(s) => s,
        None => Seq::empty(),
    }
}

pub proof fn lemma_without_linked(ids: Seq<i32>, p: i32)
    ensures
        !without_linked(ids, p).contains(p),
        forall|x: i32| x != p && ids.contains(x) ==> #[trigger] without_linked(ids, p).contains(x),
    decreases ids.len(),
{
    if ids.len() > 0 {
        lemma_without_linked(ids.drop_last(), p);
        let rest = without_linked(ids.drop_last(), p);
        assert forall|x: i32| x != p && ids.contains(x) implies #[trigger] without_linked(
            ids,
            p,
        ).contains(x) by {
            let i = choose|i: int| 0 <= i < ids.len() && ids[i] == x;
            if i < ids.len() - 1 {
                assert(ids.drop_last()[i] == x);
                assert(ids.drop_last().contains(x));
                assert(rest.contains(x));
                let j = choose|j: int| 0 <= j < rest.len() && rest[j] == x;
                if ids.last() != p {
                    assert(rest.push(ids.last())[j] == x);
                }
            } else {
                assert(rest.push(ids.last())[rest.len() as int] == x);
            }
        }
        if ids.last() != p {
            assert forall|j: int| 0 <= j < rest.len() + 1 implies rest.push(ids.last())[j] != p by {
                if j < rest.len() {
                    assert(rest[j] != p);
                }
            }
        }
    }
}

/// The denormalized list of proposals linked to an RFP.
pub struct LinkedProposals(pub Vec<i32>);

impl LinkedProposals {
    /// Read the stored list; an absent list is empty.
    pub fn from(value: Option<Vec<i32>>) -> (r: LinkedProposals)
        ensures
            r.0@ == (match value {
                Some(v) => v@,
                None => Seq::<i32>::empty(),
            }),
    {
        match value {
            Some(v) => LinkedProposals(v),
            None => LinkedProposals(Vec::new()),
        }
    }

    /// The list in its stored form.
    pub fn into_stored(self) -> (r: Option<Vec<i32>>)
        ensures
            r matches Some(v) && v@ == self.0@,
    {
        Some(self.0)
    }
}

/// Link proposal `proposal_id`: append it unless the list already holds it.
pub fn add_to_linked_proposals(linked_proposals: Vec<i32>, proposal_id: i32) -> (r: Vec<i32>)
    ensures
        r@ == with_linked(linked_proposals@, proposal_id),
{
    let mut i: usize = 0;
    while i < linked_proposals.len()
        invariant
            i <= linked_proposals@.len(),
            forall|j: int| 0 <= j < i ==> linked_proposals@[j] != proposal_id,
        decreases linked_proposals@.len() - i,
    {
        if linked_proposals[i] == proposal_id {
            assert(linked_proposals@.contains(proposal_id));
            return linked_proposals;
        }
        i = i + 1;
    }
    let mut out = linked_proposals;
    out.push(proposal_id);
    out
}

/// Unlink proposal `proposal_id`: drop every occurrence of it.
pub fn remove_from_linked_proposals(linked_proposals: Vec<i32>, proposal_id: i32) -> (r: Vec<i32>)
    ensures
        r@ == without_linked(linked_proposals@, proposal_id),
{
    let mut r: Vec<i32> = Vec::new();
    let mut i: usize = 0;
    while i < linked_proposals.len()
        invariant
            i <= linked_proposals@.len(),
            r@ == without_linked(linked_proposals@.subrange(0, i as int), proposal_id),
        decreases linked_proposals@.len() - i,
    {
        let x = linked_proposals[i];
        assert(linked_proposals@.subrange(0, i + 1).drop_last() =~= linked_proposals@.subrange(
            0,
            i as int,
        ));
        if x != proposal_id {
            r.push(x);
        }
        i = i + 1;
    }
    assert(linked_proposals@.subrange(0, linked_proposals@.len() as int) =~= linked_proposals@);
    r
}

/// Which way a proposal's link to an RFP changes.
#[derive(Debug, Clone, Copy, PartialEq, Eq, Structural)]
pub enum LinkChange {
    Add,
    Remove,
}

/// The RFP snapshot `base` re-dated to `(block_height, ts)` with `proposal_id`
/// linked or unlinked.
pub open spec fn relinked(
    base: RfpSnapshotView,
    rfp_id: i32,
    proposal_id: i32,
    change: LinkChange,
    block_height: i64,
    ts: i64,
) -> RfpSnapshotView {
    RfpSnapshotView {
        rfp_id,
        linked_proposals: Some(
            match change {
                LinkChange::Add => with_linked(linked_ids(base), proposal_id),
                LinkChange::Remove => without_linked(linked_ids(base), proposal_id),
            },
        ),
        block_height,
        ts,
        ..base
    }
}

/// Apply a link change to a copy of an RFP snapshot, dated anew.
pub fn relink_snapshot(
    base: RfpSnapshotRecord,
    rfp_id: i32,
    proposal_id: i32,
    change: LinkChange,
    block_height: i64,
    ts: i64,
) -> (r: RfpSnapshotRecord)
    ensures
        r@ == relinked(base@, rfp_id, proposal_id, change, block_height, ts),
{
    let mut snapshot = base;
    let current = LinkedProposals::from(snapshot.linked_proposals);
    let updated = match change {
        LinkChange::Add => add_to_linked_proposals(current.0, proposal_id),
        LinkChange::Remove => remove_from_linked_proposals(current.0, proposal_id),
    };
    snapshot.rfp_id = rfp_id;
    snapshot.linked_proposals = LinkedProposals(updated).into_stored();
    snapshot.block_height = block_height;
    snapshot.ts = ts;
    snapshot
}

} // verus!
