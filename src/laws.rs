use vstd::prelude::*;
use crate::contract::{proposal_snapshot_of, Proposal, ProposalBodyFields};
use crate::cursor::{advanced, last_transaction, CursorView};
use crate::dispatch::{route_of, tx_route, Route};
use crate::links::{lemma_without_linked, linked_ids, with_linked, without_linked};
use crate::reconcile::{
    apply_batch, apply_item, empty_view, history_before, link_write, link_writes, merge, plan_of,
    prior_link, tx_delta, tx_time, write_time, ContractInput, Plan, SyncError, SyncItem,
};
use crate::store::StoreState;
use crate::table::{before, is_latest_ts, latest};
use crate::transaction::{first_action, Transaction};

verus! {

/// Every pair of transactions with a write time comes in ascending order of it.
pub open spec fn times_sorted(items: Seq<SyncItem>) -> bool {
    forall|i: int, j: int|
        0 <= i < j < items.len() && (#[trigger] write_time(items[i].transaction)) is Some && (
        #[trigger] write_time(items[j].transaction)) is Some ==> write_time(items[i].transaction)->0
            <= write_time(items[j].transaction)->0
}

/// The rows that a batch writes when processed from `s`, later writes over earlier.
pub open spec fn batch_writes(s: StoreState, items: Seq<SyncItem>) -> StoreState
    decreases items.len(),
{
    if items.len() == 0 {
        empty_view()
    } else {
        let prev = apply_batch(s, items.drop_last()).0;
        let a = batch_writes(s, items.drop_last());
        let x = items.last();
        match plan_of(x.transaction, x.input) {
            Plan::Write(t) => merge(
                a,
                tx_delta(x.transaction, x.input, t, history_before(prev, t as int)),
            ),
            _ => a,
        }
    }
}

proof fn lemma_merge_assoc(x: StoreState, y: StoreState, z: StoreState)
    ensures
        merge(merge(x, y), z) == merge(x, merge(y, z)),
{
    assert(merge(merge(x, y), z).proposals =~= merge(x, merge(y, z)).proposals);
    assert(merge(merge(x, y), z).proposal_snapshots =~= merge(x, merge(y, z)).proposal_snapshots);
    assert(merge(merge(x, y), z).rfps =~= merge(x, merge(y, z)).rfps);
    assert(merge(merge(x, y), z).rfp_snapshots =~= merge(x, merge(y, z)).rfp_snapshots);
}

proof fn lemma_merge_twice(x: StoreState, y: StoreState)
    ensures
        merge(merge(x, y), y) == merge(x, y),
{
    assert(merge(merge(x, y), y).proposals =~= merge(x, y).proposals);
    assert(merge(merge(x, y), y).proposal_snapshots =~= merge(x, y).proposal_snapshots);
    assert(merge(merge(x, y), y).rfps =~= merge(x, y).rfps);
    assert(merge(merge(x, y), y).rfp_snapshots =~= merge(x, y).rfp_snapshots);
}

proof fn lemma_merge_empty(x: StoreState)
    ensures
        merge(x, empty_view()) == x,
{
    assert(merge(x, empty_view()).proposals =~= x.proposals);
    assert(merge(x, empty_view()).proposal_snapshots =~= x.proposal_snapshots);
    assert(merge(x, empty_view()).rfps =~= x.rfps);
    assert(merge(x, empty_view()).rfp_snapshots =~= x.rfp_snapshots);
}

proof fn lemma_history_merge(x: StoreState, y: StoreState, t: int)
    ensures
        history_before(merge(x, y), t) == merge(history_before(x, t), history_before(y, t)),
{
    let l = history_before(merge(x, y), t);
    let r = merge(history_before(x, t), history_before(y, t));
    assert(l.proposals =~= r.proposals);
    assert(l.proposal_snapshots =~= r.proposal_snapshots);
    assert(l.rfps =~= r.rfps);
    assert(l.rfp_snapshots =~= r.rfp_snapshots);
}

/// Every snapshot a transaction writes is dated at its own chain time.
proof fn lemma_delta_dated(tx: Transaction, input: ContractInput, t: i64, hist: StoreState)
    ensures
        forall|k: (int, int)| #[trigger]
            tx_delta(tx, input, t, hist).proposal_snapshots.contains_key(k) ==> k.1 == t,
        forall|k: (int, int)| #[trigger]
            tx_delta(tx, input, t, hist).rfp_snapshots.contains_key(k) ==> k.1 == t,
{
    let h = tx.block.block_height;
    match input {
        ContractInput::ProposalEdit { proposal_id: Some(pid), at_block: Some(p) } => {
            let snap = crate::contract::proposal_snapshot_of(p, t, h);
            let old_link = crate::reconcile::prior_link(hist, pid);
            let w = link_writes(hist, pid, snap.linked_rfp, h, t);
            let wa = link_write(
                hist.rfp_snapshots,
                snap.linked_rfp,
                pid,
                crate::links::LinkChange::Add,
                h,
                t,
            );
            let wr = link_write(
                hist.rfp_snapshots,
                old_link,
                pid,
                crate::links::LinkChange::Remove,
                h,
                t,
            );
            assert forall|k: (int, int)| #[trigger] wa.contains_key(k) implies k.1 == t by {}
            assert forall|k: (int, int)| #[trigger] wr.contains_key(k) implies k.1 == t by {}
            assert forall|k: (int, int)| #[trigger] w.contains_key(k) implies k.1 == t by {
                if snap.linked_rfp != old_link {
                    assert(wa.contains_key(k) || wr.contains_key(k));
                }
            }
        },
        _ => {},
    }
}

/// What a batch leaves in the store is `s` with the batch's writes over it.
proof fn lemma_batch_is_merge(s: StoreState, items: Seq<SyncItem>)
    requires
        apply_batch(s, items).1 is None,
    ensures
        apply_batch(s, items).0 == merge(s, batch_writes(s, items)),
    decreases items.len(),
{
    if items.len() == 0 {
        lemma_merge_empty(s);
    } else {
        let pre = items.drop_last();
        lemma_batch_is_merge(s, pre);
        let x = items.last();
        match plan_of(x.transaction, x.input) {
            Plan::Write(t) => {
                let prev = apply_batch(s, pre).0;
                lemma_merge_assoc(
                    s,
                    batch_writes(s, pre),
                    tx_delta(x.transaction, x.input, t, history_before(prev, t as int)),
                );
            },
            _ => {},
        }
    }
}

/// A batch that ends without error ended every prefix without error.
proof fn lemma_prefix_ok(s: StoreState, items: Seq<SyncItem>, k: int)
    requires
        0 <= k <= items.len(),
        apply_batch(s, items).1 is None,
    ensures
        apply_batch(s, items.subrange(0, k)).1 is None,
    decreases items.len() - k,
{
    if k < items.len() {
        assert(items.drop_last().subrange(0, k) =~= items.subrange(0, k));
        lemma_prefix_ok(s, items.drop_last(), k);
    } else {
        assert(items.subrange(0, k) =~= items);
    }
}

/// Writes of transactions dated at or after `t` add nothing before `t`.
proof fn lemma_writes_before(s: StoreState, items: Seq<SyncItem>, i: int, k: int, t: i64)
    requires
        0 <= i <= k <= items.len(),
        forall|j: int|
            i <= j < k && (#[trigger] write_time(items[j].transaction)) is Some ==> write_time(
                items[j].transaction,
            )->0 >= t,
    ensures
        history_before(batch_writes(s, items.subrange(0, k)), t as int) == history_before(
            batch_writes(s, items.subrange(0, i)),
            t as int,
        ),
    decreases k - i,
{
    if k > i {
        let pre = items.subrange(0, k - 1);
        assert(items.subrange(0, k).drop_last() =~= pre);
        lemma_writes_before(s, items, i, k - 1, t);
        let x = items[k - 1];
        assert(items.subrange(0, k).last() == x);
        match plan_of(x.transaction, x.input) {
            Plan::Write(tk) => {
                let prev = apply_batch(s, pre).0;
                let d = tx_delta(x.transaction, x.input, tk, history_before(prev, tk as int));
                lemma_delta_dated(x.transaction, x.input, tk, history_before(prev, tk as int));
                let a = batch_writes(s, pre);
                lemma_history_merge(a, d, t as int);
                assert(history_before(d, t as int).proposal_snapshots =~= Map::empty());
                assert(history_before(d, t as int).rfp_snapshots =~= Map::empty());
                assert(history_before(d, t as int) == empty_view());
                lemma_merge_empty(history_before(a, t as int));
            },
            _ => {},
        }
    }
}

/// Replaying the first `i` transactions over the result of the whole batch
/// gives that result with the first `i` transactions' writes over it again.
proof fn lemma_replay_prefix(s: StoreState, items: Seq<SyncItem>, i: int)
    requires
        0 <= i <= items.len(),
        times_sorted(items),
        apply_batch(s, items).1 is None,
    ensures
        apply_batch(apply_batch(s, items).0, items.subrange(0, i)).1 is None,
        apply_batch(apply_batch(s, items).0, items.subrange(0, i)).0 == merge(
            apply_batch(s, items).0,
            batch_writes(s, items.subrange(0, i)),
        ),
    decreases i,
{
    let f = apply_batch(s, items).0;
    let n = items.len() as int;
    if i == 0 {
        assert(items.subrange(0, 0) =~= Seq::<SyncItem>::empty());
        lemma_merge_empty(f);
    } else {
        lemma_replay_prefix(s, items, i - 1);
        let pre = items.subrange(0, i - 1);
        let cur = items.subrange(0, i);
        assert(cur.drop_last() =~= pre);
        let x = items[i - 1];
        assert(cur.last() == x);
        let r_prev = apply_batch(f, pre).0;
        let a_prev = batch_writes(s, pre);
        lemma_prefix_ok(s, items, i);
        lemma_prefix_ok(s, items, i - 1);
        match plan_of(x.transaction, x.input) {
            Plan::Write(t) => {
                let s_prev = apply_batch(s, pre).0;
                lemma_batch_is_merge(s, pre);
                lemma_batch_is_merge(s, items);
                assert(items.subrange(0, n) =~= items);
                // The writes of the whole batch add nothing before `t` beyond
                // those of the transactions before this one.
                assert forall|j: int|
                    i - 1 <= j < n && (#[trigger] write_time(items[j].transaction)) is Some implies write_time(
                    items[j].transaction,
                )->0 >= t by {
                    if j > i - 1 {
                        assert(write_time(items[i - 1].transaction) is Some);
                    }
                }
                lemma_writes_before(s, items, i - 1, n, t);
                let a_all = batch_writes(s, items);
                // history seen in the replay
                lemma_history_merge(f, a_prev, t as int);
                lemma_history_merge(s, a_all, t as int);
                lemma_history_merge(s, a_prev, t as int);
                lemma_merge_twice(history_before(s, t as int), history_before(a_prev, t as int));
                assert(history_before(r_prev, t as int) == history_before(s_prev, t as int));
                let d = tx_delta(x.transaction, x.input, t, history_before(s_prev, t as int));
                lemma_merge_assoc(f, a_prev, d);
            },
            Plan::Fail => {
                assert(apply_batch(s, cur).1 is Some);
            },
            Plan::Skip => {},
        }
    }
}

/// Idempotent replay: processing a batch again over the store it produced
/// changes nothing, when the batch succeeded and its transactions come in
/// ascending chain time with the same contract reads.
pub proof fn lemma_idempotent_replay(s: StoreState, items: Seq<SyncItem>)
    requires
        times_sorted(items),
        apply_batch(s, items).1 is None,
    ensures
        apply_batch(apply_batch(s, items).0, items) == apply_batch(s, items),
{
    let n = items.len() as int;
    lemma_replay_prefix(s, items, n);
    assert(items.subrange(0, n) =~= items);
    lemma_batch_is_merge(s, items);
    lemma_merge_twice(s, batch_writes(s, items));
}

/// Monotonic cursor: a successful pass never moves the watermark back.
pub proof fn lemma_cursor_monotonic(c: CursorView, items: Seq<SyncItem>, next_cursor: Seq<char>)
    ensures
        advanced(c, last_transaction(items), next_cursor).last_timestamp >= c.last_timestamp,
{
}

/// Fallback on a failed read during bootstrap: the snapshot written is the
/// normalization of the body embedded in the creation callback.
pub proof fn lemma_bootstrap_fallback(s: StoreState, tx: Transaction, embedded: Proposal)
    requires
        tx_route(tx) == Route::ProposalCallback,
        tx_time(tx) is Some,
    ensures
        ({
            let t = tx_time(tx)->0;
            let (s2, err) = apply_item(
                s,
                tx,
                ContractInput::ProposalCallback { args: Some(embedded), current: None },
            );
            &&& err is None
            &&& s2.proposal_snapshots.contains_key((embedded.id as i32 as int, t as int))
            &&& s2.proposal_snapshots[(embedded.id as i32 as int, t as int)] == proposal_snapshot_of(
                embedded,
                t,
                tx.block.block_height,
            )
        }),
{
}

/// A failed contract read halts an edit: no row is written and the pass stops.
pub proof fn lemma_edit_failure_halts(s: StoreState, tx: Transaction, input: ContractInput)
    requires
        (tx_route(tx) == Route::ProposalEdit && input matches ContractInput::ProposalEdit {
            proposal_id: Some(_),
            at_block: None,
        }) || (tx_route(tx) == Route::RfpEdit && input matches ContractInput::RfpEdit {
            rfp_id: Some(_),
            at_block: None,
        }),
    ensures
        apply_item(s, tx, input) == (s, Some(SyncError::ContractReadFailed)),
{
}

/// A batch whose last transaction fails leaves what the transactions before
/// it wrote, and reports the failure (so the pass does not move the watermark).
pub proof fn lemma_failed_batch(s: StoreState, items: Seq<SyncItem>)
    requires
        items.len() > 0,
        apply_batch(s, items.drop_last()).1 is None,
        apply_item(
            apply_batch(s, items.drop_last()).0,
            items.last().transaction,
            items.last().input,
        ).1 is Some,
    ensures
        apply_batch(s, items).0 == apply_batch(s, items.drop_last()).0,
        apply_batch(s, items).1 is Some,
{
}

/// Unknown method skip: a transaction whose method the dispatch table does
/// not route leaves the store unchanged and does not fail the pass.
pub proof fn lemma_unknown_method_skip(s: StoreState, tx: Transaction, input: ContractInput)
    requires
        first_action(tx) matches Some(a) && a.method matches Some(m) && route_of(m@)
            == Route::Unhandled,
    ensures
        apply_item(s, tx, input) == (s, None::<SyncError>),
{
}

proof fn lemma_latest_is<V>(m: Map<(int, int), V>, id: int, ts: int)
    requires
        m.contains_key((id, ts)),
        forall|t2: int| #[trigger] m.contains_key((id, t2)) ==> t2 <= ts,
    ensures
        latest(m, id) == Some(m[(id, ts)]),
{
    assert(is_latest_ts(m, id, ts));
    let c = choose|x: int| is_latest_ts(m, id, x);
    assert(is_latest_ts(m, id, c));
    assert(c <= ts && ts <= c);
}

/// The input of an edit of proposal `pid` whose read at the edit's block gave `p`.
pub open spec fn edit_input(pid: i32, p: Proposal) -> ContractInput {
    ContractInput::ProposalEdit { proposal_id: Some(pid), at_block: Some(p) }
}

/// Bidirectional link consistency: when a proposal with no link is edited to
/// link RFP `r`, the RFP's latest snapshot lists it; when it is edited again to
/// no link, the RFP's latest snapshot no longer does. Both edits read the
/// proposal itself, come in ascending chain time after every snapshot of the
/// two entities, and the RFP has a snapshot before the first edit.
pub proof fn lemma_link_round_trip(
    s: StoreState,
    tx1: Transaction,
    p1: Proposal,
    tx2: Transaction,
    p2: Proposal,
    pid: i32,
    r: u32,
)
    requires
        tx_route(tx1) == Route::ProposalEdit,
        tx_route(tx2) == Route::ProposalEdit,
        tx_time(tx1) is Some,
        tx_time(tx2) is Some,
        tx_time(tx1)->0 < tx_time(tx2)->0,
        p1.id as i32 == pid,
        p2.id as i32 == pid,
        p1.snapshot.body.fields().linked_rfp == Some(r),
        p2.snapshot.body.fields().linked_rfp is None,
        forall|t: int| #[trigger]
            s.proposal_snapshots.contains_key((pid as int, t)) ==> t < tx_time(tx1)->0,
        forall|t: int| #[trigger]
            s.rfp_snapshots.contains_key((r as i32 as int, t)) ==> t < tx_time(tx1)->0,
        latest(before(s.rfp_snapshots, tx_time(tx1)->0 as int), r as i32 as int) is Some,
        prior_link(history_before(s, tx_time(tx1)->0 as int), pid) is None,
    ensures
        ({
            let s1 = apply_item(s, tx1, edit_input(pid, p1)).0;
            let s2 = apply_item(s1, tx2, edit_input(pid, p2)).0;
            &&& latest(s1.rfp_snapshots, r as i32 as int) matches Some(v) && linked_ids(v).contains(
                pid,
            )
            &&& latest(s2.rfp_snapshots, r as i32 as int) matches Some(v) && !linked_ids(v).contains(
                pid,
            )
        }),
{
    let ri = r as i32;
    let t1 = tx_time(tx1)->0;
    let t2 = tx_time(tx2)->0;
    let h1 = tx1.block.block_height;
    let h2 = tx2.block.block_height;
    // First edit: the link appears.
    let hist1 = history_before(s, t1 as int);
    let snap1 = proposal_snapshot_of(p1, t1, h1);
    assert(snap1.linked_rfp == Some(ri));
    let b1 = latest(hist1.rfp_snapshots, ri as int);
    let s1 = apply_item(s, tx1, edit_input(pid, p1)).0;
    assert(s1.rfp_snapshots.contains_key((ri as int, t1 as int)));
    assert forall|t: int| #[trigger] s1.rfp_snapshots.contains_key((ri as int, t)) implies t
        <= t1 by {}
    lemma_latest_is(s1.rfp_snapshots, ri as int, t1 as int);
    let v1 = s1.rfp_snapshots[(ri as int, t1 as int)];
    assert(linked_ids(v1) == with_linked(linked_ids(b1->0), pid));
    assert(with_linked(linked_ids(b1->0), pid).contains(pid)) by {
        let ids = linked_ids(b1->0);
        if !ids.contains(pid) {
            assert(ids.push(pid)[ids.len() as int] == pid);
        }
    }
    // Second edit: the link goes.
    let s2 = apply_item(s1, tx2, edit_input(pid, p2)).0;
    let hist2 = history_before(s1, t2 as int);
    assert(s1.proposal_snapshots.contains_key((pid as int, t1 as int)));
    assert forall|t: int| #[trigger]
        hist2.proposal_snapshots.contains_key((pid as int, t)) implies t <= t1 by {}
    lemma_latest_is(hist2.proposal_snapshots, pid as int, t1 as int);
    assert(prior_link(hist2, pid) == Some(ri));
    assert forall|t: int| #[trigger]
        hist2.rfp_snapshots.contains_key((ri as int, t)) implies t <= t1 by {}
    lemma_latest_is(hist2.rfp_snapshots, ri as int, t1 as int);
    assert(s2.rfp_snapshots.contains_key((ri as int, t2 as int)));
    assert forall|t: int| #[trigger] s2.rfp_snapshots.contains_key((ri as int, t)) implies t
        <= t2 by {}
    lemma_latest_is(s2.rfp_snapshots, ri as int, t2 as int);
    let v2 = s2.rfp_snapshots[(ri as int, t2 as int)];
    assert(linked_ids(v2) == without_linked(linked_ids(v1), pid));
    lemma_without_linked(linked_ids(v1), pid);
}

} // verus!
