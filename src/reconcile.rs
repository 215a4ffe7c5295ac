use vstd::prelude::*;
use crate::contract::{proposal_snapshot_of, rfp_snapshot_of, Proposal, RFP};
use crate::dispatch::{route_transaction, tx_route, Route};
use crate::links::{relink_snapshot, relinked, LinkChange};
use crate::records::{EntityView, ProposalSnapshotRecord, RfpSnapshotRecord, RfpSnapshotView};
use crate::store::{StoreState, DB};
use crate::table::{before, latest};
use crate::text::{parse_i64, parsed_i64};
use crate::transaction::Transaction;

verus! {

/// Why a sync pass stopped.
#[derive(Debug, Clone, Copy, PartialEq, Eq, Structural)]
pub enum SyncError {
    /// The contract read that an edit needs failed; no fallback body exists.
    ContractReadFailed,
    /// The transaction's arguments or timestamp did not decode; the
    /// transaction is skipped and the pass goes on.
    MalformedArgs,
}

/// The arguments of a proposal creation callback.
pub struct SetBlockHeightCallbackArgs {
    pub proposal: Proposal,
}

/// The arguments of an RFP creation callback.
pub struct SetRfpBlockHeightCallbackArgs {
    pub rfp: RFP,
}

/// The part of a proposal edit's arguments that is trusted: the id.
pub struct PartialEditProposalArgs {
    pub id: i32,
}

/// The part of an RFP edit's arguments that is trusted: the id.
pub struct PartialEditRFPArgs {
    pub id: i32,
}

/// The id and timeline of an RFP timeline edit.
pub struct PartialEditRFPTimelineArgs {
    pub id: i32,
    pub timeline: String,
}

/// What the outside world supplied for one transaction: its decoded arguments
/// (none where they did not decode) and the result of the contract read it
/// needs (none where the read failed).
pub enum ContractInput {
    Nothing,
    ProposalCallback { args: Option<Proposal>, current: Option<Proposal> },
    ProposalEdit { proposal_id: Option<i32>, at_block: Option<Proposal> },
    RfpCallback { args: Option<RFP>, current: Option<RFP> },
    RfpEdit { rfp_id: Option<i32>, at_block: Option<RFP> },
}

/// One transaction of a batch with what was supplied for it.
pub struct SyncItem {
    pub transaction: Transaction,
    pub input: ContractInput,
}

/// What processing a transaction comes to, whatever the store holds.
#[derive(Debug, Clone, Copy, PartialEq, Eq, Structural)]
pub enum Plan {
    Skip,
    Fail,
    Write(i64),
}

/// The chain time of a transaction, where its timestamp text is a numeral.
pub open spec fn tx_time(tx: Transaction) -> Option<i64> {
    parsed_i64(tx.block_timestamp@)
}

/// The chain time at which a transaction's snapshots are dated: the receipt's
/// block for RFP methods, else the transaction's own timestamp.
pub open spec fn write_time(tx: Transaction) -> Option<i64> {
    match tx_route(tx) {
        Route::RfpCallback => Some(tx.receipt_block.block_timestamp),
        Route::RfpEdit => Some(tx.receipt_block.block_timestamp),
        _ => tx_time(tx),
    }
}

/// Skip unhandled, failed or malformed transactions; fail an edit whose
/// contract read failed; else write at the transaction's write time.
pub open spec fn plan_of(tx: Transaction, input: ContractInput) -> Plan {
    let w = match write_time(tx) {
        Some(t) => Plan::Write(t),
        None => Plan::Skip,
    };
    match tx_route(tx) {
        Route::ProposalCallback => match input {
            ContractInput::ProposalCallback { args: Some(_), current: _ } => w,
            _ => Plan::Skip,
        },
        Route::ProposalEdit => match input {
            ContractInput::ProposalEdit { proposal_id: Some(_), at_block: Some(_) } => w,
            ContractInput::ProposalEdit { proposal_id: Some(_), at_block: None } => Plan::Fail,
            _ => Plan::Skip,
        },
        Route::RfpCallback => match input {
            ContractInput::RfpCallback { args: Some(_), current: _ } => w,
            _ => Plan::Skip,
        },
        Route::RfpEdit => match input {
            ContractInput::RfpEdit { rfp_id: Some(_), at_block: Some(_) } => w,
            ContractInput::RfpEdit { rfp_id: Some(_), at_block: None } => Plan::Fail,
            _ => Plan::Skip,
        },
        Route::Unhandled => Plan::Skip,
    }
}

/// A store with nothing in it.
pub open spec fn empty_view() -> StoreState {
    StoreState {
        proposals: Map::empty(),
        proposal_snapshots: Map::empty(),
        rfps: Map::empty(),
        rfp_snapshots: Map::empty(),
    }
}

/// `s` with every row of `d` written over it.
pub open spec fn merge(s: StoreState, d: StoreState) -> StoreState {
    StoreState {
        proposals: s.proposals.union_prefer_right(d.proposals),
        proposal_snapshots: s.proposal_snapshots.union_prefer_right(d.proposal_snapshots),
        rfps: s.rfps.union_prefer_right(d.rfps),
        rfp_snapshots: s.rfp_snapshots.union_prefer_right(d.rfp_snapshots),
    }
}

/// The snapshots of `s` dated strictly before `t`: all that a transaction at
/// chain time `t` reads.
pub open spec fn history_before(s: StoreState, t: int) -> StoreState {
    StoreState {
        proposals: Map::empty(),
        proposal_snapshots: before(s.proposal_snapshots, t),
        rfps: Map::empty(),
        rfp_snapshots: before(s.rfp_snapshots, t),
    }
}

/// The RFP write of one link change: the target RFP's latest earlier snapshot,
/// relinked and dated at the edit; nothing without a target or such a snapshot.
pub open spec fn link_write(
    rfp_snapshots: Map<(int, int), RfpSnapshotView>,
    target: Option<i32>,
    proposal_id: i32,
    change: LinkChange,
    block_height: i64,
    ts: i64,
) -> Map<(int, int), RfpSnapshotView> {
    match target {
        Some(r) => match latest(rfp_snapshots, r as int) {
            Some(b) => map![(r as int, ts as int) => relinked(b, r, proposal_id, change, block_height, ts)],
            None => Map::empty(),
        },
        None => Map::empty(),
    }
}

/// The link a proposal had before chain time `t`, read from that history.
pub open spec fn prior_link(hist: StoreState, proposal_id: i32) -> Option<i32> {
    match latest(hist.proposal_snapshots, proposal_id as int) {
        Some(v) => v.linked_rfp,
        None => None,
    }
}

/// The RFP writes that keep `linked_proposals` in step with a proposal whose
/// link becomes `new_link`: none if the link is unchanged, else the proposal
/// is added to the new RFP and removed from the old one.
pub open spec fn link_writes(
    hist: StoreState,
    proposal_id: i32,
    new_link: Option<i32>,
    block_height: i64,
    ts: i64,
) -> Map<(int, int), RfpSnapshotView> {
    let old_link = prior_link(hist, proposal_id);
    if new_link == old_link {
        Map::empty()
    } else {
        link_write(
            hist.rfp_snapshots,
            new_link,
            proposal_id,
            LinkChange::Add,
            block_height,
            ts,
        ).union_prefer_right(
            link_write(hist.rfp_snapshots, old_link, proposal_id, LinkChange::Remove, block_height, ts),
        )
    }
}

/// The rows a transaction writes at chain time `t`, given the history before `t`.
pub open spec fn tx_delta(tx: Transaction, input: ContractInput, t: i64, hist: StoreState) -> StoreState {
    let h = tx.block.block_height;
    match input {
        ContractInput::ProposalCallback { args: Some(a), current } => {
            let body = match current {
                Some(c) => c,
                None => a,
            };
            let snap = proposal_snapshot_of(body, t, h);
            StoreState {
                proposals: map![(a.id as i32 as int, 0int) => EntityView { id: a.id as i32, author_id: a.author_id@ }],
                proposal_snapshots: map![(snap.proposal_id as int, t as int) => snap],
                ..empty_view()
            }
        },
        ContractInput::ProposalEdit { proposal_id: Some(pid), at_block: Some(p) } => {
            let snap = proposal_snapshot_of(p, t, h);
            StoreState {
                proposal_snapshots: map![(snap.proposal_id as int, t as int) => snap],
                rfp_snapshots: link_writes(hist, pid, snap.linked_rfp, h, t),
                ..empty_view()
            }
        },
        ContractInput::RfpCallback { args: Some(a), current } => {
            let body = match current {
                Some(c) => c,
                None => a,
            };
            let snap = rfp_snapshot_of(body, t, tx.receipt_block.block_height);
            StoreState {
                rfps: map![(a.id as i32 as int, 0int) => EntityView { id: a.id as i32, author_id: a.author_id@ }],
                rfp_snapshots: map![(snap.rfp_id as int, t as int) => snap],
                ..empty_view()
            }
        },
        ContractInput::RfpEdit { rfp_id: Some(_), at_block: Some(r) } => {
            let snap = rfp_snapshot_of(r, t, tx.receipt_block.block_height);
            StoreState { rfp_snapshots: map![(snap.rfp_id as int, t as int) => snap], ..empty_view() }
        },
        _ => empty_view(),
    }
}

/// Processing one transaction: the store after it and whether the pass goes on.
pub open spec fn apply_item(s: StoreState, tx: Transaction, input: ContractInput) -> (
    StoreState,
    Option<SyncError>,
) {
    match plan_of(tx, input) {
        Plan::Skip => (s, None),
        Plan::Fail => (s, Some(SyncError::ContractReadFailed)),
        Plan::Write(t) => (merge(s, tx_delta(tx, input, t, history_before(s, t as int))), None),
    }
}

/// The error a result carries, if any.
pub open spec fn error_of(r: Result<(), SyncError>) -> Option<SyncError> {
    match r {
        Ok(_) => None,
        Err(e) => Some(e),
    }
}

/// Processing a batch in order, stopping at the first error.
pub open spec fn apply_batch(s: StoreState, items: Seq<SyncItem>) -> (StoreState, Option<SyncError>)
    decreases items.len(),
{
    if items.len() == 0 {
        (s, None)
    } else {
        let (s1, r1) = apply_batch(s, items.drop_last());
        if r1 is Some {
            (s1, r1)
        } else {
            apply_item(s1, items.last().transaction, items.last().input)
        }
    }
}

proof fn lemma_before_insert_at<V>(m: Map<(int, int), V>, k: (int, int), v: V, t: int)
    requires
        k.1 >= t,
    ensures
        before(m.insert(k, v), t) == before(m, t),
{
    assert(before(m.insert(k, v), t) =~= before(m, t));
}

fn parse_time(tx: &Transaction) -> (r: Option<i64>)
    ensures
        r == tx_time(*tx),
{
    parse_i64(tx.block_timestamp.as_str())
}

/// Bootstrap a proposal from its creation callback: record the entity, then
/// snapshot the current contract state, or the embedded body where the read failed.
pub fn handle_set_block_height_callback(
    db: &mut DB,
    transaction: &Transaction,
    args: SetBlockHeightCallbackArgs,
    current: Option<Proposal>,
)
    requires
        old(db).wf(),
    ensures
        final(db).wf(),
        match tx_time(*transaction) {
            None => final(db)@ == old(db)@,
            Some(t) => final(db)@ == merge(
                old(db)@,
                tx_delta(
                    *transaction,
                    ContractInput::ProposalCallback { args: Some(args.proposal), current },
                    t,
                    history_before(old(db)@, t as int),
                ),
            ),
        },
{
    let t = match parse_time(transaction) {
        Some(t) => t,
        None => return ,
    };
    let ghost s = db@;
    let ghost a = args.proposal;
    let ghost cur = current;
    let SetBlockHeightCallbackArgs { proposal } = args;
    db.upsert_proposal(proposal.id, proposal.author_id.clone());
    let body = match current {
        Some(c) => c,
        None => proposal,
    };
    let snapshot = ProposalSnapshotRecord::from_contract_proposal(
        body,
        transaction.block_timestamp.clone(),
        transaction.block.block_height,
    );
    db.insert_proposal_snapshot(snapshot);
    proof {
        let d = tx_delta(
            *transaction,
            ContractInput::ProposalCallback { args: Some(a), current: cur },
            t,
            history_before(s, t as int),
        );
        assert(db@.proposals =~= s.proposals.union_prefer_right(d.proposals));
        assert(db@.proposal_snapshots =~= s.proposal_snapshots.union_prefer_right(
            d.proposal_snapshots,
        ));
        assert(db@.rfps =~= s.rfps.union_prefer_right(d.rfps));
        assert(db@.rfp_snapshots =~= s.rfp_snapshots.union_prefer_right(d.rfp_snapshots));
    }
}

/// Bootstrap an RFP from its creation callback: record the entity, then
/// snapshot the current contract state, or the embedded body where the read
/// failed, dated at the receipt's block. A failed receipt writes nothing.
pub fn handle_set_rfp_block_height_callback(
    db: &mut DB,
    transaction: &Transaction,
    args: SetRfpBlockHeightCallbackArgs,
    current: Option<RFP>,
)
    requires
        old(db).wf(),
    ensures
        final(db).wf(),
        !transaction.receipt_outcome.status ==> final(db)@ == old(db)@,
        transaction.receipt_outcome.status ==> final(db)@ == merge(
            old(db)@,
            tx_delta(
                *transaction,
                ContractInput::RfpCallback { args: Some(args.rfp), current },
                transaction.receipt_block.block_timestamp,
                history_before(old(db)@, transaction.receipt_block.block_timestamp as int),
            ),
        ),
{
    if !transaction.receipt_outcome.status {
        return ;
    }
    let t = transaction.receipt_block.block_timestamp;
    let ghost s = db@;
    let ghost a = args.rfp;
    let ghost cur = current;
    let SetRfpBlockHeightCallbackArgs { rfp } = args;
    db.upsert_rfp(rfp.id, rfp.author_id.clone());
    let body = match current {
        Some(c) => c,
        None => rfp,
    };
    let snapshot = RfpSnapshotRecord::from_contract_rfp(
        body,
        t,
        transaction.receipt_block.block_height,
    );
    db.insert_rfp_snapshot(snapshot);
    proof {
        let d = tx_delta(
            *transaction,
            ContractInput::RfpCallback { args: Some(a), current: cur },
            t,
            history_before(s, t as int),
        );
        assert(db@.proposals =~= s.proposals.union_prefer_right(d.proposals));
        assert(db@.proposal_snapshots =~= s.proposal_snapshots.union_prefer_right(
            d.proposal_snapshots,
        ));
        assert(db@.rfps =~= s.rfps.union_prefer_right(d.rfps));
        assert(db@.rfp_snapshots =~= s.rfp_snapshots.union_prefer_right(d.rfp_snapshots));
    }
}

/// Apply one link change to the target RFP's latest snapshot before `ts`, if it has one.
fn modify_snapshot_linked_proposal(
    db: &mut DB,
    rfp_id: i32,
    proposal_id: i32,
    block_height: i64,
    ts: i64,
    change: LinkChange,
)
    requires
        old(db).wf(),
    ensures
        final(db).wf(),
        final(db)@ == (StoreState {
            rfp_snapshots: old(db)@.rfp_snapshots.union_prefer_right(
                link_write(
                    before(old(db)@.rfp_snapshots, ts as int),
                    Some(rfp_id),
                    proposal_id,
                    change,
                    block_height,
                    ts,
                ),
            ),
            ..old(db)@
        }),
{
    let ghost s = db@;
    let ghost ch = change;
    match db.get_rfp_snapshot_before(rfp_id, ts) {
        Some(base) => {
            let snapshot = relink_snapshot(base, rfp_id, proposal_id, change, block_height, ts);
            db.insert_rfp_snapshot(snapshot);
            proof {
                let w = link_write(
                    before(s.rfp_snapshots, ts as int),
                    Some(rfp_id),
                    proposal_id,
                    ch,
                    block_height,
                    ts,
                );
                assert(db@.rfp_snapshots =~= s.rfp_snapshots.union_prefer_right(w));
            }
        },
        None => {
            proof {
                assert(s.rfp_snapshots =~= s.rfp_snapshots.union_prefer_right(Map::empty()));
            }
        },
    }
}

/// Keep RFP link lists in step with a proposal edit at chain time `ts`: compare
/// the new link with the one of the proposal's latest earlier snapshot and, if
/// it changed, add the proposal to the new RFP and remove it from the old one.
pub fn update_linked_proposals(
    db: &mut DB,
    proposal_id: i32,
    new_linked_rfp: Option<i32>,
    block_height: i64,
    ts: i64,
)
    requires
        old(db).wf(),
    ensures
        final(db).wf(),
        final(db)@ == (StoreState {
            rfp_snapshots: old(db)@.rfp_snapshots.union_prefer_right(
                link_writes(
                    history_before(old(db)@, ts as int),
                    proposal_id,
                    new_linked_rfp,
                    block_height,
                    ts,
                ),
            ),
            ..old(db)@
        }),
{
    let ghost s = db@;
    let ghost hist = history_before(s, ts as int);
    let prior = db.get_proposal_snapshot_before(proposal_id, ts);
    let old_link = match &prior {
        Some(p) => p.linked_rfp,
        None => None,
    };
    assert(old_link == prior_link(hist, proposal_id));
    if new_linked_rfp == old_link {
        assert(s.rfp_snapshots =~= s.rfp_snapshots.union_prefer_right(Map::empty()));
        return ;
    }
    let ghost w_add = link_write(
        hist.rfp_snapshots,
        new_linked_rfp,
        proposal_id,
        LinkChange::Add,
        block_height,
        ts,
    );
    let ghost w_remove = link_write(
        hist.rfp_snapshots,
        old_link,
        proposal_id,
        LinkChange::Remove,
        block_height,
        ts,
    );
    if let Some(r) = new_linked_rfp {
        modify_snapshot_linked_proposal(db, r, proposal_id, block_height, ts, LinkChange::Add);
    }
    assert(db@.rfp_snapshots =~= s.rfp_snapshots.union_prefer_right(w_add));
    assert(before(db@.rfp_snapshots, ts as int) =~= hist.rfp_snapshots);
    let ghost s1 = db@;
    if let Some(r) = old_link {
        modify_snapshot_linked_proposal(db, r, proposal_id, block_height, ts, LinkChange::Remove);
    }
    assert(db@.rfp_snapshots =~= s1.rfp_snapshots.union_prefer_right(w_remove));
    assert(db@.rfp_snapshots =~= s.rfp_snapshots.union_prefer_right(
        w_add.union_prefer_right(w_remove),
    ));
    assert(db@ == (StoreState {
        rfp_snapshots: s.rfp_snapshots.union_prefer_right(
            link_writes(hist, proposal_id, new_linked_rfp, block_height, ts),
        ),
        ..s
    }));
}

/// How far past a receipt's block a proposal read is pinned, so that a read
/// node lagging behind the write still sees it.
pub const BLOCK_HEIGHT_OFFSET: i64 = 10;

/// The block at which an edited proposal is read: the receipt's block plus
/// `BLOCK_HEIGHT_OFFSET`, held at `i64::MAX`.
pub fn proposal_read_height(transaction: &Transaction) -> (r: i64)
    ensures
        r == (if transaction.receipt_block.block_height <= i64::MAX - BLOCK_HEIGHT_OFFSET {
            transaction.receipt_block.block_height + BLOCK_HEIGHT_OFFSET
        } else {
            i64::MAX as int
        }),
{
    if transaction.receipt_block.block_height <= i64::MAX - BLOCK_HEIGHT_OFFSET {
        transaction.receipt_block.block_height + BLOCK_HEIGHT_OFFSET
    } else {
        i64::MAX
    }
}

/// The block at which an edited RFP is read: the receipt's block.
pub fn rfp_read_height(transaction: &Transaction) -> (r: i64)
    ensures
        r == transaction.receipt_block.block_height,
{
    transaction.receipt_block.block_height
}

/// Snapshot an edited proposal from the contract state read at the edit's
/// block, and keep RFP link lists in step. Without a decoded id, or with an
/// unreadable timestamp, the transaction is malformed; without the read the
/// edit fails. Either way nothing is written.
pub fn handle_edit_proposal(
    db: &mut DB,
    transaction: &Transaction,
    proposal_id: Option<i32>,
    at_block: Option<Proposal>,
) -> (r: Result<(), SyncError>)
    requires
        old(db).wf(),
    ensures
        final(db).wf(),
        match (proposal_id, at_block, tx_time(*transaction)) {
            (None, _, _) => r == Err::<(), SyncError>(SyncError::MalformedArgs) && final(db)@ == old(db)@,
            (Some(_), None, _) => r == Err::<(), SyncError>(SyncError::ContractReadFailed)
                && final(db)@ == old(db)@,
            (Some(_), Some(_), None) => r == Err::<(), SyncError>(SyncError::MalformedArgs)
                && final(db)@ == old(db)@,
            (Some(_), Some(_), Some(t)) => r is Ok && final(db)@ == merge(
                old(db)@,
                tx_delta(
                    *transaction,
                    ContractInput::ProposalEdit { proposal_id, at_block },
                    t,
                    history_before(old(db)@, t as int),
                ),
            ),
        },
{
    let ghost input = ContractInput::ProposalEdit { proposal_id, at_block };
    let pid = match proposal_id {
        Some(p) => p,
        None => return Err(SyncError::MalformedArgs),
    };
    let proposal = match at_block {
        Some(p) => p,
        None => return Err(SyncError::ContractReadFailed),
    };
    let t = match parse_time(transaction) {
        Some(t) => t,
        None => return Err(SyncError::MalformedArgs),
    };
    let ghost s = db@;
    let h = transaction.block.block_height;
    let snapshot = ProposalSnapshotRecord::from_contract_proposal(
        proposal,
        transaction.block_timestamp.clone(),
        h,
    );
    let new_link = snapshot.linked_rfp;
    let ghost snap = snapshot@;
    db.insert_proposal_snapshot(snapshot);
    proof {
        lemma_before_insert_at(s.proposal_snapshots, (snap.proposal_id as int, t as int), snap, t as int);
        assert(history_before(db@, t as int) =~= history_before(s, t as int));
    }
    update_linked_proposals(db, pid, new_link, h, t);
    proof {
        let d = tx_delta(*transaction, input, t, history_before(s, t as int));
        assert(db@.proposals =~= s.proposals.union_prefer_right(d.proposals));
        assert(db@.proposal_snapshots =~= s.proposal_snapshots.union_prefer_right(
            d.proposal_snapshots,
        ));
        assert(db@.rfps =~= s.rfps.union_prefer_right(d.rfps));
        assert(db@.rfp_snapshots =~= s.rfp_snapshots.union_prefer_right(d.rfp_snapshots));
    }
    Ok(())
}

/// Snapshot an edited RFP from the contract state read at the edit's block,
/// dated at the receipt's block. Without a decoded id the transaction is
/// malformed; without the read the edit fails. Either way nothing is written.
pub fn handle_edit_rfp(
    db: &mut DB,
    transaction: &Transaction,
    rfp_id: Option<i32>,
    at_block: Option<RFP>,
) -> (r: Result<(), SyncError>)
    requires
        old(db).wf(),
    ensures
        final(db).wf(),
        match (rfp_id, at_block) {
            (None, _) => r == Err::<(), SyncError>(SyncError::MalformedArgs) && final(db)@ == old(db)@,
            (Some(_), None) => r == Err::<(), SyncError>(SyncError::ContractReadFailed) && final(db)@ == old(db)@,
            (Some(_), Some(_)) => r is Ok && final(db)@ == merge(
                old(db)@,
                tx_delta(
                    *transaction,
                    ContractInput::RfpEdit { rfp_id, at_block },
                    transaction.receipt_block.block_timestamp,
                    history_before(old(db)@, transaction.receipt_block.block_timestamp as int),
                ),
            ),
        },
{
    let ghost input = ContractInput::RfpEdit { rfp_id, at_block };
    if rfp_id.is_none() {
        return Err(SyncError::MalformedArgs);
    }
    let rfp = match at_block {
        Some(r) => r,
        None => return Err(SyncError::ContractReadFailed),
    };
    let ghost s = db@;
    let t = transaction.receipt_block.block_timestamp;
    let snapshot = RfpSnapshotRecord::from_contract_rfp(
        rfp,
        t,
        transaction.receipt_block.block_height,
    );
    db.insert_rfp_snapshot(snapshot);
    proof {
        let d = tx_delta(*transaction, input, t, history_before(s, t as int));
        assert(db@.proposals =~= s.proposals.union_prefer_right(d.proposals));
        assert(db@.proposal_snapshots =~= s.proposal_snapshots.union_prefer_right(
            d.proposal_snapshots,
        ));
        assert(db@.rfps =~= s.rfps.union_prefer_right(d.rfps));
        assert(db@.rfp_snapshots =~= s.rfp_snapshots.union_prefer_right(d.rfp_snapshots));
    }
    Ok(())
}

/// A malformed transaction is skipped: the pass goes on.
fn skip_malformed(r: Result<(), SyncError>) -> (out: Result<(), SyncError>)
    ensures
        out == (match r {
            Err(SyncError::MalformedArgs) => Ok(()),
            _ => r,
        }),
{
    match r {
        Err(SyncError::MalformedArgs) => Ok(()),
        _ => r,
    }
}

/// Dispatch one transaction to its handler: skip what the table does not
/// route, failed receipts and undecodable arguments; stop on a failed edit read.
pub fn process_transaction(db: &mut DB, transaction: &Transaction, input: ContractInput) -> (r:
    Result<(), SyncError>)
    requires
        old(db).wf(),
    ensures
        final(db).wf(),
        final(db)@ == apply_item(old(db)@, *transaction, input).0,
        error_of(r) == apply_item(old(db)@, *transaction, input).1,
{
    let ghost s = db@;
    let ghost inp = input;
    let route = route_transaction(transaction);
    let r = match route {
        Route::ProposalCallback => match input {
            ContractInput::ProposalCallback { args: Some(a), current } => {
                handle_set_block_height_callback(
                    db,
                    transaction,
                    SetBlockHeightCallbackArgs { proposal: a },
                    current,
                );
                Ok(())
            },
            _ => Ok(()),
        },
        Route::ProposalEdit => match input {
            ContractInput::ProposalEdit { proposal_id, at_block } => skip_malformed(
                handle_edit_proposal(db, transaction, proposal_id, at_block),
            ),
            _ => Ok(()),
        },
        Route::RfpCallback => match input {
            ContractInput::RfpCallback { args: Some(a), current } => {
                handle_set_rfp_block_height_callback(
                    db,
                    transaction,
                    SetRfpBlockHeightCallbackArgs { rfp: a },
                    current,
                );
                Ok(())
            },
            _ => Ok(()),
        },
        Route::RfpEdit => match input {
            ContractInput::RfpEdit { rfp_id, at_block } => skip_malformed(
                handle_edit_rfp(db, transaction, rfp_id, at_block),
            ),
            _ => Ok(()),
        },
        Route::Unhandled => Ok(()),
    };
    assert(error_of(r) == apply_item(s, *transaction, inp).1);
    r
}

proof fn lemma_batch_stops(s: StoreState, items: Seq<SyncItem>, k: int)
    requires
        0 <= k <= items.len(),
        apply_batch(s, items.subrange(0, k)).1 is Some,
    ensures
        apply_batch(s, items) == apply_batch(s, items.subrange(0, k)),
    decreases items.len() - k,
{
    if k < items.len() {
        assert(items.drop_last().subrange(0, k) =~= items.subrange(0, k));
        lemma_batch_stops(s, items.drop_last(), k);
        assert(items.drop_last().subrange(0, k) =~= items.subrange(0, k));
    } else {
        assert(items.subrange(0, k) =~= items);
    }
}

/// Process a batch in order; stop at the first failed edit, leaving what the
/// transactions before it wrote.
pub fn process(db: &mut DB, items: Vec<SyncItem>) -> (r: Result<(), SyncError>)
    requires
        old(db).wf(),
    ensures
        final(db).wf(),
        final(db)@ == apply_batch(old(db)@, items@).0,
        error_of(r) == apply_batch(old(db)@, items@).1,
{
    let ghost s0 = db@;
    let ghost all = items@;
    let mut rest = items;
    let ghost mut i: int = 0;
    assert(all.subrange(0, 0) =~= Seq::<SyncItem>::empty());
    while rest.len() > 0
        invariant
            db.wf(),
            all == items@,
            s0 == old(db)@,
            0 <= i <= all.len(),
            rest@ == all.subrange(i, all.len() as int),
            apply_batch(s0, all.subrange(0, i)) == (db@, None::<SyncError>),
        decreases rest@.len(),
    {
        let item = rest.remove(0);
        let ghost prev = db@;
        proof {
            assert(item == all[i]);
            assert(all.subrange(0, i + 1).drop_last() =~= all.subrange(0, i));
            assert(all.subrange(0, i + 1).last() == all[i]);
        }
        let SyncItem { transaction, input } = item;
        let res = process_transaction(db, &transaction, input);
        proof {
            assert(apply_batch(s0, all.subrange(0, i + 1)) == apply_item(prev, transaction, input));
            assert(apply_batch(s0, all.subrange(0, i + 1)).0 == db@);
            assert(apply_batch(s0, all.subrange(0, i + 1)).1 == error_of(res));
            i = i + 1;
            assert(rest@ =~= all.subrange(i, all.len() as int));
        }
        if let Err(e) = res {
            proof {
                assert(apply_batch(s0, all.subrange(0, i)).1 is Some);
                lemma_batch_stops(s0, all, i);
            }
            return Err(e);
        }
    }
    assert(all.subrange(0, i) =~= all);
    Ok(())
}

} // verus!
