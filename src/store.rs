use vstd::prelude::*;
use crate::records::{
    EntityView, ProposalRecord, ProposalSnapshotRecord, ProposalSnapshotView, RfpRecord,
    RfpSnapshotRecord, RfpSnapshotView,
};
use crate::listing::{
    newest_first, sort_newest_first, list_latest, lists, order_of, page_end, page_start, paginate, parse_order, proposal_filter_of,
    rfp_filter_of, lower_of, ListFilter,
};
use crate::records::{GetProposalFilters, GetRfpFilters};
use crate::table::{keys_unique, before, entity_filter, latest, row_view_of, rows_view, Row, Table};

verus! {

/// The store's contents: entities keyed by `(id, 0)`, snapshots by `(id, ts)`.
pub struct StoreState {
    pub proposals: Map<(int, int), EntityView>,
    pub proposal_snapshots: Map<(int, int), ProposalSnapshotView>,
    pub rfps: Map<(int, int), EntityView>,
    pub rfp_snapshots: Map<(int, int), RfpSnapshotView>,
}

proof fn lemma_rows_of_entity<R: Row>(rows: Seq<R>, m: Map<(int, int), R::V>, id: int)
    requires
        keys_unique(rows),
        rows_view(rows) == m.restrict(entity_filter(id, true)),
    ensures
        forall|j: int| 0 <= j < rows.len() ==> (#[trigger] rows[j].row_key()).0 == id,
{
    assert forall|j: int| 0 <= j < rows.len() implies (#[trigger] rows[j].row_key()).0 == id by {
        crate::table::lemma_index_in_view(rows, j);
        assert(entity_filter(id, true).contains(rows[j].row_key()));
    }
}

/// The snapshot store: entities, their append-only versioned snapshots, and
/// upsert semantics keyed by `(entity id, timestamp)`.
pub struct DB {
    proposals: Table<ProposalRecord>,
    proposal_snapshots: Table<ProposalSnapshotRecord>,
    rfps: Table<RfpRecord>,
    rfp_snapshots: Table<RfpSnapshotRecord>,
}

impl View for DB {
    type V = StoreState;

    closed spec fn view(&self) -> StoreState {
        StoreState {
            proposals: self.proposals.view(),
            proposal_snapshots: self.proposal_snapshots.view(),
            rfps: self.rfps.view(),
            rfp_snapshots: self.rfp_snapshots.view(),
        }
    }
}

impl DB {
    pub closed spec fn wf(&self) -> bool {
        &&& self.proposals.wf()
        &&& self.proposal_snapshots.wf()
        &&& self.rfps.wf()
        &&& self.rfp_snapshots.wf()
    }

    /// An empty store.
    pub fn new() -> (db: Self)
        ensures
            db.wf(),
            db@.proposals == Map::<(int, int), EntityView>::empty(),
            db@.proposal_snapshots == Map::<(int, int), ProposalSnapshotView>::empty(),
            db@.rfps == Map::<(int, int), EntityView>::empty(),
            db@.rfp_snapshots == Map::<(int, int), RfpSnapshotView>::empty(),
    {
        DB {
            proposals: Table::new(),
            proposal_snapshots: Table::new(),
            rfps: Table::new(),
            rfp_snapshots: Table::new(),
        }
    }

    /// Record the author of a proposal, inserting it if it is new.
    pub fn upsert_proposal(&mut self, proposal_id: u32, author_id: String) -> (r: i32)
        requires
            old(self).wf(),
        ensures
            final(self).wf(),
            r == proposal_id as i32,
            final(self)@ == (StoreState {
                proposals: old(self)@.proposals.insert(
                    (r as int, 0),
                    EntityView { id: r, author_id: author_id@ },
                ),
                ..old(self)@
            }),
    {
        let id = proposal_id as i32;
        self.proposals.upsert(ProposalRecord { id, author_id });
        id
    }

    /// Record the author of an RFP, inserting it if it is new.
    pub fn upsert_rfp(&mut self, rfp_id: u32, author_id: String) -> (r: i32)
        requires
            old(self).wf(),
        ensures
            final(self).wf(),
            r == rfp_id as i32,
            final(self)@ == (StoreState {
                rfps: old(self)@.rfps.insert((r as int, 0), EntityView { id: r, author_id: author_id@ }),
                ..old(self)@
            }),
    {
        let id = rfp_id as i32;
        self.rfps.upsert(RfpRecord { id, author_id });
        id
    }

    /// Write a proposal snapshot, replacing the one with the same id and timestamp.
    pub fn insert_proposal_snapshot(&mut self, snapshot: ProposalSnapshotRecord)
        requires
            old(self).wf(),
        ensures
            final(self).wf(),
            final(self)@ == (StoreState {
                proposal_snapshots: old(self)@.proposal_snapshots.insert(
                    snapshot.row_key(),
                    snapshot@,
                ),
                ..old(self)@
            }),
    {
        self.proposal_snapshots.upsert(snapshot);
    }

    /// Write an RFP snapshot, replacing the one with the same id and timestamp.
    pub fn insert_rfp_snapshot(&mut self, snapshot: RfpSnapshotRecord)
        requires
            old(self).wf(),
        ensures
            final(self).wf(),
            final(self)@ == (StoreState {
                rfp_snapshots: old(self)@.rfp_snapshots.insert(snapshot.row_key(), snapshot@),
                ..old(self)@
            }),
    {
        self.rfp_snapshots.upsert(snapshot);
    }

    /// The latest snapshot of a proposal: the one with the greatest timestamp.
    pub fn get_latest_proposal_snapshot(&self, proposal_id: i32) -> (r: Option<
        ProposalSnapshotRecord,
    >)
        requires
            self.wf(),
        ensures
            crate::table::row_view_of(r) == latest(self@.proposal_snapshots, proposal_id as int),
    {
        self.proposal_snapshots.latest(proposal_id, None)
    }

    /// The latest snapshot of an RFP: the one with the greatest timestamp.
    pub fn get_latest_rfp_snapshot(&self, rfp_id: i32) -> (r: Option<RfpSnapshotRecord>)
        requires
            self.wf(),
        ensures
            crate::table::row_view_of(r) == latest(self@.rfp_snapshots, rfp_id as int),
    {
        self.rfp_snapshots.latest(rfp_id, None)
    }

    /// The latest snapshot of a proposal dated strictly before `ts`.
    pub fn get_proposal_snapshot_before(&self, proposal_id: i32, ts: i64) -> (r: Option<
        ProposalSnapshotRecord,
    >)
        requires
            self.wf(),
        ensures
            crate::table::row_view_of(r) == latest(
                before(self@.proposal_snapshots, ts as int),
                proposal_id as int,
            ),
    {
        self.proposal_snapshots.latest(proposal_id, Some(ts))
    }

    /// The latest snapshot of an RFP dated strictly before `ts`.
    pub fn get_rfp_snapshot_before(&self, rfp_id: i32, ts: i64) -> (r: Option<RfpSnapshotRecord>)
        requires
            self.wf(),
        ensures
            crate::table::row_view_of(r) == latest(
                before(self@.rfp_snapshots, ts as int),
                rfp_id as int,
            ),
    {
        self.rfp_snapshots.latest(rfp_id, Some(ts))
    }

    /// Every snapshot of a proposal, newest first.
    pub fn get_proposal_with_all_snapshots(&self, id: i32) -> (r: Vec<ProposalSnapshotRecord>)
        requires
            self.wf(),
        ensures
            rows_view(r@) == self@.proposal_snapshots.restrict(entity_filter(id as int, true)),
            newest_first(r@),
    {
        let rows = self.proposal_snapshots.rows_of(id);
        proof {
            lemma_rows_of_entity(rows@, self@.proposal_snapshots, id as int);
        }
        sort_newest_first(rows, id)
    }

    /// Every snapshot of an RFP, newest first.
    pub fn get_rfp_with_all_snapshots(&self, id: i32) -> (r: Vec<RfpSnapshotRecord>)
        requires
            self.wf(),
        ensures
            rows_view(r@) == self@.rfp_snapshots.restrict(entity_filter(id as int, true)),
            newest_first(r@),
    {
        let rows = self.rfp_snapshots.rows_of(id);
        proof {
            lemma_rows_of_entity(rows@, self@.rfp_snapshots, id as int);
        }
        sort_newest_first(rows, id)
    }

    /// A proposal's author with its latest snapshot; none unless it has both.
    pub fn get_proposal_with_latest_snapshot_by_id(&self, id: i32) -> (r: Option<
        (ProposalRecord, ProposalSnapshotRecord),
    >)
        requires
            self.wf(),
        ensures
            r is Some <==> (latest(self@.proposals, id as int) is Some && latest(
                self@.proposal_snapshots,
                id as int,
            ) is Some),
            r matches Some(p) ==> Some(p.0@) == latest(self@.proposals, id as int) && Some(p.1@)
                == latest(self@.proposal_snapshots, id as int),
    {
        match (self.proposals.latest(id, None), self.proposal_snapshots.latest(id, None)) {
            (Some(e), Some(snap)) => Some((e, snap)),
            _ => None,
        }
    }

    /// An RFP's author with its latest snapshot; none unless it has both.
    pub fn get_rfp_with_latest_snapshot_by_id(&self, id: i32) -> (r: Option<
        (RfpRecord, RfpSnapshotRecord),
    >)
        requires
            self.wf(),
        ensures
            r is Some <==> (latest(self@.rfps, id as int) is Some && latest(
                self@.rfp_snapshots,
                id as int,
            ) is Some),
            r matches Some(p) ==> Some(p.0@) == latest(self@.rfps, id as int) && Some(p.1@)
                == latest(self@.rfp_snapshots, id as int),
    {
        match (self.rfps.latest(id, None), self.rfp_snapshots.latest(id, None)) {
            (Some(e), Some(snap)) => Some((e, snap)),
            _ => None,
        }
    }

    /// Drop every snapshot of an RFP.
    pub fn remove_rfp_snapshots_by_rfp_id(&mut self, rfp_id: i32)
        requires
            old(self).wf(),
        ensures
            final(self).wf(),
            final(self)@ == (StoreState {
                rfp_snapshots: old(self)@.rfp_snapshots.restrict(entity_filter(rfp_id as int, false)),
                ..old(self)@
            }),
    {
        self.rfp_snapshots.remove_entity(rfp_id);
    }

    /// Drop every snapshot of a proposal.
    pub fn remove_proposal_snapshots_by_id(&mut self, proposal_id: i32)
        requires
            old(self).wf(),
        ensures
            final(self).wf(),
            final(self)@ == (StoreState {
                proposal_snapshots: old(self)@.proposal_snapshots.restrict(
                    entity_filter(proposal_id as int, false),
                ),
                ..old(self)@
            }),
    {
        self.proposal_snapshots.remove_entity(proposal_id);
    }

    /// Drop every snapshot, keeping the entities.
    pub fn remove_all_snapshots(&mut self)
        requires
            old(self).wf(),
        ensures
            final(self).wf(),
            final(self)@ == (StoreState {
                proposal_snapshots: Map::empty(),
                rfp_snapshots: Map::empty(),
                ..old(self)@
            }),
    {
        self.proposal_snapshots.clear();
        self.rfp_snapshots.clear();
    }

    /// Drop everything.
    pub fn remove_all_data(&mut self)
        ensures
            final(self).wf(),
            final(self)@ == (StoreState {
                proposals: Map::empty(),
                proposal_snapshots: Map::empty(),
                rfps: Map::empty(),
                rfp_snapshots: Map::empty(),
            }),
    {
        self.proposals.clear();
        self.proposal_snapshots.clear();
        self.rfps.clear();
        self.rfp_snapshots.clear();
    }

    /// One page of the latest snapshots of the proposals that pass `filters`,
    /// sorted by `order` (`id_asc`, `id_desc`, `ts_asc` or `ts_desc` in any
    /// case, else `id_desc`), with the number of all that pass. None when
    /// `limit` or `offset` is negative.
    pub fn get_proposals_with_latest_snapshot(
        &self,
        limit: i64,
        order: &str,
        offset: i64,
        filters: &Option<GetProposalFilters>,
    ) -> (r: Option<(Vec<ProposalSnapshotRecord>, usize)>)
        requires
            self.wf(),
        ensures
            r is None <==> (limit < 0 || offset < 0),
            r matches Some((page, total)) ==> exists|full: Seq<ProposalSnapshotRecord>|
                lists(
                    full,
                    self@.proposals,
                    self@.proposal_snapshots,
                    proposal_filter_of(*filters),
                    order_of(lower_of(order@)),
                ) && total == full.len() && page@ == full.subrange(
                    page_start(offset as int, full.len() as int),
                    page_end(offset as int, limit as int, full.len() as int),
                ),
    {
        if limit < 0 || offset < 0 {
            return None;
        }
        let o = parse_order(order);
        let f = ListFilter::for_proposals(filters);
        proof {
            self.proposals.lemma_entries();
        }
        let full = list_latest(&self.proposals, &self.proposal_snapshots, &f, o);
        let total = full.len();
        let page = paginate(full, offset, limit);
        Some((page, total))
    }

    /// One page of the latest snapshots of the RFPs that pass `filters`,
    /// sorted by `order` as for proposals, with the number of all that pass.
    /// None when `limit` or `offset` is negative.
    pub fn get_rfps_with_latest_snapshot(
        &self,
        limit: i64,
        order: &str,
        offset: i64,
        filters: &Option<GetRfpFilters>,
    ) -> (r: Option<(Vec<RfpSnapshotRecord>, usize)>)
        requires
            self.wf(),
        ensures
            r is None <==> (limit < 0 || offset < 0),
            r matches Some((page, total)) ==> exists|full: Seq<RfpSnapshotRecord>|
                lists(
                    full,
                    self@.rfps,
                    self@.rfp_snapshots,
                    rfp_filter_of(*filters),
                    order_of(lower_of(order@)),
                ) && total == full.len() && page@ == full.subrange(
                    page_start(offset as int, full.len() as int),
                    page_end(offset as int, limit as int, full.len() as int),
                ),
    {
        if limit < 0 || offset < 0 {
            return None;
        }
        let o = parse_order(order);
        let f = ListFilter::for_rfps(filters);
        proof {
            self.rfps.lemma_entries();
        }
        let full = list_latest(&self.rfps, &self.rfp_snapshots, &f, o);
        let total = full.len();
        let page = paginate(full, offset, limit);
        Some((page, total))
    }
}

} // verus!
