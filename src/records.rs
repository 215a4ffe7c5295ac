use vstd::prelude::*;
use crate::table::Row;
use crate::text::{copy_opt_ids, copy_opt_string, copy_strings, opt_ids_view, opt_str_view, strs_view};

verus! {

pub type BlockHeight = i64;

pub type Timestamp = i64;

/// A proposal's identity: its id and its author.
pub struct ProposalRecord {
    pub id: i32,
    pub author_id: String,
}

/// An RFP's identity: its id and its author.
pub struct RfpRecord {
    pub id: i32,
    pub author_id: String,
}

/// The persisted form of the sync watermark.
pub struct LastUpdatedInfo {
    pub after_date: i64,
    pub after_block: i64,
}

/// The watermark's timestamp alone.
pub struct AfterDate {
    pub after_date: i64,
}

/// A raw method call on a proposal, as dumped from the upstream feed.
pub struct DumpRecord {
    pub receipt_id: String,
    pub method_name: String,
    pub block_height: BlockHeight,
    pub block_timestamp: i32,
    pub args: String,
    pub author: String,
    pub proposal_id: i32,
}

/// A raw method call on an RFP, as dumped from the upstream feed.
pub struct RfpDumpRecord {
    pub receipt_id: String,
    pub method_name: String,
    pub block_height: BlockHeight,
    pub block_timestamp: i32,
    pub args: String,
    pub author: String,
    pub rfp_id: i32,
}

/// An entity row seen as values.
pub struct EntityView {
    pub id: i32,
    pub author_id: Seq<char>,
}

/// A versioned fact about a proposal at one point of chain time.
pub struct ProposalSnapshotRecord {
    pub proposal_id: i32,
    pub block_height: BlockHeight,
    pub ts: Timestamp,
    pub editor_id: String,
    pub social_db_post_block_height: BlockHeight,
    pub labels: Vec<String>,
    pub proposal_version: String,
    pub proposal_body_version: String,
    pub name: Option<String>,
    pub category: Option<String>,
    pub summary: Option<String>,
    pub description: Option<String>,
    pub linked_proposals: Option<Vec<i32>>,
    pub linked_rfp: Option<i32>,
    pub requested_sponsorship_usd_amount: Option<i32>,
    pub requested_sponsorship_paid_in_currency: Option<String>,
    pub requested_sponsor: Option<String>,
    pub receiver_account: Option<String>,
    pub supervisor: Option<String>,
    pub timeline: Option<String>,
    pub views: Option<i32>,
}

/// A proposal snapshot seen as values.
pub struct ProposalSnapshotView {
    pub proposal_id: i32,
    pub block_height: BlockHeight,
    pub ts: Timestamp,
    pub editor_id: Seq<char>,
    pub social_db_post_block_height: BlockHeight,
    pub labels: Seq<Seq<char>>,
    pub proposal_version: Seq<char>,
    pub proposal_body_version: Seq<char>,
    pub name: Option<Seq<char>>,
    pub category: Option<Seq<char>>,
    pub summary: Option<Seq<char>>,
    pub description: Option<Seq<char>>,
    pub linked_proposals: Option<Seq<i32>>,
    pub linked_rfp: Option<i32>,
    pub requested_sponsorship_usd_amount: Option<i32>,
    pub requested_sponsorship_paid_in_currency: Option<Seq<char>>,
    pub requested_sponsor: Option<Seq<char>>,
    pub receiver_account: Option<Seq<char>>,
    pub supervisor: Option<Seq<char>>,
    pub timeline: Option<Seq<char>>,
    pub views: Option<i32>,
}

/// A versioned fact about an RFP at one point of chain time.
pub struct RfpSnapshotRecord {
    pub rfp_id: i32,
    pub block_height: BlockHeight,
    pub ts: Timestamp,
    pub editor_id: String,
    pub social_db_post_block_height: BlockHeight,
    pub labels: Vec<String>,
    pub linked_proposals: Option<Vec<i32>>,
    pub rfp_version: String,
    pub rfp_body_version: String,
    pub name: Option<String>,
    pub category: Option<String>,
    pub summary: Option<String>,
    pub description: Option<String>,
    pub timeline: Option<String>,
    pub submission_deadline: Timestamp,
    pub views: Option<i32>,
}

/// An RFP snapshot seen as values.
pub struct RfpSnapshotView {
    pub rfp_id: i32,
    pub block_height: BlockHeight,
    pub ts: Timestamp,
    pub editor_id: Seq<char>,
    pub social_db_post_block_height: BlockHeight,
    pub labels: Seq<Seq<char>>,
    pub linked_proposals: Option<Seq<i32>>,
    pub rfp_version: Seq<char>,
    pub rfp_body_version: Seq<char>,
    pub name: Option<Seq<char>>,
    pub category: Option<Seq<char>>,
    pub summary: Option<Seq<char>>,
    pub description: Option<Seq<char>>,
    pub timeline: Option<Seq<char>>,
    pub submission_deadline: Timestamp,
    pub views: Option<i32>,
}

impl View for ProposalRecord {
    type V = EntityView;

    open spec fn view(&self) -> EntityView {
        EntityView { id: self.id, author_id: self.author_id@ }
    }
}

impl View for RfpRecord {
    type V = EntityView;

    open spec fn view(&self) -> EntityView {
        EntityView { id: self.id, author_id: self.author_id@ }
    }
}

impl View for ProposalSnapshotRecord {
    type V = ProposalSnapshotView;

    open spec fn view(&self) -> ProposalSnapshotView {
        ProposalSnapshotView {
            proposal_id: self.proposal_id,
            block_height: self.block_height,
            ts: self.ts,
            editor_id: self.editor_id@,
            social_db_post_block_height: self.social_db_post_block_height,
            labels: strs_view(self.labels),
            proposal_version: self.proposal_version@,
            proposal_body_version: self.proposal_body_version@,
            name: opt_str_view(self.name),
            category: opt_str_view(self.category),
            summary: opt_str_view(self.summary),
            description: opt_str_view(self.description),
            linked_proposals: opt_ids_view(self.linked_proposals),
            linked_rfp: self.linked_rfp,
            requested_sponsorship_usd_amount: self.requested_sponsorship_usd_amount,
            requested_sponsorship_paid_in_currency: opt_str_view(
                self.requested_sponsorship_paid_in_currency,
            ),
            requested_sponsor: opt_str_view(self.requested_sponsor),
            receiver_account: opt_str_view(self.receiver_account),
            supervisor: opt_str_view(self.supervisor),
            timeline: opt_str_view(self.timeline),
            views: self.views,
        }
    }
}

impl View for RfpSnapshotRecord {
    type V = RfpSnapshotView;

    open spec fn view(&self) -> RfpSnapshotView {
        RfpSnapshotView {
            rfp_id: self.rfp_id,
            block_height: self.block_height,
            ts: self.ts,
            editor_id: self.editor_id@,
            social_db_post_block_height: self.social_db_post_block_height,
            labels: strs_view(self.labels),
            linked_proposals: opt_ids_view(self.linked_proposals),
            rfp_version: self.rfp_version@,
            rfp_body_version: self.rfp_body_version@,
            name: opt_str_view(self.name),
            category: opt_str_view(self.category),
            summary: opt_str_view(self.summary),
            description: opt_str_view(self.description),
            timeline: opt_str_view(self.timeline),
            submission_deadline: self.submission_deadline,
            views: self.views,
        }
    }
}

impl Row for ProposalRecord {
    type V = EntityView;

    open spec fn row_view(&self) -> EntityView {
        self@
    }

    open spec fn row_key(&self) -> (int, int) {
        (self.id as int, 0)
    }

    fn key(&self) -> (r: (i32, i64)) {
        (self.id, 0)
    }

    fn copy_row(&self) -> (r: Self) {
        ProposalRecord { id: self.id, author_id: self.author_id.clone() }
    }
}

impl Row for RfpRecord {
    type V = EntityView;

    open spec fn row_view(&self) -> EntityView {
        self@
    }

    open spec fn row_key(&self) -> (int, int) {
        (self.id as int, 0)
    }

    fn key(&self) -> (r: (i32, i64)) {
        (self.id, 0)
    }

    fn copy_row(&self) -> (r: Self) {
        RfpRecord { id: self.id, author_id: self.author_id.clone() }
    }
}

impl Row for ProposalSnapshotRecord {
    type V = ProposalSnapshotView;

    open spec fn row_view(&self) -> ProposalSnapshotView {
        self@
    }

    open spec fn row_key(&self) -> (int, int) {
        (self.proposal_id as int, self.ts as int)
    }

    fn key(&self) -> (r: (i32, i64)) {
        (self.proposal_id, self.ts)
    }

    fn copy_row(&self) -> (r: Self) {
        ProposalSnapshotRecord {
            proposal_id: self.proposal_id,
            block_height: self.block_height,
            ts: self.ts,
            editor_id: self.editor_id.clone(),
            social_db_post_block_height: self.social_db_post_block_height,
            labels: copy_strings(&self.labels),
            proposal_version: self.proposal_version.clone(),
            proposal_body_version: self.proposal_body_version.clone(),
            name: copy_opt_string(&self.name),
            category: copy_opt_string(&self.category),
            summary: copy_opt_string(&self.summary),
            description: copy_opt_string(&self.description),
            linked_proposals: copy_opt_ids(&self.linked_proposals),
            linked_rfp: self.linked_rfp,
            requested_sponsorship_usd_amount: self.requested_sponsorship_usd_amount,
            requested_sponsorship_paid_in_currency: copy_opt_string(
                &self.requested_sponsorship_paid_in_currency,
            ),
            requested_sponsor: copy_opt_string(&self.requested_sponsor),
            receiver_account: copy_opt_string(&self.receiver_account),
            supervisor: copy_opt_string(&self.supervisor),
            timeline: copy_opt_string(&self.timeline),
            views: self.views,
        }
    }
}

impl Row for RfpSnapshotRecord {
    type V = RfpSnapshotView;

    open spec fn row_view(&self) -> RfpSnapshotView {
        self@
    }

    open spec fn row_key(&self) -> (int, int) {
        (self.rfp_id as int, self.ts as int)
    }

    fn key(&self) -> (r: (i32, i64)) {
        (self.rfp_id, self.ts)
    }

    fn copy_row(&self) -> (r: Self) {
        RfpSnapshotRecord {
            rfp_id: self.rfp_id,
            block_height: self.block_height,
            ts: self.ts,
            editor_id: self.editor_id.clone(),
            social_db_post_block_height: self.social_db_post_block_height,
            labels: copy_strings(&self.labels),
            linked_proposals: copy_opt_ids(&self.linked_proposals),
            rfp_version: self.rfp_version.clone(),
            rfp_body_version: self.rfp_body_version.clone(),
            name: copy_opt_string(&self.name),
            category: copy_opt_string(&self.category),
            summary: copy_opt_string(&self.summary),
            description: copy_opt_string(&self.description),
            timeline: copy_opt_string(&self.timeline),
            submission_deadline: self.submission_deadline,
            views: self.views,
        }
    }
}

/// Filters of a proposal listing.
pub struct GetProposalFilters {
    pub category: Option<String>,
    pub labels: Option<Vec<String>>,
    pub input: Option<String>,
    pub author_id: Option<String>,
    pub stage: Option<String>,
    pub block_timestamp: Option<i64>,
}

/// Filters of an RFP listing.
pub struct GetRfpFilters {
    pub category: Option<String>,
    pub labels: Option<Vec<String>>,
    pub input: Option<String>,
    pub author_id: Option<String>,
    pub stage: Option<String>,
    pub block_timestamp: Option<i64>,
}

/// The service's configuration: the contract it mirrors, its database and its feed key.
pub struct Env {
    pub contract: String,
    pub database_url: String,
    pub nearblocks_api_key: String,
}

} // verus!
