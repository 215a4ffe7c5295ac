use vstd::prelude::*;
use vstd::string::*;
use crate::records::{ProposalSnapshotRecord, ProposalSnapshotView, RfpSnapshotRecord, RfpSnapshotView};
use crate::text::{copy_opt_string, copy_strings, parse_i64, parsed_i64, opt_str_view, strs_view};

verus! {

/// The currency in which a proposal asks to be paid.
#[derive(Debug, Clone, Copy, PartialEq, Eq, Structural)]
pub enum ProposalFundingCurrency {
    NEAR,
    USDT,
    USDC,
    OTHER,
}

/// The body of a proposal in schema versions V0 and V1; V1 changed only the
/// shape of the timeline, which this library carries as JSON text.
pub struct ProposalBodyV0 {
    pub name: String,
    pub category: String,
    pub summary: String,
    pub description: String,
    pub linked_proposals: Vec<u32>,
    pub requested_sponsorship_usd_amount: u32,
    pub requested_sponsorship_paid_in_currency: ProposalFundingCurrency,
    pub receiver_account: String,
    pub requested_sponsor: String,
    pub supervisor: Option<String>,
    pub timeline: String,
}

/// The body of a proposal in schema version V2, which adds the linked RFP.
pub struct ProposalBodyV2 {
    pub name: String,
    pub category: String,
    pub summary: String,
    pub description: String,
    pub linked_proposals: Vec<u32>,
    pub requested_sponsorship_usd_amount: u32,
    pub requested_sponsorship_paid_in_currency: ProposalFundingCurrency,
    pub receiver_account: String,
    pub requested_sponsor: String,
    pub supervisor: Option<String>,
    pub timeline: String,
    pub linked_rfp: Option<u32>,
}

/// A proposal body tagged with its schema version.
pub enum VersionedProposalBody {
    V0(ProposalBodyV0),
    V1(ProposalBodyV0),
    V2(ProposalBodyV2),
}

/// The current state of a proposal on chain.
pub struct ProposalSnapshot {
    pub editor_id: String,
    pub timestamp: u64,
    pub labels: Vec<String>,
    pub body: VersionedProposalBody,
}

/// A proposal as the contract returns it.
pub struct Proposal {
    pub id: u32,
    pub author_id: String,
    pub social_db_post_block_height: u64,
    pub snapshot: ProposalSnapshot,
}

/// The body of an RFP in schema version V0.
pub struct RfpBodyV0 {
    pub name: String,
    pub summary: String,
    pub description: String,
    pub timeline: String,
    pub submission_deadline: u64,
}

/// An RFP body tagged with its schema version.
pub enum VersionedRFPBody {
    V0(RfpBodyV0),
}

/// The current state of an RFP on chain.
pub struct RFPSnapshot {
    pub editor_id: String,
    pub timestamp: u64,
    pub labels: Vec<String>,
    pub linked_proposals: Vec<u32>,
    pub body: VersionedRFPBody,
}

/// An RFP as the contract returns it.
pub struct RFP {
    pub id: u32,
    pub author_id: String,
    pub social_db_post_block_height: u64,
    pub snapshot: RFPSnapshot,
}

/// The arguments of a proposal edit as the transaction carries them. The
/// handlers do not trust this body and read the contract instead.
pub struct EditProposalArgs {
    pub id: u32,
    pub body: VersionedProposalBody,
    pub labels: Vec<String>,
}

/// The fields that every proposal body version offers, as values.
pub struct ProposalFields {
    pub name: Seq<char>,
    pub category: Seq<char>,
    pub summary: Seq<char>,
    pub description: Seq<char>,
    pub linked_proposals: Seq<u32>,
    pub requested_sponsorship_usd_amount: u32,
    pub requested_sponsorship_paid_in_currency: Seq<char>,
    pub requested_sponsor: Seq<char>,
    pub receiver_account: Seq<char>,
    pub supervisor: Option<Seq<char>>,
    pub timeline: Seq<char>,
    pub linked_rfp: Option<u32>,
}

/// The fields that every RFP body version offers, as values.
pub struct RfpFields {
    pub name: Seq<char>,
    pub summary: Seq<char>,
    pub description: Seq<char>,
    pub timeline: Seq<char>,
    pub submission_deadline: i64,
}

/// Currency names as stored in snapshots.
pub trait ProposalFundingCurrencyToString {
    spec fn text(&self) -> Seq<char>;

    fn to_string(&self) -> (r: String)
        ensures
            r@ == self.text(),
    ;
}

impl ProposalFundingCurrencyToString for ProposalFundingCurrency {
    open spec fn text(&self) -> Seq<char> {
        match self {
            ProposalFundingCurrency::NEAR => "NEAR"@,
            ProposalFundingCurrency::USDT => "USDT"@,
            ProposalFundingCurrency::USDC => "USDC"@,
            ProposalFundingCurrency::OTHER => "OTHER"@,
        }
    }

    fn to_string(&self) -> (r: String) {
        match self {
            ProposalFundingCurrency::NEAR => String::from_str("NEAR"),
            ProposalFundingCurrency::USDT => String::from_str("USDT"),
            ProposalFundingCurrency::USDC => String::from_str("USDC"),
            ProposalFundingCurrency::OTHER => String::from_str("OTHER"),
        }
    }
}

/// One accessor surface over all proposal body versions.
pub trait ProposalBodyFields {
    spec fn fields(&self) -> ProposalFields;

    fn get_name(&self) -> (r: &String)
        ensures
            r@ == self.fields().name,
    ;

    fn get_category(&self) -> (r: &String)
        ensures
            r@ == self.fields().category,
    ;

    fn get_summary(&self) -> (r: &String)
        ensures
            r@ == self.fields().summary,
    ;

    fn get_description(&self) -> (r: &String)
        ensures
            r@ == self.fields().description,
    ;

    fn get_linked_proposals(&self) -> (r: &Vec<u32>)
        ensures
            r@ == self.fields().linked_proposals,
    ;

    fn get_requested_sponsorship_usd_amount(&self) -> (r: &u32)
        ensures
            *r == self.fields().requested_sponsorship_usd_amount,
    ;

    fn get_requested_sponsorship_paid_in_currency(&self) -> (r: String)
        ensures
            r@ == self.fields().requested_sponsorship_paid_in_currency,
    ;

    fn get_requested_sponsor(&self) -> (r: String)
        ensures
            r@ == self.fields().requested_sponsor,
    ;

    fn get_receiver_account(&self) -> (r: String)
        ensures
            r@ == self.fields().receiver_account,
    ;

    fn get_supervisor(&self) -> (r: Option<String>)
        ensures
            opt_str_view(r) == self.fields().supervisor,
    ;

    fn get_timeline(&self) -> (r: String)
        ensures
            r@ == self.fields().timeline,
    ;

    fn get_linked_rfp(&self) -> (r: Option<u32>)
        ensures
            r == self.fields().linked_rfp,
    ;
}

pub open spec fn v0_fields(b: ProposalBodyV0) -> ProposalFields {
    ProposalFields {
        name: b.name@,
        category: b.category@,
        summary: b.summary@,
        description: b.description@,
        linked_proposals: b.linked_proposals@,
        requested_sponsorship_usd_amount: b.requested_sponsorship_usd_amount,
        requested_sponsorship_paid_in_currency: b.requested_sponsorship_paid_in_currency.text(),
        requested_sponsor: b.requested_sponsor@,
        receiver_account: b.receiver_account@,
        supervisor: opt_str_view(b.supervisor),
        timeline: b.timeline@,
        linked_rfp: None,
    }
}

pub open spec fn v2_fields(b: ProposalBodyV2) -> ProposalFields {
    ProposalFields {
        name: b.name@,
        category: b.category@,
        summary: b.summary@,
        description: b.description@,
        linked_proposals: b.linked_proposals@,
        requested_sponsorship_usd_amount: b.requested_sponsorship_usd_amount,
        requested_sponsorship_paid_in_currency: b.requested_sponsorship_paid_in_currency.text(),
        requested_sponsor: b.requested_sponsor@,
        receiver_account: b.receiver_account@,
        supervisor: opt_str_view(b.supervisor),
        timeline: b.timeline@,
        linked_rfp: b.linked_rfp,
    }
}

impl ProposalBodyFields for VersionedProposalBody {
    open spec fn fields(&self) -> ProposalFields {
        match self {
            VersionedProposalBody::V0(b) => v0_fields(*b),
            VersionedProposalBody::V1(b) => v0_fields(*b),
            VersionedProposalBody::V2(b) => v2_fields(*b),
        }
    }

    fn get_name(&self) -> (r: &String) {
        match self {
            VersionedProposalBody::V0(b) => &b.name,
            VersionedProposalBody::V1(b) => &b.name,
            VersionedProposalBody::V2(b) => &b.name,
        }
    }

    fn get_category(&self) -> (r: &String) {
        match self {
            VersionedProposalBody::V0(b) => &b.category,
            VersionedProposalBody::V1(b) => &b.category,
            VersionedProposalBody::V2(b) => &b.category,
        }
    }

    fn get_summary(&self) -> (r: &String) {
        match self {
            VersionedProposalBody::V0(b) => &b.summary,
            VersionedProposalBody::V1(b) => &b.summary,
            VersionedProposalBody::V2(b) => &b.summary,
        }
    }

    fn get_description(&self) -> (r: &String) {
        match self {
            VersionedProposalBody::V0(b) => &b.description,
            VersionedProposalBody::V1(b) => &b.description,
            VersionedProposalBody::V2(b) => &b.description,
        }
    }

    fn get_linked_proposals(&self) -> (r: &Vec<u32>) {
        match self {
            VersionedProposalBody::V0(b) => &b.linked_proposals,
            VersionedProposalBody::V1(b) => &b.linked_proposals,
            VersionedProposalBody::V2(b) => &b.linked_proposals,
        }
    }

    fn get_requested_sponsorship_usd_amount(&self) -> (r: &u32) {
        match self {
            VersionedProposalBody::V0(b) => &b.requested_sponsorship_usd_amount,
            VersionedProposalBody::V1(b) => &b.requested_sponsorship_usd_amount,
            VersionedProposalBody::V2(b) => &b.requested_sponsorship_usd_amount,
        }
    }

    fn get_requested_sponsorship_paid_in_currency(&self) -> (r: String) {
        match self {
            VersionedProposalBody::V0(b) => b.requested_sponsorship_paid_in_currency.to_string(),
            VersionedProposalBody::V1(b) => b.requested_sponsorship_paid_in_currency.to_string(),
            VersionedProposalBody::V2(b) => b.requested_sponsorship_paid_in_currency.to_string(),
        }
    }

    fn get_requested_sponsor(&self) -> (r: String) {
        match self {
            VersionedProposalBody::V0(b) => b.requested_sponsor.clone(),
            VersionedProposalBody::V1(b) => b.requested_sponsor.clone(),
            VersionedProposalBody::V2(b) => b.requested_sponsor.clone(),
        }
    }

    fn get_receiver_account(&self) -> (r: String) {
        match self {
            VersionedProposalBody::V0(b) => b.receiver_account.clone(),
            VersionedProposalBody::V1(b) => b.receiver_account.clone(),
            VersionedProposalBody::V2(b) => b.receiver_account.clone(),
        }
    }

    fn get_supervisor(&self) -> (r: Option<String>) {
        match self {
            VersionedProposalBody::V0(b) => copy_opt_string(&b.supervisor),
            VersionedProposalBody::V1(b) => copy_opt_string(&b.supervisor),
            VersionedProposalBody::V2(b) => copy_opt_string(&b.supervisor),
        }
    }

    fn get_timeline(&self) -> (r: String) {
        match self {
            VersionedProposalBody::V0(b) => b.timeline.clone(),
            VersionedProposalBody::V1(b) => b.timeline.clone(),
            VersionedProposalBody::V2(b) => b.timeline.clone(),
        }
    }

    fn get_linked_rfp(&self) -> (r: Option<u32>) {
        match self {
            VersionedProposalBody::V0(_) => None,
            VersionedProposalBody::V1(_) => None,
            VersionedProposalBody::V2(b) => b.linked_rfp,
        }
    }
}

/// One accessor surface over all RFP body versions.
pub trait RfpBodyFields {
    spec fn fields(&self) -> RfpFields;

    fn get_name(&self) -> (r: &String)
        ensures
            r@ == self.fields().name,
    ;

    fn get_summary(&self) -> (r: &String)
        ensures
            r@ == self.fields().summary,
    ;

    fn get_description(&self) -> (r: &String)
        ensures
            r@ == self.fields().description,
    ;

    fn get_timeline(&self) -> (r: String)
        ensures
            r@ == self.fields().timeline,
    ;

    fn get_submission_deadline(&self) -> (r: i64)
        ensures
            r == self.fields().submission_deadline,
    ;
}

/// A deadline as stored: its value where it fits in an `i64`, else zero.
pub open spec fn deadline_i64(d: u64) -> i64 {
    if d <= i64::MAX as u64 {
        d as i64
    } else {
        0
    }
}

impl RfpBodyFields for VersionedRFPBody {
    open spec fn fields(&self) -> RfpFields {
        match self {
            VersionedRFPBody::V0(b) => RfpFields {
                name: b.name@,
                summary: b.summary@,
                description: b.description@,
                timeline: b.timeline@,
                submission_deadline: deadline_i64(b.submission_deadline),
            },
        }
    }

    fn get_name(&self) -> (r: &String) {
        match self {
            VersionedRFPBody::V0(b) => &b.name,
        }
    }

    fn get_summary(&self) -> (r: &String) {
        match self {
            VersionedRFPBody::V0(b) => &b.summary,
        }
    }

    fn get_description(&self) -> (r: &String) {
        match self {
            VersionedRFPBody::V0(b) => &b.description,
        }
    }

    fn get_timeline(&self) -> (r: String) {
        match self {
            VersionedRFPBody::V0(b) => b.timeline.clone(),
        }
    }

    fn get_submission_deadline(&self) -> (r: i64) {
        match self {
            VersionedRFPBody::V0(b) => if b.submission_deadline <= i64::MAX as u64 {
                b.submission_deadline as i64
            } else {
                0
            },
        }
    }
}

/// Ids as stored in snapshots: each one cast to `i32`.
pub open spec fn ids_as_i32(v: Seq<u32>) -> Seq<i32> {
    v.map_values(|x: u32| x as i32)
}

fn ids_to_i32(v: &Vec<u32>) -> (r: Vec<i32>)
    ensures
        r@ == ids_as_i32(v@),
{
    let mut r: Vec<i32> = Vec::new();
    let mut i: usize = 0;
    while i < v.len()
        invariant
            i <= v@.len(),
            r@ == ids_as_i32(v@.subrange(0, i as int)),
        decreases v@.len() - i,
    {
        r.push(v[i] as i32);
        i = i + 1;
        assert(ids_as_i32(v@.subrange(0, i as int)) =~= ids_as_i32(v@.subrange(0, i - 1)).push(
            v@[i - 1] as i32,
        ));
    }
    assert(v@.subrange(0, v@.len() as int) =~= v@);
    r
}

/// The timestamp a snapshot records for the text `t`: its value, or zero.
pub open spec fn ts_of_text(t: Seq<char>) -> i64 {
    match parsed_i64(t) {
        Some(v) => v,
        None => 0,
    }
}

/// The normalized snapshot of proposal `p` at chain time `ts` and height `block_height`.
pub open spec fn proposal_snapshot_of(p: Proposal, ts: i64, block_height: i64) -> ProposalSnapshotView {
    let f = p.snapshot.body.fields();
    ProposalSnapshotView {
        proposal_id: p.id as i32,
        block_height,
        ts,
        editor_id: p.snapshot.editor_id@,
        social_db_post_block_height: p.social_db_post_block_height as i64,
        labels: strs_view(p.snapshot.labels),
        proposal_version: "V0"@,
        proposal_body_version: "V2"@,
        name: Some(f.name),
        category: Some(f.category),
        summary: Some(f.summary),
        description: Some(f.description),
        linked_proposals: Some(ids_as_i32(f.linked_proposals)),
        linked_rfp: match f.linked_rfp {
            Some(x) => Some(x as i32),
            None => None,
        },
        requested_sponsorship_usd_amount: Some(f.requested_sponsorship_usd_amount as i32),
        requested_sponsorship_paid_in_currency: Some(f.requested_sponsorship_paid_in_currency),
        requested_sponsor: Some(f.requested_sponsor),
        receiver_account: Some(f.receiver_account),
        supervisor: f.supervisor,
        timeline: Some(f.timeline),
        views: None,
    }
}

/// The snapshot an edit's own arguments describe, made by `editor_id` at chain
/// time `ts` and height `block_height`.
pub open spec fn edit_snapshot_of(
    args: EditProposalArgs,
    ts: i64,
    block_height: i64,
    editor_id: Seq<char>,
) -> ProposalSnapshotView {
    let f = args.body.fields();
    ProposalSnapshotView {
        proposal_id: args.id as i32,
        block_height,
        ts,
        editor_id,
        social_db_post_block_height: 0,
        labels: strs_view(args.labels),
        proposal_version: "V0"@,
        proposal_body_version: "V2"@,
        name: Some(f.name),
        category: Some(f.category),
        summary: Some(f.summary),
        description: Some(f.description),
        linked_proposals: Some(ids_as_i32(f.linked_proposals)),
        linked_rfp: match f.linked_rfp {
            Some(x) => Some(x as i32),
            None => None,
        },
        requested_sponsorship_usd_amount: Some(f.requested_sponsorship_usd_amount as i32),
        requested_sponsorship_paid_in_currency: Some(f.requested_sponsorship_paid_in_currency),
        requested_sponsor: Some(f.requested_sponsor),
        receiver_account: Some(f.receiver_account),
        supervisor: f.supervisor,
        timeline: Some(f.timeline),
        views: None,
    }
}

/// The normalized snapshot of RFP `r` at chain time `ts` and height `block_height`.
pub open spec fn rfp_snapshot_of(r: RFP, ts: i64, block_height: i64) -> RfpSnapshotView {
    let f = r.snapshot.body.fields();
    RfpSnapshotView {
        rfp_id: r.id as i32,
        block_height,
        ts,
        editor_id: r.snapshot.editor_id@,
        social_db_post_block_height: r.social_db_post_block_height as i64,
        labels: strs_view(r.snapshot.labels),
        linked_proposals: Some(ids_as_i32(r.snapshot.linked_proposals@)),
        rfp_version: "V0"@,
        rfp_body_version: "V0"@,
        name: Some(f.name),
        category: None,
        summary: Some(f.summary),
        description: Some(f.description),
        timeline: Some(f.timeline),
        submission_deadline: f.submission_deadline,
        views: Some(0),
    }
}

impl ProposalSnapshotRecord {
    /// Normalize a proposal read from the contract into a snapshot row; a
    /// timestamp that is no numeral is recorded as zero.
    pub fn from_contract_proposal(proposal: Proposal, timestamp: String, block_height: i64) -> (r:
        Self)
        ensures
            r@ == proposal_snapshot_of(proposal, ts_of_text(timestamp@), block_height),
    {
        let ts = match parse_i64(timestamp.as_str()) {
            Some(v) => v,
            None => 0,
        };
        let body = &proposal.snapshot.body;
        ProposalSnapshotRecord {
            proposal_id: proposal.id as i32,
            block_height,
            ts,
            editor_id: proposal.snapshot.editor_id.clone(),
            social_db_post_block_height: proposal.social_db_post_block_height as i64,
            labels: copy_strings(&proposal.snapshot.labels),
            proposal_version: String::from_str("V0"),
            proposal_body_version: String::from_str("V2"),
            name: Some(body.get_name().clone()),
            category: Some(body.get_category().clone()),
            summary: Some(body.get_summary().clone()),
            description: Some(body.get_description().clone()),
            linked_proposals: Some(ids_to_i32(body.get_linked_proposals())),
            linked_rfp: match body.get_linked_rfp() {
                Some(x) => Some(x as i32),
                None => None,
            },
            requested_sponsorship_usd_amount: Some(
                *body.get_requested_sponsorship_usd_amount() as i32,
            ),
            requested_sponsorship_paid_in_currency: Some(
                body.get_requested_sponsorship_paid_in_currency(),
            ),
            requested_sponsor: Some(body.get_requested_sponsor()),
            receiver_account: Some(body.get_receiver_account()),
            supervisor: body.get_supervisor(),
            timeline: Some(body.get_timeline()),
            views: None,
        }
    }
}

impl ProposalSnapshotRecord {
    /// Normalize the body an edit carries into a snapshot row by `editor_id`;
    /// a timestamp that is no numeral is recorded as zero.
    pub fn from_versioned_proposal_body(
        args: EditProposalArgs,
        timestamp: String,
        block_height: i64,
        editor_id: String,
    ) -> (r: Self)
        ensures
            r@ == edit_snapshot_of(args, ts_of_text(timestamp@), block_height, editor_id@),
    {
        let ts = match parse_i64(timestamp.as_str()) {
            Some(v) => v,
            None => 0,
        };
        let body = &args.body;
        ProposalSnapshotRecord {
            proposal_id: args.id as i32,
            block_height,
            ts,
            editor_id,
            social_db_post_block_height: 0,
            labels: copy_strings(&args.labels),
            proposal_version: String::from_str("V0"),
            proposal_body_version: String::from_str("V2"),
            name: Some(body.get_name().clone()),
            category: Some(body.get_category().clone()),
            summary: Some(body.get_summary().clone()),
            description: Some(body.get_description().clone()),
            linked_proposals: Some(ids_to_i32(body.get_linked_proposals())),
            linked_rfp: match body.get_linked_rfp() {
                Some(x) => Some(x as i32),
                None => None,
            },
            requested_sponsorship_usd_amount: Some(
                *body.get_requested_sponsorship_usd_amount() as i32,
            ),
            requested_sponsorship_paid_in_currency: Some(
                body.get_requested_sponsorship_paid_in_currency(),
            ),
            requested_sponsor: Some(body.get_requested_sponsor()),
            receiver_account: Some(body.get_receiver_account()),
            supervisor: body.get_supervisor(),
            timeline: Some(body.get_timeline()),
            views: None,
        }
    }
}

impl RfpSnapshotRecord {
    /// Normalize an RFP read from the contract into a snapshot row.
    pub fn from_contract_rfp(rfp: RFP, timestamp: i64, block_height: i64) -> (r: Self)
        ensures
            r@ == rfp_snapshot_of(rfp, timestamp, block_height),
    {
        let body = &rfp.snapshot.body;
        RfpSnapshotRecord {
            rfp_id: rfp.id as i32,
            block_height,
            ts: timestamp,
            editor_id: rfp.snapshot.editor_id.clone(),
            social_db_post_block_height: rfp.social_db_post_block_height as i64,
            labels: copy_strings(&rfp.snapshot.labels),
            linked_proposals: Some(ids_to_i32(&rfp.snapshot.linked_proposals)),
            rfp_version: String::from_str("V0"),
            rfp_body_version: String::from_str("V0"),
            name: Some(body.get_name().clone()),
            category: None,
            summary: Some(body.get_summary().clone()),
            description: Some(body.get_description().clone()),
            timeline: Some(body.get_timeline()),
            submission_deadline: body.get_submission_deadline(),
            views: Some(0),
        }
    }
}

} // verus!
