use devhub_cache_api::contract::{
    EditProposalArgs,
    Proposal, ProposalBodyFields, ProposalBodyV0, ProposalBodyV2, ProposalFundingCurrency,
    ProposalFundingCurrencyToString, ProposalSnapshot, RFPSnapshot, RfpBodyFields, RfpBodyV0,
    VersionedProposalBody, VersionedRFPBody, RFP,
};
use devhub_cache_api::cursor::{should_refresh, update_nearblocks_data, SyncCursor, TTL_NANOS};
use devhub_cache_api::dispatch::{route_method, route_transaction, Route};
use devhub_cache_api::feed::{ApiClient, ApiResponse, FeedFetch};
use devhub_cache_api::links::{add_to_linked_proposals, remove_from_linked_proposals, LinkedProposals};
use devhub_cache_api::reconcile::{
    handle_edit_proposal, handle_edit_rfp, handle_set_rfp_block_height_callback, process,
    process_transaction, SetRfpBlockHeightCallbackArgs, proposal_read_height, rfp_read_height, ContractInput, SyncError,
    SyncItem,
};
use devhub_cache_api::records::{ProposalSnapshotRecord, RfpSnapshotRecord};
use devhub_cache_api::responses::{robots, PaginatedResponse};
use devhub_cache_api::rpc::{decode_query_result, get_proposal_on_block, get_rfp_on_block, id_args_json};
use devhub_cache_api::store::DB;
use devhub_cache_api::transaction::{Action, Block, BlockInfo, Outcomes, ReceiptOutcome, Transaction};

fn tx(method: &str, ts: &str, height: i64, status: bool) -> Transaction {
    Transaction {
        id: format!("tx-{}", ts),
        receipt_id: String::new(),
        predecessor_account_id: "alice.near".to_string(),
        receiver_account_id: "devhub.near".to_string(),
        receipt_kind: "ACTION".to_string(),
        receipt_block: Block { block_hash: String::new(), block_height: height, block_timestamp: ts.parse().unwrap_or(0) },
        receipt_outcome: ReceiptOutcome { executor_account_id: String::new(), status },
        transaction_hash: String::new(),
        included_in_block_hash: String::new(),
        block_timestamp: ts.to_string(),
        block: BlockInfo { block_height: height },
        receipt_conversion_tokens_burnt: String::new(),
        actions: Some(vec![Action {
            action: "FUNCTION_CALL".to_string(),
            method: Some(method.to_string()),
            args: Some("{}".to_string()),
        }]),
        outcomes: Outcomes { status },
    }
}

fn proposal(id: u32, name: &str, linked_rfp: Option<u32>) -> Proposal {
    Proposal {
        id,
        author_id: "alice.near".to_string(),
        social_db_post_block_height: 42,
        snapshot: ProposalSnapshot {
            editor_id: "bob.near".to_string(),
            timestamp: 0,
            labels: vec!["infra".to_string()],
            body: VersionedProposalBody::V2(ProposalBodyV2 {
                name: name.to_string(),
                category: "Tooling".to_string(),
                summary: "s".to_string(),
                description: "d".to_string(),
                linked_proposals: vec![4, 5],
                requested_sponsorship_usd_amount: 1000,
                requested_sponsorship_paid_in_currency: ProposalFundingCurrency::USDC,
                receiver_account: "carol.near".to_string(),
                requested_sponsor: "devhub.near".to_string(),
                supervisor: None,
                timeline: "{\"status\":\"DRAFT\"}".to_string(),
                linked_rfp,
            }),
        },
    }
}

fn rfp(id: u32, name: &str, linked: Vec<u32>) -> RFP {
    RFP {
        id,
        author_id: "dave.near".to_string(),
        social_db_post_block_height: 7,
        snapshot: RFPSnapshot {
            editor_id: "dave.near".to_string(),
            timestamp: 0,
            labels: vec![],
            linked_proposals: linked,
            body: VersionedRFPBody::V0(RfpBodyV0 {
                name: name.to_string(),
                summary: "s".to_string(),
                description: "d".to_string(),
                timeline: "{}".to_string(),
                submission_deadline: 99,
            }),
        },
    }
}

fn rfp_links(db: &DB, rfp_id: i32) -> Vec<i32> {
    db.get_latest_rfp_snapshot(rfp_id).unwrap().linked_proposals.unwrap()
}

#[test]
fn latest_snapshot_is_the_greatest_timestamp() {
    let mut db = DB::new();
    for ts in ["5", "10", "7"] {
        let snap = ProposalSnapshotRecord::from_contract_proposal(proposal(1, ts, None), ts.to_string(), 1);
        db.insert_proposal_snapshot(snap);
    }
    let latest = db.get_latest_proposal_snapshot(1).unwrap();
    assert_eq!(latest.ts, 10);
    assert_eq!(latest.name, Some("10".to_string()));
    assert!(db.get_latest_proposal_snapshot(2).is_none());
}

#[test]
fn freshness_gate_boundary() {
    let mut cursor = SyncCursor::new();
    cursor.set_timestamp(1_000);
    assert!(!should_refresh(1_000 + TTL_NANOS - 1, &cursor));
    assert!(should_refresh(1_000 + TTL_NANOS, &cursor));
    assert_eq!(TTL_NANOS, 60_000_000_000);
}

#[test]
fn bootstrap_falls_back_to_embedded_body() {
    let mut db = DB::new();
    let t = tx("set_block_height_callback", "100", 10, true);
    let input = ContractInput::ProposalCallback { args: Some(proposal(3, "embedded", None)), current: None };
    assert!(process_transaction(&mut db, &t, input).is_ok());
    let (entity, snap) = db.get_proposal_with_latest_snapshot_by_id(3).unwrap();
    assert_eq!(entity.author_id, "alice.near");
    assert_eq!(snap.name, Some("embedded".to_string()));
    assert_eq!(snap.ts, 100);
    assert_eq!(snap.block_height, 10);
    assert_eq!(snap.proposal_version, "V0");
    assert_eq!(snap.proposal_body_version, "V2");
    assert_eq!(snap.requested_sponsorship_paid_in_currency, Some("USDC".to_string()));
    assert_eq!(snap.linked_proposals, Some(vec![4, 5]));
    assert_eq!(snap.labels, vec!["infra".to_string()]);
    assert_eq!(snap.timeline, Some("{\"status\":\"DRAFT\"}".to_string()));
}

#[test]
fn bootstrap_prefers_current_contract_state() {
    let mut db = DB::new();
    let t = tx("set_block_height_callback", "100", 10, true);
    let input = ContractInput::ProposalCallback {
        args: Some(proposal(3, "embedded", None)),
        current: Some(proposal(3, "current", None)),
    };
    assert!(process_transaction(&mut db, &t, input).is_ok());
    assert_eq!(db.get_latest_proposal_snapshot(3).unwrap().name, Some("current".to_string()));
}

#[test]
fn edit_failure_halts_without_writing() {
    let mut db = DB::new();
    let mut cursor = SyncCursor::new();
    cursor.set_timestamp(50);
    cursor.set_block_height(5);
    let items = vec![SyncItem {
        transaction: tx("edit_proposal", "100", 10, true),
        input: ContractInput::ProposalEdit { proposal_id: Some(3), at_block: None },
    }];
    let r = update_nearblocks_data(&mut db, &mut cursor, items, "next".to_string());
    assert!(matches!(r, Err(SyncError::ContractReadFailed)));
    assert!(db.get_proposal_with_all_snapshots(3).is_empty());
    assert_eq!(cursor.last_timestamp, 50);
    assert_eq!(cursor.last_block_height, 5);
    assert_eq!(cursor.pagination_cursor, "");
}

#[test]
fn rfp_edit_failure_is_an_error() {
    let mut db = DB::new();
    let t = tx("edit_rfp", "100", 10, true);
    let r = process_transaction(&mut db, &t, ContractInput::RfpEdit { rfp_id: Some(7), at_block: None });
    assert!(matches!(r, Err(SyncError::ContractReadFailed)));
    assert!(db.get_rfp_with_all_snapshots(7).is_empty());
}

#[test]
fn failed_batch_keeps_earlier_writes() {
    let mut db = DB::new();
    let items = vec![
        SyncItem {
            transaction: tx("set_block_height_callback", "100", 10, true),
            input: ContractInput::ProposalCallback { args: Some(proposal(1, "a", None)), current: None },
        },
        SyncItem {
            transaction: tx("edit_proposal", "200", 20, true),
            input: ContractInput::ProposalEdit { proposal_id: Some(1), at_block: None },
        },
        SyncItem {
            transaction: tx("set_block_height_callback", "300", 30, true),
            input: ContractInput::ProposalCallback { args: Some(proposal(2, "b", None)), current: None },
        },
    ];
    assert!(process(&mut db, items).is_err());
    assert_eq!(db.get_proposal_with_all_snapshots(1).len(), 1);
    assert!(db.get_proposal_with_all_snapshots(2).is_empty());
}

#[test]
fn linking_and_unlinking_updates_rfp() {
    let mut db = DB::new();
    let steps = vec![
        SyncItem {
            transaction: tx("set_rfp_block_height_callback", "100", 10, true),
            input: ContractInput::RfpCallback { args: Some(rfp(7, "rfp", vec![])), current: None },
        },
        SyncItem {
            transaction: tx("set_block_height_callback", "150", 15, true),
            input: ContractInput::ProposalCallback { args: Some(proposal(1, "p", None)), current: None },
        },
        SyncItem {
            transaction: tx("edit_proposal_linked_rfp", "200", 20, true),
            input: ContractInput::ProposalEdit { proposal_id: Some(1), at_block: Some(proposal(1, "p", Some(7))) },
        },
    ];
    assert!(process(&mut db, steps).is_ok());
    assert_eq!(rfp_links(&db, 7), vec![1]);
    let latest = db.get_latest_rfp_snapshot(7).unwrap();
    assert_eq!(latest.ts, 200);
    assert_eq!(latest.block_height, 20);
    assert_eq!(latest.name, Some("rfp".to_string()));

    let t = tx("edit_proposal_linked_rfp", "300", 30, true);
    let input = ContractInput::ProposalEdit { proposal_id: Some(1), at_block: Some(proposal(1, "p", None)) };
    assert!(process_transaction(&mut db, &t, input).is_ok());
    assert!(rfp_links(&db, 7).is_empty());
    assert_eq!(db.get_latest_rfp_snapshot(7).unwrap().ts, 300);
}

#[test]
fn moving_a_link_updates_both_rfps() {
    let mut db = DB::new();
    let steps = vec![
        SyncItem {
            transaction: tx("set_rfp_block_height_callback", "100", 10, true),
            input: ContractInput::RfpCallback { args: Some(rfp(7, "seven", vec![1])), current: None },
        },
        SyncItem {
            transaction: tx("set_rfp_block_height_callback", "110", 11, true),
            input: ContractInput::RfpCallback { args: Some(rfp(8, "eight", vec![])), current: None },
        },
        SyncItem {
            transaction: tx("set_block_height_callback", "150", 15, true),
            input: ContractInput::ProposalCallback { args: Some(proposal(1, "p", Some(7))), current: None },
        },
        SyncItem {
            transaction: tx("edit_proposal", "200", 20, true),
            input: ContractInput::ProposalEdit { proposal_id: Some(1), at_block: Some(proposal(1, "p", Some(8))) },
        },
    ];
    assert!(process(&mut db, steps).is_ok());
    assert!(rfp_links(&db, 7).is_empty());
    assert_eq!(rfp_links(&db, 8), vec![1]);
}

#[test]
fn unchanged_link_writes_no_rfp_snapshot() {
    let mut db = DB::new();
    let steps = vec![
        SyncItem {
            transaction: tx("set_rfp_block_height_callback", "100", 10, true),
            input: ContractInput::RfpCallback { args: Some(rfp(7, "rfp", vec![1])), current: None },
        },
        SyncItem {
            transaction: tx("set_block_height_callback", "150", 15, true),
            input: ContractInput::ProposalCallback { args: Some(proposal(1, "p", Some(7))), current: None },
        },
        SyncItem {
            transaction: tx("edit_proposal", "200", 20, true),
            input: ContractInput::ProposalEdit { proposal_id: Some(1), at_block: Some(proposal(1, "q", Some(7))) },
        },
    ];
    assert!(process(&mut db, steps).is_ok());
    assert_eq!(db.get_rfp_with_all_snapshots(7).len(), 1);
    assert_eq!(db.get_latest_proposal_snapshot(1).unwrap().name, Some("q".to_string()));
}

#[test]
fn unknown_method_is_skipped() {
    let mut db = DB::new();
    let t = tx("add_like", "100", 10, true);
    let input = ContractInput::ProposalCallback { args: Some(proposal(1, "p", None)), current: None };
    assert!(process_transaction(&mut db, &t, input).is_ok());
    assert!(db.get_proposal_with_latest_snapshot_by_id(1).is_none());
    assert_eq!(route_method("add_like"), Route::Unhandled);
}

#[test]
fn failed_receipt_is_skipped() {
    let mut db = DB::new();
    let t = tx("set_block_height_callback", "100", 10, false);
    assert_eq!(route_transaction(&t), Route::Unhandled);
    let input = ContractInput::ProposalCallback { args: Some(proposal(1, "p", None)), current: None };
    assert!(process_transaction(&mut db, &t, input).is_ok());
    assert!(db.get_latest_proposal_snapshot(1).is_none());
}

#[test]
fn undecodable_arguments_are_skipped() {
    let mut db = DB::new();
    let t = tx("edit_proposal", "100", 10, true);
    let r = process_transaction(&mut db, &t, ContractInput::ProposalEdit { proposal_id: None, at_block: None });
    assert!(r.is_ok());
    let t = tx("set_block_height_callback", "100", 10, true);
    let r = process_transaction(&mut db, &t, ContractInput::ProposalCallback { args: None, current: None });
    assert!(r.is_ok());
    assert!(db.get_latest_proposal_snapshot(1).is_none());
}

#[test]
fn dispatch_table_routes_every_method() {
    assert_eq!(route_method("set_block_height_callback"), Route::ProposalCallback);
    for m in ["edit_proposal", "edit_proposal_timeline", "edit_proposal_versioned_timeline", "edit_proposal_linked_rfp", "edit_proposal_internal"] {
        assert_eq!(route_method(m), Route::ProposalEdit);
    }
    assert_eq!(route_method("set_rfp_block_height_callback"), Route::RfpCallback);
    for m in ["edit_rfp", "edit_rfp_internal", "edit_rfp_timeline", "cancel_rfp"] {
        assert_eq!(route_method(m), Route::RfpEdit);
    }
    assert_eq!(route_method(""), Route::Unhandled);
    assert_eq!(route_method("edit_proposals"), Route::Unhandled);
}

fn replay_batch() -> Vec<SyncItem> {
    vec![
        SyncItem {
            transaction: tx("set_rfp_block_height_callback", "100", 10, true),
            input: ContractInput::RfpCallback { args: Some(rfp(7, "rfp", vec![])), current: None },
        },
        SyncItem {
            transaction: tx("set_block_height_callback", "150", 15, true),
            input: ContractInput::ProposalCallback { args: Some(proposal(1, "p", None)), current: None },
        },
        SyncItem {
            transaction: tx("edit_proposal", "200", 20, true),
            input: ContractInput::ProposalEdit { proposal_id: Some(1), at_block: Some(proposal(1, "p2", Some(7))) },
        },
        SyncItem {
            transaction: tx("edit_proposal", "300", 30, true),
            input: ContractInput::ProposalEdit { proposal_id: Some(1), at_block: Some(proposal(1, "p3", None)) },
        },
        SyncItem {
            transaction: tx("edit_rfp", "400", 40, true),
            input: ContractInput::RfpEdit { rfp_id: Some(7), at_block: Some(rfp(7, "rfp2", vec![])) },
        },
    ]
}

fn fingerprint(db: &DB) -> Vec<(i32, i64, Option<String>, Option<Vec<i32>>)> {
    let mut out = Vec::new();
    for s in db.get_proposal_with_all_snapshots(1) {
        out.push((s.proposal_id, s.ts, s.name, s.linked_proposals));
    }
    for s in db.get_rfp_with_all_snapshots(7) {
        out.push((s.rfp_id, s.ts, s.name, s.linked_proposals));
    }
    out.sort();
    out
}

#[test]
fn replaying_a_batch_changes_nothing() {
    let mut db = DB::new();
    assert!(process(&mut db, replay_batch()).is_ok());
    let first = fingerprint(&db);
    assert_eq!(first.len(), 7);
    assert!(process(&mut db, replay_batch()).is_ok());
    assert_eq!(fingerprint(&db), first);
}

#[test]
fn cursor_moves_to_last_transaction() {
    let mut db = DB::new();
    let mut cursor = SyncCursor::new();
    let items = vec![
        SyncItem { transaction: tx("add_like", "100", 10, true), input: ContractInput::Nothing },
        SyncItem { transaction: tx("add_like", "200", 20, true), input: ContractInput::Nothing },
    ];
    assert!(update_nearblocks_data(&mut db, &mut cursor, items, "c2".to_string()).is_ok());
    assert_eq!(cursor.last_timestamp, 200);
    assert_eq!(cursor.last_block_height, 20);
    assert_eq!(cursor.pagination_cursor, "c2");
    let info = cursor.get_last_updated_info();
    assert_eq!((info.after_date, info.after_block), (200, 20));

    assert!(update_nearblocks_data(&mut db, &mut cursor, vec![], "c3".to_string()).is_ok());
    assert_eq!(cursor.last_timestamp, 200);
    assert_eq!(cursor.pagination_cursor, "c2");

    cursor.reset();
    assert_eq!((cursor.last_timestamp, cursor.last_block_height), (0, 0));
    assert_eq!(cursor.pagination_cursor, "");
}

#[test]
fn unreadable_timestamp_is_skipped() {
    let mut db = DB::new();
    let t = tx("set_block_height_callback", "12a", 10, true);
    let input = ContractInput::ProposalCallback { args: Some(proposal(1, "p", None)), current: None };
    assert!(process_transaction(&mut db, &t, input).is_ok());
    assert!(db.get_latest_proposal_snapshot(1).is_none());
    let snap = ProposalSnapshotRecord::from_contract_proposal(proposal(1, "p", None), "x".to_string(), 3);
    assert_eq!(snap.ts, 0);
    let snap = ProposalSnapshotRecord::from_contract_proposal(proposal(1, "p", None), "-42".to_string(), 3);
    assert_eq!(snap.ts, -42);
}

#[test]
fn pages_round_up() {
    assert_eq!(PaginatedResponse::<u8>::new(vec![], 1, 10, 25).total_pages, 3);
    assert_eq!(PaginatedResponse::<u8>::new(vec![], 1, 10, 20).total_pages, 2);
    assert_eq!(PaginatedResponse::<u8>::new(vec![], 1, 10, 0).total_pages, 0);
    assert_eq!(PaginatedResponse::<u8>::new(vec![], 1, 1, u64::MAX).total_pages, u64::MAX);
}

#[test]
fn read_heights() {
    let t = tx("edit_proposal", "100", 1000, true);
    assert_eq!(proposal_read_height(&t), 1010);
    assert_eq!(rfp_read_height(&t), 1000);
    let t = tx("edit_proposal", "100", i64::MAX - 3, true);
    assert_eq!(proposal_read_height(&t), i64::MAX);
}

#[test]
fn contract_queries_are_framed() {
    assert_eq!(id_args_json("proposal_id", 5), "{\"proposal_id\":5}");
    let q = get_proposal_on_block("devhub.near", 5, 1234);
    assert_eq!(q.request_type, "call_function");
    assert_eq!(q.account_id, "devhub.near");
    assert_eq!(q.method_name, "get_proposal");
    assert_eq!(q.block_id, 1234);
    assert_eq!(q.args_base64, "eyJwcm9wb3NhbF9pZCI6NX0=");
    let q = get_rfp_on_block("devhub.near", -12, 1);
    assert_eq!(q.method_name, "get_rfp");
    assert_eq!(q.args_base64, "eyJyZnBfaWQiOi0xMn0=");
}

#[test]
fn query_result_codes_decode() {
    assert_eq!(decode_query_result(&vec![123, 34, 97, 34, 125]), "{\"a\"}");
    assert_eq!(decode_query_result(&vec![321]), "A");
    assert_eq!(decode_query_result(&vec![]), "");
}

#[test]
fn feed_walk_follows_cursors() {
    let client = ApiClient::new("SECRET-REDACTED".to_string());
    assert_eq!(client.authorization(), "Bearer SECRET-REDACTED");
    let mut fetch = FeedFetch::start();
    assert_eq!(
        fetch.next_url(&client, "devhub.near", Some(77)),
        "https://api.nearblocks.io/v1/account/devhub.near/txns?per_page=25&order=asc&page=1&after_block=77"
    );
    fetch.on_page(Some(ApiResponse { txns: vec![tx("a", "1", 1, true)], cursor: Some("c1".to_string()) }));
    assert!(!fetch.finished);
    assert_eq!(
        fetch.next_url(&client, "devhub.near", Some(77)),
        "https://api.nearblocks.io/v1/account/devhub.near/txns?per_page=25&order=asc&page=1&cursor=c1"
    );
    fetch.on_page(Some(ApiResponse { txns: vec![tx("b", "2", 2, true), tx("c", "3", 3, true)], cursor: None }));
    assert!(fetch.finished);
    assert_eq!(fetch.transactions.len(), 3);
    assert_eq!(fetch.transactions[2].block_timestamp, "3");
    assert_eq!(fetch.cursor, "");
}

#[test]
fn feed_walk_stops_on_error_or_empty_cursor() {
    let mut fetch = FeedFetch::start();
    fetch.on_page(Some(ApiResponse { txns: vec![], cursor: Some("c1".to_string()) }));
    fetch.on_page(None);
    assert!(fetch.finished);
    assert_eq!(fetch.cursor, "c1");
    let mut fetch = FeedFetch::start();
    fetch.on_page(Some(ApiResponse { txns: vec![], cursor: Some(String::new()) }));
    assert!(fetch.finished);
}

#[test]
fn linked_lists_add_and_remove() {
    assert_eq!(add_to_linked_proposals(vec![1, 2], 3), vec![1, 2, 3]);
    assert_eq!(add_to_linked_proposals(vec![1, 2], 2), vec![1, 2]);
    assert_eq!(remove_from_linked_proposals(vec![2, 1, 2, 3], 2), vec![1, 3]);
    assert_eq!(remove_from_linked_proposals(vec![], 2), Vec::<i32>::new());
    assert_eq!(LinkedProposals::from(None).0, Vec::<i32>::new());
    assert_eq!(LinkedProposals::from(Some(vec![4])).into_stored(), Some(vec![4]));
}

#[test]
fn body_accessors_cover_versions() {
    let v0 = VersionedProposalBody::V0(ProposalBodyV0 {
        name: "n".to_string(),
        category: "c".to_string(),
        summary: "s".to_string(),
        description: "d".to_string(),
        linked_proposals: vec![],
        requested_sponsorship_usd_amount: 5,
        requested_sponsorship_paid_in_currency: ProposalFundingCurrency::NEAR,
        receiver_account: "r.near".to_string(),
        requested_sponsor: "s.near".to_string(),
        supervisor: Some("v.near".to_string()),
        timeline: "{}".to_string(),
    });
    assert_eq!(v0.get_linked_rfp(), None);
    assert_eq!(v0.get_name(), "n");
    assert_eq!(v0.get_supervisor(), Some("v.near".to_string()));
    assert_eq!(*v0.get_requested_sponsorship_usd_amount(), 5);
    assert_eq!(v0.get_requested_sponsorship_paid_in_currency(), "NEAR");
    assert_eq!(ProposalFundingCurrency::OTHER.to_string(), "OTHER");
    assert_eq!(ProposalFundingCurrency::USDT.to_string(), "USDT");
    let body = VersionedRFPBody::V0(RfpBodyV0 {
        name: "r".to_string(),
        summary: "s".to_string(),
        description: "d".to_string(),
        timeline: "{}".to_string(),
        submission_deadline: u64::MAX,
    });
    assert_eq!(body.get_submission_deadline(), 0);
    let snap = RfpSnapshotRecord::from_contract_rfp(rfp(9, "r", vec![3]), 55, 6);
    assert_eq!((snap.rfp_id, snap.ts, snap.block_height, snap.submission_deadline), (9, 55, 6, 99));
    assert_eq!(snap.views, Some(0));
    assert_eq!(snap.category, None);
    assert_eq!(snap.linked_proposals, Some(vec![3]));
}

#[test]
fn admin_removals() {
    let mut db = DB::new();
    let items = vec![
        SyncItem {
            transaction: tx("set_block_height_callback", "100", 10, true),
            input: ContractInput::ProposalCallback { args: Some(proposal(1, "a", None)), current: None },
        },
        SyncItem {
            transaction: tx("set_block_height_callback", "110", 11, true),
            input: ContractInput::ProposalCallback { args: Some(proposal(2, "b", None)), current: None },
        },
        SyncItem {
            transaction: tx("set_rfp_block_height_callback", "120", 12, true),
            input: ContractInput::RfpCallback { args: Some(rfp(7, "r", vec![])), current: None },
        },
    ];
    assert!(process(&mut db, items).is_ok());
    db.remove_proposal_snapshots_by_id(1);
    assert!(db.get_proposal_with_all_snapshots(1).is_empty());
    assert_eq!(db.get_proposal_with_all_snapshots(2).len(), 1);
    db.remove_rfp_snapshots_by_rfp_id(7);
    assert!(db.get_rfp_with_all_snapshots(7).is_empty());
    db.remove_all_snapshots();
    assert!(db.get_proposal_with_all_snapshots(2).is_empty());
    db.remove_all_data();
    assert!(db.get_proposal_with_latest_snapshot_by_id(2).is_none());
    assert_eq!(robots(), "User-agent: *\nDisallow: /");
}

#[test]
fn edit_arguments_normalize() {
    let body = match proposal(8, "from args", Some(3)).snapshot.body {
        b => b,
    };
    let args = EditProposalArgs { id: 8, body, labels: vec!["x".to_string()] };
    let snap = ProposalSnapshotRecord::from_versioned_proposal_body(args, "77".to_string(), 9, "erin.near".to_string());
    assert_eq!((snap.proposal_id, snap.ts, snap.block_height), (8, 77, 9));
    assert_eq!(snap.editor_id, "erin.near");
    assert_eq!(snap.social_db_post_block_height, 0);
    assert_eq!(snap.linked_rfp, Some(3));
    assert_eq!(snap.name, Some("from args".to_string()));
    assert_eq!(snap.labels, vec!["x".to_string()]);
}

#[test]
fn dates_at_the_ends_of_the_range() {
    assert_eq!(devhub_cache_api::date::timestamp_to_date_string(i64::MIN), "1677-09-21");
    assert_eq!(devhub_cache_api::date::timestamp_to_date_string(i64::MAX), "2262-04-11");
    assert_eq!(devhub_cache_api::date::format_date(2024, 3, 7), "2024-03-07");
}

#[test]
fn undecodable_edit_id_is_an_error_for_that_transaction() {
    let mut db = DB::new();
    let t = tx("edit_proposal", "100", 10, true);
    let r = handle_edit_proposal(&mut db, &t, None, Some(proposal(1, "p", None)));
    assert_eq!(r, Err(SyncError::MalformedArgs));
    assert!(db.get_latest_proposal_snapshot(1).is_none());
    let t = tx("edit_rfp", "100", 10, true);
    assert_eq!(handle_edit_rfp(&mut db, &t, None, None), Err(SyncError::MalformedArgs));
    let t = tx("edit_proposal", "1x", 10, true);
    let r = handle_edit_proposal(&mut db, &t, Some(1), Some(proposal(1, "p", None)));
    assert_eq!(r, Err(SyncError::MalformedArgs));
    let items = vec![
        SyncItem {
            transaction: tx("edit_proposal", "100", 10, true),
            input: ContractInput::ProposalEdit { proposal_id: None, at_block: None },
        },
        SyncItem {
            transaction: tx("set_block_height_callback", "200", 20, true),
            input: ContractInput::ProposalCallback { args: Some(proposal(2, "b", None)), current: None },
        },
    ];
    assert!(process(&mut db, items).is_ok());
    assert_eq!(db.get_proposal_with_all_snapshots(2).len(), 1);
}

#[test]
fn rfp_bootstrap_skips_failed_receipt() {
    let mut db = DB::new();
    let t = tx("set_rfp_block_height_callback", "100", 10, false);
    handle_set_rfp_block_height_callback(&mut db, &t, SetRfpBlockHeightCallbackArgs { rfp: rfp(7, "r", vec![]) }, None);
    assert!(db.get_rfp_with_latest_snapshot_by_id(7).is_none());
}

#[test]
fn rfp_snapshots_are_dated_at_the_receipt_block() {
    let mut db = DB::new();
    let mut t = tx("set_rfp_block_height_callback", "100", 10, true);
    t.receipt_block = Block { block_hash: String::new(), block_height: 12, block_timestamp: 105 };
    handle_set_rfp_block_height_callback(&mut db, &t, SetRfpBlockHeightCallbackArgs { rfp: rfp(7, "r", vec![]) }, None);
    let snap = db.get_latest_rfp_snapshot(7).unwrap();
    assert_eq!((snap.ts, snap.block_height), (105, 12));
    let mut t = tx("edit_rfp", "200", 20, true);
    t.receipt_block = Block { block_hash: String::new(), block_height: 22, block_timestamp: 205 };
    assert!(handle_edit_rfp(&mut db, &t, Some(7), Some(rfp(7, "r2", vec![]))).is_ok());
    let snap = db.get_latest_rfp_snapshot(7).unwrap();
    assert_eq!((snap.ts, snap.block_height, snap.name), (205, 22, Some("r2".to_string())));
}

#[test]
fn watermark_never_moves_back() {
    let mut db = DB::new();
    let mut cursor = SyncCursor::new();
    cursor.set_timestamp(500);
    cursor.set_block_height(50);
    let items = vec![SyncItem { transaction: tx("add_like", "100", 10, true), input: ContractInput::Nothing }];
    assert!(update_nearblocks_data(&mut db, &mut cursor, items, "c".to_string()).is_ok());
    assert_eq!((cursor.last_timestamp, cursor.last_block_height), (500, 50));
    assert_eq!(cursor.pagination_cursor, "c");
}

#[test]
fn history_is_newest_first() {
    let mut db = DB::new();
    for ts in ["5", "10", "7"] {
        let snap = ProposalSnapshotRecord::from_contract_proposal(proposal(1, ts, None), ts.to_string(), 1);
        db.insert_proposal_snapshot(snap);
    }
    let ts: Vec<i64> = db.get_proposal_with_all_snapshots(1).iter().map(|s| s.ts).collect();
    assert_eq!(ts, vec![10, 7, 5]);
}
