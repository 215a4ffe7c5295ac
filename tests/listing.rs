use devhub_cache_api::contract::{
    Proposal, ProposalBodyV2, ProposalFundingCurrency, ProposalSnapshot, RFPSnapshot, RfpBodyV0,
    VersionedProposalBody, VersionedRFPBody, RFP,
};
use devhub_cache_api::listing::{parse_order, text_contains, ListOrder};
use devhub_cache_api::reconcile::{process, ContractInput, SyncItem};
use devhub_cache_api::records::{GetProposalFilters, GetRfpFilters};
use devhub_cache_api::search::{remove_first, separate_at, separate_number_and_text, trim_text, ProposalIds};
use devhub_cache_api::store::DB;
use devhub_cache_api::transaction::{Action, Block, BlockInfo, Outcomes, ReceiptOutcome, Transaction};

fn tx(method: &str, ts: &str) -> Transaction {
    Transaction {
        id: String::new(),
        receipt_id: String::new(),
        predecessor_account_id: String::new(),
        receiver_account_id: String::new(),
        receipt_kind: String::new(),
        receipt_block: Block { block_hash: String::new(), block_height: 1, block_timestamp: ts.parse().unwrap_or(0) },
        receipt_outcome: ReceiptOutcome { executor_account_id: String::new(), status: true },
        transaction_hash: String::new(),
        included_in_block_hash: String::new(),
        block_timestamp: ts.to_string(),
        block: BlockInfo { block_height: 1 },
        receipt_conversion_tokens_burnt: String::new(),
        actions: Some(vec![Action { action: "FUNCTION_CALL".to_string(), method: Some(method.to_string()), args: None }]),
        outcomes: Outcomes { status: true },
    }
}

fn proposal(id: u32, author: &str, category: &str, label: &str, stage: &str) -> Proposal {
    Proposal {
        id,
        author_id: author.to_string(),
        social_db_post_block_height: 0,
        snapshot: ProposalSnapshot {
            editor_id: author.to_string(),
            timestamp: 0,
            labels: vec![label.to_string()],
            body: VersionedProposalBody::V2(ProposalBodyV2 {
                name: format!("p{}", id),
                category: category.to_string(),
                summary: String::new(),
                description: String::new(),
                linked_proposals: vec![],
                requested_sponsorship_usd_amount: 0,
                requested_sponsorship_paid_in_currency: ProposalFundingCurrency::NEAR,
                receiver_account: String::new(),
                requested_sponsor: String::new(),
                supervisor: None,
                timeline: format!("{{\"status\":\"{}\"}}", stage),
                linked_rfp: None,
            }),
        },
    }
}

fn store() -> DB {
    let mut db = DB::new();
    let items = vec![
        SyncItem {
            transaction: tx("set_block_height_callback", "300"),
            input: ContractInput::ProposalCallback { args: Some(proposal(1, "alice.near", "Tooling", "infra", "DRAFT")), current: None },
        },
        SyncItem {
            transaction: tx("set_block_height_callback", "100"),
            input: ContractInput::ProposalCallback { args: Some(proposal(2, "bob.near", "Events", "events", "REVIEW")), current: None },
        },
        SyncItem {
            transaction: tx("set_block_height_callback", "200"),
            input: ContractInput::ProposalCallback { args: Some(proposal(3, "alice.near", "Events", "infra", "CONDITIONALLY_APPROVED")), current: None },
        },
    ];
    assert!(process(&mut db, items).is_ok());
    db
}

fn ids(page: &[devhub_cache_api::records::ProposalSnapshotRecord]) -> Vec<i32> {
    page.iter().map(|s| s.proposal_id).collect()
}

fn no_filters() -> GetProposalFilters {
    GetProposalFilters { category: None, labels: None, input: None, author_id: None, stage: None, block_timestamp: None }
}

#[test]
fn listing_orders() {
    let db = store();
    let (page, total) = db.get_proposals_with_latest_snapshot(10, "id_asc", 0, &None).unwrap();
    assert_eq!(ids(&page), vec![1, 2, 3]);
    assert_eq!(total, 3);
    let (page, _) = db.get_proposals_with_latest_snapshot(10, "whatever", 0, &None).unwrap();
    assert_eq!(ids(&page), vec![3, 2, 1]);
    let (page, _) = db.get_proposals_with_latest_snapshot(10, "TS_ASC", 0, &None).unwrap();
    assert_eq!(ids(&page), vec![2, 3, 1]);
    let (page, _) = db.get_proposals_with_latest_snapshot(10, "ts_desc", 0, &None).unwrap();
    assert_eq!(ids(&page), vec![1, 3, 2]);
    assert_eq!(parse_order("Id_Asc"), ListOrder::IdAsc);
}

#[test]
fn listing_pages() {
    let db = store();
    let (page, total) = db.get_proposals_with_latest_snapshot(2, "id_asc", 1, &None).unwrap();
    assert_eq!(ids(&page), vec![2, 3]);
    assert_eq!(total, 3);
    let (page, total) = db.get_proposals_with_latest_snapshot(2, "id_asc", 5, &None).unwrap();
    assert!(page.is_empty());
    assert_eq!(total, 3);
    assert!(db.get_proposals_with_latest_snapshot(-1, "id_asc", 0, &None).is_none());
    assert!(db.get_proposals_with_latest_snapshot(1, "id_asc", -1, &None).is_none());
}

#[test]
fn listing_filters() {
    let db = store();
    let f = GetProposalFilters { author_id: Some("alice.near".to_string()), ..no_filters() };
    let (page, total) = db.get_proposals_with_latest_snapshot(10, "id_asc", 0, &Some(f)).unwrap();
    assert_eq!((ids(&page), total), (vec![1, 3], 2));

    let f = GetProposalFilters { block_timestamp: Some(100), ..no_filters() };
    let (page, _) = db.get_proposals_with_latest_snapshot(10, "id_asc", 0, &Some(f)).unwrap();
    assert_eq!(ids(&page), vec![1, 3]);

    let f = GetProposalFilters { category: Some("Events".to_string()), ..no_filters() };
    let (page, _) = db.get_proposals_with_latest_snapshot(10, "id_asc", 0, &Some(f)).unwrap();
    assert_eq!(ids(&page), vec![2, 3]);

    let f = GetProposalFilters { labels: Some(vec!["nope".to_string(), "infra".to_string()]), ..no_filters() };
    let (page, _) = db.get_proposals_with_latest_snapshot(10, "id_asc", 0, &Some(f)).unwrap();
    assert_eq!(ids(&page), vec![1, 3]);

    let f = GetProposalFilters { stage: Some("draft".to_string()), ..no_filters() };
    let (page, _) = db.get_proposals_with_latest_snapshot(10, "id_asc", 0, &Some(f)).unwrap();
    assert_eq!(ids(&page), vec![1]);

    let f = GetProposalFilters { stage: Some("conditional".to_string()), ..no_filters() };
    let (page, _) = db.get_proposals_with_latest_snapshot(10, "id_asc", 0, &Some(f)).unwrap();
    assert_eq!(ids(&page), vec![3]);

    let f = GetProposalFilters { stage: Some("unknown".to_string()), ..no_filters() };
    let (page, _) = db.get_proposals_with_latest_snapshot(10, "id_asc", 0, &Some(f)).unwrap();
    assert_eq!(ids(&page), vec![1, 2, 3]);
}

#[test]
fn rfp_listing() {
    let mut db = DB::new();
    let rfp = |id: u32, deadline: u64| RFP {
        id,
        author_id: "dave.near".to_string(),
        social_db_post_block_height: 0,
        snapshot: RFPSnapshot {
            editor_id: "dave.near".to_string(),
            timestamp: 0,
            labels: vec![],
            linked_proposals: vec![],
            body: VersionedRFPBody::V0(RfpBodyV0 {
                name: String::new(),
                summary: String::new(),
                description: String::new(),
                timeline: "{\"status\":\"EVALUATION\"}".to_string(),
                submission_deadline: deadline,
            }),
        },
    };
    let items = vec![
        SyncItem { transaction: tx("set_rfp_block_height_callback", "10"), input: ContractInput::RfpCallback { args: Some(rfp(4, 1)), current: None } },
        SyncItem { transaction: tx("set_rfp_block_height_callback", "20"), input: ContractInput::RfpCallback { args: Some(rfp(9, 2)), current: None } },
    ];
    assert!(process(&mut db, items).is_ok());
    let (page, total) = db.get_rfps_with_latest_snapshot(10, "id_desc", 0, &None).unwrap();
    assert_eq!(page.iter().map(|s| s.rfp_id).collect::<Vec<_>>(), vec![9, 4]);
    assert_eq!(total, 2);
    let f = GetRfpFilters { category: None, labels: None, input: None, author_id: None, stage: Some("Evaluation".to_string()), block_timestamp: None };
    let (page, _) = db.get_rfps_with_latest_snapshot(10, "id_asc", 0, &Some(f)).unwrap();
    assert_eq!(page.len(), 2);
    let f = GetRfpFilters { category: None, labels: None, input: None, author_id: None, stage: Some("cancelled".to_string()), block_timestamp: None };
    let (page, _) = db.get_rfps_with_latest_snapshot(10, "id_asc", 0, &Some(f)).unwrap();
    assert!(page.is_empty());
}

#[test]
fn substring_search() {
    assert!(text_contains("abcabd", "abd"));
    assert!(text_contains("abc", ""));
    assert!(!text_contains("ab", "abc"));
    assert!(!text_contains("abcab", "abd"));
}

#[test]
fn search_input_edge_cases() {
    assert_eq!(separate_number_and_text("  rfp 12 and 34 "), (Some(12), "rfp  and 34".to_string()));
    assert_eq!(separate_number_and_text("99999999999 big"), (None, "99999999999 big".to_string()));
    assert_eq!(separate_at("a 7 b", Some("7".to_string())), (Some(7), "a  b".to_string()));
    assert_eq!(remove_first("abcabc", "bc"), "aabc");
    assert_eq!(remove_first("abc", "x"), "abc");
}

#[test]
fn proposal_id_lists() {
    assert_eq!(ProposalIds::from_param("1,2,3").unwrap().0, vec![1, 2, 3]);
    assert_eq!(ProposalIds::from_param("-5").unwrap().0, vec![-5]);
    assert!(ProposalIds::from_param("1,x").is_none());
    assert!(ProposalIds::from_param("1,,2").is_none());
    assert!(ProposalIds::from_param("").is_none());
    assert!(ProposalIds::from_param("1, 2").is_none());
}

#[test]
fn trimming_follows_unicode_white_space() {
    assert_eq!(trim_text("\u{a0} a b \u{2028}"), "a b");
    assert_eq!(trim_text(" \t\n"), "");
    assert_eq!(trim_text("x\u{200b}"), "x\u{200b}");
    assert_eq!(separate_number_and_text("\u{3000}5 x\t"), (Some(5), "x".to_string()));
}
