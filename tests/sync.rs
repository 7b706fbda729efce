use gigpilot_core::conflict::{has_conflict, resolve_conflict, ConflictStrategy};
use gigpilot_core::json::JsonValue;
use gigpilot_core::models::{InvoiceStatus, SyncOperation};
use gigpilot_core::payload::PayloadError;
use gigpilot_core::pull::{get_changes, list_changes, PullRequest, PullResponse};
use gigpilot_core::push::{apply_change, push_changes, PushChange, PushError, PushRequest};
use gigpilot_core::store::{InvoicePatch, StoreError, SyncStore};
use gigpilot_core::versions::merge_versions;

const USER: u128 = 0xaaaa_0000_0000_0000_0000_0000_0000_0001;
const OTHER_USER: u128 = 0xbbbb_0000_0000_0000_0000_0000_0000_0002;
const INVOICE: u128 = 0x1111_1111_1111_1111_1111_1111_1111_1111;
const INVOICE_TEXT: &str = "11111111-1111-1111-1111-111111111111";
/// 2024-01-01T00:00:00Z
const T_2024: i64 = 1_704_067_200_000_000;
/// 2025-06-01T12:00:00Z
const T_NOON: i64 = 1_748_779_200_000_000;
/// 2025-06-01T11:00:00Z
const T_ELEVEN: i64 = 1_748_775_600_000_000;

fn s(x: &str) -> JsonValue {
    JsonValue::Str(x.to_string())
}

fn obj(pairs: Vec<(&str, JsonValue)>) -> JsonValue {
    JsonValue::Object(pairs.into_iter().map(|(k, v)| (k.to_string(), v)).collect())
}

fn invoice_data(number: &str, client: &str, amount: &str) -> JsonValue {
    obj(vec![
        ("invoice_number", s(number)),
        ("client_name", s(client)),
        ("amount", s(amount)),
        ("currency", s("USD")),
        ("status", s("draft")),
        ("issue_date", s("2025-01-01")),
    ])
}

fn change(id: u128, data: Option<JsonValue>, deleted: bool) -> PushChange {
    PushChange {
        table: "invoices".to_string(),
        id,
        data,
        deleted,
        device_id: Some("test-device".to_string()),
        version_vector: None,
    }
}

fn push(store: &mut SyncStore, user: u128, changes: Vec<PushChange>, now: i64) -> gigpilot_core::push::PushResponse {
    push_changes(store, user, PushRequest { changes, device_id: Some("test-device".to_string()) }, now)
        .expect("Push should succeed")
}

fn pull(store: &SyncStore, user: u128, since: Option<i64>, now: i64) -> PullResponse {
    get_changes(store, user, PullRequest { last_pulled_at: since, device_id: None }, now)
}

fn str_member<'a>(v: &'a JsonValue, key: &str) -> Option<&'a str> {
    v.get_str(key).map(|x| x.as_str())
}

fn bucket_ids(resp: &PullResponse) -> Vec<String> {
    let mut ids = Vec::new();
    for t in &resp.changes.tables {
        for v in t.created.iter().chain(t.updated.iter()).chain(t.deleted.iter()) {
            ids.push(str_member(v, "id").unwrap().to_string());
        }
    }
    ids
}

#[test]
fn test_push_changes_updates_database() {
    let mut store = SyncStore::new();
    let data = obj(vec![
        ("invoice_number", s("INV-001")),
        ("client_name", s("Test Client")),
        ("client_email", s("test@example.com")),
        ("amount", s("100.00")),
        ("currency", s("USD")),
        ("status", s("draft")),
        ("issue_date", s("2024-01-01")),
        ("last_modified", s("2024-01-01T00:00:00+00:00")),
    ]);
    let response = push(&mut store, USER, vec![change(INVOICE, Some(data), false)], T_2024);
    assert_eq!(response.applied, 1);
    assert_eq!(response.conflicts, 0);
    let inv = store.invoices.iter().find(|i| i.id == INVOICE && i.user_id == USER);
    assert!(inv.is_some(), "Invoice should be created");
    let inv = inv.unwrap();
    assert_eq!(inv.invoice_number, "INV-001");
    assert_eq!(inv.client_name, "Test Client");
    let sync_change = store.changes.iter().find(|c| c.record_id == INVOICE && c.user_id == USER);
    assert!(sync_change.is_some(), "Sync change should be recorded");
}

#[test]
fn test_push_update_existing_invoice() {
    let mut store = SyncStore::new();
    push(&mut store, USER, vec![change(INVOICE, Some(invoice_data("INV-001", "Original Client", "100.00")), false)], T_2024);
    let update = obj(vec![
        ("invoice_number", s("INV-001")),
        ("client_name", s("Updated Client")),
        ("amount", s("150.00")),
        ("currency", s("USD")),
        ("status", s("sent")),
        ("issue_date", s("2024-01-01")),
        ("last_modified", s("2024-01-01T00:00:00Z")),
    ]);
    let response = push(&mut store, USER, vec![change(INVOICE, Some(update), false)], T_2024 + 1_000_000);
    assert_eq!(response.applied, 1);
    let inv = store.invoices.iter().find(|i| i.id == INVOICE && i.user_id == USER).expect("Invoice should exist");
    assert_eq!(inv.client_name, "Updated Client");
    assert_eq!((inv.amount.mantissa, inv.amount.scale), (15000, 2));
    assert_eq!(inv.status, InvoiceStatus::Sent);
}

#[test]
fn first_pull_of_new_user_is_empty() {
    let store = SyncStore::new();
    let resp = pull(&store, USER, None, T_NOON);
    assert!(resp.changes.tables.is_empty());
    assert_eq!(resp.timestamp, T_NOON);
}

#[test]
fn push_create_then_pull_returns_created_record() {
    let mut store = SyncStore::new();
    let response = push(&mut store, USER, vec![change(INVOICE, Some(invoice_data("INV-1", "Alice", "100.00")), false)], T_NOON);
    assert_eq!(response.applied, 1);
    assert_eq!(response.conflicts, 0);
    assert!(response.conflicted_ids.is_empty());
    assert_eq!(response.timestamp, T_NOON);
    let resp = pull(&store, USER, Some(T_ELEVEN), T_NOON + 1);
    assert_eq!(resp.changes.tables.len(), 1);
    let t = &resp.changes.tables[0];
    assert_eq!(t.table, "invoices");
    assert_eq!(t.created.len(), 1);
    assert!(t.updated.is_empty() && t.deleted.is_empty());
    assert_eq!(str_member(&t.created[0], "id"), Some(INVOICE_TEXT));
    assert_eq!(str_member(&t.created[0], "invoice_number"), Some("INV-1"));
}

#[test]
fn stale_update_conflicts_and_server_wins() {
    let mut store = SyncStore::new();
    push(&mut store, USER, vec![change(INVOICE, Some(invoice_data("INV-1", "Alice", "100.00")), false)], T_NOON);
    let stale = obj(vec![
        ("client_name", s("Mallory")),
        ("last_modified", s("2025-06-01T11:00:00Z")),
    ]);
    let response = push(&mut store, USER, vec![change(INVOICE, Some(stale), false)], T_NOON + 5_000_000);
    assert_eq!(response.applied, 0);
    assert_eq!(response.conflicts, 1);
    assert_eq!(response.conflicted_ids, vec![INVOICE]);
    let inv = store.invoices.iter().find(|i| i.id == INVOICE).unwrap();
    assert_eq!(inv.client_name, "Alice");
    assert_eq!(inv.last_modified, T_NOON);
    let last = store.changes.last().unwrap();
    assert!(last.is_conflict);
    assert_eq!(last.operation, SyncOperation::Update);
}

#[test]
fn differing_version_vectors_conflict() {
    let mut store = SyncStore::new();
    let mut first = change(INVOICE, Some(invoice_data("INV-1", "Alice", "1")), false);
    first.version_vector = Some(obj(vec![("phone", JsonValue::Int(1))]));
    push(&mut store, USER, vec![first], T_NOON);
    let same = obj(vec![("phone", JsonValue::Int(1))]);
    let other = obj(vec![("phone", JsonValue::Int(2))]);
    assert!(!has_conflict(&store, USER, "invoices", INVOICE, Some(&same), None));
    assert!(has_conflict(&store, USER, "invoices", INVOICE, Some(&other), None));
    assert!(has_conflict(&store, USER, "invoices", INVOICE, None, Some(T_ELEVEN)));
    assert!(!has_conflict(&store, USER, "invoices", INVOICE, None, Some(T_NOON)));
    assert!(!has_conflict(&store, USER, "projects", INVOICE, Some(&other), Some(T_ELEVEN)));
    assert!(!has_conflict(&store, OTHER_USER, "invoices", INVOICE, Some(&other), Some(T_ELEVEN)));
}

#[test]
fn resolution_strategies() {
    let mut store = SyncStore::new();
    push(&mut store, USER, vec![change(INVOICE, Some(invoice_data("INV-1", "Alice", "100.00")), false)], T_NOON);
    let client = obj(vec![("client_name", s("Bob"))]);
    let server = resolve_conflict(&store, USER, "invoices", INVOICE, &client, ConflictStrategy::ServerWins, None, "d");
    assert_eq!(str_member(&server, "client_name"), Some("Alice"));
    assert_eq!(str_member(&server, "amount"), Some("100.00"));
    assert_eq!(str_member(&server, "id"), Some(INVOICE_TEXT));
    assert_eq!(str_member(&server, "issue_date"), Some("2025-01-01"));
    let theirs = resolve_conflict(&store, USER, "invoices", INVOICE, &client, ConflictStrategy::ClientWins, None, "d");
    assert_eq!(str_member(&theirs, "client_name"), Some("Bob"));
    let later = resolve_conflict(&store, USER, "invoices", INVOICE, &client, ConflictStrategy::LastWriteWins, Some(T_NOON + 1), "a");
    assert_eq!(str_member(&later, "client_name"), Some("Bob"));
    let earlier = resolve_conflict(&store, USER, "invoices", INVOICE, &client, ConflictStrategy::LastWriteWins, Some(T_ELEVEN), "zzz");
    assert_eq!(str_member(&earlier, "client_name"), Some("Alice"));
    // equal instants: the greater device identifier wins ("test-device" made the server's write)
    let tie_lose = resolve_conflict(&store, USER, "invoices", INVOICE, &client, ConflictStrategy::LastWriteWins, Some(T_NOON), "alpha");
    assert_eq!(str_member(&tie_lose, "client_name"), Some("Alice"));
    let tie_win = resolve_conflict(&store, USER, "invoices", INVOICE, &client, ConflictStrategy::LastWriteWins, Some(T_NOON), "zulu");
    assert_eq!(str_member(&tie_win, "client_name"), Some("Bob"));
    let missing = resolve_conflict(&store, USER, "invoices", 42, &client, ConflictStrategy::ServerWins, None, "d");
    assert_eq!(str_member(&missing, "client_name"), Some("Bob"));
}

#[test]
fn soft_delete_hides_invoice_from_overdue_scan() {
    let mut store = SyncStore::new();
    let mut data = invoice_data("INV-1", "Alice", "100.00");
    if let JsonValue::Object(ref mut m) = data {
        m.push(("due_date".to_string(), s("2025-01-01")));
    }
    push(&mut store, USER, vec![change(INVOICE, Some(data), false)], T_ELEVEN);
    let today = 739_403; // 2025-06-01
    assert_eq!(store.fetch_overdue_invoices(today, 100), vec![0]);
    let response = push(&mut store, USER, vec![change(INVOICE, None, true)], T_NOON);
    assert_eq!(response.applied, 1);
    assert!(store.invoices[0].is_deleted);
    assert!(store.fetch_overdue_invoices(today, 100).is_empty());
}

#[test]
fn pull_from_returned_timestamp_is_empty() {
    let mut store = SyncStore::new();
    push(&mut store, USER, vec![change(INVOICE, Some(invoice_data("INV-1", "Alice", "1")), false)], T_NOON);
    let first = pull(&store, USER, None, T_NOON + 10);
    assert_eq!(bucket_ids(&first), vec![INVOICE_TEXT.to_string()]);
    let second = pull(&store, USER, Some(first.timestamp), T_NOON + 20);
    assert!(second.changes.tables.is_empty());
}

#[test]
fn push_then_pull_returns_exactly_the_pushed_ids() {
    let mut store = SyncStore::new();
    push(&mut store, USER, vec![change(7, Some(invoice_data("INV-7", "Old", "1")), false)], T_ELEVEN);
    let before = pull(&store, USER, None, T_ELEVEN).timestamp;
    let ids = [1u128, 2, 3];
    let changes = ids.iter().map(|&id| change(id, Some(invoice_data(&format!("INV-{}", id), "C", "1")), false)).collect();
    let response = push(&mut store, USER, changes, T_NOON);
    assert_eq!(response.applied, 3);
    let after = pull(&store, USER, Some(before), T_NOON);
    let expected: Vec<String> = ids
        .iter()
        .map(|&id| format!("00000000-0000-0000-0000-00000000000{}", id))
        .collect();
    assert_eq!(bucket_ids(&after), expected);
}

#[test]
fn deleted_record_is_pulled_as_deleted_and_not_resurrected() {
    let mut store = SyncStore::new();
    push(&mut store, USER, vec![change(INVOICE, Some(invoice_data("INV-1", "Alice", "1")), false)], T_ELEVEN);
    push(&mut store, USER, vec![change(INVOICE, None, true)], T_NOON);
    let resp = pull(&store, USER, Some(T_ELEVEN), T_NOON);
    let t = &resp.changes.tables[0];
    assert_eq!(t.deleted.len(), 1);
    assert_eq!(str_member(&t.deleted[0], "id"), Some(INVOICE_TEXT));
    assert_eq!(str_member(&t.deleted[0], "invoice_number"), Some("INV-1"));
    // a later insert of the same id is refused and the row stays deleted
    let again = change(INVOICE, Some(invoice_data("INV-1", "Alice", "1")), false);
    assert_eq!(
        apply_change(&mut store, USER, &again, "d", ConflictStrategy::ServerWins, T_NOON + 1),
        Err(PushError::Store(StoreError::DuplicateId))
    );
    let response = push(&mut store, USER, vec![again], T_NOON + 2);
    assert_eq!((response.applied, response.conflicts), (0, 0));
    assert!(store.invoices[0].is_deleted);
}

#[test]
fn users_never_see_each_others_records() {
    let mut store = SyncStore::new();
    push(&mut store, USER, vec![change(INVOICE, Some(invoice_data("INV-1", "Alice", "1")), false)], T_NOON);
    assert!(pull(&store, OTHER_USER, None, T_NOON).changes.tables.is_empty());
    // the other user cannot overwrite the record: to them it does not exist
    let response = push(&mut store, OTHER_USER, vec![change(INVOICE, Some(invoice_data("X", "Eve", "1")), false)], T_NOON + 1);
    assert_eq!((response.applied, response.conflicts), (0, 0));
    assert_eq!(store.invoices[0].client_name, "Alice");
    assert!(pull(&store, OTHER_USER, None, T_NOON + 2).changes.tables.is_empty());
}

#[test]
fn change_log_is_ordered_by_time_and_sequence() {
    let mut store = SyncStore::new();
    push(&mut store, USER, vec![change(1, Some(invoice_data("A", "C", "1")), false)], T_NOON);
    // a clock that runs backwards does not reorder the log
    push(&mut store, USER, vec![change(2, Some(invoice_data("B", "C", "1")), false), change(1, None, true)], T_ELEVEN);
    let log = &store.changes;
    assert_eq!(log.len(), 3);
    for w in log.windows(2) {
        assert!(w[0].change_timestamp <= w[1].change_timestamp);
        assert!(w[0].sequence_number < w[1].sequence_number);
    }
    assert_eq!(log[2].change_timestamp, T_NOON);
}

#[test]
fn last_modified_never_decreases() {
    let mut store = SyncStore::new();
    push(&mut store, USER, vec![change(INVOICE, Some(invoice_data("INV-1", "Alice", "1")), false)], T_NOON);
    let update = obj(vec![("client_name", s("Bob"))]);
    push(&mut store, USER, vec![change(INVOICE, Some(update), false)], T_ELEVEN);
    assert_eq!(store.invoices[0].client_name, "Bob");
    assert_eq!(store.invoices[0].last_modified, T_NOON);
}

#[test]
fn each_applied_change_is_journaled_once() {
    let mut store = SyncStore::new();
    let changes = vec![
        change(1, Some(invoice_data("A", "C", "1")), false),
        change(2, None, false),
        change(1, Some(obj(vec![("client_name", s("D"))])), false),
        change(1, None, true),
    ];
    let response = push(&mut store, USER, changes, T_NOON);
    assert_eq!(response.applied, 3);
    let ops: Vec<(u128, SyncOperation, bool)> = store.changes.iter().map(|c| (c.record_id, c.operation, c.is_applied)).collect();
    assert_eq!(
        ops,
        vec![
            (1, SyncOperation::Insert, true),
            (1, SyncOperation::Update, true),
            (1, SyncOperation::Delete, true)
        ]
    );
    assert!(store.changes.iter().all(|c| c.table_name == "invoices" && c.user_id == USER));
}

#[test]
fn malformed_and_unsupported_changes_are_reported() {
    let mut store = SyncStore::new();
    let no_data = change(1, None, false);
    assert_eq!(apply_change(&mut store, USER, &no_data, "d", ConflictStrategy::ServerWins, T_NOON), Err(PushError::MalformedChange));
    let mut projects = change(1, Some(invoice_data("A", "C", "1")), false);
    projects.table = "projects".to_string();
    assert_eq!(apply_change(&mut store, USER, &projects, "d", ConflictStrategy::ServerWins, T_NOON), Err(PushError::UnsupportedTable));
    assert!(store.changes.is_empty() && store.invoices.is_empty());
}

#[test]
fn invalid_insert_payloads_are_reported() {
    let mut store = SyncStore::new();
    let cases = vec![
        (obj(vec![("client_name", s("C")), ("amount", s("1"))]), PayloadError::MissingInvoiceNumber),
        (obj(vec![("invoice_number", s("A")), ("amount", s("1"))]), PayloadError::MissingClientName),
        (obj(vec![("invoice_number", s("A")), ("client_name", s("C")), ("amount", s("lots"))]), PayloadError::InvalidAmount),
        (
            obj(vec![("invoice_number", s("A")), ("client_name", s("C")), ("amount", s("1")), ("status", s("lost"))]),
            PayloadError::InvalidStatus,
        ),
    ];
    for (data, err) in cases {
        let c = change(1, Some(data), false);
        assert_eq!(apply_change(&mut store, USER, &c, "d", ConflictStrategy::ServerWins, T_NOON), Err(PushError::Payload(err)));
    }
    assert!(store.invoices.is_empty());
}

#[test]
fn insert_defaults_and_numeric_amounts() {
    let mut store = SyncStore::new();
    let data = obj(vec![
        ("invoice_number", s("A")),
        ("client_name", s("C")),
        ("amount", JsonValue::Int(250)),
        ("due_date", s("2025-01-01")),
    ]);
    push(&mut store, USER, vec![change(1, Some(data), false)], T_NOON);
    let inv = &store.invoices[0];
    assert_eq!(inv.currency, "USD");
    assert_eq!(inv.status, InvoiceStatus::Draft);
    assert_eq!((inv.amount.mantissa, inv.amount.scale), (250, 0));
    assert_eq!(inv.due_date, Some(739_252));
    // no issue date given: the day of the write
    assert_eq!(inv.issue_date, 739_403);
    assert_eq!(inv.last_modified, T_NOON);
}

#[test]
fn partial_update_keeps_absent_fields_and_clears_null_ones() {
    let mut store = SyncStore::new();
    let mut data = invoice_data("INV-1", "Alice", "100.00");
    if let JsonValue::Object(ref mut m) = data {
        m.push(("client_email".to_string(), s("a@x")));
        m.push(("description".to_string(), s("work")));
    }
    push(&mut store, USER, vec![change(INVOICE, Some(data), false)], T_ELEVEN);
    let update = obj(vec![("description", JsonValue::Null), ("amount", JsonValue::Number("12.5".to_string()))]);
    push(&mut store, USER, vec![change(INVOICE, Some(update), false)], T_NOON);
    let inv = &store.invoices[0];
    assert_eq!(inv.client_email.as_deref(), Some("a@x"));
    assert_eq!(inv.description, None);
    assert_eq!(inv.invoice_number, "INV-1");
    assert_eq!((inv.amount.mantissa, inv.amount.scale), (125, 1));
}

#[test]
fn version_vectors_merge_by_pointwise_max() {
    let server = obj(vec![("phone", JsonValue::Int(1)), ("tablet", JsonValue::Int(5))]);
    let client = obj(vec![("phone", JsonValue::Int(3)), ("tablet", JsonValue::Int(2)), ("web", JsonValue::Int(1))]);
    let merged = merge_versions(&server, &client);
    let expected = obj(vec![("phone", JsonValue::Int(3)), ("tablet", JsonValue::Int(5)), ("web", JsonValue::Int(1))]);
    assert!(merged.same_as(&expected));
    // a vector that is not an object is taken as it is
    assert!(merge_versions(&JsonValue::Null, &client).same_as(&client));
}

#[test]
fn stored_version_vector_is_never_reduced_by_an_update() {
    let mut store = SyncStore::new();
    let mut first = change(INVOICE, Some(invoice_data("INV-1", "Alice", "1")), false);
    first.version_vector = Some(obj(vec![("phone", JsonValue::Int(4))]));
    push(&mut store, USER, vec![first], T_ELEVEN);
    let patch = InvoicePatch {
        invoice_number: None,
        client_name: None,
        client_email: None,
        amount: None,
        currency: None,
        status: None,
        due_date: None,
        issue_date: None,
        description: None,
        line_items: None,
        metadata: None,
        version_vector: Some(obj(vec![("phone", JsonValue::Int(2)), ("web", JsonValue::Int(7))])),
    };
    assert!(store.update_invoice(INVOICE, USER, patch, T_NOON));
    let vv = store.invoices[0].version_vector.as_ref().unwrap();
    assert!(vv.same_as(&obj(vec![("phone", JsonValue::Int(4)), ("web", JsonValue::Int(7))])));
    assert_eq!(store.invoices[0].last_modified, T_NOON);
}

#[test]
fn listed_changes_are_the_users_applied_records_after_the_instant() {
    let mut store = SyncStore::new();
    push(&mut store, USER, vec![change(1, Some(invoice_data("A", "C", "1")), false)], T_ELEVEN);
    push(&mut store, OTHER_USER, vec![change(2, Some(invoice_data("B", "C", "1")), false)], T_NOON);
    push(&mut store, USER, vec![change(1, None, true)], T_NOON + 1);
    assert_eq!(list_changes(&store, USER, None), vec![0, 2]);
    assert_eq!(list_changes(&store, USER, Some(T_ELEVEN)), vec![2]);
    assert_eq!(list_changes(&store, OTHER_USER, None), vec![1]);
    assert!(list_changes(&store, USER, Some(T_NOON + 1)).is_empty());
}
