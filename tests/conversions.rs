use gigpilot_core::calendar::day_of;
use gigpilot_core::conflict::invoice_snapshot;
use gigpilot_core::json::JsonValue;
use gigpilot_core::models::{Invoice, InvoiceStatus};
use gigpilot_core::money::Amount;
use gigpilot_core::payload::{read_amount, read_date};
use gigpilot_core::pull::inject_id;
use gigpilot_core::push::read_client_modified;
use gigpilot_core::text::{str_eq, str_less};

fn with(key: &str, v: JsonValue) -> JsonValue {
    JsonValue::Object(vec![(key.to_string(), v)])
}

fn text(x: &str) -> JsonValue {
    JsonValue::Str(x.to_string())
}

fn sample_invoice() -> Invoice {
    Invoice {
        id: 1,
        user_id: u128::MAX,
        invoice_number: "INV-1".to_string(),
        client_name: "Alice".to_string(),
        client_email: None,
        amount: Amount { mantissa: 10000, scale: 2 },
        currency: "EUR".to_string(),
        status: InvoiceStatus::Sent,
        due_date: Some(739_252),
        issue_date: 738_886,
        last_modified: 0,
        version_vector: None,
        is_deleted: false,
        description: None,
        line_items: None,
        metadata: None,
        created_at: 1_748_779_200_000_000,
        updated_at: 1_748_779_200_000_000,
    }
}

fn member<'a>(v: &'a JsonValue, key: &str) -> Option<&'a str> {
    v.get_str(key).map(|s| s.as_str())
}

#[test]
fn dates_are_read_from_payloads() {
    assert_eq!(read_date(&with("due_date", text("2024-01-01")), "due_date"), Some(738_886));
    assert_eq!(read_date(&with("due_date", text("2024-13-01")), "due_date"), None);
    assert_eq!(read_date(&with("due_date", JsonValue::Int(3)), "due_date"), None);
    assert_eq!(day_of(0), 719_163);
    assert_eq!(day_of(-1), 719_162);
    assert_eq!(day_of(1_748_779_200_000_000), 739_403);
}

#[test]
fn client_instants_are_read_from_payloads() {
    let at = |t: &str| read_client_modified(&Some(with("last_modified", text(t))));
    assert_eq!(at("2025-06-01T12:00:00Z"), Some(1_748_779_200_000_000));
    assert_eq!(at("2025-06-01T14:00:00+02:00"), Some(1_748_779_200_000_000));
    assert_eq!(at("yesterday"), None);
    assert_eq!(read_client_modified(&None), None);
}

#[test]
fn amounts_are_read_from_payloads() {
    assert_eq!(read_amount(&with("amount", text("100.00"))), Some(Amount { mantissa: 10000, scale: 2 }));
    assert_eq!(read_amount(&with("amount", text("-0.5"))), Some(Amount { mantissa: -5, scale: 1 }));
    assert_eq!(read_amount(&with("amount", text("abc"))), None);
    assert_eq!(read_amount(&with("amount", JsonValue::Number("3.25".to_string()))), Some(Amount { mantissa: 325, scale: 2 }));
    assert_eq!(read_amount(&with("amount", JsonValue::Int(-4))), Some(Amount { mantissa: -4, scale: 0 }));
}

#[test]
fn server_snapshot_writes_every_column() {
    let snap = invoice_snapshot(&sample_invoice());
    assert_eq!(member(&snap, "id"), Some("00000000-0000-0000-0000-000000000001"));
    assert_eq!(member(&snap, "user_id"), Some("ffffffff-ffff-ffff-ffff-ffffffffffff"));
    assert_eq!(member(&snap, "amount"), Some("100.00"));
    assert_eq!(member(&snap, "status"), Some("sent"));
    assert_eq!(member(&snap, "due_date"), Some("2025-01-01"));
    assert_eq!(member(&snap, "issue_date"), Some("2024-01-01"));
    assert_eq!(member(&snap, "last_modified"), Some("1970-01-01T00:00:00+00:00"));
    assert_eq!(member(&snap, "created_at"), Some("2025-06-01T12:00:00+00:00"));
    assert!(matches!(snap.get("client_email"), Some(JsonValue::Null)));
    assert!(matches!(snap.get("is_deleted"), Some(JsonValue::Bool(false))));
}

#[test]
fn record_identifier_is_injected() {
    let data = JsonValue::Object(vec![
        ("id".to_string(), text("stale")),
        ("name".to_string(), text("x")),
    ]);
    let out = inject_id(&data, 0x1111_1111_1111_1111_1111_1111_1111_1111);
    assert_eq!(member(&out, "id"), Some("11111111-1111-1111-1111-111111111111"));
    assert_eq!(member(&out, "name"), Some("x"));
    let not_object = inject_id(&JsonValue::Int(5), 1);
    assert!(matches!(not_object, JsonValue::Int(5)));
}

#[test]
fn string_comparisons() {
    assert!(str_eq("abc", "abc"));
    assert!(!str_eq("abc", "abd"));
    assert!(str_less("abc", "abd"));
    assert!(str_less("ab", "abc"));
    assert!(!str_less("b", "abc"));
    assert!(!str_less("same", "same"));
}

#[test]
fn status_names() {
    assert_eq!(InvoiceStatus::from_name("cancelled"), Some(InvoiceStatus::Cancelled));
    assert_eq!(InvoiceStatus::from_name("Cancelled"), None);
    assert_eq!(InvoiceStatus::Overdue.as_str(), "overdue");
}

#[test]
fn json_copy_and_compare() {
    let v = JsonValue::Array(vec![JsonValue::Int(1), JsonValue::Object(vec![("k".to_string(), JsonValue::Bool(true))])]);
    let w = v.duplicate();
    assert!(v.same_as(&w));
    let x = JsonValue::Array(vec![JsonValue::Int(2)]);
    assert!(!v.same_as(&x));
    let put = JsonValue::Object(vec![("id".to_string(), JsonValue::Int(1))]).put_member("id", JsonValue::Null);
    assert!(put.same_as(&JsonValue::Object(vec![("id".to_string(), JsonValue::Null)])));
}
