use gigpilot_core::executor::{chase_context, ChaseError, ChaseExecutor};
use gigpilot_core::json::JsonValue;
use gigpilot_core::models::{Invoice, InvoiceStatus};
use gigpilot_core::money::Amount;
use gigpilot_core::scheduler::JobScheduler;
use gigpilot_core::state_machine::{ChaseAction, ChaseState};
use gigpilot_core::store::SyncStore;

/// 2025-06-01T12:00:00Z, on day 739403
const NOW: i64 = 1_748_779_200_000_000;
const TODAY: i32 = 739_403;

fn invoice(id: u128, due: Option<i32>, email: Option<&str>) -> Invoice {
    Invoice {
        id,
        user_id: 9,
        invoice_number: format!("INV-{}", id),
        client_name: "Client".to_string(),
        client_email: email.map(|e| e.to_string()),
        amount: Amount { mantissa: 10000, scale: 2 },
        currency: "USD".to_string(),
        status: InvoiceStatus::Sent,
        due_date: due,
        issue_date: TODAY - 30,
        last_modified: 0,
        version_vector: None,
        is_deleted: false,
        description: None,
        line_items: None,
        metadata: None,
        created_at: 0,
        updated_at: 0,
    }
}

fn chase_state_member(inv: &Invoice) -> Option<String> {
    inv.metadata.as_ref().and_then(|m| m.get_str("chase_state")).cloned()
}

#[test]
fn tick_with_one_overdue_invoice_sends_one_polite_email() {
    let mut store = SyncStore::new();
    store.insert_invoice(invoice(1, Some(TODAY - 1), Some("c@e")), NOW - 1).unwrap();
    let scheduler = JobScheduler::new(None);
    let report = scheduler.poll_and_process(&mut store, NOW);
    assert_eq!(report.chased, vec![0]);
    assert_eq!((report.processed, report.failed), (1, 0));
    assert_eq!(report.emails.len(), 1);
    assert_eq!(report.emails[0].to, "c@e");
    assert_eq!(report.emails[0].tone, "polite");
    assert_eq!(chase_state_member(&store.invoices[0]).as_deref(), Some("chasing_level_1"));
    assert_eq!(store.invoices[0].last_modified, NOW);
}

#[test]
fn reminder_without_client_email_fails_and_writes_nothing() {
    let mut store = SyncStore::new();
    store.insert_invoice(invoice(1, Some(TODAY - 3), None), NOW - 1).unwrap();
    let executor = ChaseExecutor::new();
    assert!(matches!(executor.process_invoice(&mut store, 0, NOW), Err(ChaseError::NoClientEmail)));
    assert!(store.invoices[0].metadata.is_none());
    let report = JobScheduler::new(Some(5)).poll_and_process(&mut store, NOW);
    assert_eq!((report.processed, report.failed), (0, 1));
}

#[test]
fn recorded_state_drives_the_step() {
    let mut store = SyncStore::new();
    let mut inv = invoice(1, Some(TODAY - 8), Some("c@e"));
    inv.metadata = Some(JsonValue::Object(vec![
        ("chase_state".to_string(), JsonValue::Str("chasing_level_1".to_string())),
        ("note".to_string(), JsonValue::Str("keep".to_string())),
    ]));
    store.insert_invoice(inv, NOW - 1).unwrap();
    let executor = ChaseExecutor::new();
    let outcome = executor.process_invoice(&mut store, 0, NOW).unwrap();
    assert_eq!(outcome.previous, ChaseState::ChasingLevel1);
    assert_eq!(outcome.next, ChaseState::ChasingLevel2);
    assert_eq!(outcome.action, ChaseAction::SendFirmReminder);
    assert_eq!(outcome.email.as_ref().unwrap().tone, "firm");
    let meta = store.invoices[0].metadata.as_ref().unwrap();
    assert_eq!(meta.get_str("chase_state").map(|s| s.as_str()), Some("chasing_level_2"));
    assert_eq!(meta.get_str("note").map(|s| s.as_str()), Some("keep"));
}

#[test]
fn derived_state_and_days_overdue() {
    let executor = ChaseExecutor::new();
    let due_later = invoice(1, Some(TODAY + 2), None);
    assert_eq!(executor.get_chase_state(&due_later, TODAY), ChaseState::Pending);
    assert_eq!(executor.calculate_days_overdue(&due_later, TODAY), 0);
    let late = invoice(2, Some(TODAY - 10), None);
    assert_eq!(executor.get_chase_state(&late, TODAY), ChaseState::Overdue);
    assert_eq!(executor.calculate_days_overdue(&late, TODAY), 10);
    let mut paid = invoice(3, Some(TODAY - 10), None);
    paid.status = InvoiceStatus::Paid;
    assert_eq!(executor.get_chase_state(&paid, TODAY), ChaseState::Paid);
    let undated = invoice(4, None, None);
    assert_eq!(executor.calculate_days_overdue(&undated, TODAY), 0);
    let mut unknown = invoice(5, Some(TODAY - 1), None);
    unknown.metadata = Some(JsonValue::Object(vec![("chase_state".to_string(), JsonValue::Str("weird".to_string()))]));
    assert_eq!(executor.get_chase_state(&unknown, TODAY), ChaseState::Overdue);
}

#[test]
fn pending_invoice_without_change_is_not_written() {
    let mut store = SyncStore::new();
    store.insert_invoice(invoice(1, Some(TODAY + 5), Some("c@e")), NOW - 1).unwrap();
    let outcome = ChaseExecutor::new().process_invoice(&mut store, 0, NOW).unwrap();
    assert_eq!(outcome.action, ChaseAction::NoAction);
    assert!(!outcome.persisted);
    assert!(store.invoices[0].metadata.is_none());
    assert_eq!(store.invoices[0].last_modified, NOW - 1);
}

#[test]
fn reminder_context_line() {
    let inv = invoice(1, Some(739_252), Some("c@e"));
    assert_eq!(chase_context(&inv), "Invoice INV-1 for USD 100.00 (Due: Some(2025-01-01))");
    let mut undated = invoice(2, None, None);
    undated.amount = Amount { mantissa: 12345, scale: 3 };
    assert_eq!(chase_context(&undated), "Invoice INV-2 for USD 12.34 (Due: None)");
}

#[test]
fn overdue_scan_orders_by_due_date_and_honours_the_limit() {
    let mut store = SyncStore::new();
    store.insert_invoice(invoice(1, Some(TODAY - 1), None), NOW).unwrap();
    store.insert_invoice(invoice(2, Some(TODAY - 5), None), NOW).unwrap();
    store.insert_invoice(invoice(3, Some(TODAY), None), NOW).unwrap();
    store.insert_invoice(invoice(4, None, None), NOW).unwrap();
    let mut paid = invoice(5, Some(TODAY - 9), None);
    paid.status = InvoiceStatus::Paid;
    store.insert_invoice(paid, NOW).unwrap();
    store.insert_invoice(invoice(6, Some(TODAY - 5), None), NOW).unwrap();
    assert_eq!(store.fetch_overdue_invoices(TODAY, 100), vec![1, 5, 0]);
    assert_eq!(store.fetch_overdue_invoices(TODAY, 2), vec![1, 5]);
    assert!(store.fetch_overdue_invoices(TODAY, 0).is_empty());
}

#[test]
fn scheduler_defaults_and_flag() {
    let mut s = JobScheduler::new(None);
    assert_eq!(s.poll_interval_seconds, 60);
    assert!(!s.running);
    s.start();
    assert!(s.running);
    s.stop();
    assert!(!s.running);
    assert_eq!(JobScheduler::new(Some(5)).poll_interval_seconds, 5);
}
