//! The persistent entities: users, invoices and the change log's records.
use vstd::prelude::*;
use crate::json::JsonValue;
use crate::money::Amount;
use crate::text::str_eq;

verus! {

/// Lifecycle status of an invoice.
#[derive(Debug, Clone, Copy, PartialEq, Eq, Structural)]
pub enum InvoiceStatus {
    Draft,
    Sent,
    Paid,
    Overdue,
    Cancelled,
}

impl InvoiceStatus {
    /// The name under which the status is stored.
    pub open spec fn spec_name(self) -> Seq<char> {
        match self {
            InvoiceStatus::Draft => "draft"@,
            InvoiceStatus::Sent => "sent"@,
            InvoiceStatus::Paid => "paid"@,
            InvoiceStatus::Overdue => "overdue"@,
            InvoiceStatus::Cancelled => "cancelled"@,
        }
    }

    /// The status stored under a name, if any.
    pub open spec fn spec_from_name(name: Seq<char>) -> Option<InvoiceStatus> {
        if name == "draft"@ {
            Some(InvoiceStatus::Draft)
        } else if name == "sent"@ {
            Some(InvoiceStatus::Sent)
        } else if name == "paid"@ {
            Some(InvoiceStatus::Paid)
        } else if name == "overdue"@ {
            Some(InvoiceStatus::Overdue)
        } else if name == "cancelled"@ {
            Some(InvoiceStatus::Cancelled)
        } else {
            None
        }
    }

    pub fn as_str(&self) -> (r: &'static str)
        ensures
            r@ == self.spec_name(),
    {
        match self {
            InvoiceStatus::Draft => "draft",
            InvoiceStatus::Sent => "sent",
            InvoiceStatus::Paid => "paid",
            InvoiceStatus::Overdue => "overdue",
            InvoiceStatus::Cancelled => "cancelled",
        }
    }

    /// Reads a stored status name.
    pub fn from_name(name: &str) -> (r: Option<InvoiceStatus>)
        ensures
            r == Self::spec_from_name(name@),
    {
        if str_eq(name, "draft") {
            Some(InvoiceStatus::Draft)
        } else if str_eq(name, "sent") {
            Some(InvoiceStatus::Sent)
        } else if str_eq(name, "paid") {
            Some(InvoiceStatus::Paid)
        } else if str_eq(name, "overdue") {
            Some(InvoiceStatus::Overdue)
        } else if str_eq(name, "cancelled") {
            Some(InvoiceStatus::Cancelled)
        } else {
            None
        }
    }
}

/// The kind of mutation a change-log record describes.
#[derive(Debug, Clone, Copy, PartialEq, Eq, Structural)]
pub enum SyncOperation {
    Insert,
    Update,
    Delete,
}

impl SyncOperation {
    pub open spec fn spec_name(self) -> Seq<char> {
        match self {
            SyncOperation::Insert => "INSERT"@,
            SyncOperation::Update => "UPDATE"@,
            SyncOperation::Delete => "DELETE"@,
        }
    }

    /// The name under which the operation is stored.
    pub fn as_str(&self) -> (r: &'static str)
        ensures
            r@ == self.spec_name(),
    {
        match self {
            SyncOperation::Insert => "INSERT",
            SyncOperation::Update => "UPDATE",
            SyncOperation::Delete => "DELETE",
        }
    }
}

/// An invoice. Dates are day numbers, instants microseconds since the Unix
/// epoch (see `calendar`), identifiers 128-bit integers.
#[derive(Debug)]
pub struct Invoice {
    pub id: u128,
    pub user_id: u128,
    pub invoice_number: String,
    pub client_name: String,
    pub client_email: Option<String>,
    pub amount: Amount,
    pub currency: String,
    pub status: InvoiceStatus,
    pub due_date: Option<i32>,
    pub issue_date: i32,
    pub last_modified: i64,
    pub version_vector: Option<JsonValue>,
    pub is_deleted: bool,
    pub description: Option<String>,
    pub line_items: Option<JsonValue>,
    pub metadata: Option<JsonValue>,
    pub created_at: i64,
    pub updated_at: i64,
}

/// A record of the change log: one applied mutation of one record.
#[derive(Debug)]
pub struct SyncChange {
    pub id: u128,
    pub user_id: u128,
    pub table_name: String,
    pub record_id: u128,
    pub operation: SyncOperation,
    pub old_data: Option<JsonValue>,
    pub new_data: Option<JsonValue>,
    pub device_id: String,
    pub change_timestamp: i64,
    pub vector_clock: Option<JsonValue>,
    pub is_applied: bool,
    pub is_conflict: bool,
    pub conflict_resolution: Option<JsonValue>,
    pub sequence_number: i64,
    pub created_at: i64,
}

/// A user account.
#[derive(Debug, Clone)]
pub struct User {
    pub id: u128,
    pub email: String,
    pub password_hash: String,
    pub full_name: Option<String>,
    pub created_at: i64,
    pub updated_at: i64,
    pub last_login_at: Option<i64>,
    pub is_active: bool,
}

/// What a new account is created from.
#[derive(Debug, Clone)]
pub struct CreateUser {
    pub email: String,
    pub password: String,
    pub full_name: Option<String>,
}

/// A partial update of an account.
#[derive(Debug, Clone)]
pub struct UpdateUser {
    pub full_name: Option<String>,
    pub is_active: Option<bool>,
}

} // verus!
