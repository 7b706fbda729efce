//! Reading invoice fields out of a pushed JSON payload.
use vstd::prelude::*;
use crate::calendar::{parse_ymd, ymd_day};
use crate::json::{member, member_str, member_value, Json, JsonValue};
use crate::models::{Invoice, InvoiceStatus};
use crate::money::{decimal_parts, parse_amount, Amount};
use crate::store::InvoicePatch;

verus! {

/// The views of an optional string.
pub open spec fn opt_view(o: Option<String>) -> Option<Seq<char>> {
    match o {
        Some(s) => Some(s@),
        None => None,
    }
}

/// The views of an optional JSON value.
pub open spec fn opt_json_view(o: Option<JsonValue>) -> Option<Json> {
    match o {
        Some(v) => Some(v@),
        None => None,
    }
}

/// The amount a payload member holds: decimal text, or a number.
pub open spec fn amount_member(d: Json) -> Option<(i128, u32)> {
    match member(d, "amount"@) {
        Some(Json::Str(t)) => decimal_parts(t),
        Some(Json::Number(t)) => decimal_parts(t),
        Some(Json::Int(n)) => Some((n as i128, 0u32)),
        _ => None,
    }
}

/// The date a payload member holds as `YYYY-MM-DD` text.
pub open spec fn date_member(d: Json, key: Seq<char>) -> Option<i32> {
    match member_str(d, key) {
        Some(t) => ymd_day(t),
        None => None,
    }
}

/// The status a new invoice gets: `draft` where none is given, `None` where
/// the given name is unknown.
pub open spec fn insert_status(d: Json) -> Option<InvoiceStatus> {
    match member_str(d, "status"@) {
        Some(t) => InvoiceStatus::spec_from_name(t),
        None => Some(InvoiceStatus::Draft),
    }
}

/// Why a payload cannot be applied.
#[derive(Debug, Clone, Copy, PartialEq, Eq, Structural)]
pub enum PayloadError {
    MissingInvoiceNumber,
    MissingClientName,
    InvalidAmount,
    InvalidStatus,
}

/// The error, if any, that a payload for a new invoice meets first.
pub open spec fn insert_error(d: Json) -> Option<PayloadError> {
    if member_str(d, "invoice_number"@) is None {
        Some(PayloadError::MissingInvoiceNumber)
    } else if member_str(d, "client_name"@) is None {
        Some(PayloadError::MissingClientName)
    } else if amount_member(d) is None {
        Some(PayloadError::InvalidAmount)
    } else if insert_status(d) is None {
        Some(PayloadError::InvalidStatus)
    } else {
        None
    }
}

/// `inv` is the new invoice that payload `d` describes for `user` and `id`,
/// with version vector `vv`, where `today` is the day of the write.
pub open spec fn invoice_matches(inv: Invoice, user: u128, id: u128, d: Json, vv: Option<Json>, today: i32) -> bool {
    &&& inv.id == id
    &&& inv.user_id == user
    &&& Some(inv.invoice_number@) == member_str(d, "invoice_number"@)
    &&& Some(inv.client_name@) == member_str(d, "client_name"@)
    &&& opt_view(inv.client_email) == member_str(d, "client_email"@)
    &&& Some((inv.amount.mantissa, inv.amount.scale)) == amount_member(d)
    &&& inv.amount.wf()
    &&& inv.currency@ == match member_str(d, "currency"@) {
        Some(c) => c,
        None => "USD"@,
    }
    &&& Some(inv.status) == insert_status(d)
    &&& inv.due_date == date_member(d, "due_date"@)
    &&& inv.issue_date == match date_member(d, "issue_date"@) {
        Some(x) => x,
        None => today,
    }
    &&& opt_view(inv.description) == member_str(d, "description"@)
    &&& opt_json_view(inv.line_items) == member_value(d, "line_items"@)
    &&& opt_json_view(inv.metadata) == member_value(d, "metadata"@)
    &&& opt_json_view(inv.version_vector) == vv
    &&& !inv.is_deleted
}

/// A nullable text column's update: absent leaves it, null clears it, text
/// sets it; any other value leaves it.
pub open spec fn nullable_text(m: Option<Json>) -> Option<Option<Seq<char>>> {
    match m {
        Some(Json::Null) => Some(None),
        Some(Json::Str(s)) => Some(Some(s)),
        _ => None,
    }
}

/// A nullable date column's update: absent leaves it, null clears it, a
/// valid date sets it; anything else leaves it.
pub open spec fn nullable_date(m: Option<Json>) -> Option<Option<i32>> {
    match m {
        Some(Json::Null) => Some(None),
        Some(Json::Str(t)) => match ymd_day(t) {
            Some(x) => Some(Some(x)),
            None => None,
        },
        _ => None,
    }
}

/// A nullable JSON column's update: absent leaves it, null clears it, any
/// other value sets it.
pub open spec fn nullable_json(m: Option<Json>) -> Option<Option<Json>> {
    match m {
        Some(Json::Null) => Some(None),
        Some(v) => Some(Some(v)),
        None => None,
    }
}

pub open spec fn opt_opt_view(o: Option<Option<String>>) -> Option<Option<Seq<char>>> {
    match o {
        Some(x) => Some(opt_view(x)),
        None => None,
    }
}

pub open spec fn opt_opt_json_view(o: Option<Option<JsonValue>>) -> Option<Option<Json>> {
    match o {
        Some(x) => Some(opt_json_view(x)),
        None => None,
    }
}

/// `p` is the partial update that payload `d` describes: each column that the
/// payload gives validly is set, each nullable one it gives as null is
/// cleared, and every other column is left as it is.
pub open spec fn patch_matches(p: InvoicePatch, d: Json) -> bool {
    &&& opt_view(p.invoice_number) == member_str(d, "invoice_number"@)
    &&& opt_view(p.client_name) == member_str(d, "client_name"@)
    &&& opt_opt_view(p.client_email) == nullable_text(member(d, "client_email"@))
    &&& match p.amount {
        Some(a) => Some((a.mantissa, a.scale)) == amount_member(d) && a.wf(),
        None => amount_member(d) is None,
    }
    &&& opt_view(p.currency) == member_str(d, "currency"@)
    &&& p.status == match member_str(d, "status"@) {
        Some(t) => InvoiceStatus::spec_from_name(t),
        None => None,
    }
    &&& p.due_date == nullable_date(member(d, "due_date"@))
    &&& p.issue_date == date_member(d, "issue_date"@)
    &&& opt_opt_view(p.description) == nullable_text(member(d, "description"@))
    &&& opt_opt_json_view(p.line_items) == nullable_json(member(d, "line_items"@))
    &&& opt_opt_json_view(p.metadata) == nullable_json(member(d, "metadata"@))
    &&& opt_json_view(p.version_vector) == member_value(d, "version_vector"@)
}

fn string_member(d: &JsonValue, key: &str) -> (r: Option<String>)
    ensures
        opt_view(r) == member_str(d@, key@),
{
    match d.get_str(key) {
        Some(s) => Some(s.clone()),
        None => None,
    }
}

fn value_member(d: &JsonValue, key: &str) -> (r: Option<JsonValue>)
    ensures
        opt_json_view(r) == member_value(d@, key@),
{
    match d.get(key) {
        Some(JsonValue::Null) => None,
        Some(v) => Some(v.duplicate()),
        None => None,
    }
}

/// The amount a payload gives, if it gives a valid one.
pub fn read_amount(d: &JsonValue) -> (r: Option<Amount>)
    ensures
        match r {
            Some(a) => Some((a.mantissa, a.scale)) == amount_member(d@) && a.wf(),
            None => amount_member(d@) is None,
        },
{
    proof {
        reveal_strlit("amount");
    }
    match d.get("amount") {
        Some(JsonValue::Str(t)) => parse_amount(t.as_str()),
        Some(JsonValue::Number(t)) => parse_amount(t.as_str()),
        Some(JsonValue::Int(n)) => Some(Amount::from_whole(*n)),
        _ => None,
    }
}

/// The date a payload gives under `key`, if it gives a valid one.
pub fn read_date(d: &JsonValue, key: &str) -> (r: Option<i32>)
    ensures
        r == date_member(d@, key@),
{
    match d.get_str(key) {
        Some(t) => parse_ymd(t.as_str()),
        None => None,
    }
}

/// The new invoice that a payload describes, or the first thing wrong with
/// the payload. `today` is the issue date where the payload gives none.
pub fn invoice_from_data(
    user_id: u128,
    record_id: u128,
    data: &JsonValue,
    version_vector: Option<JsonValue>,
    today: i32,
) -> (r: Result<Invoice, PayloadError>)
    ensures
        match r {
            Ok(inv) => insert_error(data@) is None && invoice_matches(
                inv,
                user_id,
                record_id,
                data@,
                opt_json_view(version_vector),
                today,
            ),
            Err(e) => insert_error(data@) == Some(e),
        },
{
    let invoice_number = match string_member(data, "invoice_number") {
        Some(s) => s,
        None => return Err(PayloadError::MissingInvoiceNumber),
    };
    let client_name = match string_member(data, "client_name") {
        Some(s) => s,
        None => return Err(PayloadError::MissingClientName),
    };
    let amount = match read_amount(data) {
        Some(a) => a,
        None => return Err(PayloadError::InvalidAmount),
    };
    let status = match data.get_str("status") {
        Some(t) => match InvoiceStatus::from_name(t.as_str()) {
            Some(s) => s,
            None => return Err(PayloadError::InvalidStatus),
        },
        None => InvoiceStatus::Draft,
    };
    let currency = match string_member(data, "currency") {
        Some(c) => c,
        None => "USD".to_owned(),
    };
    let issue_date = match read_date(data, "issue_date") {
        Some(x) => x,
        None => today,
    };
    Ok(
        Invoice {
            id: record_id,
            user_id,
            invoice_number,
            client_name,
            client_email: string_member(data, "client_email"),
            amount,
            currency,
            status,
            due_date: read_date(data, "due_date"),
            issue_date,
            last_modified: 0,
            version_vector,
            is_deleted: false,
            description: string_member(data, "description"),
            line_items: value_member(data, "line_items"),
            metadata: value_member(data, "metadata"),
            created_at: 0,
            updated_at: 0,
        },
    )
}

fn nullable_text_member(d: &JsonValue, key: &str) -> (r: Option<Option<String>>)
    ensures
        opt_opt_view(r) == nullable_text(member(d@, key@)),
{
    match d.get(key) {
        Some(JsonValue::Null) => Some(None),
        Some(JsonValue::Str(s)) => Some(Some(s.clone())),
        _ => None,
    }
}

fn nullable_json_member(d: &JsonValue, key: &str) -> (r: Option<Option<JsonValue>>)
    ensures
        opt_opt_json_view(r) == nullable_json(member(d@, key@)),
{
    match d.get(key) {
        Some(JsonValue::Null) => Some(None),
        Some(v) => Some(Some(v.duplicate())),
        None => None,
    }
}

fn nullable_date_member(d: &JsonValue, key: &str) -> (r: Option<Option<i32>>)
    ensures
        r == nullable_date(member(d@, key@)),
{
    match d.get(key) {
        Some(JsonValue::Null) => Some(None),
        Some(JsonValue::Str(t)) => match parse_ymd(t.as_str()) {
            Some(x) => Some(Some(x)),
            None => None,
        },
        _ => None,
    }
}

/// The partial update that a payload describes.
pub fn patch_from_data(data: &JsonValue) -> (r: InvoicePatch)
    ensures
        patch_matches(r, data@),
{
    let status = match data.get_str("status") {
        Some(t) => InvoiceStatus::from_name(t.as_str()),
        None => None,
    };
    InvoicePatch {
        invoice_number: string_member(data, "invoice_number"),
        client_name: string_member(data, "client_name"),
        client_email: nullable_text_member(data, "client_email"),
        amount: read_amount(data),
        currency: string_member(data, "currency"),
        status,
        due_date: nullable_date_member(data, "due_date"),
        issue_date: read_date(data, "issue_date"),
        description: nullable_text_member(data, "description"),
        line_items: nullable_json_member(data, "line_items"),
        metadata: nullable_json_member(data, "metadata"),
        version_vector: value_member(data, "version_vector"),
    }
}

} // verus!
