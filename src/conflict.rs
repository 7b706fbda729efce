//! Conflict detection and resolution for pushed updates.
use vstd::prelude::*;
use crate::calendar::{day_text, format_day, format_instant, instant_text};
use crate::ids::{format_uuid, uuid_text};
use crate::json::{Json, JsonValue};
use crate::models::{Invoice, SyncChange};
use crate::money::{amount_text, decimal_text};
use crate::store::{has_live, SyncStore};
use crate::text::{lex_less, str_eq, str_less};

verus! {

/// How a conflict between the client's and the server's version is settled.
#[derive(Debug, Clone, Copy, PartialEq, Eq, Structural)]
pub enum ConflictStrategy {
    /// The server's version is kept (the default).
    ServerWins,
    /// The version written last wins; equal instants go to the greater
    /// device identifier.
    LastWriteWins,
    /// The client's version is taken.
    ClientWins,
}

/// The name of the one table the engine knows.
pub open spec fn invoices_table() -> Seq<char> {
    "invoices"@
}

/// Whether `t` names the invoices table.
pub fn is_invoices_table(t: &str) -> (r: bool)
    ensures
        r == (t@ == invoices_table()),
{
    str_eq(t, "invoices")
}

/// The user's live invoice with this identifier, if any.
pub open spec fn live_row(invoices: Seq<Invoice>, user: u128, id: u128) -> Option<Invoice> {
    if has_live(invoices, user, id) {
        Some(
            invoices[choose|k: int|
                0 <= k < invoices.len() && (#[trigger] invoices[k]).id == id && invoices[k].user_id
                    == user && !invoices[k].is_deleted],
        )
    } else {
        None
    }
}

/// A conflict exists iff the record is live on the server and either the
/// server saw a newer write than the client's `last_modified`, or both sides
/// carry a version vector and the two differ.
pub open spec fn conflicts(server: Option<Invoice>, client_vv: Option<Json>, client_last_modified: Option<i64>) -> bool {
    match server {
        None => false,
        Some(row) => {
            ||| (client_last_modified is Some && row.last_modified > client_last_modified.unwrap())
            ||| (client_vv is Some && row.version_vector is Some && client_vv.unwrap()
                != row.version_vector.unwrap()@)
        },
    }
}

/// Whether the client's version of the user's record conflicts with the
/// server's.
pub fn has_conflict(
    store: &SyncStore,
    user_id: u128,
    table_name: &str,
    record_id: u128,
    client_version_vector: Option<&JsonValue>,
    client_last_modified: Option<i64>,
) -> (r: bool)
    requires
        store.wf(),
    ensures
        r == (table_name@ == invoices_table() && conflicts(
            live_row(store.invoices@, user_id, record_id),
            match client_version_vector {
                Some(v) => Some(v@),
                None => None,
            },
            client_last_modified,
        )),
{
    if !is_invoices_table(table_name) {
        return false;
    }
    let k = match store.position_of(record_id) {
        Some(k) => k,
        None => return false,
    };
    let row = &store.invoices[k];
    if row.user_id != user_id || row.is_deleted {
        return false;
    }
    proof {
        let j = choose|j: int|
            0 <= j < store.invoices@.len() && (#[trigger] store.invoices@[j]).id == record_id
                && store.invoices@[j].user_id == user_id && !store.invoices@[j].is_deleted;
        assert(j == k as int);
    }
    if let Some(client_modified) = client_last_modified {
        if row.last_modified > client_modified {
            return true;
        }
    }
    match (client_version_vector, &row.version_vector) {
        (Some(client_vv), Some(server_vv)) => !client_vv.same_as(server_vv),
        _ => false,
    }
}

/// A string member, or null.
pub open spec fn opt_text(t: Option<Seq<char>>) -> Json {
    match t {
        Some(s) => Json::Str(s),
        None => Json::Null,
    }
}

/// A JSON member, or null.
pub open spec fn opt_json(v: Option<JsonValue>) -> Json {
    match v {
        Some(j) => j@,
        None => Json::Null,
    }
}

/// The server's version of an invoice, as sent back to a client.
pub open spec fn invoice_json(inv: Invoice) -> Json {
    Json::Object(
        seq![
            ("id"@, Json::Str(uuid_text(inv.id))),
            ("user_id"@, Json::Str(uuid_text(inv.user_id))),
            ("invoice_number"@, Json::Str(inv.invoice_number@)),
            ("client_name"@, Json::Str(inv.client_name@)),
            ("client_email"@, opt_text(match inv.client_email { Some(e) => Some(e@), None => None })),
            ("amount"@, Json::Str(decimal_text(inv.amount.mantissa, inv.amount.scale))),
            ("currency"@, Json::Str(inv.currency@)),
            ("status"@, Json::Str(inv.status.spec_name())),
            ("due_date"@, opt_text(match inv.due_date { Some(d) => day_text(d), None => None })),
            ("issue_date"@, opt_text(day_text(inv.issue_date))),
            ("last_modified"@, opt_text(instant_text(inv.last_modified))),
            ("version_vector"@, opt_json(inv.version_vector)),
            ("is_deleted"@, Json::Bool(inv.is_deleted)),
            ("description"@, opt_text(match inv.description { Some(d) => Some(d@), None => None })),
            ("line_items"@, opt_json(inv.line_items)),
            ("metadata"@, opt_json(inv.metadata)),
            ("created_at"@, opt_text(instant_text(inv.created_at))),
            ("updated_at"@, opt_text(instant_text(inv.updated_at))),
        ],
    )
}

fn text_or_null(t: Option<String>) -> (r: JsonValue)
    ensures
        r@ == opt_text(
            match t {
                Some(s) => Some(s@),
                None => None,
            },
        ),
{
    match t {
        Some(s) => JsonValue::Str(s),
        None => JsonValue::Null,
    }
}

fn json_or_null(v: &Option<JsonValue>) -> (r: JsonValue)
    ensures
        r@ == opt_json(*v),
{
    match v {
        Some(j) => j.duplicate(),
        None => JsonValue::Null,
    }
}

fn member(key: &str, value: JsonValue) -> (r: (String, JsonValue))
    ensures
        r.0@ == key@,
        r.1 == value,
{
    (key.to_owned(), value)
}

/// The server's version of an invoice, as JSON.
pub fn invoice_snapshot(inv: &Invoice) -> (r: JsonValue)
    requires
        inv.amount.wf(),
    ensures
        r@ == invoice_json(*inv),
{
    let due = match inv.due_date {
        Some(d) => format_day(d),
        None => None,
    };
    let m: Vec<(String, JsonValue)> = vec![
        member("id", JsonValue::Str(format_uuid(inv.id))),
        member("user_id", JsonValue::Str(format_uuid(inv.user_id))),
        member("invoice_number", JsonValue::Str(inv.invoice_number.clone())),
        member("client_name", JsonValue::Str(inv.client_name.clone())),
        member("client_email", text_or_null(inv.client_email.clone())),
        member("amount", JsonValue::Str(amount_text(&inv.amount))),
        member("currency", JsonValue::Str(inv.currency.clone())),
        member("status", JsonValue::Str(inv.status.as_str().to_owned())),
        member("due_date", text_or_null(due)),
        member("issue_date", text_or_null(format_day(inv.issue_date))),
        member("last_modified", text_or_null(format_instant(inv.last_modified))),
        member("version_vector", json_or_null(&inv.version_vector)),
        member("is_deleted", JsonValue::Bool(inv.is_deleted)),
        member("description", text_or_null(inv.description.clone())),
        member("line_items", json_or_null(&inv.line_items)),
        member("metadata", json_or_null(&inv.metadata)),
        member("created_at", text_or_null(format_instant(inv.created_at))),
        member("updated_at", text_or_null(format_instant(inv.updated_at))),
    ];
    let r = JsonValue::Object(m);
    let ghost a = crate::json::fields_of(r@);
    let ghost b = crate::json::fields_of(invoice_json(*inv));
    assert(a.len() == b.len());
    assert forall|i: int| 0 <= i < a.len() implies a[i] == b[i] by {
        assert(a[i] == (m@[i].0@, m@[i].1@));
    }
    assert(a =~= b);
    r
}

/// The user's invoice with this identifier, deleted or not.
pub open spec fn owned_row(invoices: Seq<Invoice>, user: u128, id: u128) -> Option<Invoice> {
    if exists|k: int|
        0 <= k < invoices.len() && (#[trigger] invoices[k]).id == id && invoices[k].user_id == user {
        Some(
            invoices[choose|k: int|
                0 <= k < invoices.len() && (#[trigger] invoices[k]).id == id && invoices[k].user_id
                    == user],
        )
    } else {
        None
    }
}

/// The device that made the latest logged change of the user's record, or
/// the empty identifier where none is logged.
pub open spec fn last_device(log: Seq<SyncChange>, user: u128, table: Seq<char>, id: u128) -> Seq<char>
    decreases log.len(),
{
    if log.len() == 0 {
        Seq::empty()
    } else if log.last().user_id == user && log.last().table_name@ == table && log.last().record_id
        == id {
        log.last().device_id@
    } else {
        last_device(log.drop_last(), user, table, id)
    }
}

/// Whether the client's write beats the server's under last-write-wins:
/// the later instant wins, and at equal instants the device identifier that
/// is not lexicographically smaller.
pub open spec fn client_is_later(
    client_last_modified: Option<i64>,
    client_device: Seq<char>,
    server_last_modified: i64,
    server_device: Seq<char>,
) -> bool {
    match client_last_modified {
        None => false,
        Some(c) => c > server_last_modified || (c == server_last_modified && !lex_less(
            client_device,
            server_device,
        )),
    }
}

/// The data that settles a conflict under `strategy`.
pub open spec fn resolution(
    store: SyncStore,
    user: u128,
    table: Seq<char>,
    id: u128,
    client: Json,
    strategy: ConflictStrategy,
    client_last_modified: Option<i64>,
    client_device: Seq<char>,
) -> Json {
    let server = owned_row(store.invoices@, user, id);
    if table != invoices_table() || server is None {
        client
    } else {
        match strategy {
            ConflictStrategy::ClientWins => client,
            ConflictStrategy::ServerWins => invoice_json(server.unwrap()),
            ConflictStrategy::LastWriteWins => if client_is_later(
                client_last_modified,
                client_device,
                server.unwrap().last_modified,
                last_device(store.changes@, user, table, id),
            ) {
                client
            } else {
                invoice_json(server.unwrap())
            },
        }
    }
}

/// The device of the latest logged change of the user's record.
pub fn latest_device(log: &Vec<SyncChange>, user_id: u128, table_name: &str, record_id: u128) -> (r: String)
    ensures
        r@ == last_device(log@, user_id, table_name@, record_id),
{
    let mut k: usize = log.len();
    assert(log@.subrange(0, k as int) =~= log@);
    while k > 0
        invariant
            k <= log@.len(),
            last_device(log@, user_id, table_name@, record_id) == last_device(
                log@.subrange(0, k as int),
                user_id,
                table_name@,
                record_id,
            ),
        decreases k,
    {
        let c = &log[k - 1];
        assert(log@.subrange(0, k as int).drop_last() =~= log@.subrange(0, k - 1));
        if c.user_id == user_id && c.record_id == record_id && str_eq(c.table_name.as_str(), table_name) {
            return c.device_id.clone();
        }
        k = k - 1;
    }
    String::new()
}

/// Settles a conflict on the user's record: returns the data to apply.
pub fn resolve_conflict(
    store: &SyncStore,
    user_id: u128,
    table_name: &str,
    record_id: u128,
    client_data: &JsonValue,
    strategy: ConflictStrategy,
    client_last_modified: Option<i64>,
    device_id: &str,
) -> (r: JsonValue)
    requires
        store.wf(),
    ensures
        r@ == resolution(
            *store,
            user_id,
            table_name@,
            record_id,
            client_data@,
            strategy,
            client_last_modified,
            device_id@,
        ),
{
    if !is_invoices_table(table_name) {
        return client_data.duplicate();
    }
    let k = match store.position_of(record_id) {
        Some(k) => k,
        None => return client_data.duplicate(),
    };
    let row = &store.invoices[k];
    if row.user_id != user_id {
        return client_data.duplicate();
    }
    proof {
        let j = choose|j: int|
            0 <= j < store.invoices@.len() && (#[trigger] store.invoices@[j]).id == record_id
                && store.invoices@[j].user_id == user_id;
        assert(j == k as int);
    }
    match strategy {
        ConflictStrategy::ClientWins => client_data.duplicate(),
        ConflictStrategy::ServerWins => invoice_snapshot(row),
        ConflictStrategy::LastWriteWins => {
            let server_device = latest_device(&store.changes, user_id, table_name, record_id);
            let client_later = match client_last_modified {
                None => false,
                Some(c) => c > row.last_modified || (c == row.last_modified && !str_less(
                    device_id,
                    server_device.as_str(),
                )),
            };
            if client_later {
                client_data.duplicate()
            } else {
                invoice_snapshot(row)
            }
        },
    }
}

} // verus!
