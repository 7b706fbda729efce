//! The pull engine: assembles, from the change log, the changes a client has
//! not seen, keyed by table and then by operation bucket.
use vstd::prelude::*;
use crate::ids::{format_uuid, uuid_text};
use crate::json::{with_member, Json, JsonValue};
use crate::models::{SyncChange, SyncOperation};
use crate::store::{later, SyncStore};
use crate::text::str_eq;

verus! {

/// A pull request: the instant of the client's last pull, if any.
#[derive(Debug)]
pub struct PullRequest {
    pub last_pulled_at: Option<i64>,
    pub device_id: Option<String>,
}

/// The changes of one table, by bucket: inserted records under `created`,
/// updated ones under `updated`, deleted ones under `deleted`.
#[derive(Debug)]
pub struct TableChanges {
    pub table: String,
    pub created: Vec<JsonValue>,
    pub updated: Vec<JsonValue>,
    pub deleted: Vec<JsonValue>,
}

/// The changes of a pull, by table.
#[derive(Debug)]
pub struct ChangeMap {
    pub tables: Vec<TableChanges>,
}

/// The answer to a pull: the changes, and the instant to pull from next.
#[derive(Debug)]
pub struct PullResponse {
    pub changes: ChangeMap,
    pub timestamp: i64,
}

/// Whether a pull by `user` since `since` returns record `c`.
pub open spec fn selected(c: SyncChange, user: u128, since: Option<i64>) -> bool {
    &&& c.user_id == user
    &&& c.is_applied
    &&& match since {
        Some(t) => c.change_timestamp > t,
        None => true,
    }
}

/// A record's data with its identifier set as member `id`; data that is not
/// an object is left as it is.
pub open spec fn with_id(v: Json, id: Seq<char>) -> Json {
    with_member(v, "id"@, Json::Str(id))
}

/// The data a record carries to the client: the new data of an insert or an
/// update, the old data of a deletion, an empty object where there is none.
pub open spec fn record_data(c: SyncChange) -> Json {
    let d = match c.operation {
        SyncOperation::Delete => c.old_data,
        _ => c.new_data,
    };
    match d {
        Some(v) => v@,
        None => Json::Object(Seq::empty()),
    }
}

/// The snapshot of a record that a pull returns.
pub open spec fn snapshot(c: SyncChange) -> Json {
    with_id(record_data(c), uuid_text(c.record_id))
}

/// The snapshots, in log order, of the records of `table` and operation `op`
/// that a pull by `user` since `since` returns.
pub open spec fn bucket(log: Seq<SyncChange>, user: u128, since: Option<i64>, table: Seq<char>, op: SyncOperation) -> Seq<Json>
    decreases log.len(),
{
    if log.len() == 0 {
        Seq::empty()
    } else {
        let rest = bucket(log.drop_last(), user, since, table, op);
        let c = log.last();
        if selected(c, user, since) && c.table_name@ == table && c.operation == op {
            rest.push(snapshot(c))
        } else {
            rest
        }
    }
}

/// The identifiers, in log order, of the records a pull returns.
pub open spec fn selected_ids(log: Seq<SyncChange>, user: u128, since: Option<i64>) -> Seq<u128>
    decreases log.len(),
{
    if log.len() == 0 {
        Seq::empty()
    } else {
        let rest = selected_ids(log.drop_last(), user, since);
        if selected(log.last(), user, since) {
            rest.push(log.last().record_id)
        } else {
            rest
        }
    }
}

/// The views of a list of values.
pub open spec fn views(v: Seq<JsonValue>) -> Seq<Json> {
    Seq::new(v.len(), |i: int| v[i]@)
}

/// Sets member `id` of a record's data to the record's identifier.
pub fn inject_id(data: &JsonValue, record_id: u128) -> (r: JsonValue)
    ensures
        r@ == with_id(data@, uuid_text(record_id)),
{
    proof {
        reveal_strlit("id");
    }
    let id = JsonValue::Str(format_uuid(record_id));
    data.put_member("id", id)
}

/// The snapshot of a record that a pull returns.
pub fn snapshot_of(c: &SyncChange) -> (r: JsonValue)
    ensures
        r@ == snapshot(*c),
{
    let data = match c.operation {
        SyncOperation::Delete => &c.old_data,
        _ => &c.new_data,
    };
    match data {
        Some(v) => inject_id(v, c.record_id),
        None => {
            let empty = JsonValue::Object(Vec::new());
            assert(crate::json::fields_of(empty@) =~= Seq::<(Seq<char>, Json)>::empty());
            inject_id(&empty, c.record_id)
        },
    }
}

fn since_admits(since: Option<i64>, ts: i64) -> (r: bool)
    ensures
        r == match since {
            Some(t) => ts > t,
            None => true,
        },
{
    match since {
        Some(t) => ts > t,
        None => true,
    }
}

/// The snapshots of one table and operation that a pull returns.
pub fn collect_bucket(log: &Vec<SyncChange>, user_id: u128, since: Option<i64>, table: &str, op: SyncOperation) -> (r: Vec<JsonValue>)
    ensures
        views(r@) == bucket(log@, user_id, since, table@, op),
{
    let mut out: Vec<JsonValue> = Vec::new();
    let mut k: usize = 0;
    assert(views(out@) =~= bucket(log@.take(0), user_id, since, table@, op));
    while k < log.len()
        invariant
            k <= log@.len(),
            views(out@) == bucket(log@.take(k as int), user_id, since, table@, op),
        decreases log.len() - k,
    {
        let c = &log[k];
        let ghost prev = views(out@);
        assert(log@.take(k + 1).drop_last() =~= log@.take(k as int));
        assert(log@.take(k + 1).last() == log@[k as int]);
        if c.user_id == user_id && c.is_applied && since_admits(since, c.change_timestamp) && c.operation
            == op && str_eq(c.table_name.as_str(), table) {
            let s = snapshot_of(c);
            out.push(s);
            assert(views(out@) =~= prev.push(snapshot(*c)));
        }
        k = k + 1;
    }
    assert(log@.take(log@.len() as int) =~= log@);
    out
}

/// The positions in the change log of the records that a pull by `user_id`
/// since `since` returns, in log order (that is, by timestamp and then
/// sequence number).
pub fn list_changes(store: &SyncStore, user_id: u128, since: Option<i64>) -> (r: Vec<usize>)
    ensures
        forall|j: int| 0 <= j < r@.len() ==> (#[trigger] r@[j]) < store.changes@.len() && selected(
            store.changes@[r@[j] as int],
            user_id,
            since,
        ),
        forall|i: int, j: int| 0 <= i < j < r@.len() ==> (#[trigger] r@[i]) < (#[trigger] r@[j]),
        forall|k: int|
            0 <= k < store.changes@.len() && selected(#[trigger] store.changes@[k], user_id, since)
                ==> exists|j: int| 0 <= j < r@.len() && r@[j] == k,
{
    let mut out: Vec<usize> = Vec::new();
    let mut k: usize = 0;
    while k < store.changes.len()
        invariant
            k <= store.changes@.len(),
            forall|j: int| 0 <= j < out@.len() ==> (#[trigger] out@[j]) < k && selected(
                store.changes@[out@[j] as int],
                user_id,
                since,
            ),
            forall|i: int, j: int| 0 <= i < j < out@.len() ==> (#[trigger] out@[i]) < (#[trigger] out@[j]),
            forall|q: int|
                0 <= q < k && selected(#[trigger] store.changes@[q], user_id, since) ==> exists|j: int|
                    0 <= j < out@.len() && out@[j] == q,
        decreases store.changes.len() - k,
    {
        let c = &store.changes[k];
        if c.user_id == user_id && c.is_applied && since_admits(since, c.change_timestamp) {
            let ghost prev = out@;
            out.push(k);
            assert forall|q: int|
                0 <= q < k + 1 && selected(#[trigger] store.changes@[q], user_id, since) implies exists|j: int|
                    0 <= j < out@.len() && out@[j] == q by {
                if q < k {
                    let j = choose|j: int| 0 <= j < prev.len() && prev[j] == q;
                    assert(out@[j] == prev[j]);
                } else {
                    assert(out@[prev.len() as int] == k);
                }
            }
        }
        k = k + 1;
    }
    out
}

/// Whether some record of `table` is returned by the pull.
pub open spec fn table_pulled(log: Seq<SyncChange>, user: u128, since: Option<i64>, table: Seq<char>) -> bool {
    exists|k: int| 0 <= k < log.len() && selected(#[trigger] log[k], user, since) && log[k].table_name@ == table
}

/// The tables of the records a pull returns, each once, in order of first
/// appearance.
pub fn pulled_tables(log: &Vec<SyncChange>, user_id: u128, since: Option<i64>) -> (r: Vec<String>)
    ensures
        forall|i: int, j: int| 0 <= i < j < r@.len() ==> (#[trigger] r@[i])@ != (#[trigger] r@[j])@,
        forall|i: int| 0 <= i < r@.len() ==> table_pulled(log@, user_id, since, (#[trigger] r@[i])@),
        forall|k: int|
            0 <= k < log@.len() && selected(#[trigger] log@[k], user_id, since) ==> exists|i: int|
                0 <= i < r@.len() && (#[trigger] r@[i])@ == log@[k].table_name@,
{
    let mut out: Vec<String> = Vec::new();
    let mut k: usize = 0;
    while k < log.len()
        invariant
            k <= log@.len(),
            forall|i: int, j: int| 0 <= i < j < out@.len() ==> (#[trigger] out@[i])@ != (#[trigger] out@[j])@,
            forall|i: int| 0 <= i < out@.len() ==> table_pulled(log@, user_id, since, (#[trigger] out@[i])@),
            forall|q: int|
                0 <= q < k && selected(#[trigger] log@[q], user_id, since) ==> exists|i: int|
                    0 <= i < out@.len() && (#[trigger] out@[i])@ == log@[q].table_name@,
        decreases log.len() - k,
    {
        let c = &log[k];
        if c.user_id == user_id && c.is_applied && since_admits(since, c.change_timestamp) {
            let mut found = false;
            let mut i: usize = 0;
            while i < out.len()
                invariant
                    i <= out@.len(),
                    found ==> exists|j: int| 0 <= j < out@.len() && (#[trigger] out@[j])@ == c.table_name@,
                    !found ==> forall|j: int| 0 <= j < i ==> (#[trigger] out@[j])@ != c.table_name@,
                decreases out.len() - i,
            {
                if str_eq(out[i].as_str(), c.table_name.as_str()) {
                    found = true;
                }
                i = i + 1;
            }
            if !found {
                let ghost prev = out@;
                out.push(c.table_name.clone());
                assert(table_pulled(log@, user_id, since, c.table_name@));
                assert forall|q: int|
                    0 <= q < k + 1 && selected(#[trigger] log@[q], user_id, since) implies exists|j: int|
                        0 <= j < out@.len() && (#[trigger] out@[j])@ == log@[q].table_name@ by {
                    if q < k {
                        let j = choose|j: int| 0 <= j < prev.len() && (#[trigger] prev[j])@ == log@[q].table_name@;
                        assert(out@[j] == prev[j]);
                    } else {
                        assert(out@[prev.len() as int]@ == log@[q].table_name@);
                    }
                }
            }
        }
        k = k + 1;
    }
    out
}

/// Answers a pull by `user_id`: the applied changes of the user's records,
/// after `last_pulled_at` where it is given, bucketed by table and operation;
/// with the instant from which to pull next.
pub fn get_changes(store: &SyncStore, user_id: u128, request: PullRequest, now: i64) -> (r: PullResponse)
    requires
        store.wf(),
    ensures
        r.timestamp == later(store.clock, now),
        forall|i: int, j: int|
            0 <= i < j < r.changes.tables@.len() ==> (#[trigger] r.changes.tables@[i]).table@
                != (#[trigger] r.changes.tables@[j]).table@,
        forall|i: int|
            0 <= i < r.changes.tables@.len() ==> table_pulled(
                store.changes@,
                user_id,
                request.last_pulled_at,
                (#[trigger] r.changes.tables@[i]).table@,
            ),
        forall|i: int|
            0 <= i < r.changes.tables@.len() ==> views((#[trigger] r.changes.tables@[i]).created@)
                == bucket(store.changes@, user_id, request.last_pulled_at, r.changes.tables@[i].table@, SyncOperation::Insert)
                && views(r.changes.tables@[i].updated@) == bucket(store.changes@, user_id, request.last_pulled_at, r.changes.tables@[i].table@, SyncOperation::Update)
                && views(r.changes.tables@[i].deleted@) == bucket(store.changes@, user_id, request.last_pulled_at, r.changes.tables@[i].table@, SyncOperation::Delete),
        forall|k: int|
            0 <= k < store.changes@.len() && selected(#[trigger] store.changes@[k], user_id, request.last_pulled_at)
                ==> exists|i: int| 0 <= i < r.changes.tables@.len() && (#[trigger] r.changes.tables@[i]).table@
                == store.changes@[k].table_name@,
{
    let since = request.last_pulled_at;
    let names = pulled_tables(&store.changes, user_id, since);
    let mut tables: Vec<TableChanges> = Vec::new();
    let mut i: usize = 0;
    while i < names.len()
        invariant
            i <= names@.len(),
            tables@.len() == i,
            forall|a: int, b: int| 0 <= a < b < names@.len() ==> (#[trigger] names@[a])@ != (#[trigger] names@[b])@,
            forall|a: int| 0 <= a < names@.len() ==> table_pulled(store.changes@, user_id, since, (#[trigger] names@[a])@),
            forall|k: int|
                0 <= k < store.changes@.len() && selected(#[trigger] store.changes@[k], user_id, since) ==> exists|a: int|
                    0 <= a < names@.len() && (#[trigger] names@[a])@ == store.changes@[k].table_name@,
            forall|j: int| 0 <= j < i ==> (#[trigger] tables@[j]).table@ == names@[j]@,
            forall|j: int|
                0 <= j < i ==> views((#[trigger] tables@[j]).created@) == bucket(store.changes@, user_id, since, tables@[j].table@, SyncOperation::Insert)
                    && views(tables@[j].updated@) == bucket(store.changes@, user_id, since, tables@[j].table@, SyncOperation::Update)
                    && views(tables@[j].deleted@) == bucket(store.changes@, user_id, since, tables@[j].table@, SyncOperation::Delete),
        decreases names.len() - i,
    {
        let name = names[i].as_str();
        let created = collect_bucket(&store.changes, user_id, since, name, SyncOperation::Insert);
        let updated = collect_bucket(&store.changes, user_id, since, name, SyncOperation::Update);
        let deleted = collect_bucket(&store.changes, user_id, since, name, SyncOperation::Delete);
        tables.push(TableChanges { table: names[i].clone(), created, updated, deleted });
        i = i + 1;
    }
    let timestamp = if now > store.clock {
        now
    } else {
        store.clock
    };
    let r = PullResponse { changes: ChangeMap { tables }, timestamp };
    proof {
        assert forall|k: int|
            0 <= k < store.changes@.len() && selected(#[trigger] store.changes@[k], user_id, since)
                implies exists|i: int| 0 <= i < r.changes.tables@.len() && (#[trigger] r.changes.tables@[i]).table@
                == store.changes@[k].table_name@ by {
            let j = choose|j: int| 0 <= j < names@.len() && (#[trigger] names@[j])@ == store.changes@[k].table_name@;
            assert(r.changes.tables@[j].table@ == names@[j]@);
        }
        assert forall|a: int, b: int|
            0 <= a < b < r.changes.tables@.len() implies (#[trigger] r.changes.tables@[a]).table@ != (#[trigger] r.changes.tables@[b]).table@ by {
            assert(names@[a]@ != names@[b]@);
        }
        assert forall|a: int| 0 <= a < r.changes.tables@.len() implies table_pulled(store.changes@, user_id, since, (#[trigger] r.changes.tables@[a]).table@) by {
            assert(table_pulled(store.changes@, user_id, since, names@[a]@));
        }
    }
    r
}

/// A log none of whose records a pull returns gives empty buckets and no
/// identifiers.
pub proof fn lemma_nothing_selected(log: Seq<SyncChange>, user: u128, since: Option<i64>, table: Seq<char>, op: SyncOperation)
    requires
        forall|k: int| 0 <= k < log.len() ==> !selected(#[trigger] log[k], user, since),
    ensures
        bucket(log, user, since, table, op) == Seq::<Json>::empty(),
        selected_ids(log, user, since) == Seq::<u128>::empty(),
    decreases log.len(),
{
    if log.len() > 0 {
        let rest = log.drop_last();
        assert forall|k: int| 0 <= k < rest.len() implies !selected(#[trigger] rest[k], user, since) by {
            assert(rest[k] == log[k]);
        }
        lemma_nothing_selected(rest, user, since, table, op);
        assert(!selected(log[log.len() - 1], user, since));
    }
}

/// Pulling again from the instant that a pull returned yields nothing: every
/// record is stamped no later than the store's clock, and a pull returns the
/// later of the clock and the current instant.
pub proof fn lemma_pull_idempotent(store: SyncStore, user: u128, now: i64, table: Seq<char>, op: SyncOperation)
    requires
        store.wf(),
    ensures
        forall|k: int|
            0 <= k < store.changes@.len() ==> !selected(
                #[trigger] store.changes@[k],
                user,
                Some(later(store.clock, now)),
            ),
        !table_pulled(store.changes@, user, Some(later(store.clock, now)), table),
        bucket(store.changes@, user, Some(later(store.clock, now)), table, op) == Seq::<Json>::empty(),
{
    assert forall|k: int|
        0 <= k < store.changes@.len() implies !selected(
            #[trigger] store.changes@[k],
            user,
            Some(later(store.clock, now)),
        ) by {
        assert(store.changes@[k].change_timestamp <= store.clock);
    }
    lemma_nothing_selected(store.changes@, user, Some(later(store.clock, now)), table, op);
}

/// A pull by one user never sees another user's records: appending another
/// user's record to the log changes none of the user's buckets.
pub proof fn lemma_other_users_invisible(
    log: Seq<SyncChange>,
    c: SyncChange,
    user: u128,
    since: Option<i64>,
    table: Seq<char>,
    op: SyncOperation,
)
    requires
        c.user_id != user,
    ensures
        bucket(log.push(c), user, since, table, op) == bucket(log, user, since, table, op),
        selected_ids(log.push(c), user, since) == selected_ids(log, user, since),
{
    assert(log.push(c).drop_last() =~= log);
}

/// Every record a pull returns lands in the bucket of its table and
/// operation; in particular a deleted record lands in `deleted`.
pub proof fn lemma_record_in_bucket(log: Seq<SyncChange>, k: int, user: u128, since: Option<i64>)
    requires
        0 <= k < log.len(),
        selected(log[k], user, since),
    ensures
        bucket(log, user, since, log[k].table_name@, log[k].operation).contains(snapshot(log[k])),
    decreases log.len(),
{
    let b = bucket(log, user, since, log[k].table_name@, log[k].operation);
    if k == log.len() - 1 {
        assert(b.last() == snapshot(log[k]));
        assert(b[b.len() - 1] == snapshot(log[k]));
    } else {
        let rest = log.drop_last();
        assert(rest[k] == log[k]);
        lemma_record_in_bucket(rest, k, user, since);
        let rb = bucket(rest, user, since, log[k].table_name@, log[k].operation);
        let j = choose|j: int| 0 <= j < rb.len() && rb[j] == snapshot(log[k]);
        assert(b[j] == rb[j]);
    }
}

/// After a push of changes to the records `ids` on behalf of `user`, each
/// of them journaled at instant `ts`, a pull from an instant `t` with
/// `clock <= t < ts` returns exactly those records, in push order.
pub proof fn lemma_push_then_pull(old: SyncStore, new: SyncStore, user: u128, ids: Seq<u128>, ts: i64, t: i64)
    requires
        old.wf(),
        old.clock <= t < ts,
        new.changes@.len() == old.changes@.len() + ids.len(),
        forall|k: int| 0 <= k < old.changes@.len() ==> #[trigger] new.changes@[k] == old.changes@[k],
        forall|k: int|
            0 <= k < ids.len() ==> {
                let c = #[trigger] new.changes@[old.changes@.len() + k];
                c.record_id == ids[k] && c.user_id == user && c.change_timestamp == ts && c.is_applied
            },
    ensures
        selected_ids(new.changes@, user, Some(t)) == ids,
{
    lemma_push_prefix(old, new.changes@, user, ids, ts, t);
}

/// The law above, over a change log given as a sequence.
proof fn lemma_push_prefix(old: SyncStore, log: Seq<SyncChange>, user: u128, ids: Seq<u128>, ts: i64, t: i64)
    requires
        old.wf(),
        old.clock <= t < ts,
        log.len() == old.changes@.len() + ids.len(),
        forall|k: int| 0 <= k < old.changes@.len() ==> #[trigger] log[k] == old.changes@[k],
        forall|k: int|
            0 <= k < ids.len() ==> {
                let c = #[trigger] log[old.changes@.len() + k];
                c.record_id == ids[k] && c.user_id == user && c.change_timestamp == ts && c.is_applied
            },
    ensures
        selected_ids(log, user, Some(t)) == ids,
    decreases ids.len(),
{
    let n0 = old.changes@.len();
    if ids.len() == 0 {
        assert forall|k: int| 0 <= k < log.len() implies !selected(#[trigger] log[k], user, Some(t)) by {
            assert(log[k] == old.changes@[k]);
            assert(old.changes@[k].change_timestamp <= old.clock);
        }
        lemma_nothing_selected(log, user, Some(t), Seq::empty(), SyncOperation::Insert);
    } else {
        let m = ids.len() - 1;
        let prefix = log.drop_last();
        assert forall|k: int| 0 <= k < old.changes@.len() implies #[trigger] prefix[k] == old.changes@[k] by {
            assert(prefix[k] == log[k]);
        }
        assert forall|k: int| 0 <= k < m implies {
            let c = #[trigger] prefix[n0 + k];
            c.record_id == ids.take(m)[k] && c.user_id == user && c.change_timestamp == ts && c.is_applied
        } by {
            assert(prefix[n0 + k] == log[n0 + k]);
        }
        lemma_push_prefix(old, prefix, user, ids.take(m), ts, t);
        assert(log.last() == log[n0 + m]);
        assert(ids.take(m).push(ids[m]) =~= ids);
    }
}

} // verus!
