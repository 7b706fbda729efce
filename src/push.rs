//! The push engine: applies a batch of client mutations to the store, in
//! order, detecting and settling conflicts and journaling every applied
//! mutation.
use vstd::prelude::*;
use crate::calendar::{day_of, parse_rfc3339, rfc3339_instant, spec_day_of};
use crate::conflict::{
    client_is_later, conflicts, has_conflict, invoice_snapshot, invoices_table,
    is_invoices_table, last_device, live_row, owned_row, resolve_conflict, ConflictStrategy,
};
use crate::json::{member_str, Json, JsonValue};
use crate::models::{Invoice, SyncOperation};
use crate::payload::{
    insert_error, invoice_from_data, invoice_matches, opt_json_view, patch_from_data, patch_matches,
    PayloadError,
};
use crate::store::{
    confined_to, evolves, has_live, id_taken, later, patch_applied, CreateSyncChange,
    StoreError, SyncStore,
};

verus! {

/// One client mutation.
#[derive(Debug)]
pub struct PushChange {
    /// The table of the record.
    pub table: String,
    /// The record's identifier.
    pub id: u128,
    /// The record's data, for an insert or an update.
    pub data: Option<JsonValue>,
    /// Whether the record is deleted.
    pub deleted: bool,
    /// The device that made the change.
    pub device_id: Option<String>,
    /// The client's version vector of the record.
    pub version_vector: Option<JsonValue>,
}

/// A batch of client mutations.
#[derive(Debug)]
pub struct PushRequest {
    pub changes: Vec<PushChange>,
    pub device_id: Option<String>,
}

/// The outcome of a push.
#[derive(Debug)]
pub struct PushResponse {
    /// Changes applied without conflict.
    pub applied: usize,
    /// Changes that conflicted and were settled.
    pub conflicts: usize,
    /// The records whose changes conflicted, in input order.
    pub conflicted_ids: Vec<u128>,
    /// The server's instant after the push.
    pub timestamp: i64,
}

/// Why one change of a batch was not applied.
#[derive(Debug, Clone, Copy, PartialEq, Eq, Structural)]
pub enum PushError {
    /// The change carries neither data nor a deletion.
    MalformedChange,
    /// The change names a table that the engine does not know.
    UnsupportedTable,
    /// The payload of a new record is not valid.
    Payload(PayloadError),
    /// The store refused the write.
    Store(StoreError),
}

/// The operation a change stands for: a deletion, an update of a live
/// record, or an insert; `None` for a change with neither data nor deletion.
pub open spec fn classify(deleted: bool, has_data: bool, exists: bool) -> Option<SyncOperation> {
    if deleted {
        Some(SyncOperation::Delete)
    } else if has_data && exists {
        Some(SyncOperation::Update)
    } else if has_data {
        Some(SyncOperation::Insert)
    } else {
        None
    }
}

/// Classifies a change, given whether its record is live on the server.
pub fn classify_operation(change: &PushChange, exists: bool) -> (r: Result<SyncOperation, PushError>)
    ensures
        match classify(change.deleted, change.data is Some, exists) {
            Some(op) => r == Ok::<SyncOperation, PushError>(op),
            None => r == Err::<SyncOperation, PushError>(PushError::MalformedChange),
        },
{
    if change.deleted {
        Ok(SyncOperation::Delete)
    } else if change.data.is_some() {
        if exists {
            Ok(SyncOperation::Update)
        } else {
            Ok(SyncOperation::Insert)
        }
    } else {
        Err(PushError::MalformedChange)
    }
}

/// The client's `last_modified`, where the payload gives valid RFC 3339 text.
pub open spec fn client_modified(data: Option<JsonValue>) -> Option<i64> {
    match data {
        Some(d) => match member_str(d@, "last_modified"@) {
            Some(t) => rfc3339_instant(t),
            None => None,
        },
        None => None,
    }
}

/// The client's version vector, where the payload gives one.
pub open spec fn client_version(data: Option<JsonValue>) -> Option<Json> {
    match data {
        Some(d) => crate::json::member(d@, "version_vector"@),
        None => None,
    }
}

/// Reads the client's `last_modified` from a payload.
pub fn read_client_modified(data: &Option<JsonValue>) -> (r: Option<i64>)
    ensures
        r == client_modified(*data),
{
    match data {
        Some(d) => match d.get_str("last_modified") {
            Some(t) => parse_rfc3339(t.as_str()),
            None => None,
        },
        None => None,
    }
}

/// Under a conflict, whether the server's version is kept.
pub open spec fn server_prevails(
    store: SyncStore,
    user: u128,
    id: u128,
    strategy: ConflictStrategy,
    client_last_modified: Option<i64>,
    device: Seq<char>,
) -> bool {
    owned_row(store.invoices@, user, id) is Some && match strategy {
        ConflictStrategy::ServerWins => true,
        ConflictStrategy::ClientWins => false,
        ConflictStrategy::LastWriteWins => !client_is_later(
            client_last_modified,
            device,
            owned_row(store.invoices@, user, id).unwrap().last_modified,
            last_device(store.changes@, user, invoices_table(), id),
        ),
    }
}

/// Whether a change is applied: the table is known, the change is well
/// formed, a sequence number is left, and a new record's payload is valid
/// and its identifier free.
pub open spec fn accepted(store: SyncStore, user: u128, change: PushChange) -> bool {
    let op = classify(change.deleted, change.data is Some, has_live(store.invoices@, user, change.id));
    &&& change.table@ == invoices_table()
    &&& op is Some
    &&& store.changes@.len() < i64::MAX
    &&& op == Some(SyncOperation::Insert) ==> insert_error(change.data.unwrap()@) is None && !id_taken(
        store.invoices@,
        change.id,
    )
}

/// What happens to the invoices when an accepted change is applied at
/// instant `ts`.
pub open spec fn applied_to_invoices(
    old: SyncStore,
    new: SyncStore,
    user: u128,
    change: PushChange,
    prevails: bool,
    ts: i64,
) -> bool {
    let op = classify(change.deleted, change.data is Some, has_live(old.invoices@, user, change.id));
    match op {
        Some(SyncOperation::Insert) => exists|inv: Invoice|
            invoice_matches(
                inv,
                user,
                change.id,
                change.data.unwrap()@,
                opt_json_view(change.version_vector),
                spec_day_of(ts) as i32,
            ) && new.invoices@ == old.invoices@.push(
                Invoice { last_modified: ts, created_at: ts, updated_at: ts, ..inv },
            ),
        Some(SyncOperation::Update) => if prevails {
            new.invoices == old.invoices
        } else {
            exists|k: int, p: crate::store::InvoicePatch|
                0 <= k < old.invoices@.len() && old.invoices@[k].id == change.id && patch_matches(
                    p,
                    change.data.unwrap()@,
                ) && new.invoices@ == old.invoices@.update(k, new.invoices@[k])
                    && #[trigger] patch_applied(new.invoices@[k], old.invoices@[k], p, ts)
        },
        _ => match owned_row(old.invoices@, user, change.id) {
            None => new.invoices == old.invoices,
            Some(row) => exists|k: int|
                0 <= k < old.invoices@.len() && (#[trigger] old.invoices@[k]).id == change.id
                    && new.invoices@ == old.invoices@.update(
                    k,
                    Invoice { is_deleted: true, last_modified: ts, updated_at: ts, ..row },
                ),
        },
    }
}

/// How one change of a batch takes the store from `old` to `new`, with
/// `outcome` `None` where the change is not applied and `Some(c)` where it is,
/// `c` telling whether it conflicted. An applied change appends exactly one
/// record to the change log, bearing its table, identifier and operation; one
/// that is not applied leaves the store as it was.
pub open spec fn change_step(
    old: SyncStore,
    new: SyncStore,
    user: u128,
    change: PushChange,
    device: Seq<char>,
    strategy: ConflictStrategy,
    now: i64,
    outcome: Option<bool>,
) -> bool {
    let op = classify(change.deleted, change.data is Some, has_live(old.invoices@, user, change.id));
    let ts = later(old.clock, now);
    let conflict = op == Some(SyncOperation::Update) && conflicts(
        live_row(old.invoices@, user, change.id),
        client_version(change.data),
        client_modified(change.data),
    );
    let rec = new.changes@.last();
    &&& evolves(old, new)
    &&& confined_to(old, new, user)
    &&& (outcome is Some <==> accepted(old, user, change))
    &&& outcome is None ==> new == old
    &&& outcome is Some ==> {
        &&& outcome == Some(conflict)
        &&& new.clock == ts
        &&& new.changes@.len() == old.changes@.len() + 1
        &&& new.changes@.drop_last() == old.changes@
        &&& rec.user_id == user
        &&& rec.table_name@ == change.table@
        &&& rec.record_id == change.id
        &&& Some(rec.operation) == op
        &&& rec.is_applied
        &&& rec.is_conflict == conflict
        &&& rec.device_id@ == device
        &&& rec.change_timestamp == ts
        &&& rec.sequence_number == old.changes@.len() + 1
        &&& applied_to_invoices(
            old,
            new,
            user,
            change,
            conflict && server_prevails(old, user, change.id, strategy, client_modified(change.data), device),
            ts,
        )
    }
}

/// Under a conflict, whether the server's version is kept.
pub fn server_prevails_over(
    store: &SyncStore,
    user_id: u128,
    record_id: u128,
    strategy: ConflictStrategy,
    client_last_modified: Option<i64>,
    device_id: &str,
) -> (r: bool)
    requires
        store.wf(),
    ensures
        r == server_prevails(*store, user_id, record_id, strategy, client_last_modified, device_id@),
{
    let row = match store.fetch_invoice(record_id, user_id) {
        Some(row) => row,
        None => return false,
    };
    proof {
        let k = choose|k: int|
            0 <= k < store.invoices@.len() && #[trigger] store.invoices@[k] == *row && row.id
                == record_id && row.user_id == user_id;
        let j = choose|j: int|
            0 <= j < store.invoices@.len() && (#[trigger] store.invoices@[j]).id == record_id
                && store.invoices@[j].user_id == user_id;
        assert(j == k);
    }
    match strategy {
        ConflictStrategy::ServerWins => true,
        ConflictStrategy::ClientWins => false,
        ConflictStrategy::LastWriteWins => {
            let server_device = crate::conflict::latest_device(
                &store.changes,
                user_id,
                "invoices",
                record_id,
            );
            let client_later = match client_last_modified {
                None => false,
                Some(c) => c > row.last_modified || (c == row.last_modified && !crate::text::str_less(
                    device_id,
                    server_device.as_str(),
                )),
            };
            !client_later
        },
    }
}

fn copy_json(v: &Option<JsonValue>) -> (r: Option<JsonValue>)
    ensures
        opt_json_view(r) == opt_json_view(*v),
{
    match v {
        Some(j) => Some(j.duplicate()),
        None => None,
    }
}

/// Applies one change of a batch on behalf of `user_id`: classifies it,
/// detects and settles a conflict, writes the record and journals the
/// mutation. Returns whether the change conflicted. A change that is not
/// applied leaves the store as it was.
pub fn apply_change(
    store: &mut SyncStore,
    user_id: u128,
    change: &PushChange,
    device_id: &str,
    strategy: ConflictStrategy,
    now: i64,
) -> (r: Result<bool, PushError>)
    requires
        old(store).wf(),
    ensures
        final(store).wf(),
        change_step(
            *old(store),
            *final(store),
            user_id,
            *change,
            device_id@,
            strategy,
            now,
            match r {
                Ok(c) => Some(c),
                Err(_) => None,
            },
        ),
        change.table@ != invoices_table() ==> r == Err::<bool, PushError>(PushError::UnsupportedTable),
        change.table@ == invoices_table() && !change.deleted && change.data is None ==> r == Err::<
            bool,
            PushError,
        >(PushError::MalformedChange),
{
    if !is_invoices_table(change.table.as_str()) {
        return Err(PushError::UnsupportedTable);
    }
    let exists = store.record_exists(change.id, user_id);
    let op = match classify_operation(change, exists) {
        Ok(op) => op,
        Err(e) => return Err(e),
    };
    if store.changes.len() as u64 >= i64::MAX as u64 {
        return Err(PushError::Store(StoreError::LogExhausted));
    }
    let ghost before = *store;
    let ts = if now > store.clock {
        now
    } else {
        store.clock
    };
    let client_lm = read_client_modified(&change.data);
    let client_vv: Option<&JsonValue> = match &change.data {
        Some(d) => d.get("version_vector"),
        None => None,
    };
    let conflict = match op {
        SyncOperation::Update => has_conflict(
            store,
            user_id,
            change.table.as_str(),
            change.id,
            client_vv,
            client_lm,
        ),
        _ => false,
    };
    let old_data = match op {
        SyncOperation::Insert => None,
        _ => match store.fetch_invoice(change.id, user_id) {
            Some(inv) => Some(invoice_snapshot(inv)),
            None => None,
        },
    };
    let mut new_data = copy_json(&change.data);
    let ghost prevails = server_prevails(before, user_id, change.id, strategy, client_lm, device_id@);
    match op {
        SyncOperation::Insert => {
            let data = match &change.data {
                Some(d) => d,
                None => return Err(PushError::MalformedChange),
            };
            let inv = match invoice_from_data(
                user_id,
                change.id,
                data,
                copy_json(&change.version_vector),
                day_of(ts),
            ) {
                Ok(inv) => inv,
                Err(e) => return Err(PushError::Payload(e)),
            };
            let ghost inserted = inv;
            match store.insert_invoice(inv, now) {
                Ok(()) => {},
                Err(e) => return Err(PushError::Store(e)),
            }
            assert(invoice_matches(
                inserted,
                user_id,
                change.id,
                change.data.unwrap()@,
                opt_json_view(change.version_vector),
                spec_day_of(ts) as i32,
            ));
            assert(applied_to_invoices(before, *store, user_id, *change, conflict && prevails, ts));
        },
        SyncOperation::Update => {
            let data = match &change.data {
                Some(d) => d,
                None => return Err(PushError::MalformedChange),
            };
            if conflict && server_prevails_over(store, user_id, change.id, strategy, client_lm, device_id) {
                new_data = Some(
                    resolve_conflict(
                        store,
                        user_id,
                        change.table.as_str(),
                        change.id,
                        data,
                        strategy,
                        client_lm,
                        device_id,
                    ),
                );
            } else {
                let patch = patch_from_data(data);
                store.update_invoice(change.id, user_id, patch, now);
            }
        },
        SyncOperation::Delete => {
            store.soft_delete_invoice(change.id, user_id, now);
        },
    }
    let ghost mid = *store;
    let entry = CreateSyncChange {
        table_name: change.table.clone(),
        record_id: change.id,
        operation: op,
        old_data,
        new_data,
        device_id: device_id.to_owned(),
        vector_clock: copy_json(&change.version_vector),
    };
    match store.append_change(user_id, entry, conflict, now) {
        Ok(()) => {},
        Err(e) => return Err(PushError::Store(e)),
    }
    proof {
        crate::store::lemma_evolves_trans(before, mid, *store);
        crate::store::lemma_confined_trans(before, mid, *store, user_id);
    }
    Ok(conflict)
}

/// The device a batch is attributed to: the request's, or `unknown`.
pub open spec fn batch_device(device_id: Option<String>) -> Seq<char> {
    match device_id {
        Some(d) => d@,
        None => "unknown"@,
    }
}

/// How many of the outcomes are `Some(which)`.
pub open spec fn count_outcomes(outcomes: Seq<Option<bool>>, which: bool) -> nat
    decreases outcomes.len(),
{
    if outcomes.len() == 0 {
        0
    } else {
        count_outcomes(outcomes.drop_last(), which) + if outcomes.last() == Some(which) {
            1nat
        } else {
            0nat
        }
    }
}

/// The identifiers of the changes whose outcome was a conflict, in order.
pub open spec fn conflicted(changes: Seq<PushChange>, outcomes: Seq<Option<bool>>) -> Seq<u128>
    decreases outcomes.len(),
{
    if outcomes.len() == 0 {
        Seq::empty()
    } else {
        let rest = conflicted(changes, outcomes.drop_last());
        if outcomes.last() == Some(true) {
            rest.push(changes[outcomes.len() - 1].id)
        } else {
            rest
        }
    }
}

/// `states` and `outcomes` trace a batch: each change in turn takes one state
/// to the next.
pub open spec fn push_trace(
    states: Seq<SyncStore>,
    outcomes: Seq<Option<bool>>,
    user: u128,
    changes: Seq<PushChange>,
    device: Seq<char>,
    now: i64,
) -> bool {
    &&& states.len() == changes.len() + 1
    &&& outcomes.len() == changes.len()
    &&& forall|i: int|
        #![trigger outcomes[i]]
        0 <= i < changes.len() ==> change_step(
            states[i],
            states[i + 1],
            user,
            changes[i],
            device,
            ConflictStrategy::ServerWins,
            now,
            outcomes[i],
        )
}

/// Applies a batch of changes on behalf of `user_id`, strictly in input
/// order, under the server-wins policy. A change that cannot be applied is
/// skipped and the rest go on; each applied change is journaled. Fails, with
/// nothing written, only where the change log has no room for the batch.
pub fn push_changes(store: &mut SyncStore, user_id: u128, request: PushRequest, now: i64) -> (r: Result<PushResponse, StoreError>)
    requires
        old(store).wf(),
    ensures
        final(store).wf(),
        evolves(*old(store), *final(store)),
        confined_to(*old(store), *final(store), user_id),
        r is Err <==> old(store).changes@.len() + request.changes@.len() >= i64::MAX,
        r is Err ==> *final(store) == *old(store) && r == Err::<PushResponse, StoreError>(
            StoreError::LogExhausted,
        ),
        r is Ok ==> ({
            let resp = r.unwrap();
            let n0 = old(store).changes@.len();
            let ts = later(old(store).clock, now);
            &&& resp.applied + resp.conflicts == final(store).changes@.len() - n0
            &&& resp.applied + resp.conflicts <= request.changes@.len()
            &&& resp.conflicted_ids@.len() == resp.conflicts
            &&& resp.timestamp == ts
            &&& final(store).clock == ts
            &&& forall|k: int|
                n0 <= k < final(store).changes@.len() ==> (#[trigger] final(store).changes@[k]).change_timestamp
                    == ts
            &&& resp.applied + resp.conflicts == request.changes@.len() ==> forall|k: int|
                0 <= k < request.changes@.len() ==> (#[trigger] final(store).changes@[n0 + k]).record_id
                    == request.changes@[k].id && final(store).changes@[n0 + k].table_name@
                    == request.changes@[k].table@
            &&& exists|states: Seq<SyncStore>, outcomes: Seq<Option<bool>>|
                #[trigger] push_trace(
                    states,
                    outcomes,
                    user_id,
                    request.changes@,
                    batch_device(request.device_id),
                    now,
                ) && states[0] == *old(store) && final(store).invoices == states.last().invoices
                    && final(store).changes == states.last().changes && resp.applied
                    == count_outcomes(outcomes, false) && resp.conflicts == count_outcomes(
                    outcomes,
                    true,
                ) && resp.conflicted_ids@ == conflicted(request.changes@, outcomes)
        }),
{
    let n = request.changes.len();
    if store.changes.len() as u64 >= i64::MAX as u64 || n as u64 >= (i64::MAX as u64) - (store.changes.len() as u64) {
        return Err(StoreError::LogExhausted);
    }
    let ghost start = *store;
    let ghost ts = later(start.clock, now);
    let device_id = match &request.device_id {
        Some(d) => d.clone(),
        None => "unknown".to_owned(),
    };
    proof {
        reveal_strlit("unknown");
    }
    let mut applied: usize = 0;
    let mut conflict_count: usize = 0;
    let mut conflicted_ids: Vec<u128> = Vec::new();
    let ghost mut states: Seq<SyncStore> = seq![*store];
    let ghost mut outcomes: Seq<Option<bool>> = Seq::empty();
    let mut i: usize = 0;
    while i < n
        invariant
            n == request.changes@.len(),
            i <= n,
            start.changes@.len() + n < i64::MAX,
            ts == later(start.clock, now),
            store.wf(),
            evolves(start, *store),
            confined_to(start, *store, user_id),
            store.clock == start.clock || store.clock == ts,
            applied + conflict_count == store.changes@.len() - start.changes@.len(),
            applied + conflict_count <= i,
            conflicted_ids@.len() == conflict_count,
            forall|k: int|
                start.changes@.len() <= k < store.changes@.len() ==> (#[trigger] store.changes@[k]).change_timestamp
                    == ts,
            applied + conflict_count == i ==> forall|k: int|
                0 <= k < i ==> (#[trigger] store.changes@[start.changes@.len() + k]).record_id
                    == request.changes@[k].id && store.changes@[start.changes@.len() + k].table_name@
                    == request.changes@[k].table@,
            device_id@ == batch_device(request.device_id),
            states.len() == i + 1,
            outcomes.len() == i,
            states[0] == start,
            states[i as int] == *store,
            forall|j: int|
                #![trigger outcomes[j]]
                0 <= j < i ==> change_step(
                    states[j],
                    states[j + 1],
                    user_id,
                    request.changes@[j],
                    device_id@,
                    ConflictStrategy::ServerWins,
                    now,
                    outcomes[j],
                ),
            applied == count_outcomes(outcomes, false),
            conflict_count == count_outcomes(outcomes, true),
            conflicted_ids@ == conflicted(request.changes@, outcomes),
        decreases n - i,
    {
        let change = &request.changes[i];
        let ghost prev = *store;
        let result = apply_change(store, user_id, change, device_id.as_str(), ConflictStrategy::ServerWins, now);
        proof {
            let o = match result {
                Ok(c) => Some(c),
                Err(_) => None,
            };
            assert(outcomes.push(o).drop_last() =~= outcomes);
            states = states.push(*store);
            outcomes = outcomes.push(o);
        }
        match result {
            Ok(was_conflict) => {
                if was_conflict {
                    conflict_count = conflict_count + 1;
                    conflicted_ids.push(change.id);
                } else {
                    applied = applied + 1;
                }
                proof {
                    crate::store::lemma_evolves_trans(start, prev, *store);
                    crate::store::lemma_confined_trans(start, prev, *store, user_id);
                    assert forall|k: int|
                        start.changes@.len() <= k < store.changes@.len() implies (#[trigger] store.changes@[k]).change_timestamp
                            == ts by {
                        if k < prev.changes@.len() {
                            assert(store.changes@[k] == prev.changes@[k]);
                        }
                    }
                    if applied + conflict_count == i + 1 {
                        assert forall|k: int| 0 <= k < i + 1 implies (#[trigger] store.changes@[start.changes@.len() + k]).record_id
                            == request.changes@[k].id && store.changes@[start.changes@.len() + k].table_name@
                            == request.changes@[k].table@ by {
                            if k < i {
                                assert(store.changes@[start.changes@.len() + k] == prev.changes@[start.changes@.len() + k]);
                            }
                        }
                    }
                }
            },
            Err(_) => {},
        }
        i = i + 1;
    }
    let timestamp = store.stamp(now);
    let r = PushResponse { applied, conflicts: conflict_count, conflicted_ids, timestamp };
    assert(push_trace(states, outcomes, user_id, request.changes@, batch_device(request.device_id), now));
    Ok(r)
}

/// A deleted record is not brought back by a later insert of its
/// identifier: such a change is not applied and leaves the store as it was.
pub proof fn lemma_no_resurrection(
    old: SyncStore,
    new: SyncStore,
    user: u128,
    change: PushChange,
    device: Seq<char>,
    strategy: ConflictStrategy,
    now: i64,
    outcome: Option<bool>,
    k: int,
)
    requires
        old.wf(),
        0 <= k < old.invoices@.len(),
        old.invoices@[k].id == change.id,
        old.invoices@[k].is_deleted,
        !change.deleted,
        change_step(old, new, user, change, device, strategy, now, outcome),
    ensures
        outcome is None,
        new == old,
{
    assert(!has_live(old.invoices@, user, change.id)) by {
        if has_live(old.invoices@, user, change.id) {
            let j = choose|j: int|
                0 <= j < old.invoices@.len() && (#[trigger] old.invoices@[j]).id == change.id
                    && old.invoices@[j].user_id == user && !old.invoices@[j].is_deleted;
            assert(j != k);
        }
    }
    assert(id_taken(old.invoices@, change.id));
}

/// An applied change is journaled exactly once: the change log gains one
/// record, applied, bearing the change's table, identifier and operation,
/// and every earlier record is kept.
pub proof fn lemma_applied_change_journaled_once(
    old: SyncStore,
    new: SyncStore,
    user: u128,
    change: PushChange,
    device: Seq<char>,
    strategy: ConflictStrategy,
    now: i64,
    conflict: bool,
)
    requires
        change_step(old, new, user, change, device, strategy, now, Some(conflict)),
    ensures
        new.changes@.len() == old.changes@.len() + 1,
        forall|k: int| 0 <= k < old.changes@.len() ==> #[trigger] new.changes@[k] == old.changes@[k],
        ({
            let rec = new.changes@[old.changes@.len() as int];
            &&& rec.is_applied
            &&& rec.user_id == user
            &&& rec.table_name@ == change.table@
            &&& rec.record_id == change.id
            &&& Some(rec.operation) == classify(
                change.deleted,
                change.data is Some,
                has_live(old.invoices@, user, change.id),
            )
        }),
{
    assert forall|k: int| 0 <= k < old.changes@.len() implies #[trigger] new.changes@[k] == old.changes@[k] by {
        assert(new.changes@.drop_last()[k] == new.changes@[k]);
    }
}

} // verus!
