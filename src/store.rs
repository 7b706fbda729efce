//! The store: invoices and the append-only change log of one server, with
//! the transactional adapter operations that the sync engine and the chasing
//! worker use. Every write stamps the record with the store's clock, which
//! never runs backwards.
use vstd::prelude::*;
use crate::ids::fresh_uuid;
use crate::json::JsonValue;
use crate::models::{Invoice, InvoiceStatus, SyncChange, SyncOperation};
use crate::money::Amount;
use crate::versions::{is_object, merge_versions, merges};

verus! {

/// The failures that the store reports.
#[derive(Debug, Clone, Copy, PartialEq, Eq, Structural)]
pub enum StoreError {
    /// A record with this identifier is already stored.
    DuplicateId,
    /// No further sequence number can be allocated.
    LogExhausted,
}

/// What a new change-log record is made from; the store adds its identifier,
/// timestamp and sequence number.
#[derive(Debug)]
pub struct CreateSyncChange {
    pub table_name: String,
    pub record_id: u128,
    pub operation: SyncOperation,
    pub old_data: Option<JsonValue>,
    pub new_data: Option<JsonValue>,
    pub device_id: String,
    pub vector_clock: Option<JsonValue>,
}

/// A partial update of an invoice. `None` leaves a field as it is; for the
/// columns that may be empty, `Some(None)` clears the field.
#[derive(Debug)]
pub struct InvoicePatch {
    pub invoice_number: Option<String>,
    pub client_name: Option<String>,
    pub client_email: Option<Option<String>>,
    pub amount: Option<Amount>,
    pub currency: Option<String>,
    pub status: Option<InvoiceStatus>,
    pub due_date: Option<Option<i32>>,
    pub issue_date: Option<i32>,
    pub description: Option<Option<String>>,
    pub line_items: Option<Option<JsonValue>>,
    pub metadata: Option<Option<JsonValue>>,
    pub version_vector: Option<JsonValue>,
}

/// `given` where it is given, else `current`.
pub open spec fn coalesce<T>(current: T, given: Option<T>) -> T {
    match given {
        Some(v) => v,
        None => current,
    }
}

/// The invoice after a partial update stamped `ts`, version vector aside.
pub open spec fn patched(inv: Invoice, p: InvoicePatch, ts: i64) -> Invoice {
    Invoice {
        invoice_number: coalesce(inv.invoice_number, p.invoice_number),
        client_name: coalesce(inv.client_name, p.client_name),
        client_email: coalesce(inv.client_email, p.client_email),
        amount: coalesce(inv.amount, p.amount),
        currency: coalesce(inv.currency, p.currency),
        status: coalesce(inv.status, p.status),
        due_date: coalesce(inv.due_date, p.due_date),
        issue_date: coalesce(inv.issue_date, p.issue_date),
        description: coalesce(inv.description, p.description),
        line_items: coalesce(inv.line_items, p.line_items),
        metadata: coalesce(inv.metadata, p.metadata),
        last_modified: ts,
        updated_at: ts,
        ..inv
    }
}

/// The version vector after an update that gives `update`: a vector given
/// for one that is stored is merged into it by pointwise maximum (where both
/// are objects); one given for none is stored; none given leaves it.
pub open spec fn versions_after(new: Option<JsonValue>, old: Option<JsonValue>, update: Option<JsonValue>) -> bool {
    match update {
        None => new == old,
        Some(c) => new is Some && match old {
            Some(s) => if is_object(s@) && is_object(c@) {
                merges(new.unwrap()@, s@, c@)
            } else {
                new.unwrap()@ == c@
            },
            None => new.unwrap()@ == c@,
        },
    }
}

/// `new` is invoice `old` after partial update `p` stamped `ts`.
pub open spec fn patch_applied(new: Invoice, old: Invoice, p: InvoicePatch, ts: i64) -> bool {
    &&& new == Invoice { version_vector: new.version_vector, ..patched(old, p, ts) }
    &&& versions_after(new.version_vector, old.version_vector, p.version_vector)
}

/// Whether the user holds a live (not deleted) invoice with this identifier.
pub open spec fn has_live(invoices: Seq<Invoice>, user: u128, id: u128) -> bool {
    exists|k: int|
        0 <= k < invoices.len() && (#[trigger] invoices[k]).id == id && invoices[k].user_id == user
            && !invoices[k].is_deleted
}

/// Whether any invoice, of any user, has this identifier.
pub open spec fn id_taken(invoices: Seq<Invoice>, id: u128) -> bool {
    exists|k: int| 0 <= k < invoices.len() && (#[trigger] invoices[k]).id == id
}

/// `r` is the change-log record that `c` becomes when appended for `user` at
/// instant `ts` as the `seq`-th record.
pub open spec fn journal_entry(r: SyncChange, user: u128, c: CreateSyncChange, is_conflict: bool, ts: i64, seq: int) -> bool {
    &&& r.user_id == user
    &&& r.table_name == c.table_name
    &&& r.record_id == c.record_id
    &&& r.operation == c.operation
    &&& r.old_data == c.old_data
    &&& r.new_data == c.new_data
    &&& r.device_id == c.device_id
    &&& r.vector_clock == c.vector_clock
    &&& r.change_timestamp == ts
    &&& r.is_applied
    &&& r.is_conflict == is_conflict
    &&& r.conflict_resolution is None
    &&& r.sequence_number == seq
    &&& r.created_at == ts
}

/// The larger of two instants.
pub open spec fn later(a: i64, b: i64) -> i64 {
    if a >= b {
        a
    } else {
        b
    }
}

/// The server's state: invoices of all users and the change log.
pub struct SyncStore {
    pub invoices: Vec<Invoice>,
    pub changes: Vec<SyncChange>,
    /// The latest instant stamped on any write.
    pub clock: i64,
}

/// How a store may change under any operation: invoices are never removed
/// and keep their identifier and owner, `last_modified` never decreases,
/// deletion is sticky, the change log only grows, and the clock only moves
/// forward.
pub open spec fn evolves(old: SyncStore, new: SyncStore) -> bool {
    &&& old.invoices@.len() <= new.invoices@.len()
    &&& forall|k: int|
        0 <= k < old.invoices@.len() ==> {
            &&& (#[trigger] new.invoices@[k]).id == old.invoices@[k].id
            &&& new.invoices@[k].user_id == old.invoices@[k].user_id
            &&& old.invoices@[k].last_modified <= new.invoices@[k].last_modified
            &&& old.invoices@[k].is_deleted ==> new.invoices@[k].is_deleted
        }
    &&& old.changes@.len() <= new.changes@.len()
    &&& forall|k: int| 0 <= k < old.changes@.len() ==> #[trigger] new.changes@[k] == old.changes@[k]
    &&& old.clock <= new.clock
}

/// Evolution composes.
pub proof fn lemma_evolves_trans(a: SyncStore, b: SyncStore, c: SyncStore)
    requires
        evolves(a, b),
        evolves(b, c),
    ensures
        evolves(a, c),
{
    assert forall|k: int| 0 <= k < a.changes@.len() implies #[trigger] c.changes@[k] == a.changes@[k] by {
        assert(c.changes@[k] == b.changes@[k]);
    }
    assert forall|k: int| 0 <= k < a.invoices@.len() implies (#[trigger] c.invoices@[k]).id
        == a.invoices@[k].id by {
        assert(c.invoices@[k].id == b.invoices@[k].id);
    }
}

/// Writes on behalf of one user compose.
pub proof fn lemma_confined_trans(a: SyncStore, b: SyncStore, c: SyncStore, user: u128)
    requires
        evolves(a, b),
        evolves(b, c),
        confined_to(a, b, user),
        confined_to(b, c, user),
    ensures
        confined_to(a, c, user),
{
    assert forall|k: int| 0 <= k < a.invoices@.len() && a.invoices@[k].user_id != user implies #[trigger] c.invoices@[k]
        == a.invoices@[k] by {
        assert(b.invoices@[k] == a.invoices@[k]);
    }
    assert forall|k: int| a.invoices@.len() <= k < c.invoices@.len() implies (#[trigger] c.invoices@[k]).user_id
        == user by {
        if k < b.invoices@.len() {
            assert(b.invoices@[k].user_id == user);
            assert(c.invoices@[k].user_id == b.invoices@[k].user_id);
        }
    }
    assert forall|k: int| a.changes@.len() <= k < c.changes@.len() implies (#[trigger] c.changes@[k]).user_id
        == user by {
        if k < b.changes@.len() {
            assert(c.changes@[k] == b.changes@[k]);
        }
    }
}

/// The operation wrote on behalf of `user` alone: every other user's
/// invoices are as they were, and every new invoice and change-log record
/// is the user's.
pub open spec fn confined_to(old: SyncStore, new: SyncStore, user: u128) -> bool {
    &&& forall|k: int|
        0 <= k < old.invoices@.len() && old.invoices@[k].user_id != user ==> #[trigger] new.invoices@[k]
            == old.invoices@[k]
    &&& forall|k: int|
        old.invoices@.len() <= k < new.invoices@.len() ==> (#[trigger] new.invoices@[k]).user_id
            == user
    &&& forall|k: int|
        old.changes@.len() <= k < new.changes@.len() ==> (#[trigger] new.changes@[k]).user_id == user
}

/// The version vector after an update that gives `update`.
fn next_versions(stored: Option<JsonValue>, update: Option<JsonValue>) -> (r: Option<JsonValue>)
    ensures
        versions_after(r, stored, update),
{
    match update {
        None => stored,
        Some(v) => match stored {
            Some(s) => Some(merge_versions(&s, &v)),
            None => Some(v),
        },
    }
}

/// Writes a partial update into an invoice, stamped `ts`.
fn apply_patch(row: &mut Invoice, patch: InvoicePatch, ts: i64)
    ensures
        patch_applied(*final(row), *old(row), patch, ts),
{
    let InvoicePatch {
        invoice_number,
        client_name,
        client_email,
        amount,
        currency,
        status,
        due_date,
        issue_date,
        description,
        line_items,
        metadata,
        version_vector,
    } = patch;
    if let Some(v) = invoice_number {
        row.invoice_number = v;
    }
    if let Some(v) = client_name {
        row.client_name = v;
    }
    if let Some(v) = client_email {
        row.client_email = v;
    }
    if let Some(v) = amount {
        row.amount = v;
    }
    if let Some(v) = currency {
        row.currency = v;
    }
    if let Some(v) = status {
        row.status = v;
    }
    if let Some(v) = due_date {
        row.due_date = v;
    }
    if let Some(v) = issue_date {
        row.issue_date = v;
    }
    if let Some(v) = description {
        row.description = v;
    }
    if let Some(v) = line_items {
        row.line_items = v;
    }
    if let Some(v) = metadata {
        row.metadata = v;
    }
    let stored = row.version_vector.take();
    row.version_vector = next_versions(stored, version_vector);
    row.last_modified = ts;
    row.updated_at = ts;
}

impl SyncStore {
    /// The store's invariant: invoice identifiers are unique, nothing is
    /// stamped later than the clock, and the change log is ordered by
    /// timestamp with sequence numbers 1, 2, 3, ...
    pub open spec fn wf(&self) -> bool {
        &&& forall|i: int, j: int|
            0 <= i < j < self.invoices@.len() ==> (#[trigger] self.invoices@[i]).id
                != (#[trigger] self.invoices@[j]).id
        &&& forall|i: int|
            0 <= i < self.invoices@.len() ==> (#[trigger] self.invoices@[i]).last_modified
                <= self.clock && self.invoices@[i].amount.wf()
        &&& forall|i: int|
            0 <= i < self.changes@.len() ==> (#[trigger] self.changes@[i]).sequence_number == i + 1
                && self.changes@[i].change_timestamp <= self.clock && self.changes@[i].is_applied
        &&& forall|i: int, j: int|
            0 <= i < j < self.changes@.len() ==> (#[trigger] self.changes@[i]).change_timestamp
                <= (#[trigger] self.changes@[j]).change_timestamp
    }

    /// An empty store.
    pub fn new() -> (r: SyncStore)
        ensures
            r.wf(),
            r.invoices@.len() == 0,
            r.changes@.len() == 0,
            r.clock == 0,
    {
        SyncStore { invoices: Vec::new(), changes: Vec::new(), clock: 0 }
    }

    /// Advances the clock to `now`, unless it is already later; returns the
    /// instant to stamp on a write.
    pub fn stamp(&mut self, now: i64) -> (ts: i64)
        requires
            old(self).wf(),
        ensures
            ts == later(old(self).clock, now),
            final(self).clock == ts,
            final(self).invoices == old(self).invoices,
            final(self).changes == old(self).changes,
            final(self).wf(),
    {
        if now > self.clock {
            self.clock = now;
        }
        self.clock
    }

    /// The position of the invoice with this identifier, of any user.
    pub fn position_of(&self, id: u128) -> (r: Option<usize>)
        ensures
            match r {
                Some(k) => k < self.invoices@.len() && self.invoices@[k as int].id == id,
                None => !id_taken(self.invoices@, id),
            },
    {
        let mut k: usize = 0;
        while k < self.invoices.len()
            invariant
                k <= self.invoices@.len(),
                forall|j: int| 0 <= j < k ==> (#[trigger] self.invoices@[j]).id != id,
            decreases self.invoices.len() - k,
        {
            if self.invoices[k].id == id {
                return Some(k);
            }
            k = k + 1;
        }
        None
    }

    /// The user's invoice with this identifier, deleted or not.
    pub fn fetch_invoice(&self, id: u128, user_id: u128) -> (r: Option<&Invoice>)
        requires
            self.wf(),
        ensures
            match r {
                Some(inv) => exists|k: int|
                    0 <= k < self.invoices@.len() && #[trigger] self.invoices@[k] == *inv
                        && inv.id == id && inv.user_id == user_id,
                None => forall|k: int|
                    0 <= k < self.invoices@.len() && (#[trigger] self.invoices@[k]).id == id
                        ==> self.invoices@[k].user_id != user_id,
            },
    {
        match self.position_of(id) {
            Some(k) => {
                if self.invoices[k].user_id == user_id {
                    Some(&self.invoices[k])
                } else {
                    None
                }
            },
            None => None,
        }
    }

    /// Whether the user holds a live invoice with this identifier.
    pub fn record_exists(&self, record_id: u128, user_id: u128) -> (r: bool)
        requires
            self.wf(),
        ensures
            r == has_live(self.invoices@, user_id, record_id),
    {
        match self.position_of(record_id) {
            Some(k) => self.invoices[k].user_id == user_id && !self.invoices[k].is_deleted,
            None => false,
        }
    }

    /// Stores a new invoice, stamped with the store's clock. Fails, storing
    /// nothing, where the identifier is taken.
    pub fn insert_invoice(&mut self, inv: Invoice, now: i64) -> (r: Result<(), StoreError>)
        requires
            old(self).wf(),
            inv.amount.wf(),
        ensures
            final(self).wf(),
            evolves(*old(self), *final(self)),
            confined_to(*old(self), *final(self), inv.user_id),
            final(self).changes == old(self).changes,
            r is Err <==> id_taken(old(self).invoices@, inv.id),
            r is Err ==> r == Err::<(), StoreError>(StoreError::DuplicateId) && *final(self)
                == *old(self),
            r is Ok ==> final(self).clock == later(old(self).clock, now),
            r is Ok ==> {
                let ts = later(old(self).clock, now);
                final(self).invoices@ == old(self).invoices@.push(
                    Invoice { last_modified: ts, created_at: ts, updated_at: ts, ..inv },
                )
            },
    {
        if self.position_of(inv.id).is_some() {
            return Err(StoreError::DuplicateId);
        }
        let ts = self.stamp(now);
        let mut inv = inv;
        inv.last_modified = ts;
        inv.created_at = ts;
        inv.updated_at = ts;
        self.invoices.push(inv);
        Ok(())
    }

    /// Applies a partial update to the user's live invoice with this
    /// identifier; returns whether there was one.
    pub fn update_invoice(&mut self, record_id: u128, user_id: u128, patch: InvoicePatch, now: i64) -> (r: bool)
        requires
            old(self).wf(),
            patch.amount is Some ==> patch.amount.unwrap().wf(),
        ensures
            final(self).wf(),
            evolves(*old(self), *final(self)),
            confined_to(*old(self), *final(self), user_id),
            final(self).changes == old(self).changes,
            r == has_live(old(self).invoices@, user_id, record_id),
            !r ==> *final(self) == *old(self),
            r ==> final(self).clock == later(old(self).clock, now),
            r ==> exists|k: int|
                0 <= k < old(self).invoices@.len() && old(self).invoices@[k].id == record_id
                    && final(self).invoices@ == old(self).invoices@.update(k, final(self).invoices@[k])
                    && #[trigger] patch_applied(
                    final(self).invoices@[k],
                    old(self).invoices@[k],
                    patch,
                    later(old(self).clock, now),
                ),
    {
        let k = match self.position_of(record_id) {
            Some(k) => k,
            None => return false,
        };
        if self.invoices[k].user_id != user_id || self.invoices[k].is_deleted {
            return false;
        }
        let ts = self.stamp(now);
        apply_patch(&mut self.invoices[k], patch, ts);
        true
    }

    /// Marks the user's invoice with this identifier deleted; returns whether
    /// there was one.
    pub fn soft_delete_invoice(&mut self, record_id: u128, user_id: u128, now: i64) -> (r: bool)
        requires
            old(self).wf(),
        ensures
            final(self).wf(),
            evolves(*old(self), *final(self)),
            confined_to(*old(self), *final(self), user_id),
            final(self).changes == old(self).changes,
            r == exists|k: int|
                0 <= k < old(self).invoices@.len() && (#[trigger] old(self).invoices@[k]).id
                    == record_id && old(self).invoices@[k].user_id == user_id,
            !r ==> *final(self) == *old(self),
            r ==> final(self).clock == later(old(self).clock, now),
            r ==> exists|k: int|
                0 <= k < old(self).invoices@.len() && (#[trigger] old(self).invoices@[k]).id
                    == record_id && final(self).invoices@ == old(self).invoices@.update(
                    k,
                    Invoice {
                        is_deleted: true,
                        last_modified: later(old(self).clock, now),
                        updated_at: later(old(self).clock, now),
                        ..old(self).invoices@[k]
                    },
                ),
    {
        let k = match self.position_of(record_id) {
            Some(k) => k,
            None => return false,
        };
        if self.invoices[k].user_id != user_id {
            return false;
        }
        let ts = self.stamp(now);
        let row = &mut self.invoices[k];
        row.is_deleted = true;
        row.last_modified = ts;
        row.updated_at = ts;
        true
    }

    /// Replaces the metadata of the invoice at `position`, stamped with the
    /// store's clock.
    pub fn set_metadata(&mut self, position: usize, metadata: JsonValue, now: i64)
        requires
            old(self).wf(),
            position < old(self).invoices@.len(),
        ensures
            final(self).wf(),
            evolves(*old(self), *final(self)),
            confined_to(*old(self), *final(self), old(self).invoices@[position as int].user_id),
            final(self).changes == old(self).changes,
            final(self).clock == later(old(self).clock, now),
            final(self).invoices@ == old(self).invoices@.update(
                position as int,
                Invoice {
                    metadata: Some(metadata),
                    last_modified: later(old(self).clock, now),
                    updated_at: later(old(self).clock, now),
                    ..old(self).invoices@[position as int]
                },
            ),
    {
        let ts = self.stamp(now);
        let row = &mut self.invoices[position];
        row.metadata = Some(metadata);
        row.last_modified = ts;
        row.updated_at = ts;
    }

    /// Appends a record to the change log, stamped with the store's clock
    /// and the next sequence number. Fails only where no sequence number is
    /// left.
    pub fn append_change(&mut self, user_id: u128, change: CreateSyncChange, is_conflict: bool, now: i64) -> (r: Result<(), StoreError>)
        requires
            old(self).wf(),
        ensures
            final(self).wf(),
            evolves(*old(self), *final(self)),
            final(self).invoices == old(self).invoices,
            r is Err <==> old(self).changes@.len() >= i64::MAX,
            r is Err ==> r == Err::<(), StoreError>(StoreError::LogExhausted) && *final(self)
                == *old(self),
            r is Ok ==> {
                &&& final(self).changes@.len() == old(self).changes@.len() + 1
                &&& final(self).changes@.drop_last() == old(self).changes@
                &&& journal_entry(
                    final(self).changes@.last(),
                    user_id,
                    change,
                    is_conflict,
                    later(old(self).clock, now),
                    old(self).changes@.len() as int + 1,
                )
            },
            r is Ok ==> confined_to(*old(self), *final(self), user_id),
            r is Ok ==> final(self).clock == later(old(self).clock, now),
    {
        if self.changes.len() as u64 >= i64::MAX as u64 {
            return Err(StoreError::LogExhausted);
        }
        let ts = self.stamp(now);
        let seq = self.changes.len() as i64 + 1;
        let id = fresh_uuid();
        let CreateSyncChange {
            table_name,
            record_id,
            operation,
            old_data,
            new_data,
            device_id,
            vector_clock,
        } = change;
        self.changes.push(
            SyncChange {
                id,
                user_id,
                table_name,
                record_id,
                operation,
                old_data,
                new_data,
                device_id,
                change_timestamp: ts,
                vector_clock,
                is_applied: true,
                is_conflict,
                conflict_resolution: None,
                sequence_number: seq,
                created_at: ts,
            },
        );
        assert(self.changes@.drop_last() =~= old(self).changes@);
        Ok(())
    }
}

/// Within the change log, a record appended before another comes first in
/// the order of (timestamp, sequence number).
pub proof fn lemma_log_order(s: SyncStore, i: int, j: int)
    requires
        s.wf(),
        0 <= i < j < s.changes@.len(),
    ensures
        s.changes@[i].change_timestamp < s.changes@[j].change_timestamp || (
        s.changes@[i].change_timestamp == s.changes@[j].change_timestamp
            && s.changes@[i].sequence_number < s.changes@[j].sequence_number),
{
    assert(s.changes@[i].change_timestamp <= s.changes@[j].change_timestamp);
    assert(s.changes@[i].sequence_number == i + 1);
    assert(s.changes@[j].sequence_number == j + 1);
}

/// Across any sequence of writes, an invoice's `last_modified` never
/// decreases and a deleted invoice stays deleted.
pub proof fn lemma_invoice_history(a: SyncStore, b: SyncStore, k: int)
    requires
        evolves(a, b),
        0 <= k < a.invoices@.len(),
    ensures
        b.invoices@[k].id == a.invoices@[k].id,
        a.invoices@[k].last_modified <= b.invoices@[k].last_modified,
        a.invoices@[k].is_deleted ==> b.invoices@[k].is_deleted,
{
}

/// Whether the invoice at position `k` is due for chasing on day `today`:
/// past its due date, not paid and not deleted.
pub open spec fn overdue_on(invoices: Seq<Invoice>, k: int, today: i32) -> bool {
    &&& 0 <= k < invoices.len()
    &&& invoices[k].due_date is Some
    &&& invoices[k].due_date.unwrap() < today
    &&& invoices[k].status != InvoiceStatus::Paid
    &&& !invoices[k].is_deleted
}

/// The order in which overdue invoices are chased: by due date, then by
/// position in the store.
pub open spec fn chased_before(invoices: Seq<Invoice>, a: int, b: int) -> bool {
    let da = invoices[a].due_date.unwrap();
    let db = invoices[b].due_date.unwrap();
    da < db || (da == db && a < b)
}

impl SyncStore {
    /// The positions of at most `limit` overdue invoices, those due earliest
    /// first.
    pub fn fetch_overdue_invoices(&self, today: i32, limit: usize) -> (r: Vec<usize>)
        ensures
            r@.len() <= limit,
            forall|j: int| 0 <= j < r@.len() ==> overdue_on(self.invoices@, #[trigger] r@[j] as int, today),
            forall|i: int, j: int|
                0 <= i < j < r@.len() ==> chased_before(self.invoices@, #[trigger] r@[i] as int, #[trigger] r@[j] as int),
            forall|k: int|
                overdue_on(self.invoices@, k, today) ==> (exists|j: int| 0 <= j < r@.len() && #[trigger] r@[j] == k)
                    || (r@.len() == limit && (limit == 0 || chased_before(self.invoices@, r@[r@.len() - 1] as int, k))),
    {
        let mut out: Vec<usize> = Vec::new();
        let n = self.invoices.len();
        while out.len() < limit
            invariant
                n == self.invoices@.len(),
                out@.len() <= limit,
                forall|j: int| 0 <= j < out@.len() ==> overdue_on(self.invoices@, #[trigger] out@[j] as int, today),
                forall|i: int, j: int|
                    0 <= i < j < out@.len() ==> chased_before(self.invoices@, #[trigger] out@[i] as int, #[trigger] out@[j] as int),
                forall|k: int|
                    overdue_on(self.invoices@, k, today) && out@.len() > 0 && !chased_before(
                        self.invoices@,
                        out@[out@.len() - 1] as int,
                        k,
                    ) ==> exists|j: int| 0 <= j < out@.len() && #[trigger] out@[j] == k,
            decreases limit - out.len(),
        {
            let ghost prev = out@;
            // the earliest overdue invoice after the last one chosen
            let mut best: Option<usize> = None;
            let mut k: usize = 0;
            while k < n
                invariant
                    n == self.invoices@.len(),
                    k <= n,
                    out@ == prev,
                    forall|j: int| 0 <= j < prev.len() ==> overdue_on(self.invoices@, #[trigger] prev[j] as int, today),
                    match best {
                        Some(b) => b < k && overdue_on(self.invoices@, b as int, today) && (prev.len() == 0
                            || chased_before(self.invoices@, prev[prev.len() - 1] as int, b as int))
                            && forall|q: int|
                            0 <= q < k && overdue_on(self.invoices@, q, today) && (prev.len() == 0
                                || chased_before(self.invoices@, prev[prev.len() - 1] as int, q))
                                ==> q == b || chased_before(self.invoices@, b as int, q),
                        None => forall|q: int|
                            0 <= q < k && overdue_on(self.invoices@, q, today) ==> !(prev.len() == 0
                                || chased_before(self.invoices@, prev[prev.len() - 1] as int, q)),
                    },
                decreases n - k,
            {
                let inv = &self.invoices[k];
                let eligible = match inv.due_date {
                    Some(d) => d < today && inv.status != InvoiceStatus::Paid && !inv.is_deleted,
                    None => false,
                };
                let after_last = if out.len() == 0 {
                    true
                } else {
                    let last = out[out.len() - 1];
                    let dl = self.invoices[last].due_date.unwrap_or(0);
                    let dk = inv.due_date.unwrap_or(0);
                    dl < dk || (dl == dk && last < k)
                };
                if eligible && after_last {
                    let better = match best {
                        None => true,
                        Some(b) => {
                            let db = self.invoices[b].due_date.unwrap_or(0);
                            let dk = inv.due_date.unwrap_or(0);
                            dk < db
                        },
                    };
                    if better {
                        best = Some(k);
                    }
                }
                k = k + 1;
            }
            match best {
                Some(b) => {
                    out.push(b);
                    proof {
                        assert forall|q: int|
                            overdue_on(self.invoices@, q, today) && !chased_before(
                                self.invoices@,
                                out@[out@.len() - 1] as int,
                                q,
                            ) implies exists|j: int| 0 <= j < out@.len() && #[trigger] out@[j] == q by {
                            if q == b as int {
                                assert(out@[out@.len() - 1] == b);
                            } else if prev.len() == 0 || chased_before(self.invoices@, prev[prev.len() - 1] as int, q) {
                                assert(chased_before(self.invoices@, b as int, q));
                            } else {
                                let j = choose|j: int| 0 <= j < prev.len() && #[trigger] prev[j] == q;
                                assert(out@[j] == prev[j]);
                            }
                        }
                    }
                },
                None => {
                    return out;
                },
            }
        }
        out
    }
}

} // verus!
