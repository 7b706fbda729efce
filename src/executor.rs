//! The chase executor: reads an invoice, asks the state machine for the next
//! step, persists the new state and hands back the email to deliver.
use vstd::prelude::*;
use crate::calendar::{day_of, day_text, format_day, spec_day_of};
use crate::json::{member_str, with_member, Json, JsonValue};
use crate::models::{Invoice, InvoiceStatus};
use crate::money::{amount_text_2dp, decimal_text_2dp};
use crate::state_machine::{chase_step, ChaseAction, ChaseState, ChaseStateMachine, Transition};
use crate::store::{later, SyncStore};
use crate::text::concat;

verus! {

/// Why an invoice could not be chased.
#[derive(Debug, Clone, Copy, PartialEq, Eq, Structural)]
pub enum ChaseError {
    /// A reminder is due but the invoice has no client email.
    NoClientEmail,
}

/// A reminder to deliver.
#[derive(Debug)]
pub struct ChaseEmail {
    pub to: String,
    /// `polite` or `firm`.
    pub tone: String,
    /// What the email is about: `Invoice <n> for <currency> <amount> (Due: <due>)`.
    pub context: String,
}

/// What one step of chasing did to an invoice.
#[derive(Debug)]
pub struct ChaseOutcome {
    pub previous: ChaseState,
    pub next: ChaseState,
    pub action: ChaseAction,
    /// The reminder to deliver, for a reminder action.
    pub email: Option<ChaseEmail>,
    /// Whether the new state was written.
    pub persisted: bool,
}

/// The chase state recorded in an invoice's metadata, if it is a known one.
pub open spec fn recorded_state(inv: Invoice) -> Option<ChaseState> {
    match inv.metadata {
        Some(m) => match member_str(m@, "chase_state"@) {
            Some(name) => ChaseState::spec_from_name(name),
            None => None,
        },
        None => None,
    }
}

/// An invoice's current chase state on day `today`: the recorded one where
/// there is one; else paid for a paid invoice, overdue past the due date,
/// pending otherwise.
pub open spec fn chase_state_of(inv: Invoice, today: int) -> ChaseState {
    match recorded_state(inv) {
        Some(s) => s,
        None => if inv.status == InvoiceStatus::Paid {
            ChaseState::Paid
        } else if inv.due_date is Some && (inv.due_date.unwrap() as int) < today {
            ChaseState::Overdue
        } else {
            ChaseState::Pending
        },
    }
}

/// Days past the due date on day `today`; 0 where the invoice is not past
/// due or has no due date.
pub open spec fn days_overdue(inv: Invoice, today: int) -> int {
    match inv.due_date {
        Some(d) => if (d as int) < today {
            today - d
        } else {
            0
        },
        None => 0,
    }
}

/// How the due date reads in a reminder's context.
pub open spec fn due_label(due: Option<i32>) -> Seq<char> {
    match due {
        None => "None"@,
        Some(d) => "Some("@ + match day_text(d) {
            Some(t) => t,
            None => Seq::empty(),
        } + ")"@,
    }
}

/// The context of a reminder about an invoice.
pub open spec fn context_text(inv: Invoice) -> Seq<char> {
    "Invoice "@ + inv.invoice_number@ + " for "@ + inv.currency@ + " "@ + decimal_text_2dp(
        inv.amount.mantissa,
        inv.amount.scale,
    ) + " (Due: "@ + due_label(inv.due_date) + ")"@
}

/// The metadata after recording chase state `s`: the old metadata object
/// (or an empty one) with member `chase_state` set.
pub open spec fn chased_metadata(m: Option<JsonValue>, s: ChaseState) -> Json {
    let base = match m {
        Some(v) => match v@ {
            Json::Object(f) => Json::Object(f),
            _ => Json::Object(Seq::empty()),
        },
        None => Json::Object(Seq::empty()),
    };
    with_member(base, "chase_state"@, Json::Str(s.spec_name()))
}

/// Whether a step's action sends a reminder.
pub open spec fn sends_reminder(a: ChaseAction) -> bool {
    a == ChaseAction::SendPoliteReminder || a == ChaseAction::SendFirmReminder
}

/// Whether a step writes the new state: after a reminder, on payment, and
/// otherwise where the state changed.
pub open spec fn persists(previous: ChaseState, next: ChaseState, a: ChaseAction) -> bool {
    sends_reminder(a) || a == ChaseAction::MarkAsPaid || previous != next
}

/// Drives invoices through the chasing state machine.
pub struct ChaseExecutor;

impl ChaseExecutor {
    pub fn new() -> (r: ChaseExecutor) {
        ChaseExecutor
    }

    /// The invoice's current chase state on day `today`.
    pub fn get_chase_state(&self, invoice: &Invoice, today: i32) -> (r: ChaseState)
        ensures
            r == chase_state_of(*invoice, today as int),
    {
        if let Some(metadata) = &invoice.metadata {
            if let Some(name) = metadata.get_str("chase_state") {
                if let Some(s) = ChaseState::from_name(name.as_str()) {
                    return s;
                }
            }
        }
        if invoice.status == InvoiceStatus::Paid {
            ChaseState::Paid
        } else {
            match invoice.due_date {
                Some(d) => if d < today {
                    ChaseState::Overdue
                } else {
                    ChaseState::Pending
                },
                None => ChaseState::Pending,
            }
        }
    }

    /// Days the invoice is past due on day `today`.
    pub fn calculate_days_overdue(&self, invoice: &Invoice, today: i32) -> (r: i64)
        ensures
            r as int == days_overdue(*invoice, today as int),
    {
        match invoice.due_date {
            Some(d) => if d < today {
                today as i64 - d as i64
            } else {
                0
            },
            None => 0,
        }
    }
}

/// The context line of a reminder about an invoice.
pub fn chase_context(invoice: &Invoice) -> (r: String)
    requires
        invoice.amount.wf(),
    ensures
        r@ == context_text(*invoice),
{
    let due = match invoice.due_date {
        None => "None".to_owned(),
        Some(d) => {
            let text = match format_day(d) {
                Some(t) => t,
                None => String::new(),
            };
            let open = concat("Some(", text.as_str());
            concat(open.as_str(), ")")
        },
    };
    let amount = amount_text_2dp(&invoice.amount);
    let s = concat("Invoice ", invoice.invoice_number.as_str());
    let s = concat(s.as_str(), " for ");
    let s = concat(s.as_str(), invoice.currency.as_str());
    let s = concat(s.as_str(), " ");
    let s = concat(s.as_str(), amount.as_str());
    let s = concat(s.as_str(), " (Due: ");
    let s = concat(s.as_str(), due.as_str());
    let s = concat(s.as_str(), ")");
    s
}

/// Records chase state `state` in the metadata of the invoice at `position`.
pub fn update_chase_state(store: &mut SyncStore, position: usize, state: ChaseState, now: i64)
    requires
        old(store).wf(),
        position < old(store).invoices@.len(),
    ensures
        final(store).wf(),
        crate::store::evolves(*old(store), *final(store)),
        final(store).changes == old(store).changes,
        exists|m: JsonValue|
            m@ == chased_metadata(old(store).invoices@[position as int].metadata, state)
                && final(store).invoices@ == old(store).invoices@.update(
                position as int,
                Invoice {
                    metadata: Some(m),
                    last_modified: later(old(store).clock, now),
                    updated_at: later(old(store).clock, now),
                    ..old(store).invoices@[position as int]
                },
            ),
{
    let empty = JsonValue::Object(Vec::new());
    assert(crate::json::fields_of(empty@) =~= Seq::<(Seq<char>, Json)>::empty());
    let base = match &store.invoices[position].metadata {
        Some(v) => match v {
            JsonValue::Object(_) => v.duplicate(),
            _ => empty,
        },
        None => empty,
    };
    let name = JsonValue::Str(state.as_str().to_owned());
    let merged = base.put_member("chase_state", name);
    proof {
        reveal_strlit("chase_state");
    }
    store.set_metadata(position, merged, now);
}

/// Whether the invoice has a client email to send reminders to.
pub open spec fn has_recipient(inv: Invoice) -> bool {
    inv.client_email is Some && inv.client_email.unwrap()@.len() > 0
}

/// The tone of the reminder that an action sends.
pub open spec fn tone_of(a: ChaseAction) -> Seq<char> {
    if a == ChaseAction::SendFirmReminder {
        "firm"@
    } else {
        "polite"@
    }
}

/// How one chasing step of the invoice at `position` on the day of `now`
/// takes the store from `old` to `new`; `ok` tells whether the step
/// succeeded. A failed step, and one that changes no state, writes nothing;
/// otherwise the new state is recorded in the invoice's metadata.
pub open spec fn chase_effect(old: SyncStore, new: SyncStore, position: int, now: i64, ok: bool) -> bool {
    let inv = old.invoices@[position];
    let today = spec_day_of(now);
    let cur = chase_state_of(inv, today);
    let step = chase_step(cur, days_overdue(inv, today));
    &&& (ok <==> !(sends_reminder(step.1) && !has_recipient(inv)))
    &&& (!ok || !persists(cur, step.0, step.1)) ==> new == old
    &&& (ok && persists(cur, step.0, step.1)) ==> new.changes == old.changes && exists|m: JsonValue|
        m@ == chased_metadata(inv.metadata, step.0) && new.invoices@ == old.invoices@.update(
            position,
            Invoice {
                metadata: Some(m),
                last_modified: later(old.clock, now),
                updated_at: later(old.clock, now),
                ..inv
            },
        )
}

impl ChaseExecutor {
    /// Takes the invoice at `position` one step through the chasing state
    /// machine on the UTC day of `now`: decides the next state and action,
    /// writes the new state where the step calls for it, and returns the
    /// reminder to deliver. The state is written before the reminder leaves;
    /// a reminder that is due for an invoice without client email fails the
    /// step and writes nothing.
    pub fn process_invoice(&self, store: &mut SyncStore, position: usize, now: i64) -> (r: Result<ChaseOutcome, ChaseError>)
        requires
            old(store).wf(),
            position < old(store).invoices@.len(),
        ensures
            final(store).wf(),
            crate::store::evolves(*old(store), *final(store)),
            final(store).changes == old(store).changes,
            chase_effect(*old(store), *final(store), position as int, now, r is Ok),
            ({
                let inv = old(store).invoices@[position as int];
                let today = spec_day_of(now);
                let cur = chase_state_of(inv, today);
                let step = chase_step(cur, days_overdue(inv, today));
                &&& r is Err <==> sends_reminder(step.1) && !has_recipient(inv)
                &&& r is Err ==> *final(store) == *old(store) && r == Err::<ChaseOutcome, ChaseError>(
                    ChaseError::NoClientEmail,
                )
                &&& r is Ok ==> {
                    let o = r.unwrap();
                    &&& o.previous == cur
                    &&& o.next == step.0
                    &&& o.action == step.1
                    &&& o.persisted == persists(cur, step.0, step.1)
                    &&& (o.email is Some <==> sends_reminder(step.1))
                    &&& o.email is Some ==> o.email.unwrap().to@ == inv.client_email.unwrap()@
                        && o.email.unwrap().tone@ == tone_of(step.1) && o.email.unwrap().context@
                        == context_text(inv)
                    &&& !o.persisted ==> *final(store) == *old(store)
                    &&& o.persisted ==> exists|m: JsonValue|
                        m@ == chased_metadata(inv.metadata, step.0) && final(store).invoices@
                            == old(store).invoices@.update(
                            position as int,
                            Invoice {
                                metadata: Some(m),
                                last_modified: later(old(store).clock, now),
                                updated_at: later(old(store).clock, now),
                                ..inv
                            },
                        )
                }
            }),
    {
        let today = day_of(now);
        let invoice = &store.invoices[position];
        let current = self.get_chase_state(invoice, today);
        let days = self.calculate_days_overdue(invoice, today);
        let (next, action) = ChaseStateMachine::transition(current, days);
        let email = match action {
            ChaseAction::SendPoliteReminder | ChaseAction::SendFirmReminder => {
                let to = match &invoice.client_email {
                    Some(e) => {
                        if e.as_str().unicode_len() == 0 {
                            return Err(ChaseError::NoClientEmail);
                        }
                        e.clone()
                    },
                    None => return Err(ChaseError::NoClientEmail),
                };
                let tone = match action {
                    ChaseAction::SendFirmReminder => "firm".to_owned(),
                    _ => "polite".to_owned(),
                };
                Some(ChaseEmail { to, tone, context: chase_context(invoice) })
            },
            _ => None,
        };
        let persisted = match action {
            ChaseAction::SendPoliteReminder | ChaseAction::SendFirmReminder | ChaseAction::MarkAsPaid => true,
            ChaseAction::NoAction => current != next,
        };
        if persisted {
            update_chase_state(store, position, next, now);
        }
        Ok(ChaseOutcome { previous: current, next, action, email, persisted })
    }
}

} // verus!
