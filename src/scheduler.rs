//! The chasing worker's tick: select the overdue invoices and take each one
//! step through the state machine. Waiting between ticks, and delivering
//! the reminders a tick returns, is left to the caller.
use vstd::prelude::*;
use crate::calendar::{day_of, spec_day_of};
use crate::executor::{chase_effect, ChaseEmail, ChaseExecutor};
use crate::store::{chased_before, evolves, overdue_on, SyncStore};

verus! {

/// Seconds between ticks where none is configured.
pub const DEFAULT_POLL_INTERVAL_SECONDS: u64 = 60;

/// The most invoices one tick takes on.
pub const OVERDUE_BATCH: usize = 100;

/// What one tick did.
#[derive(Debug)]
pub struct TickReport {
    /// The positions of the invoices taken on, earliest due first.
    pub chased: Vec<usize>,
    /// How many of them were stepped successfully.
    pub processed: usize,
    /// How many of them failed.
    pub failed: usize,
    /// The reminders to deliver.
    pub emails: Vec<ChaseEmail>,
}

/// How many of the steps succeeded.
pub open spec fn count_ok(oks: Seq<bool>) -> nat
    decreases oks.len(),
{
    if oks.len() == 0 {
        0
    } else {
        count_ok(oks.drop_last()) + if oks.last() {
            1nat
        } else {
            0nat
        }
    }
}

/// `states` and `oks` trace a tick: the invoice at each chosen position in
/// turn takes one state to the next.
pub open spec fn tick_trace(states: Seq<SyncStore>, oks: Seq<bool>, chased: Seq<usize>, now: i64) -> bool
    decreases oks.len(),
{
    if oks.len() == 0 {
        states.len() == 1 && chased.len() == 0
    } else {
        let n = oks.len() - 1;
        &&& states.len() == oks.len() + 1
        &&& chased.len() == oks.len()
        &&& tick_trace(states.drop_last(), oks.drop_last(), chased.drop_last(), now)
        &&& chased[n] < states[n].invoices@.len()
        &&& chase_effect(states[n], states[n + 1], chased[n] as int, now, oks[n])
    }
}

/// The chasing worker's schedule and running flag.
pub struct JobScheduler {
    pub poll_interval_seconds: u64,
    pub running: bool,
}

impl JobScheduler {
    /// A stopped scheduler that polls every `poll_interval_seconds` (60 where
    /// none is given).
    pub fn new(poll_interval_seconds: Option<u64>) -> (r: JobScheduler)
        ensures
            r.poll_interval_seconds == match poll_interval_seconds {
                Some(s) => s,
                None => DEFAULT_POLL_INTERVAL_SECONDS,
            },
            !r.running,
    {
        let interval = match poll_interval_seconds {
            Some(s) => s,
            None => DEFAULT_POLL_INTERVAL_SECONDS,
        };
        JobScheduler { poll_interval_seconds: interval, running: false }
    }

    /// Marks the scheduler running.
    pub fn start(&mut self)
        ensures
            final(self).running,
            final(self).poll_interval_seconds == old(self).poll_interval_seconds,
    {
        self.running = true;
    }

    /// Asks the scheduler to stop after the current tick.
    pub fn stop(&mut self)
        ensures
            !final(self).running,
            final(self).poll_interval_seconds == old(self).poll_interval_seconds,
    {
        self.running = false;
    }

    /// One tick on the UTC day of `now`: takes on at most 100 overdue
    /// invoices, earliest due first, and steps each; a failure is counted and
    /// the tick goes on with the next invoice.
    pub fn poll_and_process(&self, store: &mut SyncStore, now: i64) -> (r: TickReport)
        requires
            old(store).wf(),
        ensures
            final(store).wf(),
            evolves(*old(store), *final(store)),
            final(store).changes == old(store).changes,
            r.processed + r.failed == r.chased@.len(),
            exists|states: Seq<SyncStore>, oks: Seq<bool>|
                #[trigger] tick_trace(states, oks, r.chased@, now) && states[0] == *old(store)
                    && states.last() == *final(store) && r.processed == count_ok(oks),
            r.emails@.len() <= r.processed,
            r.chased@.len() <= OVERDUE_BATCH,
            forall|j: int|
                0 <= j < r.chased@.len() ==> overdue_on(
                    old(store).invoices@,
                    #[trigger] r.chased@[j] as int,
                    spec_day_of(now) as i32,
                ),
            forall|i: int, j: int|
                0 <= i < j < r.chased@.len() ==> chased_before(
                    old(store).invoices@,
                    #[trigger] r.chased@[i] as int,
                    #[trigger] r.chased@[j] as int,
                ),
            forall|k: int|
                #[trigger] overdue_on(old(store).invoices@, k, spec_day_of(now) as i32) ==> (exists|j: int|
                    0 <= j < r.chased@.len() && #[trigger] r.chased@[j] == k) || (r.chased@.len()
                    == OVERDUE_BATCH && chased_before(
                    old(store).invoices@,
                    r.chased@[r.chased@.len() - 1] as int,
                    k,
                )),
    {
        let today = day_of(now);
        let chased = store.fetch_overdue_invoices(today, OVERDUE_BATCH);
        let ghost start = *store;
        let executor = ChaseExecutor::new();
        let mut processed: usize = 0;
        let mut failed: usize = 0;
        let mut emails: Vec<ChaseEmail> = Vec::new();
        let ghost mut states: Seq<SyncStore> = seq![*store];
        let ghost mut oks: Seq<bool> = Seq::empty();
        let mut i: usize = 0;
        while i < chased.len()
            invariant
                i <= chased@.len(),
                chased@.len() <= OVERDUE_BATCH,
                forall|j: int| 0 <= j < chased@.len() ==> overdue_on(start.invoices@, #[trigger] chased@[j] as int, today),
                store.wf(),
                evolves(start, *store),
                store.invoices@.len() == start.invoices@.len(),
                store.changes == start.changes,
                processed + failed == i,
                states.len() == i + 1,
                oks.len() == i,
                states[0] == start,
                states[i as int] == *store,
                tick_trace(states, oks, chased@.take(i as int), now),
                processed == count_ok(oks),
                emails@.len() <= processed,
            decreases chased.len() - i,
        {
            let position = chased[i];
            let ghost prev = *store;
            let result = executor.process_invoice(store, position, now);
            let ghost ok = result is Ok;
            match result {
                Ok(outcome) => {
                    processed = processed + 1;
                    if let Some(email) = outcome.email {
                        emails.push(email);
                    }
                },
                Err(_) => {
                    failed = failed + 1;
                },
            }
            proof {
                crate::store::lemma_evolves_trans(start, prev, *store);
            }
            proof {
                let old_states = states;
                assert(oks.push(ok).drop_last() =~= oks);
                states = states.push(*store);
                oks = oks.push(ok);
                assert(states.drop_last() =~= old_states);
                assert(chased@.take(i + 1).drop_last() =~= chased@.take(i as int));
                assert(chase_effect(prev, *store, position as int, now, ok));
            }
            i = i + 1;
        }
        assert(chased@.take(chased@.len() as int) =~= chased@);
        TickReport { chased, processed, failed, emails }
    }
}

} // verus!
