use vstd::prelude::*;

use crate::engine::{compiles, permitted_run, RunReport, ScriptEngine, UnitError};
use crate::key_set::AssetKey;
use crate::store::ScriptStore;

verus! {

/// What one invocation of the unit for an asset may report, given the
/// asset's bytes at the moment of the call (`None` when none are loaded) and
/// the step budget: without bytes nothing runs, else the bytes run on that budget.
pub open spec fn permitted_outcome(source: Option<Seq<u8>>, max_steps: u64, r: RunReport) -> bool {
    match source {
        None => r.outcome == Err::<(), UnitError>(UnitError::Retrieval) && r.steps == 0,
        Some(b) => permitted_run(b, max_steps, r),
    }
}

/// The bytes that `store` holds for `k`, if any.
pub open spec fn source_of(store: Map<AssetKey, Seq<u8>>, k: AssetKey) -> Option<Seq<u8>> {
    if store.contains_key(k) {
        Some(store[k])
    } else {
        None
    }
}

/// A schedulable unit bound to one asset. It holds the key only, never the
/// bytes: each invocation reads the bytes current at that moment.
#[derive(Clone, Copy, Debug, PartialEq, Eq, Structural)]
pub struct ScheduledUnit {
    key: AssetKey,
}

impl ScheduledUnit {
    pub closed spec fn spec_key(&self) -> AssetKey {
        self.key
    }

    /// Builds the unit for `key`.
    pub fn build(key: AssetKey) -> (r: ScheduledUnit)
        ensures
            r.spec_key() == key,
    {
        ScheduledUnit { key }
    }

    /// The asset this unit runs; also the unit's name in the schedule, so a
    /// rebuild for the same asset is recognised as the same unit.
    pub fn key(&self) -> (r: AssetKey)
        ensures
            r == self.spec_key(),
    {
        self.key
    }

    /// Runs the asset's current bytes once. Every failure is returned; none
    /// panics or touches another unit. Without bytes the engine is not used.
    pub fn invoke(&self, engine: &mut ScriptEngine, store: &ScriptStore, max_steps: u64) -> (r: RunReport)
        ensures
            permitted_outcome(source_of(store@, self.spec_key()), max_steps, r),
            !store@.contains_key(self.spec_key()) ==> *final(engine) == *old(engine),
    {
        match store.get(self.key) {
            None => RunReport { outcome: Err(UnitError::Retrieval), steps: 0 },
            Some(source) => engine.run_source(source, max_steps),
        }
    }
}

/// An invocation is judged by the bytes current at its call, whatever an
/// earlier invocation of the same unit saw: once the bytes change to ones
/// that do not compile, the next invocation reports a compile error, and once
/// they change back to ones that compile, it no longer does.
pub proof fn lemma_outcome_follows_current_bytes(
    earlier: Seq<u8>,
    current: Seq<u8>,
    max_steps: u64,
    earlier_report: RunReport,
    report: RunReport,
)
    requires
        permitted_outcome(Some(earlier), max_steps, earlier_report),
        permitted_outcome(Some(current), max_steps, report),
    ensures
        !compiles(current) ==> report.outcome == Err::<(), UnitError>(UnitError::Compile),
        compiles(current) ==> report.outcome != Err::<(), UnitError>(UnitError::Compile),
{
}

/// Invokes every unit once, in order, each on a budget of `max_steps`, and
/// reports each run: a unit that fails does not keep the later ones from running.
pub fn run_units(units: &Vec<ScheduledUnit>, engine: &mut ScriptEngine, store: &ScriptStore, max_steps: u64) -> (r: Vec<RunReport>)
    ensures
        r@.len() == units@.len(),
        forall|i: int| 0 <= i < units@.len() ==> permitted_outcome(source_of(store@, (#[trigger] units@[i]).spec_key()), max_steps, r@[i]),
{
    let mut outcomes: Vec<RunReport> = Vec::new();
    let mut i: usize = 0;
    while i < units.len()
        invariant
            i <= units@.len(),
            outcomes@.len() == i,
            forall|j: int| 0 <= j < i ==> permitted_outcome(source_of(store@, (#[trigger] units@[j]).spec_key()), max_steps, outcomes@[j]),
        decreases units@.len() - i,
    {
        let outcome = units[i].invoke(engine, store, max_steps);
        outcomes.push(outcome);
        i = i + 1;
    }
    outcomes
}

} // verus!
