use vstd::prelude::*;

use piccolo::{Closure, Executor, Fuel, Lua, StashedExecutor, StaticError};

verus! {

#[verifier::external_type_specification]
#[verifier::external_body]
pub struct ExLua(Lua);

#[verifier::external_type_specification]
#[verifier::external_body]
pub struct ExStashedExecutor(StashedExecutor);

#[verifier::external_type_specification]
#[verifier::external_body]
pub struct ExStaticError(StaticError);

/// Whether piccolo compiles `source` into a Lua chunk.
pub uninterp spec fn compiles(source: Seq<u8>) -> bool;

/// Fuel handed to the interpreter for each step of a running script.
pub const STEP_FUEL: i32 = 4096;

/// Relies on piccolo's `Lua::full`: a fresh interpreter with the whole standard library.
#[verifier::external_body]
fn new_lua() -> Lua {
    Lua::full()
}

/// Relies on piccolo's `Closure::load` (entered through `Lua::try_enter`) and
/// `Executor::start`: compiles `source` and readies it to run. Whether it
/// compiles depends on the bytes alone.
#[verifier::external_body]
fn load_script(lua: &mut Lua, source: &Vec<u8>) -> (r: Result<StashedExecutor, StaticError>)
    ensures
        r.is_ok() == compiles(source@),
{
    lua.try_enter(|ctx| {
        let closure = Closure::load(ctx, None, source.as_slice())?;
        Ok(ctx.stash(Executor::start(ctx, closure.into(), ())))
    })
}

/// Relies on piccolo's `Executor::step` (entered through `Lua::enter`, the
/// executor fetched with gc-arena's `DynamicRootSet::try_fetch`): runs the
/// script on `fuel` units of fuel and returns whether it has finished, or
/// `None` when `executor` was not stashed in this interpreter.
#[verifier::external_body]
fn step_script(lua: &mut Lua, executor: &StashedExecutor, fuel: i32) -> Option<bool> {
    let mut fuel = Fuel::with(fuel);
    lua.enter(|ctx| match ctx.registry().roots().try_fetch(&executor.0) {
        Ok(root) => Some(root.step(ctx, &mut fuel)),
        Err(_) => None,
    })
}

/// Relies on piccolo's `Executor::take_result` (entered through
/// `Lua::try_enter`, the executor fetched with gc-arena's
/// `DynamicRootSet::try_fetch`): whether a finished script returned or raised
/// an error, or `Ok(None)` when `executor` was not stashed in this interpreter.
#[verifier::external_body]
fn take_outcome(lua: &mut Lua, executor: &StashedExecutor) -> Result<Option<()>, StaticError> {
    lua.try_enter(|ctx| match ctx.registry().roots().try_fetch(&executor.0) {
        Ok(root) => Ok(Some(root.take_result::<()>(ctx)??)),
        Err(_) => Ok(None),
    })
}

/// Why one invocation of a scheduled unit did not run its script.
#[derive(Clone, Copy, Debug, PartialEq, Eq, Structural)]
pub enum UnitError {
    /// The asset's bytes are not loaded.
    Retrieval,
    /// The bytes do not compile.
    Compile,
    /// The script raised an error, or did not finish within its step budget.
    Runtime,
}

/// The outcome of a compiled script: `None` when it did not finish within
/// its budget, else what the interpreter handed back, where `Ok(None)` means
/// that the script was not found in it.
pub fn execution_outcome(taken: Option<Result<Option<()>, StaticError>>) -> (r: Result<(), UnitError>)
    ensures
        r == (match taken {
            Some(Ok(Some(()))) => Ok::<(), UnitError>(()),
            _ => Err(UnitError::Runtime),
        }),
{
    match taken {
        Some(Ok(Some(()))) => Ok(()),
        _ => Err(UnitError::Runtime),
    }
}

/// What the run loop does after one step of a script.
#[derive(Clone, Copy, Debug, PartialEq, Eq, Structural)]
pub enum RunStep {
    /// The script is unfinished and budget is left: step again.
    Continue,
    /// The script has finished: take its result.
    Finished,
    /// The budget is spent, or the interpreter lost the script: stop.
    GiveUp,
}

/// Decides the run loop after the `steps`-th step, given what that step
/// reported (`None` when the interpreter no longer holds the script).
pub fn after_step(stepped: Option<bool>, steps: u64, max_steps: u64) -> (r: RunStep)
    ensures
        r == (match stepped {
            Some(true) => RunStep::Finished,
            None => RunStep::GiveUp,
            Some(false) => if steps < max_steps {
                RunStep::Continue
            } else {
                RunStep::GiveUp
            },
        }),
{
    match stepped {
        Some(true) => RunStep::Finished,
        None => RunStep::GiveUp,
        Some(false) => if steps < max_steps {
            RunStep::Continue
        } else {
            RunStep::GiveUp
        },
    }
}

/// How one run of a script ended, and how many steps of `STEP_FUEL` fuel it took.
#[derive(Clone, Copy, Debug, PartialEq, Eq)]
pub struct RunReport {
    pub outcome: Result<(), UnitError>,
    pub steps: u64,
}

/// What a run of `source` with a budget of `max_steps` steps may report.
/// Bytes that do not compile are never stepped. Bytes that compile are
/// stepped at least once and at most `max_steps` times, and end in success or
/// a runtime error; a budget of zero always ends in a runtime error.
pub open spec fn permitted_run(source: Seq<u8>, max_steps: u64, r: RunReport) -> bool {
    if compiles(source) {
        &&& r.steps <= max_steps
        &&& max_steps > 0 ==> r.steps >= 1
        &&& max_steps == 0 ==> r.outcome == Err::<(), UnitError>(UnitError::Runtime)
        &&& (r.outcome == Ok::<(), UnitError>(()) || r.outcome == Err::<(), UnitError>(UnitError::Runtime))
    } else {
        r.outcome == Err::<(), UnitError>(UnitError::Compile) && r.steps == 0
    }
}

/// The one Lua interpreter. It is not `Clone`, and every operation takes
/// `&mut self`, so no two compile or run steps are ever in flight at once.
pub struct ScriptEngine {
    lua: Lua,
}

impl ScriptEngine {
    pub fn new() -> ScriptEngine {
        ScriptEngine { lua: new_lua() }
    }

    /// Compiles `source` and runs it for at most `max_steps` steps of
    /// `STEP_FUEL` fuel each, as `after_step` decides.
    pub fn run_source(&mut self, source: &Vec<u8>, max_steps: u64) -> (r: RunReport)
        ensures
            permitted_run(source@, max_steps, r),
    {
        let executor = match load_script(&mut self.lua, source) {
            Ok(e) => e,
            Err(_) => {
                return RunReport { outcome: Err(UnitError::Compile), steps: 0 };
            },
        };
        let mut steps: u64 = 0;
        let mut next = if max_steps > 0 {
            RunStep::Continue
        } else {
            RunStep::GiveUp
        };
        while next == RunStep::Continue
            invariant
                steps <= max_steps,
                next == RunStep::Continue ==> steps < max_steps,
                max_steps > 0 ==> (next == RunStep::Continue || steps >= 1),
                max_steps == 0 ==> next == RunStep::GiveUp,
            decreases max_steps - steps,
        {
            let stepped = step_script(&mut self.lua, &executor, STEP_FUEL);
            steps = steps + 1;
            next = after_step(stepped, steps, max_steps);
        }
        let outcome = if next == RunStep::Finished {
            execution_outcome(Some(take_outcome(&mut self.lua, &executor)))
        } else {
            execution_outcome(None)
        };
        RunReport { outcome, steps }
    }
}

} // verus!
