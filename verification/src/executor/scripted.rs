//! Runs on ports that hold no surprise: an input port that serves a list given
//! in advance, and an output port that keeps what it is sent. Such a run is a
//! function of its program and its inputs.

use vstd::prelude::*;
use crate::errors::ExecutionReport;
use crate::executor::machine::{
    cycle, executes, executes_within, limit_report, reaches, report, request, steps, steps_with, Machine, Outcome,
    Phase, Request, CYCLE_LIMIT,
};
use crate::input::FixedInput;
use crate::output::QueueOutput;

verus! {

/// A machine on such ports, by what the ports hold: the inputs not served yet,
/// and the outputs sent and not taken out yet.
pub struct Scripted {
    pub memory: Seq<i32>,
    pub counter: int,
    pub inputs: Seq<i32>,
    pub outputs: Seq<i32>,
}

/// What a machine on such ports holds.
pub open spec fn script_of(machine: Machine<FixedInput, QueueOutput>) -> Scripted {
    Scripted {
        memory: machine.memory,
        counter: machine.counter,
        inputs: machine.input@,
        outputs: machine.output@,
    }
}

/// What a pull gives when these inputs are left.
pub open spec fn scripted_pull(inputs: Seq<i32>) -> Result<i32, Seq<char>> {
    if inputs.len() > 0 {
        Ok(inputs[0])
    } else {
        Err("no more inputs"@)
    }
}

/// One cycle: the machine after it, and the phase it leaves the run in.
pub open spec fn scripted_step(before: Scripted) -> (Scripted, Phase)
    recommends
        0 <= before.counter < before.memory.len(),
{
    let asked = request(before.memory, before.counter);
    let inputs = if asked is Pull && before.inputs.len() > 0 {
        before.inputs.skip(1)
    } else {
        before.inputs
    };
    let outputs = match asked {
        Request::Push(value) => before.outputs.push(value),
        _ => before.outputs,
    };
    match cycle(before.memory, before.counter, scripted_pull(before.inputs), None) {
        Outcome::Continue { memory, counter } => (
            Scripted { memory, counter, inputs, outputs },
            Phase::Running,
        ),
        Outcome::Halt => (
            Scripted { memory: before.memory, counter: before.counter + 1, inputs, outputs },
            Phase::Halted,
        ),
        Outcome::Fail(fault) => (
            Scripted { memory: before.memory, counter: before.counter, inputs, outputs },
            Phase::Failed(report(fault, before.memory[before.counter], before.counter)),
        ),
    }
}

/// A run of at most `cycles` cycles: the machine it ends with, and its
/// failure, if it failed. The run ends where an instruction halts it or fails, and where the
/// counter is outside memory; if it is still going when the cycles are used
/// up, it fails with `limit_report`.
pub open spec fn scripted_run(start: Scripted, cycles: nat) -> (Scripted, Option<ExecutionReport>)
    decreases cycles,
{
    if !(0 <= start.counter < start.memory.len()) {
        (start, None)
    } else if cycles == 0 {
        (start, Some(limit_report()))
    } else {
        let (next, phase) = scripted_step(start);
        match phase {
            Phase::Running => scripted_run(next, (cycles - 1) as nat),
            Phase::Halted => (next, None),
            Phase::Failed(failure) => (next, Some(failure)),
        }
    }
}

/// On such ports a cycle is `scripted_step`.
pub proof fn lemma_step_is_scripted(
    pre: Machine<FixedInput, QueueOutput>,
    post: Machine<FixedInput, QueueOutput>,
    phase: Phase,
)
    requires
        0 <= pre.counter < pre.memory.len(),
        steps(pre, post, phase),
    ensures
        scripted_step(script_of(pre)) == (script_of(post), phase),
{
    let (pull, push) = choose|pull: Result<i32, Seq<char>>, push: Option<Seq<char>>|
        steps_with(pre, pull, push, post, phase);
    assert(steps_with(pre, pull, push, post, phase));
    let wanted = scripted_pull(pre.input@);
    match request(pre.memory, pre.counter) {
        Request::Nothing => {
            assert(cycle(pre.memory, pre.counter, pull, push) == cycle(
                pre.memory,
                pre.counter,
                wanted,
                None,
            ));
        },
        Request::Pull => {
            assert(pull == wanted);
            assert(cycle(pre.memory, pre.counter, pull, push) == cycle(
                pre.memory,
                pre.counter,
                wanted,
                None,
            ));
        },
        Request::Push(value) => {
            assert(push is None);
            assert(cycle(pre.memory, pre.counter, pull, push) == cycle(
                pre.memory,
                pre.counter,
                wanted,
                None,
            ));
        },
    }
}

/// A run that is going after `done` cycles ends as the run from where it
/// stands does, with the cycles that are left.
proof fn lemma_run_goes_on(
    start: Machine<FixedInput, QueueOutput>,
    done: nat,
    mid: Machine<FixedInput, QueueOutput>,
    cycles: nat,
)
    requires
        reaches(start, done, mid, Phase::Running),
        done <= cycles,
    ensures
        scripted_run(script_of(start), cycles) == scripted_run(
            script_of(mid),
            (cycles - done) as nat,
        ),
    decreases done,
{
    if done > 0 {
        let before = choose|before: Machine<FixedInput, QueueOutput>|
            {
                &&& reaches(start, (done - 1) as nat, before, Phase::Running)
                &&& 0 <= before.counter < before.memory.len()
                &&& #[trigger] steps(before, mid, Phase::Running)
            };
        lemma_run_goes_on(start, (done - 1) as nat, before, cycles);
        lemma_step_is_scripted(before, mid, Phase::Running);
        assert(((cycles - (done - 1)) as nat - 1) as nat == (cycles - done) as nat);
    }
}

/// On such ports a call of the engine is `scripted_run`: the machine it leaves
/// and the failure it reports are those of the run of `limit` cycles from
/// where it began.
pub proof fn lemma_bounded_execution_is_scripted(
    start: Machine<FixedInput, QueueOutput>,
    limit: nat,
    end: Machine<FixedInput, QueueOutput>,
    failure: Option<ExecutionReport>,
)
    requires
        executes_within(start, limit, end, failure),
    ensures
        scripted_run(script_of(start), limit) == (script_of(end), failure),
{
    let (cycles, phase) = choose|cycles: nat, phase: Phase|
        {
            &&& cycles <= limit
            &&& #[trigger] reaches(start, cycles, end, phase)
            &&& match failure {
                None => phase is Halted || (phase is Running && !(0 <= end.counter
                    < end.memory.len())),
                Some(report) => phase == Phase::Failed(report) || {
                    &&& phase is Running
                    &&& 0 <= end.counter < end.memory.len()
                    &&& cycles == limit
                    &&& report == limit_report()
                },
            }
        };
    if phase is Running {
        lemma_run_goes_on(start, cycles, end, limit);
    } else {
        let before = choose|before: Machine<FixedInput, QueueOutput>|
            {
                &&& reaches(start, (cycles - 1) as nat, before, Phase::Running)
                &&& 0 <= before.counter < before.memory.len()
                &&& #[trigger] steps(before, end, phase)
            };
        lemma_run_goes_on(start, (cycles - 1) as nat, before, limit);
        lemma_step_is_scripted(before, end, phase);
    }
}

/// The same of a call that is given no limit: it is the run of `CYCLE_LIMIT`
/// cycles.
pub proof fn lemma_execution_is_scripted(
    start: Machine<FixedInput, QueueOutput>,
    end: Machine<FixedInput, QueueOutput>,
    failure: Option<ExecutionReport>,
)
    requires
        executes(start, end, failure),
    ensures
        scripted_run(script_of(start), CYCLE_LIMIT as nat) == (script_of(end), failure),
{
    lemma_bounded_execution_is_scripted(start, CYCLE_LIMIT as nat, end, failure);
}

/// Repeated runs agree: two calls of the engine on the same program, at the
/// same address, with the same inputs left to serve and the same outputs
/// waiting, fail alike or not at all, and leave the same memory, the same counter,
/// the same inputs and the same outputs.
pub proof fn lemma_repeated_runs_agree(
    first: Machine<FixedInput, QueueOutput>,
    first_end: Machine<FixedInput, QueueOutput>,
    first_failure: Option<ExecutionReport>,
    second: Machine<FixedInput, QueueOutput>,
    second_end: Machine<FixedInput, QueueOutput>,
    second_failure: Option<ExecutionReport>,
)
    requires
        script_of(first) == script_of(second),
        executes(first, first_end, first_failure),
        executes(second, second_end, second_failure),
    ensures
        first_failure == second_failure,
        script_of(first_end) == script_of(second_end),
{
    lemma_execution_is_scripted(first, first_end, first_failure);
    lemma_execution_is_scripted(second, second_end, second_failure);
}

} // verus!
