//! What holds of every cycle that writes past the end of memory, and of every
//! pull on an input port that has nothing left.

use vstd::prelude::*;
use crate::executor::instruction::{decode, mode_at};
use crate::executor::machine::{
    cycle, destination, operand, report, request, steps, steps_with, Fault, Machine, Outcome,
    Phase,
};
use crate::executor::scripted::{scripted_run, scripted_step, Scripted};
use crate::input::{FixedInput, Input};
use crate::output::Output;
use crate::text::decimal;

verus! {

/// The address that the instruction at `at` is about to write its result to:
/// the instruction is `Add`, `Mul`, `Less` or `Equal`, both its operands can
/// be had, and its third operand word names an address that is not negative.
pub open spec fn computed_write(memory: Seq<i32>, at: int) -> Option<int>
    recommends
        0 <= at < memory.len(),
{
    match decode(memory[at] as int) {
        None => None,
        Some(decoded) => if !(decoded.opcode is Add || decoded.opcode is Mul
            || decoded.opcode is Less || decoded.opcode is Equal) {
            None
        } else if operand(memory, at + 1, mode_at(decoded.modes, 0)) is Err {
            None
        } else if operand(memory, at + 2, mode_at(decoded.modes, 1)) is Err {
            None
        } else {
            match destination(memory, at + 3) {
                Ok(address) => Some(address),
                Err(_) => None,
            }
        },
    }
}

/// An `Add`, `Mul`, `Less` or `Equal` that is to write at or past the end of
/// memory fails: the cycle leaves memory and counter as they were, and the
/// report is that of an address out of range, with the address under
/// `attempted address`.
pub proof fn lemma_write_past_the_end_fails<I: Input, O: Output>(
    pre: Machine<I, O>,
    post: Machine<I, O>,
    phase: Phase,
    address: int,
)
    requires
        0 <= pre.counter < pre.memory.len(),
        computed_write(pre.memory, pre.counter) == Some(address),
        address >= pre.memory.len(),
        steps(pre, post, phase),
    ensures
        post.memory == pre.memory,
        post.counter == pre.counter,
        phase == Phase::Failed(
            report(Fault::OutOfRange(address), pre.memory[pre.counter], pre.counter),
        ),
        report(Fault::OutOfRange(address), pre.memory[pre.counter], pre.counter).message
            == "tried accessing address out of memory range"@,
        report(
            Fault::OutOfRange(address),
            pre.memory[pre.counter],
            pre.counter,
        ).info.contains_key("attempted address"@),
        report(Fault::OutOfRange(address), pre.memory[pre.counter], pre.counter).info[
            "attempted address"@
        ] == decimal(address),
{
    let (pull, push) = choose|pull: Result<i32, Seq<char>>, push: Option<Seq<char>>|
        steps_with(pre, pull, push, post, phase);
    assert(cycle(pre.memory, pre.counter, pull, push) == Outcome::Fail(
        Fault::OutOfRange(address),
    ));
}

/// An `Input` cycle on a port that has no value left fails with the port's
/// reason, and the run ends there: the cycle leaves memory and counter as
/// they were, and the phase is `Failed`, from which no cycle follows.
pub proof fn lemma_pull_on_empty_port_fails<O: Output>(
    pre: Machine<FixedInput, O>,
    post: Machine<FixedInput, O>,
    phase: Phase,
)
    requires
        0 <= pre.counter < pre.memory.len(),
        request(pre.memory, pre.counter) is Pull,
        pre.input@.len() == 0,
        steps(pre, post, phase),
    ensures
        post.memory == pre.memory,
        post.counter == pre.counter,
        post.output == pre.output,
        phase == Phase::Failed(
            report(Fault::Input("no more inputs"@), pre.memory[pre.counter], pre.counter),
        ),
{
    let (pull, push) = choose|pull: Result<i32, Seq<char>>, push: Option<Seq<char>>|
        steps_with(pre, pull, push, post, phase);
    assert(pull == Err::<i32, Seq<char>>("no more inputs"@));
}

/// A run on a list of inputs that stands at an `Input` with the list used up
/// ends there, whatever cycles it has left: the machine is as it was, and the
/// failure is the port's.
pub proof fn lemma_scripted_run_ends_on_empty_port(start: Scripted, cycles: nat)
    requires
        0 <= start.counter < start.memory.len(),
        request(start.memory, start.counter) is Pull,
        start.inputs.len() == 0,
        cycles > 0,
    ensures
        scripted_run(start, cycles) == (
            start,
            Some(
                report(
                    Fault::Input("no more inputs"@),
                    start.memory[start.counter],
                    start.counter,
                ),
            ),
        ),
{
    assert(scripted_step(start).0 == start);
}

} // verus!
