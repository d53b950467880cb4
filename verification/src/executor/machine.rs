//! What the machine does, as mathematics: one cycle as a function of memory,
//! counter and the ports' replies, and a run as a chain of cycles.

use vstd::prelude::*;
use crate::errors::ExecutionReport;
use crate::executor::instruction::{decode, mode_at, OpCode, ParameterMode};
use crate::input::Input;
use crate::output::Output;
use crate::text::decimal;

verus! {

/// The most cycles that one call of the engine runs where it is given no
/// limit.
pub const CYCLE_LIMIT: u64 = 0xffff_ffff_ffff_ffff;

/// The machine between two cycles: memory, the address of the next
/// instruction, and the two ports.
pub struct Machine<I, O> {
    pub memory: Seq<i32>,
    pub counter: int,
    pub input: I,
    pub output: O,
}

/// Why a cycle failed.
pub enum Fault {
    /// The word at the counter stands for no instruction.
    InvalidInstruction,
    /// An address at or past the end of memory.
    OutOfRange(int),
    /// An address below zero.
    NegativeAddress(int),
    /// The input port refused the pull, for this reason.
    Input(Seq<char>),
    /// The output port refused the push, for this reason.
    Output(Seq<char>),
}

/// What a cycle comes to, the ports apart.
pub enum Outcome {
    /// The run goes on with this memory, at this address.
    Continue { memory: Seq<i32>, counter: int },
    /// The instruction was `Halt`.
    Halt,
    /// The cycle failed.
    Fail(Fault),
}

/// What a cycle asks of the ports.
pub enum Request {
    /// Nothing.
    Nothing,
    /// One value from the input port.
    Pull,
    /// To send this value to the output port.
    Push(i32),
}

/// Where a run stands after a cycle.
pub enum Phase {
    Running,
    Halted,
    Failed(ExecutionReport),
}

/// The context that every failure of a cycle carries: the instruction word and
/// its address.
pub open spec fn cycle_context(message: Seq<char>, word: i32, address: int) -> ExecutionReport {
    ExecutionReport {
        message,
        info: Map::<Seq<char>, Seq<char>>::empty().insert(
            "Instruction"@,
            decimal(word as int),
        ).insert("Instruction Address"@, decimal(address)),
    }
}

/// The context of a failure over an address: as `cycle_context`, and the
/// address that was tried.
pub open spec fn address_context(
    message: Seq<char>,
    word: i32,
    address: int,
    attempted: int,
) -> ExecutionReport {
    ExecutionReport {
        message,
        info: cycle_context(message, word, address).info.insert(
            "attempted address"@,
            decimal(attempted),
        ),
    }
}

/// What the engine reports for a fault in the cycle of the instruction `word`
/// at `address`.
pub open spec fn report(fault: Fault, word: i32, address: int) -> ExecutionReport {
    match fault {
        Fault::InvalidInstruction => cycle_context("invalid instruction"@, word, address),
        Fault::OutOfRange(attempted) => address_context(
            "tried accessing address out of memory range"@,
            word,
            address,
            attempted,
        ),
        Fault::NegativeAddress(attempted) => address_context(
            "tried accessing negative address"@,
            word,
            address,
            attempted,
        ),
        Fault::Input(reason) => cycle_context(reason, word, address),
        Fault::Output(reason) => cycle_context(reason, word, address),
    }
}

/// What the engine reports when it stops a run that has used up its cycles.
pub open spec fn limit_report() -> ExecutionReport {
    ExecutionReport { message: "cycle limit reached"@, info: Map::empty() }
}

/// The word at `address`.
pub open spec fn read(memory: Seq<i32>, address: int) -> Result<i32, Fault> {
    if 0 <= address < memory.len() {
        Ok(memory[address])
    } else {
        Err(Fault::OutOfRange(address))
    }
}

/// The value of the operand whose word is at `at`: the word itself in
/// `Immediate` mode, and in `Position` mode the word at the address that it
/// names.
pub open spec fn operand(memory: Seq<i32>, at: int, mode: ParameterMode) -> Result<i32, Fault> {
    match read(memory, at) {
        Err(fault) => Err(fault),
        Ok(raw) => match mode {
            ParameterMode::Immediate => Ok(raw),
            ParameterMode::Position => if raw < 0 {
                Err(Fault::NegativeAddress(raw as int))
            } else {
                read(memory, raw as int)
            },
        },
    }
}

/// The address that the operand word at `at` names as a destination. The word
/// is never looked up a second time, whatever its mode.
pub open spec fn destination(memory: Seq<i32>, at: int) -> Result<int, Fault> {
    match read(memory, at) {
        Err(fault) => Err(fault),
        Ok(raw) => if raw < 0 {
            Err(Fault::NegativeAddress(raw as int))
        } else {
            Ok(raw as int)
        },
    }
}

/// Memory with `value` at `address`, and the run going on at `next`; a fault
/// where `address` is past the end.
pub open spec fn store(memory: Seq<i32>, address: int, value: i32, next: int) -> Outcome
    recommends
        0 <= address,
{
    if address < memory.len() {
        Outcome::Continue { memory: memory.update(address, value), counter: next }
    } else {
        Outcome::Fail(Fault::OutOfRange(address))
    }
}

/// What the three-operand instructions compute from their two values. Sums
/// and products wrap around as 32-bit two's complement does; the comparisons
/// are signed and give 1 or 0.
pub open spec fn compute(opcode: OpCode, a: i32, b: i32) -> i32 {
    match opcode {
        OpCode::Add => a.wrapping_add(b),
        OpCode::Mul => a.wrapping_mul(b),
        OpCode::Less => if a < b {
            1i32
        } else {
            0i32
        },
        _ => if a == b {
            1i32
        } else {
            0i32
        },
    }
}

/// `Add`, `Mul`, `Less`, `Equal` at `at`: two operands, then a destination.
pub open spec fn store_computed(
    memory: Seq<i32>,
    at: int,
    opcode: OpCode,
    modes: Seq<ParameterMode>,
) -> Outcome {
    match operand(memory, at + 1, mode_at(modes, 0)) {
        Err(fault) => Outcome::Fail(fault),
        Ok(a) => match operand(memory, at + 2, mode_at(modes, 1)) {
            Err(fault) => Outcome::Fail(fault),
            Ok(b) => match destination(memory, at + 3) {
                Err(fault) => Outcome::Fail(fault),
                Ok(address) => store(memory, address, compute(opcode, a, b), at + 4),
            },
        },
    }
}

/// `JumpIfTrue` (`on_nonzero`) and `JumpIfFalse` at `at`: a value to test, then
/// the address to go on at where the test holds.
pub open spec fn jump(memory: Seq<i32>, at: int, on_nonzero: bool, modes: Seq<ParameterMode>) -> Outcome {
    match operand(memory, at + 1, mode_at(modes, 0)) {
        Err(fault) => Outcome::Fail(fault),
        Ok(tested) => match operand(memory, at + 2, mode_at(modes, 1)) {
            Err(fault) => Outcome::Fail(fault),
            Ok(to) => if (tested != 0) != on_nonzero {
                Outcome::Continue { memory, counter: at + 3 }
            } else if to < 0 {
                Outcome::Fail(Fault::NegativeAddress(to as int))
            } else if to >= memory.len() {
                Outcome::Fail(Fault::OutOfRange(to as int))
            } else {
                Outcome::Continue { memory, counter: to as int }
            },
        },
    }
}

/// `Input` at `at`, once the port has replied: the pull comes before the
/// destination is looked at.
pub open spec fn store_pulled(memory: Seq<i32>, at: int, reply: Result<i32, Seq<char>>) -> Outcome {
    match reply {
        Err(reason) => Outcome::Fail(Fault::Input(reason)),
        Ok(value) => match destination(memory, at + 1) {
            Err(fault) => Outcome::Fail(fault),
            Ok(address) => store(memory, address, value, at + 2),
        },
    }
}

/// `Output` at `at`, once the port has replied, or without a reply where the
/// operand could not be had.
pub open spec fn after_push(
    memory: Seq<i32>,
    at: int,
    modes: Seq<ParameterMode>,
    reply: Option<Seq<char>>,
) -> Outcome {
    match operand(memory, at + 1, mode_at(modes, 0)) {
        Err(fault) => Outcome::Fail(fault),
        Ok(_) => match reply {
            Some(reason) => Outcome::Fail(Fault::Output(reason)),
            None => Outcome::Continue { memory, counter: at + 2 },
        },
    }
}

/// What the cycle of the instruction at `at` asks of the ports.
pub open spec fn request(memory: Seq<i32>, at: int) -> Request
    recommends
        0 <= at < memory.len(),
{
    match decode(memory[at] as int) {
        None => Request::Nothing,
        Some(decoded) => match decoded.opcode {
            OpCode::Input => Request::Pull,
            OpCode::Output => match operand(memory, at + 1, mode_at(decoded.modes, 0)) {
                Ok(value) => Request::Push(value),
                Err(_) => Request::Nothing,
            },
            _ => Request::Nothing,
        },
    }
}

/// What the cycle of the instruction at `at` comes to. `pull` is the input
/// port's reply and counts in an `Input` cycle only; `push` is the output
/// port's refusal, if it refused, and counts only in an `Output` cycle that
/// got as far as pushing.
pub open spec fn cycle(
    memory: Seq<i32>,
    at: int,
    pull: Result<i32, Seq<char>>,
    push: Option<Seq<char>>,
) -> Outcome
    recommends
        0 <= at < memory.len(),
{
    match decode(memory[at] as int) {
        None => Outcome::Fail(Fault::InvalidInstruction),
        Some(decoded) => match decoded.opcode {
            OpCode::Add => store_computed(memory, at, OpCode::Add, decoded.modes),
            OpCode::Mul => store_computed(memory, at, OpCode::Mul, decoded.modes),
            OpCode::Less => store_computed(memory, at, OpCode::Less, decoded.modes),
            OpCode::Equal => store_computed(memory, at, OpCode::Equal, decoded.modes),
            OpCode::Input => store_pulled(memory, at, pull),
            OpCode::Output => after_push(memory, at, decoded.modes, push),
            OpCode::JumpIfTrue => jump(memory, at, true, decoded.modes),
            OpCode::JumpIfFalse => jump(memory, at, false, decoded.modes),
            OpCode::Halt => Outcome::Halt,
        },
    }
}

/// One cycle takes the machine from `pre` to `post` in `phase`, the ports
/// having replied `pull` and `push`.
pub open spec fn steps_with<I: Input, O: Output>(
    pre: Machine<I, O>,
    pull: Result<i32, Seq<char>>,
    push: Option<Seq<char>>,
    post: Machine<I, O>,
    phase: Phase,
) -> bool {
    &&& match request(pre.memory, pre.counter) {
        Request::Nothing => post.input == pre.input && post.output == pre.output,
        Request::Pull => pre.input.pulls(pull, &post.input) && post.output == pre.output,
        Request::Push(value) => post.input == pre.input && pre.output.pushes(
            value,
            push,
            &post.output,
        ),
    }
    &&& match cycle(pre.memory, pre.counter, pull, push) {
        Outcome::Continue { memory, counter } => {
            &&& post.memory == memory
            &&& post.counter == counter
            &&& phase is Running
        },
        Outcome::Halt => {
            &&& post.memory == pre.memory
            &&& post.counter == pre.counter + 1
            &&& phase is Halted
        },
        Outcome::Fail(fault) => {
            &&& post.memory == pre.memory
            &&& post.counter == pre.counter
            &&& phase == Phase::Failed(report(fault, pre.memory[pre.counter], pre.counter))
        },
    }
}

/// One cycle takes the machine from `pre` to `post` in `phase`. A cycle that
/// fails leaves memory as it was and the counter at its instruction.
pub open spec fn steps<I: Input, O: Output>(
    pre: Machine<I, O>,
    post: Machine<I, O>,
    phase: Phase,
) -> bool {
    exists|pull: Result<i32, Seq<char>>, push: Option<Seq<char>>|
        steps_with(pre, pull, push, post, phase)
}

/// `cycles` cycles take the machine from `start` to `end` in `phase`: each but
/// the last leaves the run going, with its counter inside memory.
pub open spec fn reaches<I: Input, O: Output>(
    start: Machine<I, O>,
    cycles: nat,
    end: Machine<I, O>,
    phase: Phase,
) -> bool
    decreases cycles,
{
    if cycles == 0 {
        end == start && phase is Running
    } else {
        exists|mid: Machine<I, O>|
            {
                &&& reaches(start, (cycles - 1) as nat, mid, Phase::Running)
                &&& 0 <= mid.counter < mid.memory.len()
                &&& #[trigger] steps(mid, end, phase)
            }
    }
}

/// A run that is going, with its counter inside memory, is one cycle longer
/// after that cycle.
pub proof fn lemma_reaches_next<I: Input, O: Output>(
    start: Machine<I, O>,
    cycles: nat,
    mid: Machine<I, O>,
    end: Machine<I, O>,
    phase: Phase,
)
    requires
        reaches(start, cycles, mid, Phase::Running),
        0 <= mid.counter < mid.memory.len(),
        steps(mid, end, phase),
    ensures
        reaches(start, cycles + 1, end, phase),
{
    let longer: nat = cycles + 1;
    assert(reaches(start, (longer - 1) as nat, mid, Phase::Running));
}

/// A call of the engine that began at `start` and was given `limit` cycles has
/// left the machine as `end`, and failed with `failure` if it failed: it ran
/// cycle after cycle until an instruction halted the run or failed, the
/// counter left memory, or `limit` cycles were done.
///
/// A halt and a counter that left memory are no failure; a failed cycle gives
/// its report; a run stopped at the limit gives `limit_report`.
pub open spec fn executes_within<I: Input, O: Output>(
    start: Machine<I, O>,
    limit: nat,
    end: Machine<I, O>,
    failure: Option<ExecutionReport>,
) -> bool {
    exists|cycles: nat, phase: Phase|
        {
            &&& cycles <= limit
            &&& #[trigger] reaches(start, cycles, end, phase)
            &&& match failure {
                None => phase is Halted || (phase is Running && !(0 <= end.counter
                    < end.memory.len())),
                Some(report) => phase == Phase::Failed(report) || {
                    &&& phase is Running
                    &&& 0 <= end.counter < end.memory.len()
                    &&& cycles == limit
                    &&& report == limit_report()
                },
            }
        }
}

/// A call of the engine with `CYCLE_LIMIT` cycles.
pub open spec fn executes<I: Input, O: Output>(
    start: Machine<I, O>,
    end: Machine<I, O>,
    failure: Option<ExecutionReport>,
) -> bool {
    executes_within(start, CYCLE_LIMIT as nat, end, failure)
}

} // verus!
