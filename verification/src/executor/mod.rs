//! The fetch-decode-execute engine.

pub mod instruction;
pub mod laws;
pub mod machine;
pub mod scripted;

use vstd::prelude::*;
use vstd::string::*;
use crate::errors::{ExecutionError, ExecutionReport};
use crate::executor::instruction::{decode, mode_at, Instruction, OpCode, ParameterMode};
use crate::executor::machine::{
    compute, cycle, destination, executes, executes_within, jump, lemma_reaches_next, operand, reaches, read,
    report, request, steps_with, store_computed, Fault, Machine, Outcome, Phase, Request,
    CYCLE_LIMIT,
};
use crate::input::{pulled, Input};
use crate::output::{pushed, Output};
use crate::text::{address_text, word_text};

verus! {

/// A machine at work: it owns its memory and its input port, and holds the
/// output port for as long as it lives.
///
/// The fields are public so that contracts can speak of the output port as
/// the engine leaves it to its lender.
pub struct Executor<'a, I, O> where I: Input, O: Output {
    pub input: I,
    pub memory: Vec<i32>,
    pub output: &'a mut O,
    /// The address of the next instruction or operand.
    pub current_address: usize,
    pub debug: DebugInfo,
    /// The instruction of the cycle under way, or of the last one.
    pub instruction: Instruction,
}

/// The instruction of the cycle under way, for the context of a failure.
pub struct DebugInfo {
    pub raw_executed_instruction: i32,
    pub executed_instruction_address: usize,
}

/// What a call of the engine reported, if it failed.
pub open spec fn reported(result: Result<(), ExecutionError>) -> Option<ExecutionReport> {
    match result {
        Ok(_) => None,
        Err(e) => Some(e@),
    }
}

/// The values of the first `count` operands, the words of which begin at
/// `first`; the fault of the first operand that cannot be had.
pub open spec fn operands(
    memory: Seq<i32>,
    first: int,
    modes: Seq<ParameterMode>,
    count: nat,
) -> Result<Seq<i32>, Fault>
    decreases count,
{
    if count == 0 {
        Ok(Seq::empty())
    } else {
        match operands(memory, first, modes, (count - 1) as nat) {
            Err(fault) => Err(fault),
            Ok(values) => match operand(memory, first + count - 1, mode_at(modes, count - 1)) {
                Err(fault) => Err(fault),
                Ok(value) => Ok(values.push(value)),
            },
        }
    }
}

proof fn lemma_operands_fault(
    memory: Seq<i32>,
    first: int,
    modes: Seq<ParameterMode>,
    failed: nat,
    count: nat,
)
    requires
        operands(memory, first, modes, failed) is Err,
        failed <= count,
    ensures
        operands(memory, first, modes, count) == operands(memory, first, modes, failed),
    decreases count,
{
    if failed < count {
        lemma_operands_fault(memory, first, modes, failed, (count - 1) as nat);
    }
}

impl<'a, I, O> Executor<'a, I, O> where I: Input, O: Output {
    /// The machine as it stands.
    pub open spec fn machine(&self) -> Machine<I, O> {
        Machine {
            memory: self.memory@,
            counter: self.current_address as int,
            input: self.input,
            output: *self.output,
        }
    }

    spec fn word(&self) -> i32 {
        self.debug.raw_executed_instruction
    }

    spec fn at(&self) -> int {
        self.debug.executed_instruction_address as int
    }

    spec fn faulted(&self, e: ExecutionError, fault: Fault) -> bool {
        e@ == report(fault, self.word(), self.at())
    }

    spec fn gives(&self, r: Result<i32, ExecutionError>, model: Result<i32, Fault>) -> bool {
        match model {
            Ok(value) => match r {
                Ok(v) => v == value,
                Err(_) => false,
            },
            Err(fault) => match r {
                Ok(_) => false,
                Err(e) => self.faulted(e, fault),
            },
        }
    }

    /// All but memory and counter are as in `before`.
    spec fn kept(&self, before: &Self) -> bool {
        &&& self.input == before.input
        &&& *self.output == *before.output
        &&& self.debug.raw_executed_instruction == before.debug.raw_executed_instruction
        &&& self.debug.executed_instruction_address == before.debug.executed_instruction_address
        &&& self.instruction == before.instruction
    }

    /// The instruction at the recorded address is decoded, and the counter is
    /// at its first operand.
    spec fn fetched(&self) -> bool {
        &&& self.at() < self.memory.len()
        &&& self.word() == self.memory@[self.at()]
        &&& self.current_address == self.at() + 1
        &&& decode(self.word() as int) == Some(self.instruction@)
    }

    /// The machine before the cycle that is under way.
    spec fn fetched_machine(&self) -> Machine<I, O> {
        Machine {
            memory: self.memory@,
            counter: self.at(),
            input: self.input,
            output: *self.output,
        }
    }

    /// The cycle that was under way in `self` has come to `outcome`, and left
    /// the engine as `after`.
    spec fn concluded(&self, after: &Self, r: Result<(), ExecutionError>, outcome: Outcome) -> bool {
        match outcome {
            Outcome::Continue { memory, counter } => {
                &&& r is Ok
                &&& after.memory@ == memory
                &&& after.current_address == counter
            },
            Outcome::Halt => false,
            Outcome::Fail(fault) => {
                &&& after.memory@ == self.memory@
                &&& match r {
                    Ok(_) => false,
                    Err(e) => self.faulted(e, fault),
                }
            },
        }
    }

    /// The ports having replied `pull` and `push`, the cycle that began at `pre`
    /// has given `r` and left the machine as `post`. Of the counter after a
    /// failure nothing is said.
    spec fn handles(
        pre: Machine<I, O>,
        post: Machine<I, O>,
        r: Result<(), ExecutionError>,
        pull: Result<i32, Seq<char>>,
        push: Option<Seq<char>>,
    ) -> bool {
        &&& match request(pre.memory, pre.counter) {
            Request::Nothing => post.input == pre.input && post.output == pre.output,
            Request::Pull => pre.input.pulls(pull, &post.input) && post.output == pre.output,
            Request::Push(value) => post.input == pre.input && pre.output.pushes(
                value,
                push,
                &post.output,
            ),
        }
        &&& match cycle(pre.memory, pre.counter, pull, push) {
            Outcome::Continue { memory, counter } => {
                &&& r is Ok
                &&& post.memory == memory
                &&& post.counter == counter
            },
            Outcome::Halt => false,
            Outcome::Fail(fault) => {
                &&& post.memory == pre.memory
                &&& match r {
                    Ok(_) => false,
                    Err(e) => e@ == report(fault, pre.memory[pre.counter], pre.counter),
                }
            },
        }
    }

    /// The cycle that was under way in `self` is done, and has left the engine
    /// as `after`.
    spec fn stepped(&self, after: &Self, r: Result<(), ExecutionError>) -> bool {
        &&& after.at() == self.at()
        &&& exists|pull: Result<i32, Seq<char>>, push: Option<Seq<char>>|
            Self::handles(self.fetched_machine(), after.machine(), r, pull, push)
    }

    /// An engine at the start of `memory`, with these ports.
    pub fn new(memory: Vec<i32>, input: I, output: &'a mut O) -> (executor: Executor<'a, I, O>)
        ensures
            executor.machine() == (Machine {
                memory: memory@,
                counter: 0,
                input,
                output: *old(output),
            }),
            *final(executor.output) == *final(output),
    {
        Executor {
            input,
            output,
            memory,
            current_address: 0,
            debug: DebugInfo { raw_executed_instruction: 0, executed_instruction_address: 0 },
            instruction: Instruction { opcode: OpCode::Halt, parameter_modes: Vec::new() },
        }
    }

    /// Memory as it stands.
    pub fn memory(&self) -> (memory: &Vec<i32>)
        ensures
            memory@ == self.machine().memory,
    {
        &self.memory
    }

    /// The address of the next instruction.
    pub fn counter(&self) -> (counter: usize)
        ensures
            counter == self.machine().counter,
    {
        self.current_address
    }

    fn update_debug_state(&mut self)
        requires
            old(self).current_address < old(self).memory.len(),
        ensures
            final(self).word() == old(self).memory@[old(self).current_address as int],
            final(self).at() == old(self).current_address,
            final(self).machine() == old(self).machine(),
            *final(final(self).output) == *final(old(self).output),
    {
        self.debug.raw_executed_instruction = self.memory[self.current_address];
        self.debug.executed_instruction_address = self.current_address;
    }

    fn generate_error(&self, msg: &str) -> (e: ExecutionError)
        ensures
            e@ == crate::executor::machine::cycle_context(msg@, self.word(), self.at()),
    {
        let mut e = ExecutionError::new(msg.to_owned());
        e.add_info(
            String::from_str("Instruction"),
            word_text(self.debug.raw_executed_instruction),
        );
        e.add_info(
            String::from_str("Instruction Address"),
            address_text(self.debug.executed_instruction_address),
        );
        e
    }

    fn validate_address(&self, address: usize) -> (r: Result<(), ExecutionError>)
        ensures
            match r {
                Ok(_) => address < self.memory.len(),
                Err(e) => address >= self.memory.len() && self.faulted(
                    e,
                    Fault::OutOfRange(address as int),
                ),
            },
    {
        if address >= self.memory.len() {
            let mut e = self.generate_error("tried accessing address out of memory range");
            e.add_info(String::from_str("attempted address"), address_text(address));
            Err(e)
        } else {
            Ok(())
        }
    }

    fn validate_positive_address(&self, address: i32) -> (r: Result<(), ExecutionError>)
        ensures
            match r {
                Ok(_) => address >= 0,
                Err(e) => address < 0 && self.faulted(e, Fault::NegativeAddress(address as int)),
            },
    {
        if address < 0 {
            let mut e = self.generate_error("tried accessing negative address");
            e.add_info(String::from_str("attempted address"), word_text(address));
            Err(e)
        } else {
            Ok(())
        }
    }

    fn get(&self, address: usize) -> (r: Result<i32, ExecutionError>)
        ensures
            self.gives(r, read(self.memory@, address as int)),
    {
        match self.validate_address(address) {
            Ok(()) => Ok(self.memory[address]),
            Err(e) => Err(e),
        }
    }

    fn put(&mut self, val: i32, address: usize) -> (r: Result<(), ExecutionError>)
        ensures
            final(self).kept(old(self)),
            *final(final(self).output) == *final(old(self).output),
            final(self).current_address == old(self).current_address,
            match r {
                Ok(_) => address < old(self).memory.len() && final(self).memory@ == old(
                    self,
                ).memory@.update(address as int, val),
                Err(e) => {
                    &&& address >= old(self).memory.len()
                    &&& old(self).faulted(e, Fault::OutOfRange(address as int))
                    &&& final(self).memory@ == old(self).memory@
                },
            },
    {
        match self.validate_address(address) {
            Ok(()) => {
                self.memory[address] = val;
                Ok(())
            },
            Err(e) => Err(e),
        }
    }

    fn get_mode(&self, offset: usize) -> (mode: ParameterMode)
        ensures
            mode == mode_at(self.instruction.parameter_modes@, offset as int),
    {
        if offset >= self.instruction.parameter_modes.len() {
            ParameterMode::Position
        } else {
            self.instruction.parameter_modes[offset]
        }
    }

    fn get_parameter(&self, offset: usize, mode: ParameterMode) -> (r: Result<i32, ExecutionError>)
        requires
            self.current_address + offset <= usize::MAX,
        ensures
            self.gives(r, operand(self.memory@, self.current_address + offset, mode)),
    {
        let value = match self.get(self.current_address + offset) {
            Ok(value) => value,
            Err(e) => return Err(e),
        };
        match mode {
            ParameterMode::Position => {
                match self.validate_positive_address(value) {
                    Ok(()) => self.get(value as usize),
                    Err(e) => Err(e),
                }
            },
            ParameterMode::Immediate => Ok(value),
        }
    }

    fn get_parameters(&mut self, count: usize) -> (r: Result<Vec<i32>, ExecutionError>)
        requires
            old(self).current_address <= old(self).memory.len(),
        ensures
            final(self).kept(old(self)),
            *final(final(self).output) == *final(old(self).output),
            final(self).memory@ == old(self).memory@,
            match operands(
                old(self).memory@,
                old(self).current_address as int,
                old(self).instruction.parameter_modes@,
                count as nat,
            ) {
                Ok(values) => {
                    &&& final(self).current_address == old(self).current_address + count
                    &&& final(self).current_address <= final(self).memory.len()
                    &&& match r {
                        Ok(params) => params@ == values,
                        Err(_) => false,
                    }
                },
                Err(fault) => {
                    &&& final(self).current_address == old(self).current_address
                    &&& match r {
                        Ok(_) => false,
                        Err(e) => old(self).faulted(e, fault),
                    }
                },
            },
    {
        let mut params: Vec<i32> = Vec::new();
        let mut offset: usize = 0;
        while offset != count
            invariant
                *self == *old(self),
                offset <= count,
                self.current_address <= self.memory.len(),
                offset > 0 ==> self.current_address + offset <= self.memory.len(),
                operands(
                    self.memory@,
                    self.current_address as int,
                    self.instruction.parameter_modes@,
                    offset as nat,
                ) == Ok::<Seq<i32>, Fault>(params@),
            decreases count - offset,
        {
            let mode = self.get_mode(offset);
            match self.get_parameter(offset, mode) {
                Ok(value) => params.push(value),
                Err(e) => {
                    proof {
                        lemma_operands_fault(
                            self.memory@,
                            self.current_address as int,
                            self.instruction.parameter_modes@,
                            (offset + 1) as nat,
                            count as nat,
                        );
                    }
                    return Err(e);
                },
            }
            offset += 1;
        }
        self.current_address += count;
        Ok(params)
    }

    fn get_target_address(&mut self) -> (r: Result<usize, ExecutionError>)
        requires
            old(self).current_address <= old(self).memory.len(),
        ensures
            final(self).kept(old(self)),
            *final(final(self).output) == *final(old(self).output),
            final(self).memory@ == old(self).memory@,
            match destination(old(self).memory@, old(self).current_address as int) {
                Ok(address) => {
                    &&& final(self).current_address == old(self).current_address + 1
                    &&& final(self).current_address <= final(self).memory.len()
                    &&& match r {
                        Ok(a) => a == address,
                        Err(_) => false,
                    }
                },
                Err(fault) => {
                    &&& final(self).current_address == old(self).current_address
                    &&& match r {
                        Ok(_) => false,
                        Err(e) => old(self).faulted(e, fault),
                    }
                },
            },
    {
        let output_address = match self.get(self.current_address) {
            Ok(word) => word,
            Err(e) => return Err(e),
        };
        match self.validate_positive_address(output_address) {
            Ok(()) => {},
            Err(e) => return Err(e),
        }
        self.current_address += 1;
        Ok(output_address as usize)
    }

    fn jump(&mut self, address: usize) -> (r: Result<(), ExecutionError>)
        ensures
            final(self).kept(old(self)),
            *final(final(self).output) == *final(old(self).output),
            final(self).memory@ == old(self).memory@,
            match r {
                Ok(_) => address < old(self).memory.len() && final(self).current_address
                    == address,
                Err(e) => {
                    &&& address >= old(self).memory.len()
                    &&& old(self).faulted(e, Fault::OutOfRange(address as int))
                    &&& final(self).current_address == old(self).current_address
                },
            },
    {
        match self.validate_address(address) {
            Ok(()) => {},
            Err(e) => return Err(e),
        }
        self.current_address = address;
        Ok(())
    }

    fn jump_if<T>(&mut self, func: T, Ghost(on_nonzero): Ghost<bool>) -> (r: Result<
        (),
        ExecutionError,
    >) where T: Fn(i32) -> bool
        requires
            old(self).fetched(),
            forall|a: i32| call_requires(func, (a,)),
            forall|a: i32, taken: bool|
                call_ensures(func, (a,), taken) ==> taken == ((a != 0) == on_nonzero),
        ensures
            final(self).kept(old(self)),
            *final(final(self).output) == *final(old(self).output),
            old(self).concluded(
                final(self),
                r,
                jump(
                    old(self).memory@,
                    old(self).at(),
                    on_nonzero,
                    old(self).instruction.parameter_modes@,
                ),
            ),
    {
        proof {
            reveal_with_fuel(operands, 3);
        }
        let params = match self.get_parameters(2) {
            Ok(params) => params,
            Err(e) => return Err(e),
        };
        if func(params[0]) {
            let jump_address = params[1];
            match self.validate_positive_address(jump_address) {
                Ok(()) => {},
                Err(e) => return Err(e),
            }
            self.jump(jump_address as usize)
        } else {
            Ok(())
        }
    }

    fn basic_operation<F>(&mut self, func: F, Ghost(opcode): Ghost<OpCode>) -> (r: Result<
        (),
        ExecutionError,
    >) where F: Fn(i32, i32) -> i32
        requires
            old(self).fetched(),
            forall|a: i32, b: i32| call_requires(func, (a, b)),
            forall|a: i32, b: i32, c: i32|
                call_ensures(func, (a, b), c) ==> c == compute(opcode, a, b),
        ensures
            final(self).kept(old(self)),
            *final(final(self).output) == *final(old(self).output),
            old(self).concluded(
                final(self),
                r,
                store_computed(
                    old(self).memory@,
                    old(self).at(),
                    opcode,
                    old(self).instruction.parameter_modes@,
                ),
            ),
    {
        proof {
            reveal_with_fuel(operands, 3);
        }
        let params = match self.get_parameters(2) {
            Ok(params) => params,
            Err(e) => return Err(e),
        };
        let output = func(params[0], params[1]);
        let output_address = match self.get_target_address() {
            Ok(address) => address,
            Err(e) => return Err(e),
        };
        self.put(output, output_address)
    }

    fn condition_op<T>(&mut self, func: T, Ghost(opcode): Ghost<OpCode>) -> (r: Result<
        (),
        ExecutionError,
    >) where T: Fn(i32, i32) -> bool
        requires
            old(self).fetched(),
            forall|a: i32, b: i32| call_requires(func, (a, b)),
            forall|a: i32, b: i32, holds: bool|
                call_ensures(func, (a, b), holds) ==> compute(opcode, a, b) == (if holds {
                    1i32
                } else {
                    0i32
                }),
        ensures
            final(self).kept(old(self)),
            *final(final(self).output) == *final(old(self).output),
            old(self).concluded(
                final(self),
                r,
                store_computed(
                    old(self).memory@,
                    old(self).at(),
                    opcode,
                    old(self).instruction.parameter_modes@,
                ),
            ),
    {
        proof {
            reveal_with_fuel(operands, 3);
        }
        let params = match self.get_parameters(2) {
            Ok(params) => params,
            Err(e) => return Err(e),
        };
        let output_address = match self.get_target_address() {
            Ok(address) => address,
            Err(e) => return Err(e),
        };
        if func(params[0], params[1]) {
            self.put(1, output_address)
        } else {
            self.put(0, output_address)
        }
    }

    fn add_op(&mut self) -> (r: Result<(), ExecutionError>)
        requires
            old(self).fetched(),
            old(self).instruction.opcode is Add,
        ensures
            old(self).stepped(final(self), r),
            *final(final(self).output) == *final(old(self).output),
    {
        let add = |x: i32, y: i32| -> (z: i32)
            ensures
                z == x.wrapping_add(y),
            { x.wrapping_add(y) };
        let r = self.basic_operation(add, Ghost(OpCode::Add));
        proof {
            assert(Self::handles(old(self).fetched_machine(), self.machine(), r, Ok(0), None));
        }
        r
    }

    fn mul_op(&mut self) -> (r: Result<(), ExecutionError>)
        requires
            old(self).fetched(),
            old(self).instruction.opcode is Mul,
        ensures
            old(self).stepped(final(self), r),
            *final(final(self).output) == *final(old(self).output),
    {
        let mul = |x: i32, y: i32| -> (z: i32)
            ensures
                z == x.wrapping_mul(y),
            { x.wrapping_mul(y) };
        let r = self.basic_operation(mul, Ghost(OpCode::Mul));
        proof {
            assert(Self::handles(old(self).fetched_machine(), self.machine(), r, Ok(0), None));
        }
        r
    }

    fn less_op(&mut self) -> (r: Result<(), ExecutionError>)
        requires
            old(self).fetched(),
            old(self).instruction.opcode is Less,
        ensures
            old(self).stepped(final(self), r),
            *final(final(self).output) == *final(old(self).output),
    {
        let func = |x: i32, y: i32| -> (holds: bool)
            ensures
                holds == (x < y),
            { x < y };
        let r = self.condition_op(func, Ghost(OpCode::Less));
        proof {
            assert(Self::handles(old(self).fetched_machine(), self.machine(), r, Ok(0), None));
        }
        r
    }

    fn equal_op(&mut self) -> (r: Result<(), ExecutionError>)
        requires
            old(self).fetched(),
            old(self).instruction.opcode is Equal,
        ensures
            old(self).stepped(final(self), r),
            *final(final(self).output) == *final(old(self).output),
    {
        let func = |x: i32, y: i32| -> (holds: bool)
            ensures
                holds == (x == y),
            { x == y };
        let r = self.condition_op(func, Ghost(OpCode::Equal));
        proof {
            assert(Self::handles(old(self).fetched_machine(), self.machine(), r, Ok(0), None));
        }
        r
    }

    fn jump_if_true_op(&mut self) -> (r: Result<(), ExecutionError>)
        requires
            old(self).fetched(),
            old(self).instruction.opcode is JumpIfTrue,
        ensures
            old(self).stepped(final(self), r),
            *final(final(self).output) == *final(old(self).output),
    {
        let func = |x: i32| -> (taken: bool)
            ensures
                taken == (x != 0),
            { x != 0 };
        let r = self.jump_if(func, Ghost(true));
        proof {
            assert(Self::handles(old(self).fetched_machine(), self.machine(), r, Ok(0), None));
        }
        r
    }

    fn jump_if_false_op(&mut self) -> (r: Result<(), ExecutionError>)
        requires
            old(self).fetched(),
            old(self).instruction.opcode is JumpIfFalse,
        ensures
            old(self).stepped(final(self), r),
            *final(final(self).output) == *final(old(self).output),
    {
        let func = |x: i32| -> (taken: bool)
            ensures
                taken == (x == 0),
            { x == 0 };
        let r = self.jump_if(func, Ghost(false));
        proof {
            assert(Self::handles(old(self).fetched_machine(), self.machine(), r, Ok(0), None));
        }
        r
    }

    fn input_op(&mut self) -> (r: Result<(), ExecutionError>)
        requires
            old(self).fetched(),
            old(self).instruction.opcode is Input,
        ensures
            old(self).stepped(final(self), r),
            *final(final(self).output) == *final(old(self).output),
    {
        let reply = self.input.get_input();
        let ghost pull = pulled(reply);
        let r = match reply {
            Err(e) => Err(self.generate_error(e.message().as_str())),
            Ok(input) => match self.get_target_address() {
                Err(e) => Err(e),
                Ok(output_address) => self.put(input, output_address),
            },
        };
        proof {
            assert(Self::handles(old(self).fetched_machine(), self.machine(), r, pull, None));
        }
        r
    }

    fn output_op(&mut self) -> (r: Result<(), ExecutionError>)
        requires
            old(self).fetched(),
            old(self).instruction.opcode is Output,
        ensures
            old(self).stepped(final(self), r),
            *final(final(self).output) == *final(old(self).output),
    {
        proof {
            reveal_with_fuel(operands, 2);
        }
        let param = match self.get_parameters(1) {
            Ok(params) => params[0],
            Err(e) => {
                proof {
                    assert(Self::handles(
                        old(self).fetched_machine(),
                        self.machine(),
                        Err(e),
                        Ok(0),
                        None,
                    ));
                }
                return Err(e);
            },
        };
        let reply = self.output.send_output(param);
        let ghost push = pushed(reply);
        let r = match reply {
            Ok(()) => Ok(()),
            Err(e) => Err(self.generate_error(e.message().as_str())),
        };
        proof {
            assert(Self::handles(old(self).fetched_machine(), self.machine(), r, Ok(0), push));
        }
        r
    }

    /// Runs the machine from where it stands: cycle after cycle, until an
    /// instruction halts the run or fails, or the counter leaves memory. A run
    /// that is still going after `CYCLE_LIMIT` cycles is stopped with an error.
    pub fn execute(&mut self) -> (r: Result<(), ExecutionError>)
        ensures
            executes(old(self).machine(), final(self).machine(), reported(r)),
            *final(final(self).output) == *final(old(self).output),
    {
        self.execute_within(CYCLE_LIMIT)
    }

    /// Runs the machine from where it stands, for `limit` cycles at most. A
    /// run that is still going after `limit` cycles is stopped with an error,
    /// and can be taken up again by another call.
    pub fn execute_within(&mut self, limit: u64) -> (r: Result<(), ExecutionError>)
        ensures
            executes_within(
                old(self).machine(),
                limit as nat,
                final(self).machine(),
                reported(r),
            ),
            *final(final(self).output) == *final(old(self).output),
    {
        let ghost start = self.machine();
        let mut cycles: u64 = 0;
        while self.current_address < self.memory.len()
            invariant
                start == old(self).machine(),
                cycles <= limit,
                reaches(start, cycles as nat, self.machine(), Phase::Running),
                *final(self.output) == *final(old(self).output),
            decreases limit - cycles,
        {
            if cycles == limit {
                return Err(ExecutionError::new(String::from_str("cycle limit reached")));
            }
            let ghost pre = self.machine();
            self.update_debug_state();
            self.instruction = match Instruction::new(self.memory[self.current_address]) {
                Some(instruction) => instruction,
                None => {
                    let e = self.generate_error("invalid instruction");
                    proof {
                        assert(steps_with(pre, Ok(0), None, self.machine(), Phase::Failed(e@)));
                        lemma_reaches_next(
                            start,
                            cycles as nat,
                            pre,
                            self.machine(),
                            Phase::Failed(e@),
                        );
                    }
                    return Err(e);
                },
            };
            self.current_address += 1;
            let r = match self.instruction.opcode {
                OpCode::Add => self.add_op(),
                OpCode::Mul => self.mul_op(),
                OpCode::Input => self.input_op(),
                OpCode::Output => self.output_op(),
                OpCode::JumpIfTrue => self.jump_if_true_op(),
                OpCode::JumpIfFalse => self.jump_if_false_op(),
                OpCode::Less => self.less_op(),
                OpCode::Equal => self.equal_op(),
                OpCode::Halt => {
                    proof {
                        assert(steps_with(pre, Ok(0), None, self.machine(), Phase::Halted));
                        lemma_reaches_next(
                            start,
                            cycles as nat,
                            pre,
                            self.machine(),
                            Phase::Halted,
                        );
                    }
                    return Ok(());
                },
            };
            let ghost replies = choose|pull: Result<i32, Seq<char>>, push: Option<Seq<char>>|
                Self::handles(pre, self.machine(), r, pull, push);
            match r {
                Ok(()) => {},
                Err(e) => {
                    self.current_address = self.debug.executed_instruction_address;
                    proof {
                        assert(steps_with(
                            pre,
                            replies.0,
                            replies.1,
                            self.machine(),
                            Phase::Failed(e@),
                        ));
                        lemma_reaches_next(
                            start,
                            cycles as nat,
                            pre,
                            self.machine(),
                            Phase::Failed(e@),
                        );
                    }
                    return Err(e);
                },
            }
            proof {
                assert(steps_with(pre, replies.0, replies.1, self.machine(), Phase::Running));
                lemma_reaches_next(start, cycles as nat, pre, self.machine(), Phase::Running);
            }
            cycles += 1;
        }
        Ok(())
    }
}

} // verus!
