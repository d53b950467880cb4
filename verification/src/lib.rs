//! An Intcode virtual machine: a flat memory of signed 32-bit words that is
//! both program and data, an instruction decoder, and a fetch-decode-execute
//! engine that talks to the outside through an input and an output port.

pub mod errors;
pub mod executor;
pub mod input;
pub mod output;
pub mod parsing;
pub mod text;

use vstd::prelude::*;
use crate::errors::ExecutionError;
use crate::executor::machine::{executes, Machine};
use crate::executor::{reported, Executor};
use crate::input::Input;
use crate::output::Output;

verus! {

/// Runs the program in `memory` from address 0, with these ports.
///
/// The run is the one that `executes` describes; the output port is left as
/// that run left it.
pub fn execute<I, O>(memory: Vec<i32>, input: I, output: &mut O) -> (r: Result<
    (),
    ExecutionError,
>) where I: Input, O: Output
    ensures
        exists|end: Machine<I, O>|
            {
                &&& #[trigger] executes(
                    (Machine { memory: memory@, counter: 0, input, output: *old(output) }),
                    end,
                    reported(r),
                )
                &&& end.output == *final(output)
            },
{
    let mut executor = Executor::new(memory, input, output);
    let r = executor.execute();
    proof {
        assert(executes(
            (Machine { memory: memory@, counter: 0, input, output: *old(output) }),
            executor.machine(),
            reported(r),
        ));
    }
    r
}

} // verus!
