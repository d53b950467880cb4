//! The output port: where a run pushes its values to.

use vstd::prelude::*;
use std::collections::VecDeque;
use crate::errors::OutputError;

verus! {

/// What a push gave, as a value: the port's reason for refusing, if it did.
pub open spec fn pushed(reply: Result<(), OutputError>) -> Option<Seq<char>> {
    match reply {
        Ok(_) => None,
        Err(e) => Some(e@),
    }
}

/// A sink for output values. The engine pushes one value at a time.
pub trait Output: Sized {
    /// Whether a push of `value` on this port may give `reply` and leave the
    /// port as `next`. A port that does not say admits every reply: that is
    /// for ports whose replies come from outside.
    open spec fn pushes(&self, value: i32, reply: Option<Seq<char>>, next: &Self) -> bool {
        true
    }

    /// Pushes a value.
    fn send_output(&mut self, output: i32) -> (reply: Result<(), OutputError>)
        ensures
            old(self).pushes(output, pushed(reply), final(self)),
    ;
}

/// A port that keeps what it is sent, for its owner to take out later in the
/// order in which it came.
#[derive(Debug)]
pub struct QueueOutput {
    outputs: VecDeque<i32>,
}

impl View for QueueOutput {
    type V = Seq<i32>;

    /// The values sent and not taken out yet, oldest first.
    closed spec fn view(&self) -> Seq<i32> {
        self.outputs@
    }
}

impl QueueOutput {
    pub fn new() -> (port: QueueOutput)
        ensures
            port@ == Seq::<i32>::empty(),
    {
        QueueOutput { outputs: VecDeque::new() }
    }

    /// Takes out the oldest value, if there is one.
    pub fn get(&mut self) -> (value: Option<i32>)
        ensures
            match value {
                Some(v) => old(self)@.len() > 0 && v == old(self)@[0] && final(self)@
                    == old(self)@.skip(1),
                None => old(self)@.len() == 0 && final(self)@ == old(self)@,
            },
    {
        let value = self.outputs.pop_front();
        assert(old(self)@.len() > 0 ==> old(self)@.subrange(1, old(self)@.len() as int)
            =~= old(self)@.skip(1));
        value
    }
}

impl Output for QueueOutput {
    open spec fn pushes(&self, value: i32, reply: Option<Seq<char>>, next: &Self) -> bool {
        reply is None && next@ == self@.push(value)
    }

    fn send_output(&mut self, output: i32) -> (reply: Result<(), OutputError>) {
        self.outputs.push_back(output);
        Ok(())
    }
}

} // verus!
