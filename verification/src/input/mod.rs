//! The input port: where a run pulls its values from.

use vstd::prelude::*;
use crate::errors::InputError;
use crate::parsing::{failure_text, number, parse_word};

verus! {

/// What a pull gave, as a value: the word, or the port's reason for failing.
pub open spec fn pulled(reply: Result<i32, InputError>) -> Result<i32, Seq<char>> {
    match reply {
        Ok(value) => Ok(value),
        Err(e) => Err(e@),
    }
}

/// A source of input values. The engine pulls one value at a time.
pub trait Input: Sized {
    /// Whether a pull on this port may give `reply` and leave the port as
    /// `next`. A port that does not say admits every reply: that is for
    /// ports whose replies come from outside.
    open spec fn pulls(&self, reply: Result<i32, Seq<char>>, next: &Self) -> bool {
        true
    }

    /// Pulls the next value.
    fn get_input(&mut self) -> (reply: Result<i32, InputError>)
        ensures
            old(self).pulls(pulled(reply), final(self)),
    ;
}

/// A line without the whitespace at its two ends, as `str::trim` gives it.
pub uninterp spec fn trimmed(line: Seq<char>) -> Seq<char>;

/// `str::trim`: the line without leading and trailing whitespace.
#[verifier::external_body]
fn trim(line: &str) -> (inner: &str)
    ensures
        inner@ == trimmed(line@),
{
    line.trim()
}

/// The reply that a text stands for: the word it spells out, or a failure
/// where it spells out none.
pub fn reply_of(text: &str) -> (reply: Result<i32, InputError>)
    ensures
        match number(text@) {
            Some(word) => reply matches Ok(value) && value == word,
            None => reply is Err,
        },
{
    match parse_word(text) {
        Ok(word) => Ok(word),
        Err(e) => Err(InputError::new(failure_text(&e).as_str())),
    }
}

/// The reply that a line typed by an operator stands for: that of the line
/// without the whitespace around it.
pub fn parse_reply(line: &str) -> (reply: Result<i32, InputError>)
    ensures
        match number(trimmed(line@)) {
            Some(word) => reply matches Ok(value) && value == word,
            None => reply is Err,
        },
{
    reply_of(trim(line))
}

/// A port that serves a list of values given in advance, front to back, and
/// fails once the list is used up.
#[derive(Debug)]
pub struct FixedInput {
    inputs: Vec<i32>,
    current: usize,
}

impl View for FixedInput {
    type V = Seq<i32>;

    /// The values not served yet.
    closed spec fn view(&self) -> Seq<i32> {
        if self.current <= self.inputs.len() {
            self.inputs@.skip(self.current as int)
        } else {
            Seq::empty()
        }
    }
}

impl FixedInput {
    pub fn new(inputs: Vec<i32>) -> (port: FixedInput)
        ensures
            port@ == inputs@,
    {
        let port = FixedInput { inputs, current: 0 };
        assert(port.inputs@.skip(0) =~= port.inputs@);
        port
    }
}

impl Input for FixedInput {
    open spec fn pulls(&self, reply: Result<i32, Seq<char>>, next: &Self) -> bool {
        if self@.len() > 0 {
            reply == Ok::<i32, Seq<char>>(self@[0]) && next@ == self@.skip(1)
        } else {
            reply == Err::<i32, Seq<char>>("no more inputs"@) && next@ == self@
        }
    }

    fn get_input(&mut self) -> (reply: Result<i32, InputError>) {
        if self.current < self.inputs.len() {
            let ret = self.inputs[self.current];
            self.current += 1;
            assert(self.inputs@.skip(self.current as int) =~= old(self)@.skip(1));
            Ok(ret)
        } else {
            Err(InputError::new("no more inputs"))
        }
    }
}

/// A port that serves a list of its own first and, once that is used up, hands
/// every pull on to the port it wraps.
pub struct ExtendedFixedInput<I> where I: Input {
    extending_input: I,
    pre_inputs: Vec<i32>,
    current: usize,
}

impl<I> ExtendedFixedInput<I> where I: Input {
    /// The values of the port's own list that are not served yet.
    pub closed spec fn prefix(&self) -> Seq<i32> {
        if self.current <= self.pre_inputs.len() {
            self.pre_inputs@.skip(self.current as int)
        } else {
            Seq::empty()
        }
    }

    /// The wrapped port.
    pub closed spec fn base(&self) -> I {
        self.extending_input
    }

    pub fn new(base_input: I, pre_inputs: Vec<i32>) -> (port: ExtendedFixedInput<I>)
        ensures
            port.prefix() == pre_inputs@,
            port.base() == base_input,
    {
        let port = ExtendedFixedInput { extending_input: base_input, pre_inputs, current: 0 };
        assert(port.pre_inputs@.skip(0) =~= port.pre_inputs@);
        port
    }
}

impl<I> Input for ExtendedFixedInput<I> where I: Input {
    open spec fn pulls(&self, reply: Result<i32, Seq<char>>, next: &Self) -> bool {
        if self.prefix().len() > 0 {
            &&& reply == Ok::<i32, Seq<char>>(self.prefix()[0])
            &&& next.prefix() == self.prefix().skip(1)
            &&& next.base() == self.base()
        } else {
            &&& self.base().pulls(reply, &next.base())
            &&& next.prefix() == self.prefix()
        }
    }

    fn get_input(&mut self) -> (reply: Result<i32, InputError>) {
        if self.current < self.pre_inputs.len() {
            let input = self.pre_inputs[self.current];
            self.current += 1;
            assert(self.pre_inputs@.skip(self.current as int) =~= old(self).prefix().skip(1));
            Ok(input)
        } else {
            self.extending_input.get_input()
        }
    }
}

/// A port of two values over a list that is used up serves the two, in order,
/// and fails at the third pull with the reason of the port below.
pub proof fn lemma_prefix_of_two_then_failure(
    port: ExtendedFixedInput<FixedInput>,
    first: Result<i32, Seq<char>>,
    after_first: ExtendedFixedInput<FixedInput>,
    second: Result<i32, Seq<char>>,
    after_second: ExtendedFixedInput<FixedInput>,
    third: Result<i32, Seq<char>>,
    after_third: ExtendedFixedInput<FixedInput>,
)
    requires
        port.prefix().len() == 2,
        port.base()@.len() == 0,
        port.pulls(first, &after_first),
        after_first.pulls(second, &after_second),
        after_second.pulls(third, &after_third),
    ensures
        first == Ok::<i32, Seq<char>>(port.prefix()[0]),
        second == Ok::<i32, Seq<char>>(port.prefix()[1]),
        third == Err::<i32, Seq<char>>("no more inputs"@),
{
}

/// While a port has values of its own left, a pull serves the first of them
/// and does not touch the port below; once it has none, a pull is a pull on
/// the port below.
pub proof fn lemma_prefix_comes_first<I: Input>(
    port: ExtendedFixedInput<I>,
    reply: Result<i32, Seq<char>>,
    next: ExtendedFixedInput<I>,
)
    requires
        port.pulls(reply, &next),
    ensures
        port.prefix().len() > 0 ==> reply == Ok::<i32, Seq<char>>(port.prefix()[0])
            && next.prefix() == port.prefix().skip(1) && next.base() == port.base(),
        port.prefix().len() == 0 ==> port.base().pulls(reply, &next.base()) && next.prefix().len()
            == 0,
{
}

} // verus!
