//! The instruction word: an opcode in the two lowest decimal digits, and above
//! them one mode digit for each operand, the first operand's lowest.

use vstd::prelude::*;

verus! {

/// The operations of the machine.
#[derive(Clone, Copy, Debug, PartialEq, Eq, Structural)]
pub enum OpCode {
    Add,
    Mul,
    Input,
    Output,
    JumpIfTrue,
    JumpIfFalse,
    Less,
    Equal,
    Halt,
}

/// How an operand word is turned into the value an instruction works on.
#[derive(Clone, Copy, Debug, PartialEq, Eq, Structural)]
pub enum ParameterMode {
    /// The word is an address; the value is what memory holds there.
    Position,
    /// The word is the value.
    Immediate,
}

/// An instruction as the decoder hands it out.
#[derive(Debug)]
pub struct Instruction {
    pub opcode: OpCode,
    pub parameter_modes: Vec<ParameterMode>,
}

/// An instruction as a value: the opcode and the modes that the word spells
/// out, the first operand's first.
pub struct Decoded {
    pub opcode: OpCode,
    pub modes: Seq<ParameterMode>,
}

impl View for Instruction {
    type V = Decoded;

    open spec fn view(&self) -> Decoded {
        Decoded { opcode: self.opcode, modes: self.parameter_modes@ }
    }
}

/// The opcode that a number stands for.
pub open spec fn opcode_of(code: int) -> Option<OpCode> {
    if code == 1 {
        Some(OpCode::Add)
    } else if code == 2 {
        Some(OpCode::Mul)
    } else if code == 3 {
        Some(OpCode::Input)
    } else if code == 4 {
        Some(OpCode::Output)
    } else if code == 5 {
        Some(OpCode::JumpIfTrue)
    } else if code == 6 {
        Some(OpCode::JumpIfFalse)
    } else if code == 7 {
        Some(OpCode::Less)
    } else if code == 8 {
        Some(OpCode::Equal)
    } else if code == 99 {
        Some(OpCode::Halt)
    } else {
        None
    }
}

/// The mode that a digit stands for.
pub open spec fn mode_of(digit: int) -> Option<ParameterMode> {
    if digit == 0 {
        Some(ParameterMode::Position)
    } else if digit == 1 {
        Some(ParameterMode::Immediate)
    } else {
        None
    }
}

/// The modes that the decimal digits of `digits` spell out, lowest digit
/// first, or `None` if one of them is no mode. Zero spells out no mode at all.
pub open spec fn modes_of(digits: nat) -> Option<Seq<ParameterMode>>
    decreases digits,
{
    if digits == 0 {
        Some(Seq::empty())
    } else {
        match (mode_of((digits % 10) as int), modes_of(digits / 10)) {
            (Some(first), Some(rest)) => Some(seq![first] + rest),
            _ => None,
        }
    }
}

/// The instruction that a memory word stands for, or `None` where it stands
/// for none: a negative word, an unknown opcode, a digit that is no mode.
pub open spec fn decode(word: int) -> Option<Decoded> {
    if word < 0 {
        None
    } else {
        match (opcode_of(word % 100), modes_of((word / 100) as nat)) {
            (Some(opcode), Some(modes)) => Some(Decoded { opcode, modes }),
            _ => None,
        }
    }
}

/// The mode of the operand at `offset`: the one the word spells out, and
/// `Position` where it spells out none.
pub open spec fn mode_at(modes: Seq<ParameterMode>, offset: int) -> ParameterMode {
    if 0 <= offset < modes.len() {
        modes[offset]
    } else {
        ParameterMode::Position
    }
}

/// A negative word is no instruction.
pub proof fn lemma_negative_word_is_no_instruction(word: int)
    requires
        word < 0,
    ensures
        decode(word) is None,
{
}

/// The decimal digit of `number` at `place`, the lowest being at place 0.
pub open spec fn digit_at(number: nat, place: nat) -> nat
    decreases place,
{
    if place == 0 {
        number % 10
    } else {
        digit_at(number / 10, (place - 1) as nat)
    }
}

/// The modes are the digits, lowest first: the mode of the operand at `offset`
/// is the one that the digit at that place stands for.
pub proof fn lemma_modes_are_the_digits(digits: nat, offset: nat)
    requires
        modes_of(digits) is Some,
        offset < modes_of(digits).unwrap().len(),
    ensures
        mode_of(digit_at(digits, offset) as int) == Some(modes_of(digits).unwrap()[offset as int]),
    decreases offset,
{
    if offset > 0 {
        lemma_modes_are_the_digits(digits / 10, (offset - 1) as nat);
    }
}

/// Digits that are all 0 or 1 spell out modes: as many as the number has
/// digits.
pub proof fn lemma_binary_digits_are_modes(digits: nat)
    requires
        forall|place: nat| #[trigger] digit_at(digits, place) <= 1,
    ensures
        modes_of(digits) is Some,
    decreases digits,
{
    if digits != 0 {
        assert(digit_at(digits, 0) <= 1);
        assert forall|place: nat| #[trigger] digit_at(digits / 10, place) <= 1 by {
            assert(digit_at(digits, place + 1) <= 1);
        }
        lemma_binary_digits_are_modes(digits / 10);
    }
}

impl OpCode {
    /// The opcode that `code` stands for.
    pub fn from_i32(code: i32) -> (r: Option<OpCode>)
        ensures
            r == opcode_of(code as int),
    {
        if code == 1 {
            Some(OpCode::Add)
        } else if code == 2 {
            Some(OpCode::Mul)
        } else if code == 3 {
            Some(OpCode::Input)
        } else if code == 4 {
            Some(OpCode::Output)
        } else if code == 5 {
            Some(OpCode::JumpIfTrue)
        } else if code == 6 {
            Some(OpCode::JumpIfFalse)
        } else if code == 7 {
            Some(OpCode::Less)
        } else if code == 8 {
            Some(OpCode::Equal)
        } else if code == 99 {
            Some(OpCode::Halt)
        } else {
            None
        }
    }
}

impl ParameterMode {
    /// The mode that `digit` stands for.
    pub fn from_u32(digit: u32) -> (r: Option<ParameterMode>)
        ensures
            r == mode_of(digit as int),
    {
        if digit == 0 {
            Some(ParameterMode::Position)
        } else if digit == 1 {
            Some(ParameterMode::Immediate)
        } else {
            None
        }
    }
}

impl Instruction {
    /// Decodes a memory word.
    pub fn new(instruction: i32) -> (r: Option<Instruction>)
        ensures
            match r {
                Some(decoded) => decode(instruction as int) == Some(decoded@),
                None => decode(instruction as int) is None,
            },
    {
        if instruction < 0 {
            return None;
        }
        let opcode = match OpCode::from_i32(instruction % 100) {
            Some(opcode) => opcode,
            None => return None,
        };
        let mut modes_data: u32 = (instruction / 100) as u32;
        let mut parameter_modes: Vec<ParameterMode> = Vec::new();
        let ghost all = modes_of((instruction as int / 100) as nat);
        assert(parameter_modes@ + Seq::<ParameterMode>::empty() =~= parameter_modes@);
        while modes_data != 0
            invariant
                instruction >= 0,
                opcode_of(instruction as int % 100) == Some(opcode),
                all == modes_of((instruction as int / 100) as nat),
                all == match modes_of(modes_data as nat) {
                    Some(rest) => Some(parameter_modes@ + rest),
                    None => None,
                },
            decreases modes_data,
        {
            let ghost before = parameter_modes@;
            match ParameterMode::from_u32(modes_data % 10) {
                Some(mode) => parameter_modes.push(mode),
                None => {
                    assert(modes_of(modes_data as nat) is None);
                    return None;
                },
            }
            proof {
                if let Some(rest) = modes_of((modes_data / 10) as nat) {
                    assert(before + (seq![before.push(mode_of((modes_data % 10) as int).unwrap()).last()] + rest)
                        =~= parameter_modes@ + rest);
                }
            }
            modes_data = modes_data / 10;
        }
        assert(parameter_modes@ + Seq::<ParameterMode>::empty() =~= parameter_modes@);
        let decoded = Instruction { opcode, parameter_modes };
        assert(decoded@ == (Decoded { opcode, modes: parameter_modes@ }));
        Some(decoded)
    }
}

} // verus!
