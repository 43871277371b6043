use bitcoin::script::{Error as OutsideError, Instruction as OutsideInstruction};
use vstd::prelude::*;

use crate::opcodes::Opcode;
use crate::utils::le_value;

verus! {

/// Why a script does not decode.
#[derive(Debug, Clone, Copy, PartialEq, Eq, Structural)]
pub enum ScriptError {
    /// A push could have been written with fewer bytes.
    NonMinimalPush,
    /// A push reaches past the end of the script.
    EarlyEndOfScript,
}

/// An instruction of a script.
#[derive(Debug)]
pub enum Instruction {
    /// Push these bytes.
    PushBytes(Vec<u8>),
    /// Execute this opcode.
    Op(Opcode),
}

/// What an instruction says.
pub enum InstructionData {
    PushBytes(Seq<u8>),
    Op(u8),
}

impl View for Instruction {
    type V = InstructionData;

    open spec fn view(&self) -> InstructionData {
        match self {
            Instruction::PushBytes(b) => InstructionData::PushBytes(b@),
            Instruction::Op(op) => InstructionData::Op(op.0),
        }
    }
}

/// What stands at the start of the bytes of a script.
pub enum Decoded {
    /// Nothing: the script ends here.
    End,
    /// No instruction.
    Bad(ScriptError),
    /// An instruction, and the number of bytes that it takes.
    Instr(InstructionData, nat),
}

/// A push of `len` bytes that follow the first `header` bytes.
pub open spec fn decode_push(rest: Seq<u8>, header: nat, len: nat) -> Decoded {
    if header + len > rest.len() {
        Decoded::Bad(ScriptError::EarlyEndOfScript)
    } else {
        Decoded::Instr(
            InstructionData::PushBytes(rest.subrange(header as int, (header + len) as int)),
            header + len,
        )
    }
}

/// A push whose length stands in the `width` bytes after the opcode.
pub open spec fn decode_long_push(
    rest: Seq<u8>,
    width: nat,
    shortest: nat,
    minimal: bool,
) -> Decoded {
    if 1 + width > rest.len() {
        Decoded::Bad(ScriptError::EarlyEndOfScript)
    } else {
        let len = le_value(rest.subrange(1, 1 + width as int));
        if minimal && len < shortest {
            Decoded::Bad(ScriptError::NonMinimalPush)
        } else {
            decode_push(rest, 1 + width, len)
        }
    }
}

/// What stands at the start of `rest`, where `minimal` says whether pushes must be minimal.
pub open spec fn decode(rest: Seq<u8>, minimal: bool) -> Decoded {
    if rest.len() == 0 {
        Decoded::End
    } else if rest[0] <= 75 {
        if minimal && rest[0] == 1 && rest.len() > 1 && (rest[1] == 0x81 || 1 <= rest[1] <= 16) {
            Decoded::Bad(ScriptError::NonMinimalPush)
        } else {
            decode_push(rest, 1, rest[0] as nat)
        }
    } else if rest[0] == 76 {
        decode_long_push(rest, 1, 76, minimal)
    } else if rest[0] == 77 {
        decode_long_push(rest, 2, 0x100, minimal)
    } else if rest[0] == 78 {
        decode_long_push(rest, 4, 0x10000, minimal)
    } else {
        Decoded::Instr(InstructionData::Op(rest[0]), 1)
    }
}

/// The first error in a script, if any.
pub open spec fn first_error(rest: Seq<u8>, minimal: bool) -> Option<ScriptError>
    decreases rest.len(),
{
    match decode(rest, minimal) {
        Decoded::End => None,
        Decoded::Bad(e) => Some(e),
        Decoded::Instr(_, n) => first_error(rest.skip(n as int), minimal),
    }
}

/// `item` and `left` say what `decode` says: the instruction or the error at the start of
/// `rest`, and for an instruction how many bytes come after it.
pub open spec fn decoded_as(
    item: Option<Result<Instruction, ScriptError>>,
    left: usize,
    rest: Seq<u8>,
    minimal: bool,
) -> bool {
    match decode(rest, minimal) {
        Decoded::End => item is None,
        Decoded::Bad(e) => item == Some(Err::<Instruction, ScriptError>(e)),
        Decoded::Instr(i, n) => {
            &&& item is Some
            &&& item->0 is Ok
            &&& item->0->Ok_0@ == i
            &&& left == rest.len() - n
        },
    }
}

/// Takes one step of `bitcoin::Script::instructions` and says how many bytes the iterator has
/// left. The contract claims the format of Bitcoin scripts: an opcode up to 75 pushes as many
/// bytes, 76, 77 and 78 push as many as the next one, two or four bytes say, and every other
/// opcode stands alone. A push that reaches past the end is an error.
#[verifier::external_body]
fn step_instructions(rest: &[u8]) -> (r: (Option<Result<Instruction, ScriptError>>, usize))
    ensures
        decoded_as(r.0, r.1, rest@, false),
{
    let mut iter = bitcoin::Script::from_bytes(rest).instructions();
    let item = match iter.next() {
        None => None,
        Some(Ok(OutsideInstruction::PushBytes(p))) => {
            Some(Ok(Instruction::PushBytes(p.as_bytes().to_vec())))
        },
        Some(Ok(OutsideInstruction::Op(op))) => Some(Ok(Instruction::Op(Opcode(op.to_u8())))),
        Some(Err(OutsideError::NonMinimalPush)) => Some(Err(ScriptError::NonMinimalPush)),
        Some(Err(_)) => Some(Err(ScriptError::EarlyEndOfScript)),
    };
    (item, iter.as_script().len())
}

/// Takes one step of `bitcoin::Script::instructions_minimal` and says how many bytes the
/// iterator has left. The contract claims what `step_instructions` claims, and that a push is
/// an error where a shorter opcode, or one of the opcodes for small numbers, would do.
#[verifier::external_body]
fn step_instructions_minimal(rest: &[u8]) -> (r: (Option<Result<Instruction, ScriptError>>, usize))
    ensures
        decoded_as(r.0, r.1, rest@, true),
{
    let mut iter = bitcoin::Script::from_bytes(rest).instructions_minimal();
    let item = match iter.next() {
        None => None,
        Some(Ok(OutsideInstruction::PushBytes(p))) => {
            Some(Ok(Instruction::PushBytes(p.as_bytes().to_vec())))
        },
        Some(Ok(OutsideInstruction::Op(op))) => Some(Ok(Instruction::Op(Opcode(op.to_u8())))),
        Some(Err(OutsideError::NonMinimalPush)) => Some(Err(ScriptError::NonMinimalPush)),
        Some(Err(_)) => Some(Err(ScriptError::EarlyEndOfScript)),
    };
    (item, iter.as_script().len())
}

/// What stands at `position` in `script`: the instruction with the position after it, or the
/// error, or nothing at the end.
pub fn next_instruction(script: &[u8], position: usize, minimal: bool) -> (r: Option<
    Result<(Instruction, usize), ScriptError>,
>)
    requires
        position <= script@.len(),
    ensures
        match decode(script@.skip(position as int), minimal) {
            Decoded::End => r is None,
            Decoded::Bad(e) => r == Some(Err::<(Instruction, usize), ScriptError>(e)),
            Decoded::Instr(i, n) => {
                &&& r is Some
                &&& r->0 is Ok
                &&& r->0->Ok_0.0@ == i
                &&& r->0->Ok_0.1 == position + n
                &&& position < r->0->Ok_0.1 <= script@.len()
            },
        },
{
    let rest = vstd::slice::slice_subrange(script, position, script.len());
    assert(rest@ =~= script@.skip(position as int));
    let (item, left) = if minimal {
        step_instructions_minimal(rest)
    } else {
        step_instructions(rest)
    };
    match item {
        None => None,
        Some(Ok(instruction)) => Some(Ok((instruction, script.len() - left))),
        Some(Err(e)) => Some(Err(e)),
    }
}

/// The first error in a script, if any.
pub fn find_error(script: &[u8], minimal: bool) -> (r: Option<ScriptError>)
    ensures
        r == first_error(script@, minimal),
{
    let mut position: usize = 0;
    assert(script@.skip(0) =~= script@);
    loop
        invariant
            position <= script@.len(),
            first_error(script@.skip(position as int), minimal) == first_error(script@, minimal),
        decreases script@.len() - position,
    {
        match next_instruction(script, position, minimal) {
            None => {
                return None;
            },
            Some(Err(e)) => {
                return Some(e);
            },
            Some(Ok((_, after))) => {
                proof {
                    let n = after - position;
                    assert(script@.skip(position as int).skip(n) =~= script@.skip(after as int));
                }
                position = after;
            },
        }
    }
}

} // verus!
