use bitcoin::consensus::Encodable as _;
use vstd::prelude::*;

use crate::data_structures::item_at;
use crate::effects::{below, is_push_num, pushed_num, Items};
use crate::error::Error;
use crate::instruction::{decode, next_instruction, Decoded, Instruction, InstructionData};
use crate::opcodes::{OP_ADD, OP_PUSHNUM_1, OP_PUSHNUM_16, OP_PUSHNUM_NEG1};
use crate::utils::{decode_num, le_trimmed, num_bytes, read_scriptint_size, scriptint_vec};

verus! {

/// The number of bytes that a length takes in front of what it is the length of.
pub open spec fn compact_size(n: nat) -> nat {
    if n <= 0xfc {
        1
    } else if n <= 0xffff {
        3
    } else if n <= 0xffff_ffff {
        5
    } else {
        9
    }
}

/// The number of bytes of these items, each with its length in front.
pub open spec fn items_size(items: Items) -> nat
    decreases items.len(),
{
    if items.len() == 0 {
        0
    } else {
        items_size(items.drop_last()) + compact_size(items.last().len()) + items.last().len()
    }
}

/// The number of bytes of an encoded witness.
pub open spec fn witness_size(items: Items) -> nat {
    compact_size(items.len()) + items_size(items)
}

/// The items of a witness.
pub open spec fn witness_items(witness: Seq<Vec<u8>>) -> Items {
    witness.map_values(|b: Vec<u8>| b@)
}

/// Calls `bitcoin::consensus::Encodable::consensus_encode` of a list of byte strings, with a
/// writer that drops the bytes. The contract claims that it counts one, three, five or nine
/// bytes for the number of items and for the length of each, and the bytes of the items.
#[verifier::external_body]
pub(crate) fn encoded_size(witness: &Vec<Vec<u8>>) -> (r: usize)
    requires
        witness_size(witness_items(witness@)) <= usize::MAX,
    ensures
        r == witness_size(witness_items(witness@)),
{
    witness.consensus_encode(&mut bitcoin::io::sink()).expect("dropping bytes does not fail")
}

/// Copies a witness.
pub fn copy_witness(witness: &Vec<Vec<u8>>) -> (r: Vec<Vec<u8>>)
    ensures
        witness_items(r@) == witness_items(witness@),
{
    let mut out: Vec<Vec<u8>> = Vec::new();
    for i in 0..witness.len()
        invariant
            out.len() == i,
            forall|j: int| 0 <= j < i ==> (#[trigger] out[j])@ == witness[j]@,
    {
        out.push(witness[i].clone());
    }
    assert(witness_items(out@) =~= witness_items(witness@));
    out
}

/// What an opcode makes of the items of a witness that is being built: small numbers are pushed,
/// and OP_ADD adds two numbers. Nothing where the sum does not have 64 bits.
pub open spec fn witness_op(items: Items, op: u8) -> Option<Result<Items, Error>> {
    if is_push_num(op) {
        Some(Ok(items.push(num_bytes(pushed_num(op)))))
    } else if op == OP_ADD {
        if items.len() < 2 {
            Some(Err(Error::Other("OP_ADD in witness conversion requires two stack elements")))
        } else {
            match (decode_num(item_at(items, 2), 8), decode_num(item_at(items, 1), 8)) {
                (Some(a), Some(b)) => if i64::MIN <= a + b <= i64::MAX {
                    Some(Ok(below(items, 2).push(num_bytes((a + b) as i64))))
                } else {
                    None
                },
                _ => Some(Err(Error::Other("invalid scriptint in OP_ADD"))),
            }
        }
    } else {
        Some(
            Err(
                Error::Other(
                    "the initial input to the witness elements can only contain elements, but not any opcode.",
                ),
            ),
        )
    }
}

/// The witness that the rest of a script adds up to, on top of these items.
pub open spec fn witness_of(rest: Seq<u8>, items: Items) -> Option<Result<Items, Error>>
    decreases rest.len(),
{
    match decode(rest, false) {
        Decoded::End => Some(Ok(items)),
        Decoded::Bad(e) => Some(Err(Error::InvalidScript(e))),
        Decoded::Instr(InstructionData::PushBytes(data), n) => witness_of(
            rest.skip(n as int),
            items.push(data),
        ),
        Decoded::Instr(InstructionData::Op(op), n) => match witness_op(items, op) {
            Some(Ok(more)) => witness_of(rest.skip(n as int), more),
            other => other,
        },
    }
}

/// What building a witness returned.
pub open spec fn built(r: Result<Vec<Vec<u8>>, Error>) -> Result<Items, Error> {
    match r {
        Ok(w) => Ok(witness_items(w@)),
        Err(e) => Err(e),
    }
}

/// Does to a witness that is being built what an opcode does. Nothing where a sum does not have
/// 64 bits.
fn apply_op(stack: &mut Vec<Vec<u8>>, op: u8) -> (r: Option<Result<(), Error>>)
    ensures
        match witness_op(witness_items(old(stack)@), op) {
            Some(Ok(items)) => r == Some(Ok::<(), Error>(())) && witness_items(final(stack)@)
                == items,
            Some(Err(e)) => r == Some(Err::<(), Error>(e)),
            None => r is None,
        },
{
    let ghost before = witness_items(stack@);
    if op == OP_PUSHNUM_NEG1 {
        // Val64: -1 as u64 = 0xFFFFFFFFFFFFFFFF
        stack.push(scriptint_vec(-1));
        assert(witness_items(stack@) =~= before.push(num_bytes(pushed_num(op))));
        Some(Ok(()))
    } else if OP_PUSHNUM_1 <= op && op <= OP_PUSHNUM_16 {
        let n: u8 = op - (OP_PUSHNUM_1 - 1);
        let item = vec![n];
        stack.push(item);
        proof {
            lemma_small_num(n);
            assert(item@ =~= seq![n]);
            assert(witness_items(stack@) =~= before.push(num_bytes(pushed_num(op))));
        }
        Some(Ok(()))
    } else if op == OP_ADD {
        // Val64: handle OP_ADD for the push_int(129) = { 128 } OP_1 OP_ADD pattern
        if stack.len() < 2 {
            return Some(
                Err(Error::Other("OP_ADD in witness conversion requires two stack elements")),
            );
        }
        let b = stack.pop().unwrap();
        let a = stack.pop().unwrap();
        assert(witness_items(stack@) =~= below(before, 2));
        let va = match read_scriptint_size(a.as_slice(), 8, false) {
            Ok(va) => va,
            Err(_) => {
                return Some(Err(Error::Other("invalid scriptint in OP_ADD")));
            },
        };
        let vb = match read_scriptint_size(b.as_slice(), 8, false) {
            Ok(vb) => vb,
            Err(_) => {
                return Some(Err(Error::Other("invalid scriptint in OP_ADD")));
            },
        };
        match va.checked_add(vb) {
            Some(sum) => {
                stack.push(scriptint_vec(sum));
                assert(witness_items(stack@) =~= below(before, 2).push(num_bytes(sum)));
                Some(Ok(()))
            },
            None => None,
        }
    } else {
        Some(
            Err(
                Error::Other(
                    "the initial input to the witness elements can only contain elements, but not any opcode.",
                ),
            ),
        )
    }
}

/// The byte string of a number from 1 to 255 is that one byte.
proof fn lemma_small_num(n: u8)
    requires
        n > 0,
    ensures
        num_bytes(n as i64) == seq![n],
{
    assert(le_trimmed(n as nat) =~= seq![n] + le_trimmed(0));
    assert(seq![n] + le_trimmed(0) =~= seq![n]);
}

/// The witness that a script of pushes adds up to. Nothing where OP_ADD in it has a sum that does
/// not have 64 bits.
pub fn try_convert_to_witness(script: Vec<u8>) -> (r: Option<Result<Vec<Vec<u8>>, Error>>)
    ensures
        match witness_of(script@, Seq::empty()) {
            Some(w) => r is Some && built(r->0) == w,
            None => r is None,
        },
{
    let mut stack: Vec<Vec<u8>> = Vec::new();
    let mut position: usize = 0;
    assert(script@.skip(0) =~= script@);
    assert(witness_items(stack@) =~= Seq::empty());
    loop
        invariant
            position <= script@.len(),
            witness_of(script@.skip(position as int), witness_items(stack@)) == witness_of(
                script@,
                Seq::empty(),
            ),
        decreases script@.len() - position,
    {
        match next_instruction(script.as_slice(), position, false) {
            None => {
                return Some(Ok(stack));
            },
            Some(Err(e)) => {
                return Some(Err(Error::InvalidScript(e)));
            },
            Some(Ok((instruction, after))) => {
                let ghost before = witness_items(stack@);
                assert(script@.skip(position as int).skip(after - position) =~= script@.skip(
                    after as int,
                ));
                match instruction {
                    Instruction::PushBytes(p) => {
                        stack.push(p);
                        assert(witness_items(stack@) =~= before.push(p@));
                    },
                    Instruction::Op(op) => match apply_op(&mut stack, op.0) {
                        Some(Ok(())) => {},
                        Some(Err(e)) => {
                            return Some(Err(e));
                        },
                        None => {
                            return None;
                        },
                    },
                }
                position = after;
            },
        }
    }
}

/// The witness that a script of pushes adds up to, which must not add numbers whose sum does not
/// have 64 bits.
pub fn convert_to_witness(script: Vec<u8>) -> (r: Result<Vec<Vec<u8>>, Error>)
    requires
        witness_of(script@, Seq::empty()) is Some,
    ensures
        Some(built(r)) == witness_of(script@, Seq::empty()),
{
    try_convert_to_witness(script).unwrap()
}

} // verus!
