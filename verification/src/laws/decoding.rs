//! How scripts are written and read.

use vstd::prelude::*;

use crate::instruction::{decode, first_error, Decoded, InstructionData, ScriptError};
use crate::utils::le_value;

verus! {

/// The low byte of a number after `places` bytes.
pub open spec fn byte_of(n: nat, places: nat) -> u8 {
    (if places == 0 {
        n % 0x100
    } else if places == 1 {
        (n / 0x100) % 0x100
    } else if places == 2 {
        (n / 0x1_0000) % 0x100
    } else {
        (n / 0x100_0000) % 0x100
    }) as u8
}

/// What stands in front of `len` bytes that are pushed, where the length takes `width` bytes
/// behind an opcode, or is the opcode.
pub open spec fn push_header(width: nat, len: nat) -> Seq<u8> {
    if width == 0 {
        seq![len as u8]
    } else if width == 1 {
        seq![76u8, byte_of(len, 0)]
    } else if width == 2 {
        seq![77u8, byte_of(len, 0), byte_of(len, 1)]
    } else {
        seq![78u8, byte_of(len, 0), byte_of(len, 1), byte_of(len, 2), byte_of(len, 3)]
    }
}

/// Whether a length can be written in that way.
pub open spec fn has_width(width: nat, len: nat) -> bool {
    ||| width == 0 && len <= 75
    ||| width == 1 && len <= 0xff
    ||| width == 2 && len <= 0xffff
    ||| width == 4 && len <= 0xffff_ffff
}

/// Whether a push is written in the shortest way: with no more bytes for its length than it takes,
/// and not with a byte that an opcode alone pushes.
pub open spec fn is_shortest(width: nat, data: Seq<u8>) -> bool {
    &&& width == 1 ==> data.len() > 75
    &&& width == 2 ==> data.len() > 0xff
    &&& width == 4 ==> data.len() > 0xffff
    &&& width == 0 && data.len() == 1 ==> !(1 <= data[0] <= 16) && data[0] != 0x81
}

proof fn lemma_value_of_two(a: u8, b: u8)
    ensures
        le_value(seq![a]) == a,
        le_value(seq![a, b]) == a + 0x100 * b,
{
    reveal_with_fuel(le_value, 3);
    assert(seq![a].skip(1) =~= Seq::empty());
    assert(seq![a, b].skip(1) =~= seq![b]);
    assert(seq![b].skip(1) =~= Seq::empty());
}

proof fn lemma_value_of_four(a: u8, b: u8, c: u8, d: u8)
    ensures
        le_value(seq![a, b, c, d]) == a + 0x100 * b + 0x1_0000 * c + 0x100_0000 * d,
{
    reveal_with_fuel(le_value, 3);
    lemma_value_of_two(c, d);
    assert(seq![a, b, c, d].skip(1) =~= seq![b, c, d]);
    assert(seq![b, c, d].skip(1) =~= seq![c, d]);
}

proof fn lemma_header(width: nat, len: nat, after: Seq<u8>)
    requires
        has_width(width, len),
    ensures
        push_header(width, len).len() == 1 + width,
        width > 0 ==> le_value((push_header(width, len) + after).subrange(1, 1 + width as int))
            == len,
{
    let rest = push_header(width, len) + after;
    if width == 1 {
        assert(rest.subrange(1, 2) =~= seq![byte_of(len, 0)]);
        lemma_value_of_two(byte_of(len, 0), 0);
    } else if width == 2 {
        assert(rest.subrange(1, 3) =~= seq![byte_of(len, 0), byte_of(len, 1)]);
        lemma_value_of_two(byte_of(len, 0), byte_of(len, 1));
    } else if width == 4 {
        let bytes = seq![byte_of(len, 0), byte_of(len, 1), byte_of(len, 2), byte_of(len, 3)];
        assert(rest.subrange(1, 5) =~= bytes);
        lemma_value_of_four(byte_of(len, 0), byte_of(len, 1), byte_of(len, 2), byte_of(len, 3));
    }
}

/// A push is read as the bytes that were written, whatever they are, however their length was
/// written and whatever comes after them. Where pushes have to be minimal it is one exactly where
/// it was written in the shortest way.
pub proof fn lemma_reading_pushes(width: nat, data: Seq<u8>, after: Seq<u8>)
    requires
        has_width(width, data.len()),
    ensures
        ({
            let script = push_header(width, data.len()) + data + after;
            let push = Decoded::Instr(
                InstructionData::PushBytes(data),
                1 + width + data.len(),
            );
            &&& decode(script, false) == push
            &&& is_shortest(width, data) ==> decode(script, true) == push
            &&& !is_shortest(width, data) ==> decode(script, true) == Decoded::Bad(
                ScriptError::NonMinimalPush,
            )
            &&& script.skip((1 + width + data.len()) as int) == after
        }),
{
    let header = push_header(width, data.len());
    let script = header + data + after;
    lemma_header(width, data.len(), data + after);
    assert(script =~= header + (data + after));
    assert(script.subrange(1 + width as int, (1 + width + data.len()) as int) =~= data);
    assert(script.skip((1 + width + data.len()) as int) =~= after);
    if data.len() > 0 {
        assert(script[1 + width as int] == data[0]);
    }
}

/// A script that ends in the middle of a push, in its length or in its bytes, is an error. Where
/// pushes have to be minimal, a length that could be written with fewer bytes is the error.
pub proof fn lemma_reading_short_pushes(width: nat, len: nat, data: Seq<u8>, header: Seq<u8>)
    requires
        has_width(width, len),
        data.len() < len,
    ensures
        ({
            let script = push_header(width, len) + data;
            let early = Decoded::Bad(ScriptError::EarlyEndOfScript);
            let longer_than_needed = (width == 1 && len <= 75) || (width == 2 && len <= 0xff) || (
            width == 4 && len <= 0xffff);
            &&& decode(script, false) == early
            &&& !longer_than_needed ==> decode(script, true) == early
            &&& longer_than_needed ==> decode(script, true) == Decoded::Bad(
                ScriptError::NonMinimalPush,
            )
        }),
        0 < header.len() < 1 + width && header == push_header(width, len).take(header.len() as int)
            ==> decode(header, false) == Decoded::Bad(ScriptError::EarlyEndOfScript) && decode(
            header,
            true,
        ) == Decoded::Bad(ScriptError::EarlyEndOfScript),
{
    lemma_header(width, len, data);
    if 0 < header.len() < 1 + width && header == push_header(width, len).take(
        header.len() as int,
    ) {
        assert(header[0] == push_header(width, len)[0]);
    }
}

/// A script of no bytes is at its end. Every opcode from 79 on stands alone.
pub proof fn lemma_reading_opcodes(op: u8, after: Seq<u8>, minimal: bool)
    ensures
        decode(Seq::empty(), minimal) == Decoded::End,
        op > 78 ==> decode(seq![op] + after, minimal) == Decoded::Instr(InstructionData::Op(op), 1),
        (seq![op] + after).skip(1) == after,
{
    assert((seq![op] + after).skip(1) =~= after);
}

/// A script has an error where one of its instructions has one, and the first of these counts:
/// what stands behind a push or an opcode that is read decides.
pub proof fn lemma_finding_errors(
    width: nat,
    data: Seq<u8>,
    op: u8,
    after: Seq<u8>,
    minimal: bool,
)
    requires
        has_width(width, data.len()),
    ensures
        first_error(Seq::empty(), minimal) is None,
        !minimal || is_shortest(width, data) ==> first_error(
            push_header(width, data.len()) + data + after,
            minimal,
        ) == first_error(after, minimal),
        minimal && !is_shortest(width, data) ==> first_error(
            push_header(width, data.len()) + data + after,
            minimal,
        ) == Some(ScriptError::NonMinimalPush),
        op > 78 ==> first_error(seq![op] + after, minimal) == first_error(after, minimal),
        decode(after, minimal) is Bad ==> first_error(after, minimal) == Some(
            decode(after, minimal)->Bad_0,
        ),
{
    lemma_reading_pushes(width, data, after);
    lemma_reading_opcodes(op, after, minimal);
}

} // verus!
