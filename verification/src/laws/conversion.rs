//! Which scripts are witnesses.

use vstd::prelude::*;

use crate::effects::{below, Items};
use crate::error::Error;
use crate::instruction::ScriptError;
use crate::laws::arithmetic::{has_64_bits, stands_for};
use crate::laws::decoding::{
    has_width, lemma_reading_opcodes, lemma_reading_pushes, lemma_reading_short_pushes,
    push_header,
};
use crate::laws::numbers::lemma_writing;
use crate::opcodes::{OP_ADD, OP_PUSHNUM_1, OP_PUSHNUM_16, OP_PUSHNUM_NEG1};
use crate::utils::num_bytes;
use crate::witness::witness_of;

verus! {

/// An instruction that pushes an element of a witness.
pub enum Push {
    /// These bytes, behind their length in so many bytes.
    Data { width: nat, data: Seq<u8> },
    /// A number from one to sixteen.
    Small(u8),
    /// Minus one.
    MinusOne,
}

impl Push {
    /// Whether there is such an instruction.
    pub open spec fn exists_as_instruction(self) -> bool {
        match self {
            Push::Data { width, data } => has_width(width, data.len()),
            Push::Small(n) => 1 <= n <= 16,
            Push::MinusOne => true,
        }
    }

    /// The bytes of the instruction.
    pub open spec fn written(self) -> Seq<u8> {
        match self {
            Push::Data { width, data } => push_header(width, data.len()) + data,
            Push::Small(n) => seq![(80 + n) as u8],
            Push::MinusOne => seq![79u8],
        }
    }

    /// The element that it pushes.
    pub open spec fn element(self) -> Seq<u8> {
        match self {
            Push::Data { width: _, data } => data,
            Push::Small(n) => seq![n],
            Push::MinusOne => num_bytes((-1) as i64),
        }
    }
}

/// The script of these pushes, and of something else behind them.
pub open spec fn script_of(pushes: Seq<Push>, after: Seq<u8>) -> Seq<u8>
    decreases pushes.len(),
{
    if pushes.len() == 0 {
        after
    } else {
        pushes[0].written() + script_of(pushes.skip(1), after)
    }
}

/// The elements of these pushes.
pub open spec fn elements_of(pushes: Seq<Push>) -> Items {
    Seq::new(pushes.len(), |i: int| pushes[i].element())
}

proof fn lemma_one_push(push: Push, after: Seq<u8>, items: Items)
    requires
        push.exists_as_instruction(),
    ensures
        witness_of(push.written() + after, items) == witness_of(after, items.push(push.element())),
{
    match push {
        Push::Data { width, data } => {
            lemma_reading_pushes(width, data, after);
        },
        Push::Small(n) => {
            lemma_reading_opcodes((80 + n) as u8, after, false);
            lemma_writing(n as i64);
        },
        Push::MinusOne => {
            lemma_reading_opcodes(79, after, false);
        },
    }
}

proof fn lemma_pushes(pushes: Seq<Push>, after: Seq<u8>, items: Items)
    requires
        forall|i: int| 0 <= i < pushes.len() ==> (#[trigger] pushes[i]).exists_as_instruction(),
    ensures
        witness_of(script_of(pushes, after), items) == witness_of(
            after,
            items + elements_of(pushes),
        ),
    decreases pushes.len(),
{
    if pushes.len() == 0 {
        assert(items + elements_of(pushes) =~= items);
    } else {
        let rest = pushes.skip(1);
        lemma_one_push(pushes[0], script_of(rest, after), items);
        lemma_pushes(rest, after, items.push(pushes[0].element()));
        assert(items.push(pushes[0].element()) + elements_of(rest) =~= items + elements_of(pushes));
    }
}

/// Every script that holds only pushes is a witness: it has one element for each push in their
/// order, with the bytes that are pushed, however many there are.
pub proof fn lemma_pushes_are_a_witness(pushes: Seq<Push>)
    requires
        forall|i: int| 0 <= i < pushes.len() ==> (#[trigger] pushes[i]).exists_as_instruction(),
    ensures
        witness_of(script_of(pushes, Seq::empty()), Seq::empty()) == Some(
            Ok::<Items, Error>(elements_of(pushes)),
        ),
{
    lemma_pushes(pushes, Seq::empty(), Seq::empty());
    assert(Seq::<Seq<u8>>::empty() + elements_of(pushes) =~= elements_of(pushes));
}

/// OP_ADD behind two elements makes one of them, their sum, for which the rest of the script is
/// read on. There is no outcome where the sum does not have 64 bits. An element that is no number
/// is an error, and so is OP_ADD behind fewer than two.
pub proof fn lemma_sum_in_a_witness(
    s: Items,
    x: Seq<u8>,
    y: Seq<u8>,
    a: i64,
    b: i64,
    after: Seq<u8>,
)
    ensures
        stands_for(x, a) && stands_for(y, b) && has_64_bits(a + b) ==> witness_of(
            seq![OP_ADD] + after,
            s.push(x).push(y),
        ) == witness_of(after, s.push(num_bytes((a + b) as i64))),
        stands_for(x, a) && stands_for(y, b) && !has_64_bits(a + b) ==> witness_of(
            seq![OP_ADD] + after,
            s.push(x).push(y),
        ) is None,
        x.len() > 8 || y.len() > 8 ==> witness_of(seq![OP_ADD] + after, s.push(x).push(y)) == Some(
            Err::<Items, Error>(Error::Other("invalid scriptint in OP_ADD")),
        ),
        s.len() < 2 ==> witness_of(seq![OP_ADD] + after, s) == Some(
            Err::<Items, Error>(
                Error::Other("OP_ADD in witness conversion requires two stack elements"),
            ),
        ),
{
    lemma_reading_opcodes(OP_ADD, after, false);
    assert(below(s.push(x).push(y), 2) =~= s);
}

/// Pushes and then any other opcode, or a push that the script ends in, are an error.
pub proof fn lemma_no_witness(
    pushes: Seq<Push>,
    op: u8,
    width: nat,
    len: nat,
    data: Seq<u8>,
    after: Seq<u8>,
)
    requires
        forall|i: int| 0 <= i < pushes.len() ==> (#[trigger] pushes[i]).exists_as_instruction(),
        has_width(width, len),
        data.len() < len,
    ensures
        op > 78 && op != OP_PUSHNUM_NEG1 && !(OP_PUSHNUM_1 <= op <= OP_PUSHNUM_16) && op != OP_ADD
            ==> witness_of(script_of(pushes, seq![op] + after), Seq::empty()) == Some(
            Err::<Items, Error>(
                Error::Other(
                    "the initial input to the witness elements can only contain elements, but not any opcode.",
                ),
            ),
        ),
        witness_of(script_of(pushes, push_header(width, len) + data), Seq::empty()) == Some(
            Err::<Items, Error>(Error::InvalidScript(ScriptError::EarlyEndOfScript)),
        ),
{
    lemma_pushes(pushes, seq![op] + after, Seq::empty());
    lemma_reading_opcodes(op, after, false);
    lemma_pushes(pushes, push_header(width, len) + data, Seq::empty());
    lemma_reading_short_pushes(width, len, data, Seq::empty());
}

} // verus!
