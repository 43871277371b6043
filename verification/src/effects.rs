//! What opcodes do to the items on the stack.

use vstd::prelude::*;

use crate::data_structures::{item_at, num_at};
use crate::error::ExecError;
use crate::hashes::{hash160_of, hash256_of, ripemd160_of, sha1_of, sha256_of};
use crate::opcodes::{
    OP_0NOTEQUAL, OP_1ADD, OP_1SUB, OP_2DROP, OP_2DUP, OP_2OVER, OP_2ROT, OP_2SWAP, OP_3DUP, OP_ABS,
    OP_ADD, OP_BOOLAND, OP_BOOLOR, OP_CAT, OP_DEPTH, OP_DROP, OP_DUP, OP_EQUAL, OP_GREATERTHAN,
    OP_GREATERTHANOREQUAL, OP_HASH160, OP_HASH256, OP_IFDUP, OP_LESSTHAN, OP_LESSTHANOREQUAL,
    OP_MAX, OP_MIN, OP_NEGATE, OP_NIP, OP_NOT, OP_NUMEQUAL, OP_NUMEQUALVERIFY, OP_NUMNOTEQUAL,
    OP_OVER, OP_PUSHNUM_NEG1, OP_RIPEMD160, OP_ROLL, OP_ROT, OP_SHA1, OP_SHA256, OP_SUB, OP_SWAP,
    OP_TUCK,
};
use crate::utils::num_bytes;

verus! {

/// Maximum number of bytes pushable to the stack
pub const MAX_SCRIPT_ELEMENT_SIZE: usize = 520;

/// The byte strings on a stack, the last one on top.
pub type Items = Seq<Seq<u8>>;

/// Whether no item is longer than a push may be.
pub open spec fn short_items(s: Items) -> bool {
    forall|i: int| 0 <= i < s.len() ==> (#[trigger] s[i]).len() <= MAX_SCRIPT_ELEMENT_SIZE
}

/// What an operation comes to.
pub enum Effect<S> {
    /// It succeeds and leaves this state.
    Next(S),
    /// It fails with this error and leaves this state.
    Fail(S, ExecError),
    /// It has no outcome.
    Undefined,
}

/// Why an operation did not succeed.
#[derive(Debug, Clone, Copy)]
pub enum Stop {
    /// It failed.
    Error(ExecError),
    /// It has no outcome: the machine does not implement it, or not on these operands.
    Undefined,
}

/// What an operation came to that returned `r` and left `state`.
pub open spec fn outcome<S>(r: Result<(), Stop>, state: S) -> Effect<S> {
    match r {
        Ok(()) => Effect::Next(state),
        Err(Stop::Error(e)) => Effect::Fail(state, e),
        Err(Stop::Undefined) => Effect::Undefined,
    }
}

/// Whether a byte string counts as true: any byte but the last is not zero, or the last is
/// neither zero nor the sign bit alone.
pub open spec fn is_true(b: Seq<u8>) -> bool {
    exists|i: int| 0 <= i < b.len() && #[trigger] b[i] != 0 && !(i == b.len() - 1 && b[i] == 0x80)
}

/// One for true, zero for false.
pub open spec fn bool_num(b: bool) -> i64 {
    if b {
        1
    } else {
        0
    }
}

/// The items without the `k` on top.
pub open spec fn below(s: Items, k: int) -> Items {
    s.take(s.len() - k)
}

/// Puts `new` in the place of the `k` items on top, which must be there.
pub open spec fn replace_top(s: Items, k: int, new: Items) -> Effect<Items> {
    if s.len() < k {
        Effect::Fail(s, ExecError::InvalidStackOperation)
    } else {
        Effect::Next(below(s, k) + new)
    }
}

/// The opcodes that push a number of their own.
pub open spec fn is_push_num(op: u8) -> bool {
    op == OP_PUSHNUM_NEG1 || 0x51 <= op <= 0x60
}

/// The number that such an opcode pushes.
pub open spec fn pushed_num(op: u8) -> i64 {
    if op == OP_PUSHNUM_NEG1 {
        (-1) as i64
    } else {
        (op - 0x50) as i64
    }
}

/// The opcodes that drop, copy and move items.
pub open spec fn is_shuffle(op: u8) -> bool {
    (0x6d <= op <= 0x78) || (0x7b <= op <= 0x7d)
}

/// What they do, with the items on top from the bottom up.
pub open spec fn shuffle_effect(s: Items, op: u8) -> Effect<Items> {
    let x1 = item_at(s, 1);
    let x2 = item_at(s, 2);
    let x3 = item_at(s, 3);
    let x4 = item_at(s, 4);
    let x5 = item_at(s, 5);
    let x6 = item_at(s, 6);
    if op == OP_2DROP {
        replace_top(s, 2, seq![])
    } else if op == OP_2DUP {
        replace_top(s, 2, seq![x2, x1, x2, x1])
    } else if op == OP_3DUP {
        replace_top(s, 3, seq![x3, x2, x1, x3, x2, x1])
    } else if op == OP_2OVER {
        replace_top(s, 4, seq![x4, x3, x2, x1, x4, x3])
    } else if op == OP_2ROT {
        replace_top(s, 6, seq![x4, x3, x2, x1, x6, x5])
    } else if op == OP_2SWAP {
        replace_top(s, 4, seq![x2, x1, x4, x3])
    } else if op == OP_IFDUP {
        replace_top(
            s,
            1,
            if is_true(x1) {
                seq![x1, x1]
            } else {
                seq![x1]
            },
        )
    } else if op == OP_DEPTH {
        replace_top(s, 0, seq![num_bytes(s.len() as i64)])
    } else if op == OP_DROP {
        replace_top(s, 1, seq![])
    } else if op == OP_DUP {
        replace_top(s, 1, seq![x1, x1])
    } else if op == OP_NIP {
        replace_top(s, 2, seq![x1])
    } else if op == OP_OVER {
        replace_top(s, 2, seq![x2, x1, x2])
    } else if op == OP_ROT {
        replace_top(s, 3, seq![x2, x1, x3])
    } else if op == OP_SWAP {
        replace_top(s, 2, seq![x1, x2])
    } else {
        // OP_TUCK
        replace_top(s, 2, seq![x1, x2, x1])
    }
}

/// OP_PICK copies, and OP_ROLL moves, the item as many places below the top item as that says.
/// There is no outcome where that leads one place further down than the bottom item.
pub open spec fn pick_effect(s: Items, op: u8) -> Effect<Items> {
    match num_at(s, 1) {
        Err(e) => Effect::Fail(s, e),
        Ok(n) => if n < 0 || n >= s.len() {
            Effect::Fail(s, ExecError::InvalidStackOperation)
        } else if n == s.len() - 1 {
            Effect::Undefined
        } else {
            let rest = s.drop_last();
            let at = rest.len() - 1 - n;
            if op == OP_ROLL {
                Effect::Next(rest.remove(at).push(rest[at]))
            } else {
                Effect::Next(rest.push(rest[at]))
            }
        },
    }
}

/// The bytes that two byte strings of one length have in common, bit by bit.
pub open spec fn bytes_and(a: Seq<u8>, b: Seq<u8>) -> Seq<u8> {
    Seq::new(a.len(), |i: int| a[i] & b[i])
}

/// OP_CAT joins the two items on top, OP_AND takes their bits in common.
pub open spec fn join_effect(s: Items, op: u8) -> Effect<Items> {
    let a = item_at(s, 2);
    let b = item_at(s, 1);
    if s.len() < 2 {
        Effect::Fail(s, ExecError::InvalidStackOperation)
    } else if op == OP_CAT {
        if a.len() + b.len() > MAX_SCRIPT_ELEMENT_SIZE {
            Effect::Fail(s, ExecError::PushSize)
        } else {
            Effect::Next(below(s, 2).push(a + b))
        }
    } else if a.len() != b.len() {
        Effect::Fail(s, ExecError::InvalidStackOperation)
    } else {
        Effect::Next(below(s, 2).push(bytes_and(a, b)))
    }
}

/// OP_SIZE pushes the length of the top item.
pub open spec fn size_effect(s: Items) -> Effect<Items> {
    if s.len() < 1 {
        Effect::Fail(s, ExecError::InvalidStackOperation)
    } else {
        Effect::Next(s.push(num_bytes(s.last().len() as i64)))
    }
}

/// OP_EQUAL says whether the two items on top are the same, OP_EQUALVERIFY insists on it.
pub open spec fn equal_effect(s: Items, op: u8) -> Effect<Items> {
    let same = item_at(s, 2) == item_at(s, 1);
    if s.len() < 2 {
        Effect::Fail(s, ExecError::InvalidStackOperation)
    } else if op == OP_EQUAL {
        Effect::Next(below(s, 2).push(num_bytes(bool_num(same))))
    } else if same {
        Effect::Next(below(s, 2))
    } else {
        Effect::Fail(s, ExecError::EqualVerify)
    }
}

/// OP_VERIFY drops the top item, which must be true.
pub open spec fn verify_effect(s: Items) -> Effect<Items> {
    if s.len() < 1 {
        Effect::Fail(s, ExecError::InvalidStackOperation)
    } else if is_true(s.last()) {
        Effect::Next(s.drop_last())
    } else {
        Effect::Fail(s, ExecError::Verify)
    }
}

/// The number `v` where it has 64 bits.
pub open spec fn fit(v: int) -> Effect<i64> {
    if i64::MIN <= v <= i64::MAX {
        Effect::Next(v as i64)
    } else {
        Effect::Fail(0, ExecError::ScriptIntNumericOverflow)
    }
}

/// The difference `v` where it has 64 bits, and is not negative where that is not allowed.
pub open spec fn fit_difference(v: int, nonnegative: bool) -> Effect<i64> {
    if nonnegative && v < 0 {
        Effect::Fail(0, ExecError::ScriptIntNumericOverflow)
    } else {
        fit(v)
    }
}

/// The opcodes on one number.
pub open spec fn is_unary(op: u8) -> bool {
    op == OP_1ADD || op == OP_1SUB || 0x8f <= op <= 0x92
}

/// What they make of it.
pub open spec fn unary_num(op: u8, x: i64, nonnegative: bool) -> Effect<i64> {
    if op == OP_1ADD {
        fit(x + 1)
    } else if op == OP_1SUB {
        fit_difference(x - 1, nonnegative)
    } else if op == OP_NEGATE {
        fit(-x)
    } else if op == OP_ABS {
        if x == i64::MIN {
            Effect::Undefined
        } else if x < 0 {
            Effect::Next((-x) as i64)
        } else {
            Effect::Next(x)
        }
    } else if op == OP_NOT {
        Effect::Next(bool_num(x == 0))
    } else {
        // OP_0NOTEQUAL
        Effect::Next(bool_num(x != 0))
    }
}

/// They put the result in the place of the number.
pub open spec fn unary_effect(s: Items, op: u8, nonnegative: bool) -> Effect<Items> {
    match num_at(s, 1) {
        Err(e) => Effect::Fail(s, e),
        Ok(x) => match unary_num(op, x, nonnegative) {
            Effect::Next(v) => Effect::Next(below(s, 1).push(num_bytes(v))),
            Effect::Fail(_, e) => Effect::Fail(s, e),
            Effect::Undefined => Effect::Undefined,
        },
    }
}

/// The opcodes on two numbers.
pub open spec fn is_binary(op: u8) -> bool {
    op == OP_ADD || op == OP_SUB || 0x9a <= op <= 0xa4
}

/// What they make of them.
pub open spec fn binary_num(op: u8, a: i64, b: i64, nonnegative: bool) -> Effect<i64> {
    if op == OP_ADD {
        fit(a + b)
    } else if op == OP_SUB {
        fit_difference(a - b, nonnegative)
    } else if op == OP_BOOLAND {
        Effect::Next(bool_num(a != 0 && b != 0))
    } else if op == OP_BOOLOR {
        Effect::Next(bool_num(a != 0 || b != 0))
    } else if op == OP_NUMEQUAL || op == OP_NUMEQUALVERIFY {
        Effect::Next(bool_num(a == b))
    } else if op == OP_NUMNOTEQUAL {
        Effect::Next(bool_num(a != b))
    } else if op == OP_LESSTHAN {
        Effect::Next(bool_num(a < b))
    } else if op == OP_GREATERTHAN {
        Effect::Next(bool_num(a > b))
    } else if op == OP_LESSTHANOREQUAL {
        Effect::Next(bool_num(a <= b))
    } else if op == OP_GREATERTHANOREQUAL {
        Effect::Next(bool_num(a >= b))
    } else if op == OP_MIN {
        Effect::Next(
            if a <= b {
                a
            } else {
                b
            },
        )
    } else {
        // OP_MAX
        Effect::Next(
            if a <= b {
                b
            } else {
                a
            },
        )
    }
}

/// They put the result in the place of the two numbers; OP_NUMEQUALVERIFY insists on it.
pub open spec fn binary_effect(s: Items, op: u8, nonnegative: bool) -> Effect<Items> {
    match (num_at(s, 2), num_at(s, 1)) {
        (Err(e), _) => Effect::Fail(s, e),
        (_, Err(e)) => Effect::Fail(s, e),
        (Ok(a), Ok(b)) => match binary_num(op, a, b, nonnegative) {
            Effect::Next(v) => if op != OP_NUMEQUALVERIFY {
                Effect::Next(below(s, 2).push(num_bytes(v)))
            } else if v == 0 {
                Effect::Fail(s, ExecError::NumEqualVerify)
            } else {
                Effect::Next(below(s, 2))
            },
            Effect::Fail(_, e) => Effect::Fail(s, e),
            Effect::Undefined => Effect::Undefined,
        },
    }
}

/// OP_MUL puts the product in the place of two numbers. There is no outcome where the product
/// does not have 64 bits.
pub open spec fn mul_effect(s: Items) -> Effect<Items> {
    match (num_at(s, 2), num_at(s, 1)) {
        (Err(e), _) => Effect::Fail(s, e),
        (_, Err(e)) => Effect::Fail(s, e),
        (Ok(a), Ok(b)) => match fit(a * b) {
            Effect::Next(v) => Effect::Next(below(s, 2).push(num_bytes(v))),
            _ => Effect::Undefined,
        },
    }
}

/// OP_WITHIN says whether a number is at least the second and below the third.
pub open spec fn within_effect(s: Items) -> Effect<Items> {
    match (num_at(s, 3), num_at(s, 2), num_at(s, 1)) {
        (Err(e), _, _) => Effect::Fail(s, e),
        (_, Err(e), _) => Effect::Fail(s, e),
        (_, _, Err(e)) => Effect::Fail(s, e),
        (Ok(x), Ok(low), Ok(high)) => Effect::Next(
            below(s, 3).push(num_bytes(bool_num(low <= x && x < high))),
        ),
    }
}

/// The opcodes that hash the top item.
pub open spec fn is_hash(op: u8) -> bool {
    0xa6 <= op <= 0xaa
}

/// The hash that they take.
pub open spec fn hash_of(op: u8, data: Seq<u8>) -> Seq<u8> {
    if op == OP_RIPEMD160 {
        ripemd160_of(data)
    } else if op == OP_SHA1 {
        sha1_of(data)
    } else if op == OP_SHA256 {
        sha256_of(data)
    } else if op == OP_HASH160 {
        hash160_of(data)
    } else {
        // OP_HASH256
        hash256_of(data)
    }
}

/// The number of bytes in it.
pub open spec fn hash_size(op: u8) -> nat {
    if op == OP_SHA256 || op == OP_HASH256 {
        32
    } else {
        20
    }
}

/// They put the hash in the place of the item.
pub open spec fn hash_effect(s: Items, op: u8) -> Effect<Items> {
    if s.len() < 1 {
        Effect::Fail(s, ExecError::InvalidStackOperation)
    } else {
        Effect::Next(s.drop_last().push(hash_of(op, s.last())))
    }
}

} // verus!
