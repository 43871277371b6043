//! What the opcodes that move, join, compare and hash items leave.

use vstd::prelude::*;

use crate::effects::{below, bytes_and, is_true, Effect, Items};
use crate::error::ExecError;
use crate::hashes::{ripemd160_of, sha1_of, sha256_of};
use crate::laws::arithmetic::stands_for;
use crate::laws::{holding, refuses, turns};
use crate::machine::{opcode_action, Machine};
use crate::opcodes::{
    OP_2DROP, OP_2DUP, OP_2OVER, OP_2ROT, OP_2SWAP, OP_3DUP, OP_AND, OP_CAT, OP_CHECKSIG,
    OP_CHECKSIGADD, OP_CHECKSIGVERIFY, OP_CLTV, OP_CODESEPARATOR, OP_CSV, OP_DEPTH, OP_DROP,
    OP_DUP, OP_EQUAL, OP_EQUALVERIFY, OP_FROMALTSTACK, OP_HASH160, OP_HASH256, OP_IFDUP, OP_NIP,
    OP_NOP, OP_NOP1, OP_NOP10, OP_NOP4, OP_OVER, OP_PICK, OP_RETURN, OP_RIPEMD160, OP_ROLL, OP_ROT,
    OP_SHA1, OP_SHA256, OP_SIZE, OP_SWAP, OP_TOALTSTACK, OP_TUCK, OP_VERIFY,
};
use crate::options::ExecCtx;
use crate::utils::num_bytes;

verus! {

/// Every opcode that moves items works on the items on top and leaves those below in place.
#[verifier::rlimit(60)]
pub proof fn lemma_moves(
    m: Machine,
    s: Items,
    a: Seq<u8>,
    b: Seq<u8>,
    c: Seq<u8>,
    d: Seq<u8>,
    e: Seq<u8>,
    f: Seq<u8>,
)
    ensures
        turns(m, OP_DROP, s + seq![a], s),
        turns(m, OP_DUP, s + seq![a], s + seq![a, a]),
        turns(m, OP_2DROP, s + seq![a, b], s),
        turns(m, OP_2DUP, s + seq![a, b], s + seq![a, b, a, b]),
        turns(m, OP_NIP, s + seq![a, b], s + seq![b]),
        turns(m, OP_OVER, s + seq![a, b], s + seq![a, b, a]),
        turns(m, OP_SWAP, s + seq![a, b], s + seq![b, a]),
        turns(m, OP_TUCK, s + seq![a, b], s + seq![b, a, b]),
        turns(m, OP_3DUP, s + seq![a, b, c], s + seq![a, b, c, a, b, c]),
        turns(m, OP_ROT, s + seq![a, b, c], s + seq![b, c, a]),
        turns(m, OP_2OVER, s + seq![a, b, c, d], s + seq![a, b, c, d, a, b]),
        turns(m, OP_2SWAP, s + seq![a, b, c, d], s + seq![c, d, a, b]),
        turns(m, OP_2ROT, s + seq![a, b, c, d, e, f], s + seq![c, d, e, f, a, b]),
        is_true(a) ==> turns(m, OP_IFDUP, s + seq![a], s + seq![a, a]),
        !is_true(a) ==> turns(m, OP_IFDUP, s + seq![a], s + seq![a]),
{
    let one = s + seq![a];
    let two = s + seq![a, b];
    let three = s + seq![a, b, c];
    let four = s + seq![a, b, c, d];
    let six = s + seq![a, b, c, d, e, f];
    assert(below(one, 1) =~= s && s + seq![] =~= s);
    assert(below(two, 2) =~= s);
    assert(below(three, 3) =~= s);
    assert(below(four, 4) =~= s);
    assert(below(six, 6) =~= s);
}

/// OP_DEPTH leaves the number of items that there were.
pub proof fn lemma_depth(m: Machine)
    ensures
        turns(m, OP_DEPTH, m.stack, m.stack.push(num_bytes(m.stack.len() as i64))),
{
    assert(below(m.stack, 0) =~= m.stack);
    assert(m.stack + seq![num_bytes(m.stack.len() as i64)] =~= m.stack.push(
        num_bytes(m.stack.len() as i64),
    ));
}

/// The number of items that an opcode on the stack works on.
pub open spec fn needed_items(op: u8) -> nat {
    if op == OP_2DROP || op == OP_2DUP || op == OP_NIP || op == OP_OVER || op == OP_SWAP || op
        == OP_TUCK || op == OP_CAT || op == OP_AND || op == OP_EQUAL || op == OP_EQUALVERIFY || op
        == OP_CHECKSIG || op == OP_CHECKSIGVERIFY {
        2
    } else if op == OP_3DUP || op == OP_ROT {
        3
    } else if op == OP_2OVER || op == OP_2SWAP {
        4
    } else if op == OP_2ROT {
        6
    } else if op == OP_DROP || op == OP_DUP || op == OP_IFDUP || op == OP_SIZE || op == OP_VERIFY
        || op == OP_PICK || op == OP_ROLL || op == OP_TOALTSTACK || op == OP_RIPEMD160 || op
        == OP_SHA1 || op == OP_SHA256 || op == OP_HASH160 || op == OP_HASH256 {
        1
    } else {
        0
    }
}

/// With fewer items than they work on, they refuse, and so does OP_FROMALTSTACK with none on the
/// other stack.
#[verifier::rlimit(40)]
pub proof fn lemma_missing_items(m: Machine, op: u8)
    ensures
        m.stack.len() < needed_items(op) ==> refuses(
            m,
            op,
            m.stack,
            ExecError::InvalidStackOperation,
        ),
        m.altstack.len() == 0 ==> refuses(
            m,
            OP_FROMALTSTACK,
            m.stack,
            ExecError::InvalidStackOperation,
        ),
{
    assert(holding(m, m.stack) == m);
}

/// OP_PICK copies, and OP_ROLL moves to the top, the item that lies `n` places below the one that
/// lies under the number; the other items keep their order. A number that is negative or leads
/// more than one place past the bottom item is refused, and so is an item that is no number. There
/// is no outcome where it leads one place past the bottom item.
pub proof fn lemma_picking(m: Machine, s: Items, x: Seq<u8>, n: i64)
    ensures
        stands_for(x, n) && 0 <= n < s.len() ==> {
            let chosen = s[s.len() - 1 - n];
            &&& turns(m, OP_PICK, s.push(x), s.push(chosen))
            &&& turns(
                m,
                OP_ROLL,
                s.push(x),
                s.subrange(0, s.len() - 1 - n) + s.subrange(s.len() - n, s.len() as int) + seq![
                    chosen,
                ],
            )
        },
        stands_for(x, n) && n == s.len() ==> {
            &&& opcode_action(holding(m, s.push(x)), OP_PICK) is Undefined
            &&& opcode_action(holding(m, s.push(x)), OP_ROLL) is Undefined
        },
        stands_for(x, n) && (n < 0 || n > s.len()) ==> {
            &&& refuses(m, OP_PICK, s.push(x), ExecError::InvalidStackOperation)
            &&& refuses(m, OP_ROLL, s.push(x), ExecError::InvalidStackOperation)
        },
        x.len() > 8 ==> {
            &&& refuses(m, OP_PICK, s.push(x), ExecError::ScriptIntNumericOverflow)
            &&& refuses(m, OP_ROLL, s.push(x), ExecError::ScriptIntNumericOverflow)
        },
{
    assert(s.push(x).drop_last() =~= s);
    if 0 <= n < s.len() {
        let at = s.len() - 1 - n;
        assert(s.remove(at).push(s[at]) =~= s.subrange(0, at) + s.subrange(
            at + 1,
            s.len() as int,
        ) + seq![s[at]]);
    }
}

/// OP_CAT puts the upper of two items behind the lower one where both together have at most 520
/// bytes; OP_AND takes the bits that both of one length have. They refuse others.
pub proof fn lemma_joining(m: Machine, s: Items, a: Seq<u8>, b: Seq<u8>, both: Seq<u8>)
    ensures
        a.len() + b.len() <= 520 ==> turns(m, OP_CAT, s.push(a).push(b), s.push(a + b)),
        a.len() + b.len() > 520 ==> refuses(m, OP_CAT, s.push(a).push(b), ExecError::PushSize),
        a.len() == b.len() == both.len() && (forall|i: int|
            0 <= i < a.len() ==> both[i] == a[i] & b[i]) ==> turns(
            m,
            OP_AND,
            s.push(a).push(b),
            s.push(both),
        ),
        a.len() != b.len() ==> refuses(
            m,
            OP_AND,
            s.push(a).push(b),
            ExecError::InvalidStackOperation,
        ),
{
    let two = s.push(a).push(b);
    assert(below(two, 2) =~= s);
    if a.len() == b.len() == both.len() && (forall|i: int|
        0 <= i < a.len() ==> both[i] == a[i] & b[i]) {
        assert(bytes_and(a, b) =~= both);
    }
}

/// OP_SIZE leaves the item and the number of its bytes.
pub proof fn lemma_size(m: Machine, s: Items, a: Seq<u8>)
    ensures
        turns(m, OP_SIZE, s.push(a), s.push(a).push(num_bytes(a.len() as i64))),
{
}

/// OP_EQUAL leaves one for two items of the same bytes and zero for others; OP_EQUALVERIFY drops
/// the same and refuses others. OP_VERIFY drops what counts as true and refuses the rest.
pub proof fn lemma_equality(m: Machine, s: Items, a: Seq<u8>, b: Seq<u8>)
    ensures
        turns(m, OP_EQUAL, s.push(a).push(a), s.push(num_bytes(1))),
        a != b ==> turns(m, OP_EQUAL, s.push(a).push(b), s.push(num_bytes(0))),
        turns(m, OP_EQUALVERIFY, s.push(a).push(a), s),
        a != b ==> refuses(m, OP_EQUALVERIFY, s.push(a).push(b), ExecError::EqualVerify),
        is_true(a) ==> turns(m, OP_VERIFY, s.push(a), s),
        !is_true(a) ==> refuses(m, OP_VERIFY, s.push(a), ExecError::Verify),
{
    assert(below(s.push(a).push(b), 2) =~= s);
    assert(below(s.push(a).push(a), 2) =~= s);
    assert(s.push(a).drop_last() =~= s);
}

/// The hashing opcodes put the hash of the top item in its place.
pub proof fn lemma_hashing(m: Machine, s: Items, a: Seq<u8>)
    ensures
        turns(m, OP_RIPEMD160, s.push(a), s.push(ripemd160_of(a))),
        turns(m, OP_SHA1, s.push(a), s.push(sha1_of(a))),
        turns(m, OP_SHA256, s.push(a), s.push(sha256_of(a))),
        turns(m, OP_HASH160, s.push(a), s.push(ripemd160_of(sha256_of(a)))),
        turns(m, OP_HASH256, s.push(a), s.push(sha256_of(sha256_of(a)))),
{
    assert(s.push(a).drop_last() =~= s);
}

/// OP_TOALTSTACK moves the top item on top of the other stack, OP_FROMALTSTACK moves the top item
/// of the other stack on top of this one.
pub proof fn lemma_alternate_stack(m: Machine, s: Items, t: Items, a: Seq<u8>)
    ensures
        opcode_action(Machine { stack: s.push(a), altstack: t, ..m }, OP_TOALTSTACK)
            == Effect::Next(Machine { stack: s, altstack: t.push(a), ..m }),
        opcode_action(Machine { stack: s, altstack: t.push(a), ..m }, OP_FROMALTSTACK)
            == Effect::Next(Machine { stack: s.push(a), altstack: t, ..m }),
{
    assert(s.push(a).drop_last() =~= s);
    assert(t.push(a).drop_last() =~= t);
}

/// The opcodes that do nothing do nothing, OP_RETURN fails, OP_CODESEPARATOR makes the script code
/// start where it stands itself, and opcodes that mean nothing are bad.
pub proof fn lemma_plain_opcodes(m: Machine, op: u8)
    ensures
        op == OP_NOP || op == OP_NOP1 || OP_NOP4 <= op <= OP_NOP10 ==> opcode_action(m, op)
            == Effect::Next(m),
        opcode_action(m, OP_RETURN) == Effect::Fail(m, ExecError::OpReturn),
        opcode_action(m, OP_CODESEPARATOR) == Effect::Next(
            Machine { code_separator: Some(m.current as u32), code_start: m.current, ..m },
        ),
        op == 0x50 || op == 0x62 || op == 0x65 || op == 0x66 || op == 0x89 || op == 0x8a || op
            > OP_CHECKSIGADD ==> opcode_action(m, op) == Effect::Fail(m, ExecError::BadOpcode),
        m.ctx != ExecCtx::Tapscript ==> opcode_action(m, OP_CHECKSIGADD) == Effect::Fail(
            m,
            ExecError::BadOpcode,
        ),
        opcode_action(m, 0xae) is Undefined && opcode_action(m, 0xaf) is Undefined,
        !m.opt.verify_cltv ==> opcode_action(m, OP_CLTV) == Effect::Next(m),
        !m.opt.verify_csv ==> opcode_action(m, OP_CSV) == Effect::Next(m),
{
}

} // verus!
