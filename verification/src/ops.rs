//! The opcodes that work on one stack.

use vstd::prelude::*;

use crate::data_structures::{item_at, Stack};
use crate::effects::{
    below, binary_effect, binary_num, bool_num, bytes_and, equal_effect, hash_effect, hash_size,
    is_binary, is_hash, is_push_num, is_shuffle, is_true, is_unary, join_effect, mul_effect,
    outcome, pick_effect, pushed_num, shuffle_effect, size_effect, unary_effect, unary_num,
    verify_effect, within_effect, Effect, Stop, MAX_SCRIPT_ELEMENT_SIZE,
};
use crate::error::ExecError;
use crate::hashes;
use crate::opcodes::{
    OP_1ADD, OP_1SUB, OP_2DROP, OP_2DUP, OP_2OVER, OP_2ROT, OP_2SWAP, OP_3DUP, OP_ABS, OP_ADD,
    OP_BOOLAND, OP_BOOLOR, OP_CAT, OP_DEPTH, OP_DROP, OP_DUP, OP_EQUAL, OP_EQUALVERIFY,
    OP_GREATERTHAN, OP_GREATERTHANOREQUAL, OP_HASH160, OP_IFDUP, OP_LESSTHAN, OP_LESSTHANOREQUAL,
    OP_MIN, OP_NEGATE, OP_NIP, OP_NOT, OP_NUMEQUAL, OP_NUMEQUALVERIFY, OP_NUMNOTEQUAL, OP_OVER,
    OP_RIPEMD160, OP_ROLL, OP_ROT, OP_SHA1, OP_SHA256, OP_SUB, OP_SWAP,
};
use crate::utils::num_bytes;

verus! {

/// Calls `bitcoin::script::read_scriptbool`. The contract claims that a byte string is false
/// where all its bytes are zero, but that the last may also be 0x80, and true otherwise.
#[verifier::external_body]
pub(crate) fn read_scriptbool(v: &[u8]) -> (r: bool)
    ensures
        r == is_true(v@),
{
    bitcoin::script::read_scriptbool(v)
}

/// Pushes the number of the opcode.
pub fn push_num(stack: &mut Stack, op: u8)
    requires
        is_push_num(op),
    ensures
        final(stack)@ == old(stack)@.push(num_bytes(pushed_num(op))),
{
    let n: u8 = op - 0x4f;
    stack.pushnum((n as i64) - 1);
}

/// Drops, copies and moves items.
#[verifier::rlimit(40)]
pub fn shuffle(stack: &mut Stack, op: u8) -> (r: Result<(), Stop>)
    requires
        is_shuffle(op),
    ensures
        outcome(r, final(stack)@) == shuffle_effect(old(stack)@, op),
{
    let ghost s = stack@;
    let depth: usize = if op == OP_DEPTH {
        0
    } else if op == OP_IFDUP || op == OP_DROP || op == OP_DUP {
        1
    } else if op == OP_3DUP || op == OP_ROT {
        3
    } else if op == OP_2OVER || op == OP_2SWAP {
        4
    } else if op == OP_2ROT {
        6
    } else {
        2
    };
    if let Err(e) = stack.needn(depth) {
        return Err(Stop::Error(e));
    }
    if op == OP_2DROP {
        // (x1 x2 -- )
        stack.popn(2);
        assert(stack@ =~= below(s, 2) + seq![]);
    } else if op == OP_2DUP {
        // (x1 x2 -- x1 x2 x1 x2)
        let x1 = stack.top(-2).unwrap().clone();
        let x2 = stack.top(-1).unwrap().clone();
        stack.push(x1);
        stack.push(x2);
        assert(stack@ =~= below(s, 2) + seq![x1@, x2@, x1@, x2@]);
    } else if op == OP_3DUP {
        // (x1 x2 x3 -- x1 x2 x3 x1 x2 x3)
        let x1 = stack.top(-3).unwrap().clone();
        let x2 = stack.top(-2).unwrap().clone();
        let x3 = stack.top(-1).unwrap().clone();
        stack.push(x1);
        stack.push(x2);
        stack.push(x3);
        assert(stack@ =~= below(s, 3) + seq![x1@, x2@, x3@, x1@, x2@, x3@]);
    } else if op == OP_2OVER {
        // (x1 x2 x3 x4 -- x1 x2 x3 x4 x1 x2)
        let x1 = stack.top(-4).unwrap().clone();
        let x2 = stack.top(-3).unwrap().clone();
        stack.push(x1);
        stack.push(x2);
        assert(stack@ =~= below(s, 4) + seq![
            x1@,
            x2@,
            item_at(s, 2),
            item_at(s, 1),
            x1@,
            x2@,
        ]);
    } else if op == OP_2ROT {
        // (x1 x2 x3 x4 x5 x6 -- x3 x4 x5 x6 x1 x2)
        let x6 = stack.pop().unwrap();
        let x5 = stack.pop().unwrap();
        let x4 = stack.pop().unwrap();
        let x3 = stack.pop().unwrap();
        let x2 = stack.pop().unwrap();
        let x1 = stack.pop().unwrap();
        stack.push(x3);
        stack.push(x4);
        stack.push(x5);
        stack.push(x6);
        stack.push(x1);
        stack.push(x2);
        assert(stack@ =~= below(s, 6) + seq![x3@, x4@, x5@, x6@, x1@, x2@]);
    } else if op == OP_2SWAP {
        // (x1 x2 x3 x4 -- x3 x4 x1 x2)
        let x4 = stack.pop().unwrap();
        let x3 = stack.pop().unwrap();
        let x2 = stack.pop().unwrap();
        let x1 = stack.pop().unwrap();
        stack.push(x3);
        stack.push(x4);
        stack.push(x1);
        stack.push(x2);
        assert(stack@ =~= below(s, 4) + seq![x3@, x4@, x1@, x2@]);
    } else if op == OP_IFDUP {
        // (x - 0 | x x)
        let top = stack.topstr(-1).unwrap();
        if read_scriptbool(top.as_slice()) {
            let entry = stack.top(-1).unwrap().clone();
            stack.push(entry);
            assert(stack@ =~= below(s, 1) + seq![top@, top@]);
        } else {
            assert(stack@ =~= below(s, 1) + seq![top@]);
        }
    } else if op == OP_DEPTH {
        // -- stacksize
        let size = stack.len() as i64;
        stack.pushnum(size);
        assert(stack@ =~= below(s, 0) + seq![num_bytes(s.len() as i64)]);
    } else if op == OP_DROP {
        // (x -- )
        stack.popn(1);
        assert(stack@ =~= below(s, 1) + seq![]);
    } else if op == OP_DUP {
        // (x -- x x)
        let top = stack.top(-1).unwrap().clone();
        stack.push(top);
        assert(stack@ =~= below(s, 1) + seq![top@, top@]);
    } else if op == OP_NIP {
        // (x1 x2 -- x2)
        let x2 = stack.pop().unwrap();
        stack.popn(1);
        stack.push(x2);
        assert(stack@ =~= below(s, 2) + seq![x2@]);
    } else if op == OP_OVER {
        // (x1 x2 -- x1 x2 x1)
        let under_top = stack.top(-2).unwrap().clone();
        stack.push(under_top);
        assert(stack@ =~= below(s, 2) + seq![under_top@, item_at(s, 1), under_top@]);
    } else if op == OP_ROT {
        // (x1 x2 x3 -- x2 x3 x1)
        let x3 = stack.pop().unwrap();
        let x2 = stack.pop().unwrap();
        let x1 = stack.pop().unwrap();
        stack.push(x2);
        stack.push(x3);
        stack.push(x1);
        assert(stack@ =~= below(s, 3) + seq![x2@, x3@, x1@]);
    } else if op == OP_SWAP {
        // (x1 x2 -- x2 x1)
        let x2 = stack.pop().unwrap();
        let x1 = stack.pop().unwrap();
        stack.push(x2);
        stack.push(x1);
        assert(stack@ =~= below(s, 2) + seq![x2@, x1@]);
    } else {
        // OP_TUCK (x1 x2 -- x2 x1 x2)
        let x2 = stack.pop().unwrap();
        let x1 = stack.pop().unwrap();
        let copy = x2.clone();
        stack.push(copy);
        stack.push(x1);
        stack.push(x2);
        assert(stack@ =~= below(s, 2) + seq![x2@, x1@, x2@]);
    }
    Ok(())
}

/// Copies or moves the item that the top item points at.
pub fn pick(stack: &mut Stack, op: u8, minimal: bool) -> (r: Result<(), Stop>)
    requires
        old(stack)@.len() <= isize::MAX,
    ensures
        outcome(r, final(stack)@) == pick_effect(old(stack)@, op),
{
    // (xn ... x2 x1 x0 n - xn ... x2 x1 x0 xn)
    // (xn ... x2 x1 x0 n - ... x2 x1 x0 xn)
    let ghost s = stack@;
    let x = match stack.topnum(-1, minimal) {
        Ok(x) => x,
        Err(e) => {
            return Err(Stop::Error(e));
        },
    };
    let size = stack.len();
    if x < 0 || x >= size as i64 {
        return Err(Stop::Error(ExecError::InvalidStackOperation));
    }
    if x == size as i64 - 1 {
        return Err(Stop::Undefined);
    }
    stack.popn(1);
    assert(stack@ =~= s.drop_last());
    let elem = stack.top(-(x as isize) - 1).unwrap().clone();
    if op == OP_ROLL {
        let at: usize = stack.len() - x as usize - 1;
        stack.remove(at);
    }
    stack.push(elem);
    Ok(())
}

/// Joins the two items on top, or takes their bits in common.
pub fn join(stack: &mut Stack, op: u8) -> (r: Result<(), Stop>)
    ensures
        outcome(r, final(stack)@) == join_effect(old(stack)@, op),
{
    let x1 = match stack.topstr(-2) {
        Ok(x1) => x1,
        Err(e) => {
            return Err(Stop::Error(e));
        },
    };
    let x2 = match stack.topstr(-1) {
        Ok(x2) => x2,
        Err(e) => {
            return Err(Stop::Error(e));
        },
    };
    if op == OP_CAT {
        // (x1 x2 -- x1|x2)
        if x1.len() > MAX_SCRIPT_ELEMENT_SIZE || x2.len() > MAX_SCRIPT_ELEMENT_SIZE - x1.len() {
            return Err(Stop::Error(ExecError::PushSize));
        }
        let mut ret = x1;
        let mut tail = x2;
        let ghost a = x1@;
        ret.append(&mut tail);
        assert(ret@ =~= a + x2@);
        stack.popn(2);
        stack.pushstr(ret.as_slice());
    } else {
        // (x1 x2 -- x1 & x2) bitwise AND on equal-length byte strings
        if x1.len() != x2.len() {
            return Err(Stop::Error(ExecError::InvalidStackOperation));
        }
        let mut ret: Vec<u8> = Vec::new();
        for i in 0..x1.len()
            invariant
                x1.len() == x2.len(),
                ret.len() == i,
                forall|j: int| 0 <= j < i ==> ret[j] == x1[j] & x2[j],
        {
            ret.push(x1[i] & x2[i]);
        }
        assert(ret@ =~= bytes_and(x1@, x2@));
        stack.popn(2);
        stack.pushstr(ret.as_slice());
    }
    Ok(())
}

/// Pushes the length of the top item.
pub fn size(stack: &mut Stack) -> (r: Result<(), Stop>)
    ensures
        outcome(r, final(stack)@) == size_effect(old(stack)@),
{
    // (in -- in size)
    match stack.topstr(-1) {
        Ok(top) => {
            stack.pushnum(top.len() as i64);
            Ok(())
        },
        Err(e) => Err(Stop::Error(e)),
    }
}

/// Compares the two items on top.
pub fn equal(stack: &mut Stack, op: u8) -> (r: Result<(), Stop>)
    requires
        op == OP_EQUAL || op == OP_EQUALVERIFY,
    ensures
        outcome(r, final(stack)@) == equal_effect(old(stack)@, op),
{
    // (x1 x2 - bool)
    let x1 = match stack.topstr(-2) {
        Ok(x1) => x1,
        Err(e) => {
            return Err(Stop::Error(e));
        },
    };
    let x2 = match stack.topstr(-1) {
        Ok(x2) => x2,
        Err(e) => {
            return Err(Stop::Error(e));
        },
    };
    let same = same_bytes(&x1, &x2);
    if op == OP_EQUALVERIFY && !same {
        return Err(Stop::Error(ExecError::EqualVerify));
    }
    stack.popn(2);
    if op == OP_EQUAL {
        let item: i64 = if same {
            1
        } else {
            0
        };
        stack.pushnum(item);
    }
    Ok(())
}

/// Whether two byte strings are the same.
pub fn same_bytes(a: &[u8], b: &[u8]) -> (r: bool)
    ensures
        r == (a@ == b@),
{
    if a.len() != b.len() {
        return false;
    }
    for i in 0..a.len()
        invariant
            a@.len() == b@.len(),
            forall|j: int| 0 <= j < i ==> a@[j] == b@[j],
    {
        if a[i] != b[i] {
            return false;
        }
    }
    assert(a@ =~= b@);
    true
}

/// Drops the top item, which must be true.
pub fn verify(stack: &mut Stack) -> (r: Result<(), Stop>)
    ensures
        outcome(r, final(stack)@) == verify_effect(old(stack)@),
{
    let ghost s = stack@;
    match stack.topstr(-1) {
        Ok(top) => {
            if read_scriptbool(top.as_slice()) {
                stack.popn(1);
                assert(stack@ =~= s.drop_last());
                Ok(())
            } else {
                Err(Stop::Error(ExecError::Verify))
            }
        },
        Err(e) => Err(Stop::Error(e)),
    }
}

/// One for true, zero for false.
fn truth(b: bool) -> (r: i64)
    ensures
        r == bool_num(b),
{
    if b {
        1
    } else {
        0
    }
}

/// What an operation on numbers came to that returned `r`.
spec fn num_outcome(r: Result<i64, Stop>) -> Effect<i64> {
    match r {
        Ok(v) => Effect::Next(v),
        Err(Stop::Error(e)) => Effect::Fail(0, e),
        Err(Stop::Undefined) => Effect::Undefined,
    }
}

fn fitted(v: Option<i64>) -> (r: Result<i64, Stop>)
    ensures
        r == match v {
            Some(v) => Ok::<i64, Stop>(v),
            None => Err::<i64, Stop>(Stop::Error(ExecError::ScriptIntNumericOverflow)),
        },
{
    match v {
        Some(v) => Ok(v),
        None => Err(Stop::Error(ExecError::ScriptIntNumericOverflow)),
    }
}

fn fitted_difference(v: Option<i64>, nonnegative: bool) -> (r: Result<i64, Stop>)
    ensures
        r == match v {
            Some(v) => if nonnegative && v < 0 {
                Err::<i64, Stop>(Stop::Error(ExecError::ScriptIntNumericOverflow))
            } else {
                Ok::<i64, Stop>(v)
            },
            None => Err::<i64, Stop>(Stop::Error(ExecError::ScriptIntNumericOverflow)),
        },
{
    match v {
        Some(v) => if nonnegative && v < 0 {
            Err(Stop::Error(ExecError::ScriptIntNumericOverflow))
        } else {
            Ok(v)
        },
        None => Err(Stop::Error(ExecError::ScriptIntNumericOverflow)),
    }
}

/// What an opcode makes of a number.
fn compute_unary(op: u8, x: i64, nonnegative: bool) -> (r: Result<i64, Stop>)
    requires
        is_unary(op),
    ensures
        num_outcome(r) == unary_num(op, x, nonnegative),
{
    if op == OP_1ADD {
        fitted(x.checked_add(1))
    } else if op == OP_1SUB {
        fitted_difference(x.checked_sub(1), nonnegative)
    } else if op == OP_NEGATE {
        if x == i64::MIN {
            fitted(None)
        } else {
            Ok(-x)
        }
    } else if op == OP_ABS {
        if x == i64::MIN {
            Err(Stop::Undefined)
        } else if x < 0 {
            Ok(-x)
        } else {
            Ok(x)
        }
    } else if op == OP_NOT {
        Ok(truth(x == 0))
    } else {
        // OP_0NOTEQUAL
        Ok(truth(x != 0))
    }
}

/// What an opcode makes of two numbers.
fn compute_binary(op: u8, x1: i64, x2: i64, nonnegative: bool) -> (r: Result<i64, Stop>)
    requires
        is_binary(op),
    ensures
        num_outcome(r) == binary_num(op, x1, x2, nonnegative),
{
    if op == OP_ADD {
        fitted(x1.checked_add(x2))
    } else if op == OP_SUB {
        fitted_difference(x1.checked_sub(x2), nonnegative)
    } else if op == OP_BOOLAND {
        Ok(truth(x1 != 0 && x2 != 0))
    } else if op == OP_BOOLOR {
        Ok(truth(x1 != 0 || x2 != 0))
    } else if op == OP_NUMEQUAL || op == OP_NUMEQUALVERIFY {
        Ok(truth(x1 == x2))
    } else if op == OP_NUMNOTEQUAL {
        Ok(truth(x1 != x2))
    } else if op == OP_LESSTHAN {
        Ok(truth(x1 < x2))
    } else if op == OP_GREATERTHAN {
        Ok(truth(x1 > x2))
    } else if op == OP_LESSTHANOREQUAL {
        Ok(truth(x1 <= x2))
    } else if op == OP_GREATERTHANOREQUAL {
        Ok(truth(x1 >= x2))
    } else if op == OP_MIN {
        Ok(
            if x1 <= x2 {
                x1
            } else {
                x2
            },
        )
    } else {
        // OP_MAX
        Ok(
            if x1 <= x2 {
                x2
            } else {
                x1
            },
        )
    }
}

/// Applies an opcode on one number.
pub fn unary(stack: &mut Stack, op: u8, minimal: bool, nonnegative: bool) -> (r: Result<(), Stop>)
    requires
        is_unary(op),
    ensures
        outcome(r, final(stack)@) == unary_effect(old(stack)@, op, nonnegative),
{
    // (in -- out)
    let x = match stack.topnum(-1, minimal) {
        Ok(x) => x,
        Err(e) => {
            return Err(Stop::Error(e));
        },
    };
    match compute_unary(op, x, nonnegative) {
        Ok(res) => {
            stack.popn(1);
            stack.pushnum(res);
            Ok(())
        },
        Err(stop) => Err(stop),
    }
}

/// Applies an opcode on two numbers.
pub fn binary(stack: &mut Stack, op: u8, minimal: bool, nonnegative: bool) -> (r: Result<(), Stop>)
    requires
        is_binary(op),
    ensures
        outcome(r, final(stack)@) == binary_effect(old(stack)@, op, nonnegative),
{
    // (x1 x2 -- out)
    let x1 = match stack.topnum(-2, minimal) {
        Ok(x) => x,
        Err(e) => {
            return Err(Stop::Error(e));
        },
    };
    let x2 = match stack.topnum(-1, minimal) {
        Ok(x) => x,
        Err(e) => {
            return Err(Stop::Error(e));
        },
    };
    let res = match compute_binary(op, x1, x2, nonnegative) {
        Ok(res) => res,
        Err(stop) => {
            return Err(stop);
        },
    };
    if op == OP_NUMEQUALVERIFY && res == 0 {
        return Err(Stop::Error(ExecError::NumEqualVerify));
    }
    stack.popn(2);
    if op != OP_NUMEQUALVERIFY {
        stack.pushnum(res);
    }
    Ok(())
}

/// Multiplies two numbers.
pub fn multiply(stack: &mut Stack, minimal: bool) -> (r: Result<(), Stop>)
    ensures
        outcome(r, final(stack)@) == mul_effect(old(stack)@),
{
    // (x1 x2 -- out)
    let x1 = match stack.topnum(-2, minimal) {
        Ok(x) => x,
        Err(e) => {
            return Err(Stop::Error(e));
        },
    };
    let x2 = match stack.topnum(-1, minimal) {
        Ok(x) => x,
        Err(e) => {
            return Err(Stop::Error(e));
        },
    };
    match x1.checked_mul(x2) {
        Some(res) => {
            stack.popn(2);
            stack.pushnum(res);
            Ok(())
        },
        None => Err(Stop::Undefined),
    }
}

/// Says whether a number lies within two others.
pub fn within(stack: &mut Stack, minimal: bool) -> (r: Result<(), Stop>)
    ensures
        outcome(r, final(stack)@) == within_effect(old(stack)@),
{
    // (x min max -- out)
    let x1 = match stack.topnum(-3, minimal) {
        Ok(x) => x,
        Err(e) => {
            return Err(Stop::Error(e));
        },
    };
    let x2 = match stack.topnum(-2, minimal) {
        Ok(x) => x,
        Err(e) => {
            return Err(Stop::Error(e));
        },
    };
    let x3 = match stack.topnum(-1, minimal) {
        Ok(x) => x,
        Err(e) => {
            return Err(Stop::Error(e));
        },
    };
    stack.popn(3);
    stack.pushnum(truth(x2 <= x1 && x1 < x3));
    Ok(())
}

/// Hashes the top item.
pub fn hash(stack: &mut Stack, op: u8) -> (r: Result<(), Stop>)
    requires
        is_hash(op),
    ensures
        outcome(r, final(stack)@) == hash_effect(old(stack)@, op),
        r is Ok ==> final(stack)@.last().len() == hash_size(op),
{
    // (in -- hash)
    let top = match stack.popstr() {
        Ok(top) => top,
        Err(e) => {
            return Err(Stop::Error(e));
        },
    };
    if op == OP_RIPEMD160 {
        stack.pushstr(&hashes::ripemd160(top.as_slice()));
    } else if op == OP_SHA1 {
        stack.pushstr(&hashes::sha1(top.as_slice()));
    } else if op == OP_SHA256 {
        stack.pushstr(&hashes::sha256(top.as_slice()));
    } else if op == OP_HASH160 {
        stack.pushstr(&hashes::hash160(top.as_slice()));
    } else {
        // OP_HASH256
        stack.pushstr(&hashes::hash256(top.as_slice()));
    }
    Ok(())
}

} // verus!
