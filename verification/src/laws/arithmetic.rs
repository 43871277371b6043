//! What the numeric opcodes leave, in terms of the numbers that they work on.

use vstd::prelude::*;

use crate::effects::{below, Items};
use crate::error::ExecError;
use crate::laws::{holding, refuses, turns};
use crate::machine::{opcode_action, Machine};
use crate::opcodes::{
    OP_0NOTEQUAL, OP_1ADD, OP_1SUB, OP_ABS, OP_ADD, OP_BOOLAND, OP_BOOLOR, OP_GREATERTHAN,
    OP_GREATERTHANOREQUAL, OP_LESSTHAN, OP_LESSTHANOREQUAL, OP_MAX, OP_MIN, OP_MUL, OP_NEGATE,
    OP_NOT, OP_NUMEQUAL, OP_NUMEQUALVERIFY, OP_NUMNOTEQUAL, OP_SUB, OP_WITHIN,
};
use crate::utils::{decode_num, lemma_num_roundtrip, num_bytes};

verus! {

/// Whether an item stands for a number.
pub open spec fn stands_for(x: Seq<u8>, n: i64) -> bool {
    x.len() <= 8 && decode_num(x, 8) == Some(n)
}

/// Whether a number has 64 bits.
pub open spec fn has_64_bits(v: int) -> bool {
    -0x8000_0000_0000_0000 <= v <= 0x7fff_ffff_ffff_ffff
}

/// Whether an opcode leaves one for the numbers `a` and `b`, on every machine, above every stack
/// and however they are written.
pub open spec fn says_one(m: Machine, op: u8, s: Items, a: i64, b: i64) -> bool {
    turns(m, op, s.push(num_bytes(a)).push(num_bytes(b)), s.push(num_bytes(1)))
}

/// Whether an opcode leaves zero for the numbers `a` and `b`.
pub open spec fn says_zero(m: Machine, op: u8, s: Items, a: i64, b: i64) -> bool {
    turns(m, op, s.push(num_bytes(a)).push(num_bytes(b)), s.push(num_bytes(0)))
}

proof fn lemma_two_on_top(s: Items, x: Seq<u8>, y: Seq<u8>)
    ensures
        below(s.push(x).push(y), 2) == s,
        s.push(x).push(y).len() == s.len() + 2,
        s.push(x).push(y)[s.len() as int] == x,
        s.push(x).push(y)[s.len() as int + 1] == y,
{
    assert(below(s.push(x).push(y), 2) =~= s);
}

proof fn lemma_one_on_top(s: Items, x: Seq<u8>)
    ensures
        below(s.push(x), 1) == s,
        s.push(x).len() == s.len() + 1,
        s.push(x)[s.len() as int] == x,
{
    assert(below(s.push(x), 1) =~= s);
}

/// The comparisons leave one where the lower item compares to the upper one in their way, and
/// zero elsewhere.
pub proof fn lemma_comparisons(m: Machine, s: Items, x: Seq<u8>, y: Seq<u8>, a: i64, b: i64)
    requires
        stands_for(x, a),
        stands_for(y, b),
    ensures
        ({
            let both = s.push(x).push(y);
            let one = s.push(num_bytes(1));
            let zero = s.push(num_bytes(0));
            &&& a < b ==> {
                &&& turns(m, OP_LESSTHAN, both, one)
                &&& turns(m, OP_LESSTHANOREQUAL, both, one)
                &&& turns(m, OP_GREATERTHAN, both, zero)
                &&& turns(m, OP_GREATERTHANOREQUAL, both, zero)
                &&& turns(m, OP_NUMEQUAL, both, zero)
                &&& turns(m, OP_NUMNOTEQUAL, both, one)
            }
            &&& a == b ==> {
                &&& turns(m, OP_LESSTHAN, both, zero)
                &&& turns(m, OP_LESSTHANOREQUAL, both, one)
                &&& turns(m, OP_GREATERTHAN, both, zero)
                &&& turns(m, OP_GREATERTHANOREQUAL, both, one)
                &&& turns(m, OP_NUMEQUAL, both, one)
                &&& turns(m, OP_NUMNOTEQUAL, both, zero)
            }
            &&& a > b ==> {
                &&& turns(m, OP_LESSTHAN, both, zero)
                &&& turns(m, OP_LESSTHANOREQUAL, both, zero)
                &&& turns(m, OP_GREATERTHAN, both, one)
                &&& turns(m, OP_GREATERTHANOREQUAL, both, one)
                &&& turns(m, OP_NUMEQUAL, both, zero)
                &&& turns(m, OP_NUMNOTEQUAL, both, one)
            }
        }),
{
    lemma_two_on_top(s, x, y);
}

/// Of two numbers exactly one is less, or they are equal: just one of OP_LESSTHAN, OP_NUMEQUAL and
/// OP_LESSTHAN the other way round leaves one. OP_GREATERTHAN is OP_LESSTHAN the other way round,
/// OP_LESSTHANOREQUAL and OP_GREATERTHAN leave opposite answers, and so do OP_GREATERTHANOREQUAL
/// and OP_LESSTHAN, and OP_NUMNOTEQUAL and OP_NUMEQUAL.
pub proof fn lemma_trichotomy(m: Machine, s: Items, a: i64, b: i64)
    ensures
        ({
            let less = says_one(m, OP_LESSTHAN, s, a, b);
            let equal = says_one(m, OP_NUMEQUAL, s, a, b);
            let more = says_one(m, OP_LESSTHAN, s, b, a);
            &&& less || equal || more
            &&& !(less && equal) && !(less && more) && !(equal && more)
            &&& equal <==> a == b
            &&& says_one(m, OP_GREATERTHAN, s, a, b) == more
            &&& says_zero(m, OP_GREATERTHAN, s, a, b) == !more
            &&& says_one(m, OP_LESSTHANOREQUAL, s, a, b) == says_zero(m, OP_GREATERTHAN, s, a, b)
            &&& says_one(m, OP_GREATERTHANOREQUAL, s, a, b) == says_zero(m, OP_LESSTHAN, s, a, b)
            &&& says_one(m, OP_NUMNOTEQUAL, s, a, b) == says_zero(m, OP_NUMEQUAL, s, a, b)
        }),
{
    lemma_num_roundtrip(a);
    lemma_num_roundtrip(b);
    lemma_num_roundtrip(0);
    lemma_num_roundtrip(1);
    lemma_comparisons(m, s, num_bytes(a), num_bytes(b), a, b);
    lemma_comparisons(m, s, num_bytes(b), num_bytes(a), b, a);
    assert(s.push(num_bytes(1)).last() != s.push(num_bytes(0)).last());
}

/// OP_LESSTHAN is transitive, and says of numbers what it says of their order.
pub proof fn lemma_less_than_orders(m: Machine, s: Items, a: i64, b: i64, c: i64)
    ensures
        says_one(m, OP_LESSTHAN, s, a, b) && says_one(m, OP_LESSTHAN, s, b, c) ==> says_one(
            m,
            OP_LESSTHAN,
            s,
            a,
            c,
        ),
        says_one(m, OP_LESSTHAN, s, a, b) ==> a < b,
{
    lemma_num_roundtrip(a);
    lemma_num_roundtrip(b);
    lemma_num_roundtrip(c);
    lemma_num_roundtrip(0);
    lemma_num_roundtrip(1);
    lemma_comparisons(m, s, num_bytes(a), num_bytes(b), a, b);
    lemma_comparisons(m, s, num_bytes(b), num_bytes(c), b, c);
    lemma_comparisons(m, s, num_bytes(a), num_bytes(c), a, c);
    assert(s.push(num_bytes(1)).last() != s.push(num_bytes(0)).last());
}

/// OP_MIN leaves one of the two numbers and none that is higher, OP_MAX leaves the other one.
pub proof fn lemma_min_and_max(m: Machine, s: Items, x: Seq<u8>, y: Seq<u8>, a: i64, b: i64)
    requires
        stands_for(x, a),
        stands_for(y, b),
    ensures
        exists|low: i64, high: i64|
            {
                &&& #[trigger] turns(m, OP_MIN, s.push(x).push(y), s.push(num_bytes(low)))
                &&& #[trigger] turns(m, OP_MAX, s.push(x).push(y), s.push(num_bytes(high)))
                &&& low <= high
                &&& (low == a && high == b) || (low == b && high == a)
            },
{
    lemma_two_on_top(s, x, y);
    let (low, high) = if a <= b {
        (a, b)
    } else {
        (b, a)
    };
    assert(turns(m, OP_MIN, s.push(x).push(y), s.push(num_bytes(low))));
    assert(turns(m, OP_MAX, s.push(x).push(y), s.push(num_bytes(high))));
}

/// OP_BOOLAND and OP_BOOLOR take a number that is not zero for true.
pub proof fn lemma_boolean_opcodes(m: Machine, s: Items, x: Seq<u8>, y: Seq<u8>, a: i64, b: i64)
    requires
        stands_for(x, a),
        stands_for(y, b),
    ensures
        ({
            let both = s.push(x).push(y);
            let one = s.push(num_bytes(1));
            let zero = s.push(num_bytes(0));
            &&& a == 0 || b == 0 ==> turns(m, OP_BOOLAND, both, zero)
            &&& a != 0 && b != 0 ==> turns(m, OP_BOOLAND, both, one)
            &&& a != 0 || b != 0 ==> turns(m, OP_BOOLOR, both, one)
            &&& a == 0 && b == 0 ==> turns(m, OP_BOOLOR, both, zero)
        }),
{
    lemma_two_on_top(s, x, y);
}

/// OP_NUMEQUALVERIFY drops two equal numbers and refuses others.
pub proof fn lemma_numequalverify(m: Machine, s: Items, x: Seq<u8>, y: Seq<u8>, a: i64, b: i64)
    requires
        stands_for(x, a),
        stands_for(y, b),
    ensures
        a == b ==> turns(m, OP_NUMEQUALVERIFY, s.push(x).push(y), s),
        a != b ==> refuses(m, OP_NUMEQUALVERIFY, s.push(x).push(y), ExecError::NumEqualVerify),
{
    lemma_two_on_top(s, x, y);
}

/// OP_ADD leaves the sum where it has 64 bits, and refuses the numbers elsewhere.
pub proof fn lemma_add(m: Machine, s: Items, x: Seq<u8>, y: Seq<u8>, a: i64, b: i64)
    requires
        stands_for(x, a),
        stands_for(y, b),
    ensures
        has_64_bits(a + b) ==> turns(
            m,
            OP_ADD,
            s.push(x).push(y),
            s.push(num_bytes((a + b) as i64)),
        ),
        !has_64_bits(a + b) ==> refuses(
            m,
            OP_ADD,
            s.push(x).push(y),
            ExecError::ScriptIntNumericOverflow,
        ),
{
    lemma_two_on_top(s, x, y);
}

/// OP_SUB leaves the lower number less the upper one where the difference has 64 bits and, where
/// that is asked for, is not negative, and refuses the numbers elsewhere.
pub proof fn lemma_sub(m: Machine, s: Items, x: Seq<u8>, y: Seq<u8>, a: i64, b: i64)
    requires
        stands_for(x, a),
        stands_for(y, b),
    ensures
        ({
            let allowed = has_64_bits(a - b) && (m.opt.enforce_sub_nonnegative ==> b <= a);
            &&& allowed ==> turns(
                m,
                OP_SUB,
                s.push(x).push(y),
                s.push(num_bytes((a - b) as i64)),
            )
            &&& !allowed ==> refuses(
                m,
                OP_SUB,
                s.push(x).push(y),
                ExecError::ScriptIntNumericOverflow,
            )
        }),
{
    lemma_two_on_top(s, x, y);
}

/// OP_SUB undoes OP_ADD, and the order of the two numbers of a sum does not matter.
pub proof fn lemma_sub_undoes_add(m: Machine, s: Items, a: i64, b: i64, c: i64)
    requires
        turns(m, OP_ADD, s.push(num_bytes(a)).push(num_bytes(b)), s.push(num_bytes(c))),
        !m.opt.enforce_sub_nonnegative || a >= 0,
    ensures
        turns(m, OP_SUB, s.push(num_bytes(c)).push(num_bytes(b)), s.push(num_bytes(a))),
        turns(m, OP_ADD, s.push(num_bytes(b)).push(num_bytes(a)), s.push(num_bytes(c))),
        c == a + b,
{
    lemma_num_roundtrip(a);
    lemma_num_roundtrip(b);
    lemma_num_roundtrip(c);
    lemma_add(m, s, num_bytes(a), num_bytes(b), a, b);
    if has_64_bits(a + b) {
        let sum = (a + b) as i64;
        lemma_num_roundtrip(sum);
        assert(s.push(num_bytes(c)).last() == s.push(num_bytes(sum)).last());
        assert(c == sum);
    }
    lemma_add(m, s, num_bytes(b), num_bytes(a), b, a);
    lemma_sub(m, s, num_bytes(c), num_bytes(b), c, b);
}

/// OP_MUL leaves the product where it has 64 bits, and has no outcome elsewhere.
pub proof fn lemma_mul(m: Machine, s: Items, x: Seq<u8>, y: Seq<u8>, a: i64, b: i64)
    requires
        stands_for(x, a),
        stands_for(y, b),
    ensures
        has_64_bits(a * b) ==> turns(
            m,
            OP_MUL,
            s.push(x).push(y),
            s.push(num_bytes((a * b) as i64)),
        ),
        !has_64_bits(a * b) ==> opcode_action(holding(m, s.push(x).push(y)), OP_MUL)
            is Undefined,
{
    lemma_two_on_top(s, x, y);
}

/// The opcodes on one number: one more, one less, the other sign, no sign, and whether it is zero.
pub proof fn lemma_one_number(m: Machine, s: Items, x: Seq<u8>, a: i64)
    requires
        stands_for(x, a),
    ensures
        ({
            let one = s.push(num_bytes(1));
            let zero = s.push(num_bytes(0));
            let overflow = ExecError::ScriptIntNumericOverflow;
            &&& has_64_bits(a + 1) ==> turns(
                m,
                OP_1ADD,
                s.push(x),
                s.push(num_bytes((a + 1) as i64)),
            )
            &&& !has_64_bits(a + 1) ==> refuses(m, OP_1ADD, s.push(x), overflow)
            &&& has_64_bits(a - 1) && (m.opt.enforce_sub_nonnegative ==> a >= 1) ==> turns(
                m,
                OP_1SUB,
                s.push(x),
                s.push(num_bytes((a - 1) as i64)),
            )
            &&& !has_64_bits(a - 1) || (m.opt.enforce_sub_nonnegative && a < 1) ==> refuses(
                m,
                OP_1SUB,
                s.push(x),
                overflow,
            )
            &&& has_64_bits(-a) ==> turns(m, OP_NEGATE, s.push(x), s.push(num_bytes((-a) as i64)))
            &&& !has_64_bits(-a) ==> refuses(m, OP_NEGATE, s.push(x), overflow)
            &&& a >= 0 ==> turns(m, OP_ABS, s.push(x), s.push(num_bytes(a)))
            &&& a < 0 && has_64_bits(-a) ==> turns(
                m,
                OP_ABS,
                s.push(x),
                s.push(num_bytes((-a) as i64)),
            )
            &&& !has_64_bits(-a) ==> opcode_action(holding(m, s.push(x)), OP_ABS) is Undefined
            &&& a == 0 ==> turns(m, OP_NOT, s.push(x), one) && turns(
                m,
                OP_0NOTEQUAL,
                s.push(x),
                zero,
            )
            &&& a != 0 ==> turns(m, OP_NOT, s.push(x), zero) && turns(
                m,
                OP_0NOTEQUAL,
                s.push(x),
                one,
            )
        }),
{
    lemma_one_on_top(s, x);
}

/// OP_WITHIN leaves one where the lowest of three items is at least the second and below the
/// third, and zero elsewhere.
pub proof fn lemma_within(
    m: Machine,
    s: Items,
    x: Seq<u8>,
    y: Seq<u8>,
    z: Seq<u8>,
    a: i64,
    low: i64,
    high: i64,
)
    requires
        stands_for(x, a),
        stands_for(y, low),
        stands_for(z, high),
    ensures
        low <= a < high ==> turns(
            m,
            OP_WITHIN,
            s.push(x).push(y).push(z),
            s.push(num_bytes(1)),
        ),
        !(low <= a < high) ==> turns(
            m,
            OP_WITHIN,
            s.push(x).push(y).push(z),
            s.push(num_bytes(0)),
        ),
{
    assert(below(s.push(x).push(y).push(z), 3) =~= s);
}

/// The opcodes on one number.
pub open spec fn works_on_one(op: u8) -> bool {
    op == OP_1ADD || op == OP_1SUB || op == OP_NEGATE || op == OP_ABS || op == OP_NOT || op
        == OP_0NOTEQUAL
}

/// The opcodes on two numbers.
pub open spec fn works_on_two(op: u8) -> bool {
    ||| op == OP_ADD || op == OP_SUB || op == OP_MUL || op == OP_BOOLAND || op == OP_BOOLOR
    ||| op == OP_NUMEQUAL || op == OP_NUMEQUALVERIFY || op == OP_NUMNOTEQUAL || op == OP_LESSTHAN
    ||| op == OP_GREATERTHAN || op == OP_LESSTHANOREQUAL || op == OP_GREATERTHANOREQUAL
    ||| op == OP_MIN || op == OP_MAX
}

/// Whether an item is too long to be a number.
pub open spec fn is_long(x: Seq<u8>) -> bool {
    x.len() > 8
}

/// The numeric opcodes refuse a stack with too few items, and items of more than eight bytes.
#[verifier::rlimit(40)]
pub proof fn lemma_numeric_operands(m: Machine, op: u8, x: Seq<u8>, y: Seq<u8>, z: Seq<u8>)
    ensures
        works_on_one(op) && m.stack.len() < 1 ==> refuses(
            m,
            op,
            m.stack,
            ExecError::InvalidStackOperation,
        ),
        works_on_two(op) && m.stack.len() < 2 && (m.stack.len() == 0 || !is_long(m.stack[0]))
            ==> refuses(m, op, m.stack, ExecError::InvalidStackOperation),
        m.stack.len() < 3 && (forall|i: int| 0 <= i < m.stack.len() ==> !is_long(m.stack[i]))
            ==> refuses(m, OP_WITHIN, m.stack, ExecError::InvalidStackOperation),
        works_on_one(op) && is_long(x) ==> refuses(
            m,
            op,
            m.stack.push(x),
            ExecError::ScriptIntNumericOverflow,
        ),
        works_on_two(op) && (is_long(x) || is_long(y)) ==> refuses(
            m,
            op,
            m.stack.push(x).push(y),
            ExecError::ScriptIntNumericOverflow,
        ),
        is_long(x) || is_long(y) || is_long(z) ==> refuses(
            m,
            OP_WITHIN,
            m.stack.push(x).push(y).push(z),
            ExecError::ScriptIntNumericOverflow,
        ),
{
    assert(holding(m, m.stack) == m);
}

} // verus!
