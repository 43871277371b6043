//! What byte strings stand for as numbers and as conditions.

use vstd::arithmetic::power::{lemma_pow0, lemma_pow1, lemma_pow_adds, pow};
use vstd::prelude::*;

use crate::effects::is_true;
use crate::laws::turns;
use crate::machine::Machine;
use crate::opcodes::{OP_PUSHNUM_1, OP_PUSHNUM_16, OP_PUSHNUM_NEG1};
use crate::utils::{
    as_unsigned, bytes_num, decode_num, le_trimmed, lemma_append_byte, lemma_le_value_fits,
    lemma_num_bytes_trimmed, lemma_num_roundtrip, num_bytes, radix_pow,
};

verus! {

/// The number of 64-bit words, 2^64.
pub open spec fn words() -> int {
    0x1_0000_0000_0000_0000
}

proof fn lemma_radix_is_pow(n: nat)
    ensures
        radix_pow(n) == pow(256, n),
    decreases n,
{
    lemma_pow0(256);
    if n > 0 {
        lemma_radix_is_pow((n - 1) as nat);
        lemma_pow_adds(256, 1, (n - 1) as nat);
        lemma_pow1(256);
    }
}

/// A byte string of at most eight bytes is a number: the first byte counts once, each later one
/// 256 times what the one before it counts, and a sum of 2^63 or more stands for that much less
/// 2^64. The empty one stands for zero. Longer ones are no number.
pub proof fn lemma_reading(b: Seq<u8>, last: u8, max_size: int)
    ensures
        decode_num(Seq::empty(), 8) == Some(0i64),
        decode_num(seq![last], 8) == Some(last as i64),
        b.len() <= 7 ==> {
            &&& decode_num(b, 8) is Some && decode_num(b.push(last), 8) is Some
            &&& (decode_num(b.push(last), 8)->0 - decode_num(b, 8)->0 - last * pow(256, b.len()))
                % words() == 0
        },
        b.len() <= 7 ==> decode_num(b, 8)->0 >= 0,
        b.len() <= max_size ==> decode_num(b, max_size) == Some(bytes_num(b)),
        b.len() > max_size ==> decode_num(b, max_size) is None,
        b.len() <= 8 ==> decode_num(b, 8) == Some(bytes_num(b)),
{
    lemma_num_roundtrip(0);
    assert(num_bytes(0) =~= Seq::empty());
    if b.len() <= 7 {
        lemma_append_byte(b, last);
        lemma_radix_is_pow(b.len());
        let before = bytes_num(b);
        let after = bytes_num(b.push(last));
        let step = last * pow(256, b.len());
        assert(as_unsigned(after) == as_unsigned(before) + step);
        lemma_short_is_nonnegative(b);
        assert((after - before - step) % words() == 0) by {
            if after >= 0 {
                assert(after - before - step == 0);
            } else {
                assert(after - before - step == -words());
            }
        }
    } else {
        lemma_append_byte(Seq::empty(), last);
    }
}

proof fn lemma_short_is_nonnegative(b: Seq<u8>)
    requires
        b.len() <= 7,
    ensures
        bytes_num(b) >= 0,
        bytes_num(b) < pow(256, b.len()) <= 0x100_0000_0000_0000,
    decreases b.len(),
{
    reveal_with_fuel(radix_pow, 9);
    lemma_radix_is_pow(b.len());
    if b.len() > 0 {
        let rest = b.drop_last();
        lemma_short_is_nonnegative(rest);
        lemma_append_byte(rest, b.last());
        assert(rest.push(b.last()) =~= b);
        lemma_radix_is_pow(rest.len());
        let p = radix_pow(rest.len());
        assert(b.last() * p <= 255 * p) by (nonlinear_arith)
            requires
                b.last() <= 255,
                p >= 0,
        ;
        assert(radix_pow(b.len()) == 256 * p);
        lemma_le_value_fits(b);
    } else {
        assert(b =~= Seq::empty());
        lemma_num_roundtrip(0);
        assert(num_bytes(0) =~= Seq::empty());
    }
}

/// A number is written as a byte string that is read as that number and does not end in a zero
/// byte: zero as nothing, one to 255 as one byte, a negative number as eight.
pub proof fn lemma_writing(n: i64)
    ensures
        decode_num(num_bytes(n), 8) == Some(n),
        num_bytes(n).len() > 0 ==> num_bytes(n).last() != 0,
        n == 0 <==> num_bytes(n).len() == 0,
        0 < n <= 255 ==> num_bytes(n) == seq![n as u8],
        n < 0 ==> num_bytes(n).len() == 8,
{
    lemma_num_roundtrip(n);
    lemma_num_bytes_trimmed(n);
    if 0 < n <= 255 {
        assert(le_trimmed(n as nat) =~= seq![n as u8] + le_trimmed(0));
        assert(num_bytes(n) =~= seq![n as u8]);
    }
    if n < 0 && num_bytes(n).len() <= 7 {
        lemma_short_is_nonnegative(num_bytes(n));
    }
}

/// A byte string counts as true where any byte but the last is not zero, or the last is neither
/// zero nor 0x80; so nothing, zeros, and zeros with 0x80 at the end are false.
pub proof fn lemma_truth(b: Seq<u8>, last: u8)
    ensures
        !is_true(Seq::empty()),
        b.len() > 0 ==> (is_true(b) <==> (exists|i: int|
            0 <= i < b.len() - 1 && #[trigger] b[i] != 0) || (b.last() != 0 && b.last() != 0x80)),
        (forall|i: int| 0 <= i < b.len() ==> b[i] == 0) ==> !is_true(b) && !is_true(b.push(0))
            && !is_true(b.push(0x80)),
        last != 0 && last != 0x80 ==> is_true(b.push(last)),
        (exists|i: int| 0 <= i < b.len() && #[trigger] b[i] != 0) ==> is_true(b.push(last)),
{
    let c = b.push(last);
    if last != 0 && last != 0x80 {
        assert(c[b.len() as int] == last);
    }
    if exists|i: int| 0 <= i < b.len() && #[trigger] b[i] != 0 {
        let i = choose|i: int| 0 <= i < b.len() && #[trigger] b[i] != 0;
        assert(c[i] != 0);
    }
    if b.len() > 0 && b.last() != 0 && b.last() != 0x80 {
        assert(b[b.len() - 1] != 0);
    }
}

/// A number of one byte counts as true unless it is zero or 128, whose byte is the sign bit alone.
pub proof fn lemma_truth_of_small_numbers(n: i64)
    requires
        0 <= n <= 255,
    ensures
        is_true(num_bytes(n)) <==> n != 0 && n != 128,
{
    lemma_writing(n);
    if n > 0 {
        lemma_truth(Seq::empty(), n as u8);
        assert(Seq::empty().push(n as u8) =~= seq![n as u8]);
    } else {
        assert(num_bytes(0) =~= Seq::empty());
        lemma_truth(Seq::empty(), 0);
    }
}

/// The opcodes for small numbers push them: OP_1NEGATE minus one, OP_1 to OP_16 one to sixteen.
pub proof fn lemma_small_numbers(m: Machine, op: u8)
    ensures
        turns(m, OP_PUSHNUM_NEG1, m.stack, m.stack.push(num_bytes((-1) as i64))),
        OP_PUSHNUM_1 <= op <= OP_PUSHNUM_16 ==> turns(
            m,
            op,
            m.stack,
            m.stack.push(seq![(op - OP_PUSHNUM_1 + 1) as u8]),
        ),
{
    if OP_PUSHNUM_1 <= op <= OP_PUSHNUM_16 {
        lemma_writing((op - OP_PUSHNUM_1 + 1) as i64);
    }
}

} // verus!
