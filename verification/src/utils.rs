use vstd::prelude::*;

use crate::data_structures::ScriptIntError;

verus! {

/// The number that a little-endian byte string stands for.
pub open spec fn le_value(b: Seq<u8>) -> nat
    decreases b.len(),
{
    if b.len() == 0 {
        0
    } else {
        b[0] as nat + 256 * le_value(b.skip(1))
    }
}

/// The shortest little-endian byte string of a number: no zero byte at its end.
pub open spec fn le_trimmed(v: nat) -> Seq<u8>
    decreases v,
{
    if v == 0 {
        Seq::empty()
    } else {
        seq![(v % 256) as u8] + le_trimmed(v / 256)
    }
}

/// The 64-bit word that holds `n` in two's complement.
pub open spec fn as_unsigned(n: i64) -> nat {
    if n >= 0 {
        n as nat
    } else {
        (n + 0x1_0000_0000_0000_0000) as nat
    }
}

/// The integer that a 64-bit word holds in two's complement.
pub open spec fn as_signed(v: nat) -> i64 {
    if v < 0x8000_0000_0000_0000 {
        v as i64
    } else {
        (v - 0x1_0000_0000_0000_0000) as i64
    }
}

/// The byte string that a script number becomes on the stack.
pub open spec fn num_bytes(n: i64) -> Seq<u8> {
    le_trimmed(as_unsigned(n))
}

/// The script number that a byte string of at most eight bytes stands for.
pub open spec fn bytes_num(b: Seq<u8>) -> i64 {
    as_signed(le_value(b))
}

/// The script number in `b`, or nothing where `b` is longer than `max_size` bytes.
pub open spec fn decode_num(b: Seq<u8>, max_size: int) -> Option<i64> {
    if b.len() > max_size {
        None
    } else {
        Some(bytes_num(b))
    }
}

/// 256 to the power of `n`.
pub open spec fn radix_pow(n: nat) -> nat
    decreases n,
{
    if n == 0 {
        1
    } else {
        256 * radix_pow((n - 1) as nat)
    }
}

proof fn lemma_le_value_bound(b: Seq<u8>)
    ensures
        le_value(b) < radix_pow(b.len()),
    decreases b.len(),
{
    if b.len() > 0 {
        lemma_le_value_bound(b.skip(1));
    }
}

proof fn lemma_radix_pow_small(n: nat)
    requires
        n <= 8,
    ensures
        radix_pow(n) <= 0x1_0000_0000_0000_0000,
        n <= 7 ==> radix_pow(n) <= 0x100_0000_0000_0000,
{
    reveal_with_fuel(radix_pow, 9);
}

/// A byte string of at most eight bytes stands for a number of 64 bits.
pub proof fn lemma_le_value_fits(b: Seq<u8>)
    requires
        b.len() <= 8,
    ensures
        le_value(b) < 0x1_0000_0000_0000_0000,
{
    lemma_le_value_bound(b);
    lemma_radix_pow_small(b.len());
}

proof fn lemma_le_trimmed_bound(v: nat, k: nat)
    requires
        v < radix_pow(k),
    ensures
        le_trimmed(v).len() <= k,
    decreases k,
{
    if v > 0 {
        assert(k > 0);
        lemma_le_trimmed_bound(v / 256, (k - 1) as nat);
    }
}

proof fn lemma_le_trimmed_value(v: nat)
    ensures
        le_value(le_trimmed(v)) == v,
    decreases v,
{
    if v > 0 {
        lemma_le_trimmed_value(v / 256);
        assert(le_trimmed(v).skip(1) =~= le_trimmed(v / 256));
    }
}

/// Reading back the byte string of a script number gives the number, and the byte string has at
/// most eight bytes.
pub proof fn lemma_num_roundtrip(n: i64)
    ensures
        num_bytes(n).len() <= 8,
        bytes_num(num_bytes(n)) == n,
        decode_num(num_bytes(n), 8) == Some(n),
{
    lemma_le_trimmed_value(as_unsigned(n));
    reveal_with_fuel(radix_pow, 9);
    lemma_le_trimmed_bound(as_unsigned(n), 8);
}

/// The byte string of a script number never ends in a zero byte, and is empty for zero alone.
pub proof fn lemma_num_bytes_trimmed(n: i64)
    ensures
        num_bytes(n).len() > 0 ==> num_bytes(n).last() != 0,
        num_bytes(n).len() == 0 <==> n == 0,
{
    lemma_le_trimmed_last(as_unsigned(n));
}

proof fn lemma_le_trimmed_last(v: nat)
    ensures
        le_trimmed(v).len() > 0 ==> le_trimmed(v).last() != 0,
        le_trimmed(v).len() == 0 <==> v == 0,
    decreases v,
{
    if v > 0 {
        lemma_le_trimmed_last(v / 256);
        if v / 256 == 0 {
            assert(le_trimmed(v) =~= seq![(v % 256) as u8]);
        } else {
            assert(le_trimmed(v).last() == le_trimmed(v / 256).last());
        }
    }
}

/// `b` without the zero bytes at its end.
pub open spec fn without_trailing_zeros(b: Seq<u8>) -> Seq<u8>
    decreases b.len(),
{
    if b.len() > 0 && b.last() == 0 {
        without_trailing_zeros(b.drop_last())
    } else {
        b
    }
}

proof fn lemma_le_value_push_zero(b: Seq<u8>)
    requires
        b.len() > 0,
        b.last() == 0,
    ensures
        le_value(b) == le_value(b.drop_last()),
    decreases b.len(),
{
    if b.len() > 1 {
        assert(b.skip(1).drop_last() =~= b.drop_last().skip(1));
        lemma_le_value_push_zero(b.skip(1));
    } else {
        assert(le_value(b.skip(1)) == 0);
    }
}

proof fn lemma_le_value_push(v: Seq<u8>, b: u8)
    ensures
        le_value(v.push(b)) == le_value(v) + b * radix_pow(v.len()),
    decreases v.len(),
{
    let w = v.push(b);
    if v.len() == 0 {
        assert(w.skip(1) =~= Seq::empty());
        assert(le_value(w.skip(1)) == 0);
        assert(le_value(v) == 0);
        assert(radix_pow(0) == 1);
        assert(b * 1 == b) by (nonlinear_arith);
        assert(b * radix_pow(v.len()) == b * 1);
    } else {
        let rest = v.skip(1);
        assert(w.skip(1) =~= rest.push(b));
        lemma_le_value_push(rest, b);
        let p = radix_pow(rest.len());
        assert(radix_pow(v.len()) == 256 * p);
        assert(w[0] == v[0]);
        assert(b * (256 * p) == 256 * (b * p)) by (nonlinear_arith);
        assert(b * radix_pow(v.len()) == 256 * (b * p));
    }
}

/// A byte appended to a byte string of at most seven bytes adds its value times 256 to the power
/// of their number, which still has 64 bits. One byte stands for its own value.
pub proof fn lemma_append_byte(v: Seq<u8>, b: u8)
    requires
        v.len() <= 7,
    ensures
        as_unsigned(bytes_num(v.push(b))) == as_unsigned(bytes_num(v)) + b * radix_pow(v.len()),
        as_unsigned(bytes_num(v)) + b * radix_pow(v.len()) < 0x1_0000_0000_0000_0000,
        bytes_num(seq![b]) == b,
{
    lemma_le_value_push(v, b);
    lemma_le_value_fits(v);
    lemma_le_value_fits(v.push(b));
    assert(seq![b].skip(1) =~= Seq::empty());
    assert(le_value(seq![b].skip(1)) == 0);
    assert(le_value(seq![b]) == b);
}

proof fn lemma_le_value_trimmed(b: Seq<u8>)
    requires
        b.len() > 0 ==> b.last() != 0,
    ensures
        le_trimmed(le_value(b)) == b,
        le_value(b) == 0 <==> b.len() == 0,
    decreases b.len(),
{
    if b.len() > 0 {
        let rest = b.skip(1);
        lemma_le_value_trimmed(rest);
        let v = le_value(b);
        if rest.len() == 0 {
            assert(b[0] != 0);
        }
        assert(v > 0);
        assert(v % 256 == b[0] && v / 256 == le_value(rest)) by (nonlinear_arith)
            requires
                v == b[0] as nat + 256 * le_value(rest),
        ;
        assert(le_trimmed(v) =~= seq![b[0]] + rest);
        assert(seq![b[0]] + rest =~= b);
    } else {
        assert(b =~= Seq::<u8>::empty());
    }
}

/// Writing back the number that a byte string of at most eight bytes stands for gives the byte
/// string without the zero bytes at its end: of all the byte strings for a number, the encoder
/// writes the only one that has none.
pub proof fn lemma_num_canonical(b: Seq<u8>)
    requires
        b.len() <= 8,
    ensures
        num_bytes(bytes_num(b)) == without_trailing_zeros(b),
    decreases b.len(),
{
    lemma_le_value_fits(b);
    assert(as_unsigned(as_signed(le_value(b))) == le_value(b));
    if b.len() > 0 && b.last() == 0 {
        lemma_le_value_push_zero(b);
        lemma_num_canonical(b.drop_last());
        lemma_le_value_fits(b.drop_last());
    } else {
        lemma_le_value_trimmed(b);
    }
}

/// Returns Val64-encoded byte vector: unsigned little-endian with trailing zeros trimmed.
pub fn scriptint_vec(n: i64) -> (r: Vec<u8>)
    ensures
        r@ == num_bytes(n),
{
    let mut rest: u64 = n as u64;
    assert(rest == as_unsigned(n)) by {
        assert(n >= 0 ==> n as u64 == n) by (bit_vector);
        assert(n < 0 ==> n as u64 == n + 0x1_0000_0000_0000_0000) by (bit_vector);
    }
    let mut out: Vec<u8> = Vec::new();
    assert(out@ + le_trimmed(rest as nat) =~= num_bytes(n));
    while rest != 0
        invariant
            out@ + le_trimmed(rest as nat) == num_bytes(n),
        decreases rest,
    {
        let ghost before = out@;
        let low: u8 = (rest % 256) as u8;
        out.push(low);
        assert(before + le_trimmed(rest as nat) =~= out@ + le_trimmed((rest / 256) as nat));
        rest = rest / 256;
    }
    assert(out@ + le_trimmed(0) =~= out@);
    out
}

/// Decodes a Val64 integer: unsigned little-endian with flexible size limit.
///
/// A `max_size` above 8 is not allowed. Encodings with zero bytes at the end are accepted
/// whatever `_minimal` says.
pub fn read_scriptint_size(v: &[u8], max_size: usize, _minimal: bool) -> (r: Result<
    i64,
    ScriptIntError,
>)
    requires
        max_size <= 8,
    ensures
        match decode_num(v@, max_size as int) {
            Some(n) => r == Ok::<i64, ScriptIntError>(n),
            None => r == Err::<i64, ScriptIntError>(ScriptIntError::NumericOverflow),
        },
{
    if v.len() > max_size {
        return Err(ScriptIntError::NumericOverflow);
    }
    if v.is_empty() {
        return Ok(0);
    }
    Ok(scriptint_parse(v))
}

/// The number that a byte string of one to eight bytes stands for.
///
/// Val64: unsigned little-endian, no sign bit.
pub fn scriptint_parse(v: &[u8]) -> (r: i64)
    requires
        0 < v@.len() <= 8,
    ensures
        r == bytes_num(v@),
{
    let mut acc: u64 = 0;
    let mut i: usize = v.len();
    assert(v@.skip(i as int) =~= Seq::<u8>::empty());
    while i > 0
        invariant
            0 <= i <= v@.len() <= 8,
            acc == le_value(v@.skip(i as int)),
        decreases i,
    {
        proof {
            let tail = v@.skip(i as int);
            lemma_le_value_bound(tail);
            lemma_radix_pow_small(tail.len());
            assert(v@.skip(i - 1).skip(1) =~= tail);
        }
        i = i - 1;
        acc = acc * 256 + v[i] as u64;
    }
    assert(v@.skip(0) =~= v@);
    assert(acc as i64 == as_signed(acc as nat)) by {
        assert(acc < 0x8000_0000_0000_0000 ==> acc as i64 == acc) by (bit_vector);
        assert(acc >= 0x8000_0000_0000_0000 ==> acc as i64 == acc - 0x1_0000_0000_0000_0000)
            by (bit_vector);
    }
    acc as i64
}

///  A data type to abstract out the condition stack during script execution.
///
/// Conceptually it acts like a vector of booleans, one for each level of nested
/// IF/THEN/ELSE, indicating whether we're in the active or inactive branch of
/// each.
///
/// The elements on the stack cannot be observed individually; we only need to
/// expose whether the stack is empty and whether or not any false values are
/// present at all. To implement OP_ELSE, a toggle_top modifier is added, which
/// flips the last value without returning it.
///
/// This uses an optimized implementation that does not materialize the
/// actual stack. Instead, it just stores the size of the would-be stack,
/// and the position of the first false value in it.
pub struct ConditionStack {
    /// The size of the implied stack.
    size: usize,
    /// The position of the first false value on the implied stack,
    /// or NO_FALSE if all true.
    first_false_pos: usize,
    /// The implied stack.
    levels: Ghost<Seq<bool>>,
}

/// A value for first_false_pos to indicate there are no falses.
const NO_FALSE: usize = usize::MAX;

/// Whether no level of a condition stack is in an inactive branch.
pub open spec fn all_levels_true(levels: Seq<bool>) -> bool {
    forall|i: int| 0 <= i < levels.len() ==> levels[i]
}

impl View for ConditionStack {
    type V = Seq<bool>;

    closed spec fn view(&self) -> Seq<bool> {
        self.levels@
    }
}

impl Clone for ConditionStack {
    fn clone(&self) -> (r: Self)
        ensures
            r == *self,
    {
        ConditionStack {
            size: self.size,
            first_false_pos: self.first_false_pos,
            levels: Ghost(self.levels@),
        }
    }
}

impl ConditionStack {
    /// The two numbers describe the implied stack.
    pub closed spec fn wf(&self) -> bool {
        &&& self.size == self@.len()
        &&& self.first_false_pos == NO_FALSE ==> all_levels_true(self@)
        &&& self.first_false_pos != NO_FALSE ==> {
            &&& self.first_false_pos < self@.len()
            &&& !self@[self.first_false_pos as int]
            &&& all_levels_true(self@.take(self.first_false_pos as int))
        }
    }

    pub fn new() -> (r: Self)
        ensures
            r.wf(),
            r@ == Seq::<bool>::empty(),
    {
        ConditionStack { size: 0, first_false_pos: NO_FALSE, levels: Ghost(Seq::empty()) }
    }

    pub fn all_true(&self) -> (r: bool)
        requires
            self.wf(),
        ensures
            r == all_levels_true(self@),
    {
        self.first_false_pos == NO_FALSE
    }

    pub fn push(&mut self, v: bool)
        requires
            old(self).wf(),
            old(self)@.len() < usize::MAX,
        ensures
            final(self).wf(),
            final(self)@ == old(self)@.push(v),
    {
        let ghost before = self@;
        if self.first_false_pos == NO_FALSE && !v {
            // The stack consists of all true values, and a false is added.
            // The first false value will appear at the current size.
            self.first_false_pos = self.size;
        }
        self.size = self.size + 1;
        self.levels = Ghost(before.push(v));
        proof {
            if self.first_false_pos != NO_FALSE {
                assert(self@.take(self.first_false_pos as int) =~= before.take(
                    self.first_false_pos as int,
                ));
            }
        }
    }

    /// Returns [false] if it was empty, [true] otherwise.
    ///
    /// Note that the popped value is not returned.
    pub fn pop(&mut self) -> (r: bool)
        requires
            old(self).wf(),
        ensures
            final(self).wf(),
            r == (old(self)@.len() > 0),
            final(self)@ == if r {
                old(self)@.drop_last()
            } else {
                old(self)@
            },
    {
        if self.size == 0 {
            false
        } else {
            let ghost before = self@;
            self.size = self.size - 1;
            if self.first_false_pos == self.size {
                // When popping off the first false value, everything becomes true.
                self.first_false_pos = NO_FALSE;
            }
            self.levels = Ghost(before.drop_last());
            proof {
                assert(before.drop_last() =~= before.take(before.len() - 1));
                if self.first_false_pos != NO_FALSE {
                    assert(self@.take(self.first_false_pos as int) =~= before.take(
                        self.first_false_pos as int,
                    ));
                }
            }
            true
        }
    }

    /// Flips the value on top. Returns [false] if the stack was empty, [true] otherwise.
    pub fn toggle_top(&mut self) -> (r: bool)
        requires
            old(self).wf(),
        ensures
            final(self).wf(),
            r == (old(self)@.len() > 0),
            final(self)@ == if r {
                old(self)@.update(old(self)@.len() - 1, !old(self)@.last())
            } else {
                old(self)@
            },
    {
        if self.size == 0 {
            false
        } else {
            let ghost before = self@;
            if self.first_false_pos == NO_FALSE {
                // The current stack is all true values; the first false will be the top.
                self.first_false_pos = self.size - 1;
            } else if self.first_false_pos == self.size - 1 {
                // The top is the first false value; toggling it will make everything true.
                self.first_false_pos = NO_FALSE;
            } else {
                // There is a false value, but not on top. No action is needed as toggling
                // anything but the first false value is unobservable.
            }
            self.levels = Ghost(before.update(before.len() - 1, !before.last()));
            proof {
                assert(forall|i: int|
                    0 <= i < before.len() - 1 ==> self@[i] == before.take(before.len() - 1)[i]);
                if self.first_false_pos != NO_FALSE {
                    assert(self@.take(self.first_false_pos as int) =~= before.take(
                        self.first_false_pos as int,
                    ));
                }
            }
            true
        }
    }
}

impl Default for ConditionStack {
    fn default() -> (r: Self)
        ensures
            r.wf(),
            r@ == Seq::<bool>::empty(),
    {
        ConditionStack::new()
    }
}

} // verus!
