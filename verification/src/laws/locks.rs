//! When a transaction satisfies the locks that a script asks for.

use vstd::prelude::*;

use crate::effects::Items;
use crate::error::ExecError;
use crate::laws::{holding, refuses, turns};
use crate::machine::{opcode_action, Machine, SEQUENCE_LOCKTIME_DISABLE_FLAG};
use crate::opcodes::{OP_CLTV, OP_CSV};
use crate::transaction::{TemplateData, TxData};
use crate::utils::decode_num;

verus! {

/// The lock times from here on are points in time, those below are block heights.
pub open spec fn first_time() -> int {
    500_000_000
}

/// Whether two lock times are of one kind.
pub open spec fn same_kind(a: int, b: int) -> bool {
    (a < first_time()) == (b < first_time())
}

/// Whether the executed input is there, with this sequence number.
pub open spec fn spends_with(m: Machine, sequence: u32) -> bool {
    &&& m.tx.input_idx < m.tx.tx.input.len()
    &&& m.tx.tx.input[m.tx.input_idx as int].sequence == sequence
}

/// OP_CHECKLOCKTIMEVERIFY accepts a lock time of the kind of the transaction's own where it is not
/// later, for an input that is not final. It refuses any other, and leaves the item.
pub proof fn lemma_lock_time(m: Machine, s: Items, x: Seq<u8>, n: i64, sequence: u32)
    requires
        m.opt.verify_cltv,
        x.len() <= 5,
        decode_num(x, 5) == Some(n),
        n >= 0,
        spends_with(m, sequence),
    ensures
        ({
            let satisfied = same_kind(n as int, m.tx.tx.lock_time as int) && n <= m.tx.tx.lock_time
                && sequence != 0xffff_ffff;
            &&& satisfied ==> turns(m, OP_CLTV, s.push(x), s.push(x))
            &&& !satisfied ==> refuses(m, OP_CLTV, s.push(x), ExecError::UnsatisfiedLocktime)
        }),
{
    assert(s.push(x).last() == x);
}

/// Whether OP_CHECKLOCKTIMEVERIFY accepts an item.
pub open spec fn accepts_lock(m: Machine, s: Items, x: Seq<u8>) -> bool {
    turns(m, OP_CLTV, s.push(x), s.push(x))
}

/// The machine with another lock time in its transaction.
pub open spec fn locked_until(m: Machine, lock_time: u32) -> Machine {
    Machine {
        tx: TemplateData { tx: TxData { lock_time, ..m.tx.tx }, ..m.tx },
        ..m
    }
}

/// A later transaction satisfies whatever an earlier one of the same kind does, and each satisfies
/// its own lock time and no later one.
pub proof fn lemma_later_satisfies_more(
    m: Machine,
    s: Items,
    x: Seq<u8>,
    n: i64,
    early: u32,
    late: u32,
    sequence: u32,
)
    requires
        m.opt.verify_cltv,
        decode_num(x, 5) == Some(n),
        x.len() <= 5,
        n >= 0,
        spends_with(m, sequence),
        sequence != 0xffff_ffff,
        early <= late,
        same_kind(early as int, late as int),
    ensures
        accepts_lock(locked_until(m, early), s, x) ==> accepts_lock(locked_until(m, late), s, x),
        n == late ==> accepts_lock(locked_until(m, late), s, x),
        n == late && early < late ==> !accepts_lock(locked_until(m, early), s, x),
        n == early ==> accepts_lock(locked_until(m, late), s, x),
{
    lemma_lock_time(locked_until(m, early), s, x, n, sequence);
    lemma_lock_time(locked_until(m, late), s, x, n, sequence);
}

/// Without the executed input, OP_CHECKLOCKTIMEVERIFY has no outcome where it depends on the
/// input. An item of more than five bytes, and a missing one, are refused.
pub proof fn lemma_lock_time_operands(m: Machine, s: Items, x: Seq<u8>, n: i64)
    requires
        m.opt.verify_cltv,
    ensures
        x.len() > 5 ==> refuses(m, OP_CLTV, s.push(x), ExecError::ScriptIntNumericOverflow),
        m.stack.len() == 0 ==> refuses(m, OP_CLTV, m.stack, ExecError::InvalidStackOperation),
        x.len() <= 5 && decode_num(x, 5) == Some(n) && n >= 0 && m.tx.input_idx
            >= m.tx.tx.input.len() ==> if same_kind(n as int, m.tx.tx.lock_time as int) && n
            <= m.tx.tx.lock_time {
            opcode_action(holding(m, s.push(x)), OP_CLTV) is Undefined
        } else {
            refuses(m, OP_CLTV, s.push(x), ExecError::UnsatisfiedLocktime)
        },
{
    assert(s.push(x).last() == x);
    assert(holding(m, m.stack) == m);
}

/// Bit 31 of a sequence number.
pub open spec fn is_off(n: int) -> bool {
    (n / 0x8000_0000) % 2 == 1
}

/// Bit 22 of a sequence number, which tells a time from a number of blocks.
pub open spec fn is_timed(n: int) -> bool {
    (n / 0x40_0000) % 2 == 1
}

/// The low sixteen bits of a sequence number.
pub open spec fn span(n: int) -> int {
    n % 0x1_0000
}

proof fn lemma_bits(n: i64, q: u32)
    requires
        n >= 0,
    ensures
        n & SEQUENCE_LOCKTIME_DISABLE_FLAG != 0 <==> is_off(n as int),
        q & 0x8000_0000 != 0 <==> is_off(q as int),
        q & 0x0040_0000 != 0 <==> is_timed(q as int),
        (n as u32) == n % 0x1_0000_0000,
        (n as u32) & 0x8000_0000 != 0 <==> is_off(n as int),
        (n as u32) & 0x0040_0000 != 0 <==> is_timed(n as int),
        (n as u32) % 0x1_0000 == n % 0x1_0000,
{
    let w = n as u64;
    assert(n & 0x8000_0000i64 == w & 0x8000_0000u64);
    assert(w & 0x8000_0000u64 != 0 <==> (w / 0x8000_0000u64) % 2 == 1) by (bit_vector);
    assert(q & 0x8000_0000u32 != 0 <==> (q / 0x8000_0000u32) % 2 == 1) by (bit_vector);
    assert(q & 0x0040_0000u32 != 0 <==> (q / 0x0040_0000u32) % 2 == 1) by (bit_vector);
    let v = w as u32;
    assert(v == n as u32);
    assert(w as u32 == w % 0x1_0000_0000u64) by (bit_vector);
    assert(v & 0x8000_0000u32 != 0 <==> (v / 0x8000_0000u32) % 2 == 1) by (bit_vector);
    assert(v & 0x0040_0000u32 != 0 <==> (v / 0x0040_0000u32) % 2 == 1) by (bit_vector);
}

/// OP_CHECKSEQUENCEVERIFY accepts everything with bit 31 set. Of the rest it accepts, for a
/// transaction of version 2 or higher and an input without that bit, what has the kind of lock
/// that the input has and a span that is not longer. It refuses any other, and leaves the item.
pub proof fn lemma_sequence_lock(m: Machine, s: Items, x: Seq<u8>, n: i64, sequence: u32)
    requires
        m.opt.verify_csv,
        x.len() <= 5,
        decode_num(x, 5) == Some(n),
        n >= 0,
        spends_with(m, sequence),
    ensures
        ({
            let satisfied = m.tx.tx.version >= 2 && !is_off(sequence as int) && is_timed(n as int)
                == is_timed(sequence as int) && span(n as int) <= span(sequence as int);
            &&& is_off(n as int) || satisfied ==> turns(m, OP_CSV, s.push(x), s.push(x))
            &&& !is_off(n as int) && !satisfied ==> refuses(
                m,
                OP_CSV,
                s.push(x),
                ExecError::UnsatisfiedLocktime,
            )
        }),
{
    assert(s.push(x).last() == x);
    lemma_bits(n, sequence);
}

/// Without the executed input, OP_CHECKSEQUENCEVERIFY has no outcome where it depends on the
/// input. An item of more than five bytes, and a missing one, are refused.
pub proof fn lemma_sequence_lock_operands(m: Machine, s: Items, x: Seq<u8>, n: i64)
    requires
        m.opt.verify_csv,
    ensures
        x.len() > 5 ==> refuses(m, OP_CSV, s.push(x), ExecError::ScriptIntNumericOverflow),
        m.stack.len() == 0 ==> refuses(m, OP_CSV, m.stack, ExecError::InvalidStackOperation),
        x.len() <= 5 && decode_num(x, 5) == Some(n) && n >= 0 && m.tx.input_idx
            >= m.tx.tx.input.len() ==> {
            &&& is_off(n as int) ==> turns(m, OP_CSV, s.push(x), s.push(x))
            &&& !is_off(n as int) && m.tx.tx.version < 2 ==> refuses(
                m,
                OP_CSV,
                s.push(x),
                ExecError::UnsatisfiedLocktime,
            )
            &&& !is_off(n as int) && m.tx.tx.version >= 2 ==> opcode_action(
                holding(m, s.push(x)),
                OP_CSV,
            ) is Undefined
        },
{
    assert(s.push(x).last() == x);
    assert(holding(m, m.stack) == m);
    if n >= 0 {
        lemma_bits(n, 0);
    }
}

} // verus!
