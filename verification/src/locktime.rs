use vstd::prelude::*;

use crate::transaction::{TemplateData, TxTemplate};

verus! {

/// A lock time of a transaction: a block height or a point in time.
#[derive(Debug, Clone, Copy, PartialEq, Eq, Structural)]
pub enum AbsoluteLock {
    Blocks(u32),
    Seconds(u32),
}

/// A lock time of an input: a number of blocks or of intervals of 512 seconds.
#[derive(Debug, Clone, Copy, PartialEq, Eq, Structural)]
pub enum RelativeLock {
    Blocks(u16),
    Time(u16),
}

/// The lock time that a consensus encoding stands for.
pub open spec fn absolute_lock(n: u32) -> AbsoluteLock {
    if n < 500_000_000 {
        AbsoluteLock::Blocks(n)
    } else {
        AbsoluteLock::Seconds(n)
    }
}

/// The lock time in a sequence number, unless its topmost bit disables it.
pub open spec fn relative_lock(sequence: u32) -> Option<RelativeLock> {
    if sequence & 0x8000_0000 != 0 {
        None
    } else if sequence & 0x0040_0000 != 0 {
        Some(RelativeLock::Time((sequence % 0x1_0000) as u16))
    } else {
        Some(RelativeLock::Blocks((sequence % 0x1_0000) as u16))
    }
}

/// Whether a transaction with the lock time `have` is late enough for `want`.
pub open spec fn absolute_satisfies(have: AbsoluteLock, want: AbsoluteLock) -> bool {
    match (want, have) {
        (AbsoluteLock::Blocks(w), AbsoluteLock::Blocks(h)) => w <= h,
        (AbsoluteLock::Seconds(w), AbsoluteLock::Seconds(h)) => w <= h,
        _ => false,
    }
}

/// Whether an input with the lock time `have` is late enough for `want`.
pub open spec fn relative_satisfies(have: RelativeLock, want: RelativeLock) -> bool {
    match (want, have) {
        (RelativeLock::Blocks(w), RelativeLock::Blocks(h)) => w <= h,
        (RelativeLock::Time(w), RelativeLock::Time(h)) => w <= h,
        _ => false,
    }
}

/// Whether the transaction satisfies the lock time `n`. Nothing where the answer depends on an
/// input that the transaction does not have.
pub open spec fn lock_time_holds(t: TemplateData, n: i64) -> Option<bool> {
    if n < 0 || n > u32::MAX {
        Some(false)
    } else if !absolute_satisfies(absolute_lock(t.tx.lock_time), absolute_lock(n as u32)) {
        Some(false)
    } else if t.input_idx >= t.tx.input.len() {
        None
    } else {
        Some(t.tx.input[t.input_idx as int].sequence != u32::MAX)
    }
}

/// Whether the input satisfies the sequence lock in the low 32 bits of `n`. Nothing where the
/// answer depends on an input that the transaction does not have.
pub open spec fn sequence_holds(t: TemplateData, n: i64) -> Option<bool> {
    if t.tx.version < 2 {
        Some(false)
    } else if t.input_idx >= t.tx.input.len() {
        None
    } else {
        match (relative_lock(t.tx.input[t.input_idx as int].sequence), relative_lock(n as u32)) {
            (Some(have), Some(want)) => Some(relative_satisfies(have, want)),
            _ => Some(false),
        }
    }
}

/// Calls `bitcoin::absolute::LockTime::from_consensus`. The contract claims that a value below
/// 500000000 is a block height and any other a time, and that the value itself is kept.
#[verifier::external_body]
fn absolute_from_consensus(n: u32) -> (r: AbsoluteLock)
    ensures
        r == absolute_lock(n),
{
    match bitcoin::absolute::LockTime::from_consensus(n) {
        bitcoin::absolute::LockTime::Blocks(h) => AbsoluteLock::Blocks(h.to_consensus_u32()),
        bitcoin::absolute::LockTime::Seconds(t) => AbsoluteLock::Seconds(t.to_consensus_u32()),
    }
}

/// Calls `bitcoin::Sequence::is_final`. The contract claims that the highest sequence number is
/// final and no other.
#[verifier::external_body]
fn sequence_is_final(sequence: u32) -> (r: bool)
    ensures
        r == (sequence == u32::MAX),
{
    bitcoin::Sequence::from_consensus(sequence).is_final()
}

/// Calls `bitcoin::Sequence::to_relative_lock_time`. The contract claims that bit 31 disables
/// the lock, that bit 22 tells a time from a number of blocks, and that the low 16 bits are the
/// value.
#[verifier::external_body]
fn sequence_to_relative(sequence: u32) -> (r: Option<RelativeLock>)
    ensures
        r == relative_lock(sequence),
{
    match bitcoin::Sequence::from_consensus(sequence).to_relative_lock_time() {
        Some(bitcoin::relative::LockTime::Blocks(h)) => Some(RelativeLock::Blocks(h.value())),
        Some(bitcoin::relative::LockTime::Time(t)) => Some(RelativeLock::Time(t.value())),
        None => None,
    }
}

/// Calls `bitcoin::relative::LockTime::from_sequence`. The contract claims of a sequence number
/// what `sequence_to_relative` claims, and that a disabled one is an error.
#[verifier::external_body]
fn relative_from_sequence(sequence: u32) -> (r: Option<RelativeLock>)
    ensures
        r == relative_lock(sequence),
{
    match bitcoin::relative::LockTime::from_sequence(bitcoin::Sequence::from_consensus(sequence)) {
        Ok(bitcoin::relative::LockTime::Blocks(h)) => Some(RelativeLock::Blocks(h.value())),
        Ok(bitcoin::relative::LockTime::Time(t)) => Some(RelativeLock::Time(t.value())),
        Err(_) => None,
    }
}

/// Whether the transaction satisfies the lock time `lock_time`; nothing where that depends on
/// an input that is not there.
pub fn check_lock_time(template: &TxTemplate, lock_time: i64) -> (r: Option<bool>)
    ensures
        r == lock_time_holds(template@, lock_time),
{
    if lock_time < 0 || lock_time > u32::MAX as i64 {
        return Some(false);
    }
    let want = absolute_from_consensus(lock_time as u32);
    let have = absolute_from_consensus(template.tx.lock_time);
    let reached = match (want, have) {
        (AbsoluteLock::Blocks(h1), AbsoluteLock::Blocks(h2)) => h1 <= h2,
        (AbsoluteLock::Seconds(t1), AbsoluteLock::Seconds(t2)) => t1 <= t2,
        (AbsoluteLock::Blocks(_), AbsoluteLock::Seconds(_)) => false,
        (AbsoluteLock::Seconds(_), AbsoluteLock::Blocks(_)) => false,
    };
    if !reached {
        return Some(false);
    }
    if template.input_idx >= template.tx.input.len() {
        return None;
    }
    Some(!sequence_is_final(template.tx.input[template.input_idx].sequence))
}

/// Whether the input satisfies the sequence lock in the low 32 bits of `sequence`; nothing where
/// that depends on an input that is not there.
pub fn check_sequence(template: &TxTemplate, sequence: i64) -> (r: Option<bool>)
    ensures
        r == sequence_holds(template@, sequence),
{
    // Fail if the transaction's version number is not set high
    // enough to trigger BIP 68 rules.
    if template.tx.version < 2 {
        return Some(false);
    }
    if template.input_idx >= template.tx.input.len() {
        return None;
    }
    let have = match sequence_to_relative(template.tx.input[template.input_idx].sequence) {
        Some(lt) => lt,
        None => {
            return Some(false);
        },
    };
    let want = match relative_from_sequence(sequence as u32) {
        Some(lt) => lt,
        None => {
            return Some(false);
        },
    };
    let reached = match (want, have) {
        (RelativeLock::Blocks(h1), RelativeLock::Blocks(h2)) => h1 <= h2,
        (RelativeLock::Time(t1), RelativeLock::Time(t2)) => t1 <= t2,
        (RelativeLock::Blocks(_), RelativeLock::Time(_)) => false,
        (RelativeLock::Time(_), RelativeLock::Blocks(_)) => false,
    };
    Some(reached)
}

} // verus!
