//! What a script machine does, step by step.

use vstd::prelude::*;

use crate::data_structures::{item_at, num_at};
use crate::effects::{
    below, binary_effect, bool_num, equal_effect, hash_effect, is_binary, is_hash, is_push_num,
    is_shuffle, is_true, is_unary, join_effect, mul_effect, pick_effect, pushed_num, short_items,
    shuffle_effect, size_effect, unary_effect, verify_effect, within_effect, Effect, Items,
    MAX_SCRIPT_ELEMENT_SIZE,
};
use crate::error::{Error, ExecError};
use crate::exec::ExecStats;
use crate::instruction::{decode, first_error, Decoded, InstructionData};
use crate::locktime::{lock_time_holds, sequence_holds};
use crate::opcodes::{
    Opcode, OP_AND, OP_CAT, OP_CHECKMULTISIG, OP_CHECKMULTISIGVERIFY, OP_CHECKSIG, OP_CHECKSIGADD,
    OP_CHECKSIGVERIFY, OP_CLTV, OP_CODESEPARATOR, OP_CSV, OP_ELSE, OP_ENDIF, OP_EQUAL,
    OP_EQUALVERIFY, OP_FROMALTSTACK, OP_IF, OP_MUL, OP_NOTIF, OP_PICK, OP_PUSHNUM_16, OP_RESERVED,
    OP_RETURN, OP_ROLL, OP_SIZE, OP_TOALTSTACK, OP_VERIFY, OP_WITHIN,
};
use crate::options::{ExecCtx, Options};
use crate::signatures::{annex_ok, ecdsa_accepts, schnorr_result};
use crate::transaction::TemplateData;
use crate::utils::{all_levels_true, decode_num, lemma_num_roundtrip, num_bytes};
use crate::witness::witness_size;

verus! {

/// Maximum number of non-push operations per script
pub const MAX_OPS_PER_SCRIPT: usize = 201;

/// Maximum number of values on script interpreter stack
pub const MAX_STACK_SIZE: usize = 1000;

/// If this flag is set, CTxIn::nSequence is NOT interpreted as a
/// relative lock-time.
/// It skips SequenceLocks() for any input that has it set (BIP 68).
/// It fails OP_CHECKSEQUENCEVERIFY/CheckSequence() for any input that has
/// it set (BIP 112).
pub const SEQUENCE_LOCKTIME_DISABLE_FLAG: i64 = 0x8000_0000;

/// How much weight budget is added to the witness size (Tapscript only, see BIP 342).
pub const VALIDATION_WEIGHT_OFFSET: i64 = 50;

/// Validation weight per passing signature (Tapscript only, see BIP 342).
pub const VALIDATION_WEIGHT_PER_SIGOP_PASSED: i64 = 50;

/// How an execution ended.
pub struct ResultData {
    pub success: bool,
    pub error: Option<ExecError>,
    pub opcode: Option<Opcode>,
    pub final_stack: Items,
}

/// The state of a script machine.
pub struct Machine {
    pub ctx: ExecCtx,
    pub opt: Options,
    pub tx: TemplateData,
    pub script: Seq<u8>,
    /// Where the next instruction starts.
    pub position: nat,
    /// Where the last instruction started.
    pub current: nat,
    /// For each conditional around the next instruction whether its branch is taken.
    pub levels: Seq<bool>,
    pub stack: Items,
    pub altstack: Items,
    /// Where the last executed OP_CODESEPARATOR stands.
    pub code_separator: Option<u32>,
    /// Where the script code starts that signatures sign.
    pub code_start: nat,
    /// The number of non-push operations that execution came to, which is limited.
    pub op_count: nat,
    /// The number of opcodes that were executed.
    pub executed: nat,
    pub weight: int,
    pub stats: ExecStats,
    /// How the execution ended, once it has.
    pub result: Option<ResultData>,
}

impl Machine {
    /// The number of items on both stacks.
    pub open spec fn items(self) -> nat {
        self.stack.len() + self.altstack.len()
    }

    /// Whether instructions are executed, and not skipped in a branch that is not taken.
    pub open spec fn active(self) -> bool {
        all_levels_true(self.levels)
    }

    /// The part of the script that signatures sign.
    pub open spec fn script_code(self) -> Seq<u8> {
        self.script.skip(self.code_start as int)
    }

    /// The part of the script that is not executed yet.
    pub open spec fn rest(self) -> Seq<u8> {
        self.script.skip(self.position as int)
    }
}

/// The effect of an operation that works on the stack alone.
pub open spec fn on_stack(m: Machine, effect: Effect<Items>) -> Effect<Machine> {
    match effect {
        Effect::Next(s) => Effect::Next(Machine { stack: s, ..m }),
        Effect::Fail(s, e) => Effect::Fail(Machine { stack: s, ..m }, e),
        Effect::Undefined => Effect::Undefined,
    }
}

/// The opcodes that do nothing.
pub open spec fn is_nop(op: u8) -> bool {
    op == 0x61 || op == 0xb0 || 0xb3 <= op <= 0xb9
}

/// OP_CHECKLOCKTIMEVERIFY insists on the lock time in the top item, of at most five bytes.
pub open spec fn cltv_effect(m: Machine) -> Effect<Machine> {
    if m.stack.len() < 1 {
        Effect::Fail(m, ExecError::InvalidStackOperation)
    } else {
        match decode_num(m.stack.last(), 5) {
            None => Effect::Fail(m, ExecError::ScriptIntNumericOverflow),
            Some(n) => if n < 0 {
                Effect::Fail(m, ExecError::NegativeLocktime)
            } else {
                match lock_time_holds(m.tx, n) {
                    None => Effect::Undefined,
                    Some(true) => Effect::Next(m),
                    Some(false) => Effect::Fail(m, ExecError::UnsatisfiedLocktime),
                }
            },
        }
    }
}

/// OP_CHECKSEQUENCEVERIFY insists on the sequence lock in the top item, of at most five bytes,
/// unless that has the disable flag.
pub open spec fn csv_effect(m: Machine) -> Effect<Machine> {
    if m.stack.len() < 1 {
        Effect::Fail(m, ExecError::InvalidStackOperation)
    } else {
        match decode_num(m.stack.last(), 5) {
            None => Effect::Fail(m, ExecError::ScriptIntNumericOverflow),
            Some(n) => if n < 0 {
                Effect::Fail(m, ExecError::NegativeLocktime)
            } else if n & SEQUENCE_LOCKTIME_DISABLE_FLAG != 0 {
                Effect::Next(m)
            } else {
                match sequence_holds(m.tx, n) {
                    None => Effect::Undefined,
                    Some(true) => Effect::Next(m),
                    Some(false) => Effect::Fail(m, ExecError::UnsatisfiedLocktime),
                }
            },
        }
    }
}

/// Whether a condition is written in the one minimal way: nothing for false, 1 for true.
pub open spec fn is_minimal_condition(b: Seq<u8>) -> bool {
    b.len() == 0 || (b.len() == 1 && b[0] == 1)
}

/// Whether conditions must be written so.
pub open spec fn wants_minimal_condition(m: Machine) -> bool {
    m.ctx == ExecCtx::Tapscript || (m.ctx == ExecCtx::SegwitV0 && m.opt.verify_minimal_if)
}

/// OP_IF and OP_NOTIF open a conditional. Where instructions are executed they take the top item
/// for its condition; elsewhere they only open a level.
pub open spec fn if_effect(m: Machine, op: u8) -> Effect<Machine> {
    if !m.active() {
        Effect::Next(Machine { levels: m.levels.push(false), ..m })
    } else if m.stack.len() < 1 {
        Effect::Fail(m, ExecError::InvalidStackOperation)
    } else if wants_minimal_condition(m) && !is_minimal_condition(m.stack.last()) {
        Effect::Fail(m, ExecError::TapscriptMinimalIf)
    } else {
        let taken = is_true(m.stack.last()) != (op == OP_NOTIF);
        Effect::Next(
            Machine { stack: m.stack.drop_last(), levels: m.levels.push(taken), ..m },
        )
    }
}

/// OP_ELSE turns to the other branch of the innermost conditional.
pub open spec fn else_effect(m: Machine) -> Effect<Machine> {
    if m.levels.len() == 0 {
        Effect::Fail(m, ExecError::UnbalancedConditional)
    } else {
        Effect::Next(
            Machine { levels: m.levels.update(m.levels.len() - 1, !m.levels.last()), ..m },
        )
    }
}

/// OP_ENDIF closes the innermost conditional.
pub open spec fn endif_effect(m: Machine) -> Effect<Machine> {
    if m.levels.len() == 0 {
        Effect::Fail(m, ExecError::UnbalancedConditional)
    } else {
        Effect::Next(Machine { levels: m.levels.drop_last(), ..m })
    }
}

/// OP_TOALTSTACK moves the top item to the other stack.
pub open spec fn to_alt_effect(m: Machine) -> Effect<Machine> {
    if m.stack.len() < 1 {
        Effect::Fail(m, ExecError::InvalidStackOperation)
    } else {
        Effect::Next(
            Machine {
                stack: m.stack.drop_last(),
                altstack: m.altstack.push(m.stack.last()),
                ..m
            },
        )
    }
}

/// OP_FROMALTSTACK moves the top item of the other stack back.
pub open spec fn from_alt_effect(m: Machine) -> Effect<Machine> {
    if m.altstack.len() < 1 {
        Effect::Fail(m, ExecError::InvalidStackOperation)
    } else {
        Effect::Next(
            Machine {
                stack: m.stack.push(m.altstack.last()),
                altstack: m.altstack.drop_last(),
                ..m
            },
        )
    }
}

/// The script code with every occurrence of the signature dropped, looked for from the front. An
/// empty signature occurs nowhere.
pub open spec fn strip_signature(code: Seq<u8>, sig: Seq<u8>) -> Seq<u8>
    decreases code.len(),
{
    if sig.len() == 0 || code.len() < sig.len() {
        code
    } else if code.take(sig.len() as int) == sig {
        strip_signature(code.skip(sig.len() as int), sig)
    } else {
        seq![code[0]] + strip_signature(code.skip(1), sig)
    }
}

/// What checking a signature comes to: the weight that is left, and whether it is accepted.
pub open spec fn check_sig_effect(m: Machine, sig: Seq<u8>, pk: Seq<u8>) -> Effect<(int, bool)> {
    match m.ctx {
        ExecCtx::Tapscript => check_sig_tap_effect(m, sig, pk),
        _ => check_sig_pre_tap_effect(m, sig, pk),
    }
}

/// In Tapscript a signature that is not empty costs weight, keys of 32 bytes are checked, and
/// keys of other lengths accept.
pub open spec fn check_sig_tap_effect(m: Machine, sig: Seq<u8>, pk: Seq<u8>) -> Effect<
    (int, bool),
> {
    let left = if sig.len() > 0 {
        m.weight - VALIDATION_WEIGHT_PER_SIGOP_PASSED
    } else {
        m.weight
    };
    if sig.len() > 0 && left < 0 {
        Effect::Fail((left, false), ExecError::TapscriptValidationWeight)
    } else if pk.len() == 0 {
        Effect::Fail((left, false), ExecError::PubkeyType)
    } else if pk.len() != 32 {
        Effect::Next((left, true))
    } else if sig.len() == 0 {
        Effect::Next((left, false))
    } else {
        match schnorr_result(m.tx, m.code_separator, sig, pk) {
            Ok(()) => Effect::Next((left, true)),
            Err(e) => Effect::Fail((left, false), e),
        }
    }
}

/// Before Tapscript the signature is dropped from the script code of legacy scripts, and witness
/// scripts refuse keys of 65 bytes.
pub open spec fn check_sig_pre_tap_effect(m: Machine, sig: Seq<u8>, pk: Seq<u8>) -> Effect<
    (int, bool),
> {
    let code = if m.ctx == ExecCtx::Legacy {
        strip_signature(m.script_code(), sig)
    } else {
        m.script_code()
    };
    if m.ctx == ExecCtx::SegwitV0 && pk.len() == 65 {
        Effect::Fail((m.weight, false), ExecError::WitnessPubkeyType)
    } else {
        Effect::Next((m.weight, ecdsa_accepts(m.ctx, m.tx, sig, pk, code)))
    }
}

/// OP_CHECKSIG says whether a signature is accepted, OP_CHECKSIGVERIFY insists on it.
pub open spec fn checksig_effect(m: Machine, op: u8) -> Effect<Machine> {
    if m.stack.len() < 2 {
        Effect::Fail(m, ExecError::InvalidStackOperation)
    } else {
        match check_sig_effect(m, item_at(m.stack, 2), item_at(m.stack, 1)) {
            Effect::Undefined => Effect::Undefined,
            Effect::Fail((left, _), e) => Effect::Fail(Machine { weight: left, ..m }, e),
            Effect::Next((left, accepted)) => {
                let rest = below(m.stack, 2);
                if op == OP_CHECKSIG {
                    Effect::Next(
                        Machine {
                            weight: left,
                            stack: rest.push(num_bytes(bool_num(accepted))),
                            ..m
                        },
                    )
                } else if accepted {
                    Effect::Next(Machine { weight: left, stack: rest, ..m })
                } else {
                    Effect::Fail(Machine { weight: left, ..m }, ExecError::CheckSigVerify)
                }
            },
        }
    }
}

/// OP_CHECKSIGADD counts an accepted signature. There is no outcome where the count does not
/// have 64 bits.
pub open spec fn checksigadd_effect(m: Machine) -> Effect<Machine> {
    if m.ctx != ExecCtx::Tapscript {
        Effect::Fail(m, ExecError::BadOpcode)
    } else if m.stack.len() < 3 {
        Effect::Fail(m, ExecError::InvalidStackOperation)
    } else {
        match num_at(m.stack, 2) {
            Err(e) => Effect::Fail(m, e),
            Ok(n) => match check_sig_effect(m, item_at(m.stack, 3), item_at(m.stack, 1)) {
                Effect::Undefined => Effect::Undefined,
                Effect::Fail((left, _), e) => Effect::Fail(Machine { weight: left, ..m }, e),
                Effect::Next((left, accepted)) => if accepted && n == i64::MAX {
                    Effect::Undefined
                } else {
                    let count = (n + bool_num(accepted)) as i64;
                    Effect::Next(
                        Machine {
                            weight: left,
                            stack: below(m.stack, 3).push(num_bytes(count)),
                            ..m
                        },
                    )
                },
            },
        }
    }
}

/// What an opcode does before the limit on the number of items is looked at.
pub open spec fn opcode_action(m: Machine, op: u8) -> Effect<Machine> {
    if is_push_num(op) {
        Effect::Next(Machine { stack: m.stack.push(num_bytes(pushed_num(op))), ..m })
    } else if is_nop(op) {
        Effect::Next(m)
    } else if op == OP_CLTV {
        if m.opt.verify_cltv {
            cltv_effect(m)
        } else {
            Effect::Next(m)
        }
    } else if op == OP_CSV {
        if m.opt.verify_csv {
            csv_effect(m)
        } else {
            Effect::Next(m)
        }
    } else if op == OP_IF || op == OP_NOTIF {
        if_effect(m, op)
    } else if op == OP_ELSE {
        else_effect(m)
    } else if op == OP_ENDIF {
        endif_effect(m)
    } else if op == OP_VERIFY {
        on_stack(m, verify_effect(m.stack))
    } else if op == OP_RETURN {
        Effect::Fail(m, ExecError::OpReturn)
    } else if op == OP_TOALTSTACK {
        to_alt_effect(m)
    } else if op == OP_FROMALTSTACK {
        from_alt_effect(m)
    } else if is_shuffle(op) {
        on_stack(m, shuffle_effect(m.stack, op))
    } else if op == OP_PICK || op == OP_ROLL {
        on_stack(m, pick_effect(m.stack, op))
    } else if op == OP_CAT || op == OP_AND {
        on_stack(m, join_effect(m.stack, op))
    } else if op == OP_SIZE {
        on_stack(m, size_effect(m.stack))
    } else if op == OP_EQUAL || op == OP_EQUALVERIFY {
        on_stack(m, equal_effect(m.stack, op))
    } else if is_unary(op) {
        on_stack(m, unary_effect(m.stack, op, m.opt.enforce_sub_nonnegative))
    } else if is_binary(op) {
        on_stack(m, binary_effect(m.stack, op, m.opt.enforce_sub_nonnegative))
    } else if op == OP_MUL {
        on_stack(m, mul_effect(m.stack))
    } else if op == OP_WITHIN {
        on_stack(m, within_effect(m.stack))
    } else if is_hash(op) {
        on_stack(m, hash_effect(m.stack, op))
    } else if op == OP_CODESEPARATOR {
        Effect::Next(
            Machine { code_separator: Some(m.current as u32), code_start: m.current, ..m },
        )
    } else if op == OP_CHECKSIG || op == OP_CHECKSIGVERIFY {
        checksig_effect(m, op)
    } else if op == OP_CHECKSIGADD {
        checksigadd_effect(m)
    } else if op == OP_CHECKMULTISIG || op == OP_CHECKMULTISIGVERIFY {
        Effect::Undefined
    } else {
        Effect::Fail(m, ExecError::BadOpcode)
    }
}

/// Whether there are more items than are allowed.
pub open spec fn over_limit(m: Machine) -> bool {
    m.opt.enforce_stack_limit && m.items() > MAX_STACK_SIZE
}

/// What comes of an opcode once the limit on the number of items is looked at. Where it would
/// leave too many, the items are left as they were in `m`.
pub open spec fn limited(m: Machine, effect: Effect<Machine>) -> Effect<Machine> {
    match effect {
        Effect::Next(n) => if over_limit(n) {
            Effect::Fail(
                Machine { stack: m.stack, altstack: m.altstack, ..n },
                ExecError::StackSize,
            )
        } else {
            Effect::Next(n)
        },
        other => other,
    }
}

/// What an opcode does.
pub open spec fn opcode_effect(m: Machine, op: u8) -> Effect<Machine> {
    limited(m, opcode_action(m, op))
}

/// Whether an opcode fails a script even where it is not executed.
pub open spec fn is_disabled(m: Machine, op: u8) -> bool {
    if op == OP_CAT {
        !m.opt.experimental.op_cat || m.ctx != ExecCtx::Tapscript
    } else if op == OP_MUL {
        !m.opt.experimental.op_mul || m.ctx != ExecCtx::Tapscript
    } else if op == OP_AND {
        !m.opt.experimental.op_and || m.ctx != ExecCtx::Tapscript
    } else {
        ||| 0x7f <= op <= 0x81
        ||| op == 0x83
        ||| 0x85 <= op <= 0x86
        ||| 0x8d <= op <= 0x8e
        ||| 0x96 <= op <= 0x99
    }
}

/// Brings the statistics up to date.
pub open spec fn counted(m: Machine) -> Machine {
    Machine {
        stats: ExecStats {
            max_nb_stack_items: if m.items() > m.stats.max_nb_stack_items {
                m.items() as usize
            } else {
                m.stats.max_nb_stack_items
            },
            opcode_count: m.executed as usize,
            start_validation_weight: m.stats.start_validation_weight,
            validation_weight: m.weight as i64,
        },
        ..m
    }
}

/// Ends the execution with an error.
pub open spec fn failed(m: Machine, e: ExecError, opcode: Option<Opcode>) -> Machine {
    Machine {
        result: Some(
            ResultData { success: false, error: Some(e), opcode, final_stack: m.stack },
        ),
        ..m
    }
}

/// Whether the items that a script leaves make it succeed: the top one must be true, and from
/// segwit on it must be the only one.
pub open spec fn leaves_success(ctx: ExecCtx, stack: Items) -> bool {
    match ctx {
        ExecCtx::Legacy => stack.len() > 0 && is_true(stack.last()),
        _ => stack.len() == 1 && is_true(stack.last()),
    }
}

/// Ends the execution at the end of the script.
pub open spec fn finished(m: Machine) -> Machine {
    Machine {
        result: Some(
            ResultData {
                success: leaves_success(m.ctx, m.stack),
                error: None,
                opcode: None,
                final_stack: m.stack,
            },
        ),
        ..m
    }
}

/// Comes to a push. It is refused where it is too long, and where it is executed and would leave
/// too many items.
pub open spec fn push_step(m: Machine, data: Seq<u8>) -> Machine {
    let pushed = Machine { stack: m.stack.push(data), ..m };
    if data.len() > MAX_SCRIPT_ELEMENT_SIZE {
        failed(m, ExecError::PushSize, None)
    } else if !m.active() {
        counted(m)
    } else if over_limit(pushed) {
        failed(m, ExecError::StackSize, None)
    } else {
        counted(pushed)
    }
}

/// The machine after an opcode that was executed.
pub open spec fn concluded(effect: Effect<Machine>, op: u8) -> Option<Machine> {
    match effect {
        Effect::Next(n) => Some(counted(n)),
        Effect::Fail(n, e) => Some(failed(n, e, Some(Opcode(op)))),
        Effect::Undefined => None,
    }
}

/// Whether an opcode is a non-push operation.
pub open spec fn is_operation(op: u8) -> bool {
    op > OP_PUSHNUM_16
}

/// The machine with an opcode counted for the limit on operations.
pub open spec fn tallied(m: Machine, op: u8) -> Machine {
    if is_operation(op) {
        Machine { op_count: m.op_count + 1, ..m }
    } else {
        m
    }
}

/// The machine that is about to execute an opcode.
pub open spec fn executing(m: Machine, op: u8) -> Machine {
    Machine { executed: m.executed + 1, ..tallied(m, op) }
}

/// Whether an opcode is executed and not skipped.
pub open spec fn is_executed(m: Machine, op: u8) -> bool {
    m.active() || OP_IF <= op <= OP_ENDIF
}

/// Comes to an opcode.
pub open spec fn op_step(m: Machine, op: u8) -> Option<Machine> {
    let t = tallied(m, op);
    if m.ctx != ExecCtx::Tapscript && is_operation(op) && t.op_count > MAX_OPS_PER_SCRIPT {
        Some(failed(t, ExecError::OpCount, None))
    } else if is_disabled(m, op) {
        Some(failed(t, ExecError::DisabledOpcode, Some(Opcode(op))))
    } else if op == OP_RESERVED {
        Some(failed(t, ExecError::Debug, Some(Opcode(op))))
    } else if is_executed(m, op) {
        concluded(opcode_effect(executing(m, op), op), op)
    } else {
        Some(counted(t))
    }
}

/// The machine past an instruction of `n` bytes.
pub open spec fn moved(m: Machine, n: nat) -> Machine {
    Machine { position: m.position + n, current: m.position, ..m }
}

/// The machine after one more instruction, or after the end of the script; the machine as it is
/// once the execution has ended. A machine that holds too many items goes no further. Nothing
/// where the instruction has no outcome.
pub open spec fn step(m: Machine) -> Option<Machine> {
    if m.result is Some {
        Some(m)
    } else if over_limit(m) {
        Some(failed(moved(m, 0), ExecError::StackSize, None))
    } else {
        match decode(m.rest(), m.opt.require_minimal) {
            Decoded::End => Some(finished(moved(m, 0))),
            Decoded::Bad(_) => None,
            Decoded::Instr(InstructionData::PushBytes(data), n) => Some(
                push_step(moved(m, n), data),
            ),
            Decoded::Instr(InstructionData::Op(op), n) => op_step(moved(m, n), op),
        }
    }
}

/// Why a machine cannot be set up: in Tapscript it must be told the leaf, an annex must start as
/// an annex does, and the script must decode.
pub open spec fn setup_error(
    ctx: ExecCtx,
    opt: Options,
    tx: TemplateData,
    script: Seq<u8>,
) -> Option<Error> {
    if ctx == ExecCtx::Tapscript && tx.taproot is None {
        Some(Error::Other("missing taproot tx info in tapscript context"))
    } else if ctx == ExecCtx::Tapscript && !annex_ok(tx.annex()) {
        Some(Error::Other("invalid annex: missing prefix"))
    } else {
        match first_error(script, opt.require_minimal) {
            Some(e) => Some(Error::InvalidScript(e)),
            None => None,
        }
    }
}

/// Whether the machine can count what it may come to hold.
pub open spec fn is_countable(script: Seq<u8>, witness: Items) -> bool {
    &&& witness.len() + 3 * script.len() <= isize::MAX
    &&& VALIDATION_WEIGHT_OFFSET + witness_size(witness) <= isize::MAX
}

/// The machine before the first instruction, with the witness on the stack.
pub open spec fn start(
    ctx: ExecCtx,
    opt: Options,
    tx: TemplateData,
    script: Seq<u8>,
    witness: Items,
) -> Machine {
    let weight = VALIDATION_WEIGHT_OFFSET + witness_size(witness);
    Machine {
        ctx,
        opt,
        tx,
        script,
        position: 0,
        current: 0,
        levels: Seq::empty(),
        stack: witness,
        altstack: Seq::empty(),
        code_separator: None,
        code_start: 0,
        op_count: 0,
        executed: 0,
        weight,
        stats: ExecStats {
            max_nb_stack_items: witness.len() as usize,
            opcode_count: 0,
            start_validation_weight: weight as i64,
            validation_weight: weight as i64,
        },
        result: None,
    }
}

/// Nothing but the stacks, the conditionals, the weight and the script code differs.
pub open spec fn same_frame(m: Machine, n: Machine) -> bool {
    n == (Machine {
        stack: n.stack,
        altstack: n.altstack,
        levels: n.levels,
        weight: n.weight,
        code_separator: n.code_separator,
        code_start: n.code_start,
        ..m
    })
}

/// Whether an opcode leads no further from `m` than to `n`.
pub open spec fn within_reach(m: Machine, n: Machine) -> bool {
    &&& same_frame(m, n)
    &&& n.items() <= m.items() + 3
    &&& n.levels.len() <= m.levels.len() + 1
    &&& n.code_start == m.code_start || n.code_start == m.current
    &&& n.weight == m.weight || n.weight == m.weight - VALIDATION_WEIGHT_PER_SIGOP_PASSED
}

/// Whether both stacks hold the same items.
pub open spec fn same_items(m: Machine, n: Machine) -> bool {
    n.stack == m.stack && n.altstack == m.altstack
}

/// What holds of an opcode whatever it comes to.
spec fn reaches(m: Machine, effect: Effect<Machine>) -> bool {
    match effect {
        Effect::Next(n) => within_reach(m, n) && (m.weight >= 0 ==> n.weight >= 0),
        Effect::Fail(n, _) => within_reach(m, n) && same_items(m, n),
        Effect::Undefined => true,
    }
}

#[verifier::rlimit(40)]
proof fn lemma_signature_reach(m: Machine, op: u8)
    ensures
        reaches(m, checksig_effect(m, op)),
        reaches(m, checksigadd_effect(m)),
{
}

proof fn lemma_control_reach(m: Machine, op: u8)
    ensures
        reaches(m, cltv_effect(m)),
        reaches(m, csv_effect(m)),
        reaches(m, if_effect(m, op)),
        reaches(m, else_effect(m)),
        reaches(m, endif_effect(m)),
        reaches(m, to_alt_effect(m)),
        reaches(m, from_alt_effect(m)),
{
}

proof fn lemma_number_reach(m: Machine, op: u8)
    ensures
        reaches(m, on_stack(m, unary_effect(m.stack, op, m.opt.enforce_sub_nonnegative))),
        reaches(m, on_stack(m, binary_effect(m.stack, op, m.opt.enforce_sub_nonnegative))),
        reaches(m, on_stack(m, mul_effect(m.stack))),
        reaches(m, on_stack(m, within_effect(m.stack))),
{
}

proof fn lemma_items_reach(m: Machine, op: u8)
    ensures
        reaches(m, on_stack(m, shuffle_effect(m.stack, op))),
        reaches(m, on_stack(m, pick_effect(m.stack, op))),
        reaches(m, on_stack(m, join_effect(m.stack, op))),
        reaches(m, on_stack(m, size_effect(m.stack))),
        reaches(m, on_stack(m, equal_effect(m.stack, op))),
        reaches(m, on_stack(m, verify_effect(m.stack))),
        reaches(m, on_stack(m, hash_effect(m.stack, op))),
{
}

#[verifier::rlimit(40)]
proof fn lemma_action_reach(m: Machine, op: u8)
    ensures
        reaches(m, opcode_action(m, op)),
{
    lemma_signature_reach(m, op);
    lemma_control_reach(m, op);
    lemma_number_reach(m, op);
    lemma_items_reach(m, op);
}

/// An opcode, whether it succeeds or fails, leaves the script, the transaction, the options, the
/// position, the counters and the result as they are, adds at most three items and one
/// conditional, and takes no weight or that of one signature. One that succeeds does not overdraw
/// the weight, and respects the limit on the number of items where that is enforced. One that
/// fails leaves the items as they were.
pub proof fn lemma_opcode_reach(m: Machine, op: u8)
    ensures
        opcode_effect(m, op) matches Effect::Next(n) ==> {
            &&& within_reach(m, n)
            &&& m.weight >= 0 ==> 0 <= n.weight <= m.weight
            &&& !over_limit(n)
        },
        opcode_effect(m, op) matches Effect::Fail(n, _) ==> within_reach(m, n) && same_items(m, n),
        opcode_action(m, op) matches Effect::Next(n) ==> within_reach(m, n),
        opcode_action(m, op) matches Effect::Fail(n, _) ==> same_items(m, n),
{
    lemma_action_reach(m, op);
    let effect = opcode_action(m, op);
    assert(reaches(m, effect));
    assert(opcode_effect(m, op) == limited(m, effect));
}

/// Whether no item on either stack is longer than a push may be.
pub open spec fn items_fit(m: Machine) -> bool {
    short_items(m.stack) && short_items(m.altstack)
}

/// Whether the items that an operation leaves are no longer than a push may be.
pub open spec fn effect_fits(effect: Effect<Machine>) -> bool {
    match effect {
        Effect::Next(n) => items_fit(n),
        Effect::Fail(n, _) => items_fit(n),
        Effect::Undefined => true,
    }
}

proof fn lemma_signature_fits(m: Machine, op: u8)
    requires
        items_fit(m),
    ensures
        effect_fits(checksig_effect(m, op)),
        effect_fits(checksigadd_effect(m)),
{
    lemma_nums_short();
}

proof fn lemma_nums_short()
    ensures
        forall|n: i64| (#[trigger] num_bytes(n)).len() <= MAX_SCRIPT_ELEMENT_SIZE,
{
    assert forall|n: i64| (#[trigger] num_bytes(n)).len() <= MAX_SCRIPT_ELEMENT_SIZE by {
        lemma_num_roundtrip(n);
    }
}

proof fn lemma_control_fits(m: Machine, op: u8)
    requires
        items_fit(m),
    ensures
        effect_fits(cltv_effect(m)),
        effect_fits(csv_effect(m)),
        effect_fits(if_effect(m, op)),
        effect_fits(else_effect(m)),
        effect_fits(endif_effect(m)),
        effect_fits(to_alt_effect(m)),
        effect_fits(from_alt_effect(m)),
{
}

proof fn lemma_number_fits(m: Machine, op: u8)
    requires
        items_fit(m),
    ensures
        effect_fits(on_stack(m, unary_effect(m.stack, op, m.opt.enforce_sub_nonnegative))),
        effect_fits(on_stack(m, binary_effect(m.stack, op, m.opt.enforce_sub_nonnegative))),
        effect_fits(on_stack(m, mul_effect(m.stack))),
        effect_fits(on_stack(m, within_effect(m.stack))),
{
    lemma_nums_short();
}

proof fn lemma_items_fit(m: Machine, op: u8)
    requires
        items_fit(m),
    ensures
        effect_fits(on_stack(m, shuffle_effect(m.stack, op))),
        effect_fits(on_stack(m, pick_effect(m.stack, op))),
        effect_fits(on_stack(m, join_effect(m.stack, op))),
        effect_fits(on_stack(m, size_effect(m.stack))),
        effect_fits(on_stack(m, equal_effect(m.stack, op))),
        effect_fits(on_stack(m, verify_effect(m.stack))),
{
    lemma_nums_short();
}

/// No opcode leaves an item longer than a push may be, given that no hash has more bytes than
/// that.
#[verifier::rlimit(40)]
pub proof fn lemma_action_fits(m: Machine, op: u8)
    requires
        items_fit(m),
        is_hash(op) ==> (hash_effect(m.stack, op) matches Effect::Next(s) ==> s.last().len()
            <= MAX_SCRIPT_ELEMENT_SIZE),
    ensures
        effect_fits(opcode_action(m, op)),
{
    lemma_nums_short();
    lemma_signature_fits(m, op);
    lemma_control_fits(m, op);
    lemma_number_fits(m, op);
    lemma_items_fit(m, op);
}

/// A step that has an outcome leaves the script, the transaction, the context and the options as
/// they are. It gets past at least one byte of the script, or ends the execution where it is. It
/// does not add to the weight.
#[verifier::rlimit(40)]
pub proof fn lemma_step_progress(m: Machine)
    requires
        m.result is None,
        m.position <= m.script.len(),
    ensures
        step(m) matches Some(n) ==> {
            &&& n.ctx == m.ctx && n.opt == m.opt && n.tx == m.tx && n.script == m.script
            &&& n.current == m.position
            &&& m.position <= n.position <= m.script.len()
            &&& m.position == m.script.len() ==> n.position == m.position
            &&& n.position == m.position ==> n.result is Some
            &&& m.op_count <= n.op_count <= m.op_count + 1
            &&& m.executed <= n.executed <= m.executed + 1
            &&& n.weight <= m.weight
        },
{
    match decode(m.rest(), m.opt.require_minimal) {
        Decoded::Instr(InstructionData::Op(op), n) => {
            lemma_opcode_reach(executing(moved(m, n), op), op);
        },
        _ => {},
    }
}

/// The machine once its execution has ended. Nothing where some instruction on the way has no
/// outcome.
pub open spec fn run(m: Machine) -> Option<Machine>
    decreases
            (if m.result is Some {
                0
            } else {
                1 + m.script.len() - m.position
            }),
        when m.position <= m.script.len()
{
    if m.result is Some {
        Some(m)
    } else {
        proof {
            lemma_step_progress(m);
        }
        match step(m) {
            Some(n) => run(n),
            None => None,
        }
    }
}

} // verus!
