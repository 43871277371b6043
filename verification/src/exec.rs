use vstd::prelude::*;

use crate::data_structures::{read_scriptint, Stack};
use crate::effects::{is_hash, outcome, Effect, Stop, MAX_SCRIPT_ELEMENT_SIZE};
use crate::error::{Error, ExecError};
use crate::instruction::{decode, find_error, first_error, next_instruction, Decoded, Instruction};
use crate::locktime::{check_lock_time, check_sequence};
use crate::machine::{
    check_sig_effect, check_sig_pre_tap_effect, check_sig_tap_effect, checksig_effect,
    checksigadd_effect, cltv_effect, counted, csv_effect, effect_fits, failed, if_effect,
    is_countable, is_disabled, items_fit, leaves_success, lemma_action_fits, lemma_opcode_reach,
    limited, moved, op_step, opcode_action, opcode_effect, push_step, setup_error, start, step,
    strip_signature, Machine, ResultData, MAX_OPS_PER_SCRIPT, MAX_STACK_SIZE,
    SEQUENCE_LOCKTIME_DISABLE_FLAG, VALIDATION_WEIGHT_OFFSET, VALIDATION_WEIGHT_PER_SIGOP_PASSED,
};
use crate::opcodes::{
    Opcode, OP_0NOTEQUAL, OP_1ADD, OP_1SUB, OP_2DIV, OP_2DROP, OP_2MUL, OP_ADD, OP_AND, OP_BOOLAND,
    OP_CAT, OP_CHECKMULTISIG, OP_CHECKMULTISIGVERIFY, OP_CHECKSIG, OP_CHECKSIGADD,
    OP_CHECKSIGVERIFY, OP_CLTV, OP_CODESEPARATOR, OP_CSV, OP_DIV, OP_ELSE, OP_ENDIF, OP_EQUAL,
    OP_EQUALVERIFY, OP_FROMALTSTACK, OP_HASH256, OP_IF, OP_INVERT, OP_MAX, OP_MUL, OP_NEGATE,
    OP_NOP, OP_NOP1, OP_NOP10, OP_NOP4, OP_NOTIF, OP_OR, OP_OVER, OP_PICK, OP_PUSHNUM_1,
    OP_PUSHNUM_16, OP_PUSHNUM_NEG1, OP_RESERVED, OP_RETURN, OP_RIGHT, OP_RIPEMD160, OP_ROLL, OP_ROT,
    OP_RSHIFT, OP_SIZE, OP_SUB, OP_SUBSTR, OP_TOALTSTACK, OP_TUCK, OP_VERIFY, OP_WITHIN, OP_XOR,
};
use crate::ops;
use crate::options::{ExecCtx, Options};
use crate::signatures::{annex_ok, check_sig_ecdsa, check_sig_schnorr, ANNEX_PREFIX};
use crate::transaction::TxTemplate;
use crate::utils::ConditionStack;
use crate::witness::{encoded_size, witness_items};

verus! {

/// How an execution ended.
#[derive(Debug)]
pub struct ExecutionResult {
    pub success: bool,
    pub error: Option<ExecError>,
    pub opcode: Option<Opcode>,
    pub final_stack: Stack,
}

impl View for ExecutionResult {
    type V = ResultData;

    open spec fn view(&self) -> ResultData {
        ResultData {
            success: self.success,
            error: self.error,
            opcode: self.opcode,
            final_stack: self.final_stack@,
        }
    }
}

impl Clone for ExecutionResult {
    fn clone(&self) -> (r: Self)
        ensures
            r@ == self@,
    {
        ExecutionResult {
            success: self.success,
            error: self.error,
            opcode: self.opcode,
            final_stack: self.final_stack.clone(),
        }
    }
}

/// Numbers about an execution.
#[derive(Debug, Clone, Copy, PartialEq, Eq, Structural)]
pub struct ExecStats {
    /// The highest number of stack items occurred during execution.
    /// This counts both the stack and the altstack.
    pub max_nb_stack_items: usize,
    /// The number of opcodes executed, plus an additional one
    /// per signature in CHECKMULTISIG.
    pub opcode_count: usize,
    /// The validation weight execution started with.
    pub start_validation_weight: i64,
    /// The current remaining validation weight.
    pub validation_weight: i64,
}

impl Default for ExecStats {
    fn default() -> (r: Self)
        ensures
            r == (ExecStats {
                max_nb_stack_items: 0,
                opcode_count: 0,
                start_validation_weight: 0,
                validation_weight: 0,
            }),
    {
        ExecStats {
            max_nb_stack_items: 0,
            opcode_count: 0,
            start_validation_weight: 0,
            validation_weight: 0,
        }
    }
}

impl ExecutionResult {
    /// The result of an execution that came to the end of its script.
    pub fn from_final_stack(ctx: ExecCtx, final_stack: Stack) -> (r: ExecutionResult)
        ensures
            r@ == (ResultData {
                success: leaves_success(ctx, final_stack@),
                error: None,
                opcode: None,
                final_stack: final_stack@,
            }),
    {
        let success = match ctx {
            ExecCtx::Legacy => {
                if final_stack.is_empty() {
                    false
                } else {
                    ops::read_scriptbool(final_stack.last().unwrap().as_slice())
                }
            },
            ExecCtx::SegwitV0 | ExecCtx::Tapscript => {
                if final_stack.len() != 1 {
                    false
                } else {
                    ops::read_scriptbool(final_stack.last().unwrap().as_slice())
                }
            },
        };
        ExecutionResult { success, final_stack, error: None, opcode: None }
    }
}

impl ExecutionResult {
    /// The result of an execution that came to the end of its script while it was profiled, where
    /// `completed` says whether every part of the profile was closed.
    pub fn from_final_stack_and_profiler(
        ctx: ExecCtx,
        final_stack: Stack,
        completed: bool,
    ) -> (r: ExecutionResult)
        ensures
            r@ == (ResultData {
                success: completed && leaves_success(ctx, final_stack@),
                error: if completed {
                    None
                } else {
                    Some(ExecError::Debug)
                },
                opcode: None,
                final_stack: final_stack@,
            }),
    {
        if !completed {
            return ExecutionResult {
                success: false,
                error: Some(ExecError::Debug),
                opcode: None,
                final_stack,
            };
        }
        ExecutionResult::from_final_stack(ctx, final_stack)
    }
}

/// Partial execution of a script.
pub struct Exec {
    ctx: ExecCtx,
    opt: Options,
    tx: TxTemplate,
    result: Option<ExecutionResult>,
    script: Vec<u8>,
    /// Where the next instruction starts.
    position: usize,
    current_position: usize,
    cond_stack: ConditionStack,
    stack: Stack,
    altstack: Stack,
    last_codeseparator_pos: Option<u32>,
    /// Where the script code starts. Initially the whole script, but updated when
    /// OP_CODESEPARATOR is encountered.
    code_start: usize,
    /// The number of non-push operations that execution came to.
    op_count: usize,
    /// The number of opcodes executed.
    opcode_count: usize,
    validation_weight: i64,
    /// runtime statistics
    stats: ExecStats,
}

impl View for Exec {
    type V = Machine;

    closed spec fn view(&self) -> Machine {
        Machine {
            ctx: self.ctx,
            opt: self.opt,
            tx: self.tx@,
            script: self.script@,
            position: self.position as nat,
            current: self.current_position as nat,
            levels: self.cond_stack@,
            stack: self.stack@,
            altstack: self.altstack@,
            code_separator: self.last_codeseparator_pos,
            code_start: self.code_start as nat,
            op_count: self.op_count as nat,
            executed: self.opcode_count as nat,
            weight: self.validation_weight as int,
            stats: self.stats,
            result: match self.result {
                Some(r) => Some(r@),
                None => None,
            },
        }
    }
}

/// What holds of a machine between two instructions, with room for `room` more items and as many
/// more conditionals as there are bytes behind it.
spec fn machine_inv(m: Machine, room: int) -> bool {
    &&& m.current <= m.position <= m.script.len()
    &&& m.code_start <= m.script.len()
    &&& m.items() + 3 * (m.script.len() - m.position) + room <= isize::MAX
    &&& m.levels.len() <= m.position
    &&& m.op_count <= m.position
    &&& m.executed <= m.position
    &&& m.result is None ==> m.weight >= 0
    &&& first_error(m.rest(), m.opt.require_minimal) is None
    &&& m.ctx == ExecCtx::Tapscript ==> m.tx.taproot is Some && annex_ok(m.tx.annex())
}

impl Exec {
    /// The machine is one that `new` made and that has come some way from there.
    pub closed spec fn wf(&self) -> bool {
        &&& self.cond_stack.wf()
        &&& machine_inv(self@, 0)
    }
}

/// The script code with every occurrence of the signature dropped.
fn without_signature(code: &[u8], sig: &[u8]) -> (r: Vec<u8>)
    ensures
        r@ == strip_signature(code@, sig@),
{
    let mut rest: Vec<u8> = Vec::new();
    let mut i: usize = 0;
    assert(code@.skip(0) =~= code@);
    assert(rest@ + strip_signature(code@, sig@) =~= strip_signature(code@, sig@));
    while i < code.len()
        invariant
            i <= code@.len(),
            rest@ + strip_signature(code@.skip(i as int), sig@) == strip_signature(code@, sig@),
        decreases code@.len() - i,
    {
        let ghost tail = code@.skip(i as int);
        if sig.len() > 0 && sig.len() <= code.len() - i {
            let window = vstd::slice::slice_subrange(code, i, i + sig.len());
            assert(window@ =~= tail.take(sig@.len() as int));
            if ops::same_bytes(window, sig) {
                assert(tail.skip(sig@.len() as int) =~= code@.skip(i + sig@.len()));
                i = i + sig.len();
                continue ;
            }
        }
        proof {
            assert(tail.skip(1) =~= code@.skip(i + 1));
            lemma_strip_first(tail, sig@);
            assert(rest@.push(tail[0]) + strip_signature(tail.skip(1), sig@) =~= rest@ + (seq![
                tail[0],
            ] + strip_signature(tail.skip(1), sig@)));
        }
        rest.push(code[i]);
        i = i + 1;
    }
    proof {
        let tail = code@.skip(i as int);
        assert(tail =~= Seq::empty());
        assert(strip_signature(tail, sig@) =~= Seq::empty());
        assert(rest@ + Seq::<u8>::empty() =~= rest@);
    }
    rest
}

/// A byte at which no signature starts stays.
proof fn lemma_strip_first(code: Seq<u8>, sig: Seq<u8>)
    requires
        code.len() > 0,
        sig.len() == 0 || code.len() < sig.len() || code.take(sig.len() as int) != sig,
    ensures
        strip_signature(code, sig) == seq![code[0]] + strip_signature(code.skip(1), sig),
{
    if sig.len() == 0 || code.len() < sig.len() {
        assert(seq![code[0]] + code.skip(1) =~= code);
    }
}

/// What checking a signature came to that returned `r` and left the weight at `left`.
spec fn sig_outcome(r: Result<bool, ExecError>, left: int) -> Effect<(int, bool)> {
    match r {
        Ok(accepted) => Effect::Next((left, accepted)),
        Err(e) => Effect::Fail((left, false), e),
    }
}

impl Exec {
    fn check_sig_pre_tap(&mut self, sig: &[u8], pk: &[u8]) -> (r: Result<bool, ExecError>)
        requires
            old(self)@.code_start <= old(self)@.script.len(),
            old(self)@.ctx != ExecCtx::Tapscript,
        ensures
            *final(self) == *old(self),
            sig_outcome(r, final(self)@.weight) == check_sig_pre_tap_effect(
                old(self)@,
                sig@,
                pk@,
            ),
    {
        let code = vstd::slice::slice_subrange(
            self.script.as_slice(),
            self.code_start,
            self.script.len(),
        );
        assert(code@ =~= self@.script_code());
        // Drop the signature in pre-segwit scripts but not segwit scripts
        let scriptcode = if self.ctx == ExecCtx::Legacy {
            without_signature(code, sig)
        } else {
            vstd::slice::slice_to_vec(code)
        };
        if self.ctx == ExecCtx::SegwitV0 && pk.len() == 65 {
            return Err(ExecError::WitnessPubkeyType);
        }
        Ok(check_sig_ecdsa(self.ctx, &self.tx, sig, pk, scriptcode.as_slice()))
    }

    fn check_sig_tap(&mut self, sig: &[u8], pk: &[u8]) -> (r: Result<bool, ExecError>)
        requires
            old(self)@.weight >= 0,
            old(self)@.tx.taproot is Some,
            annex_ok(old(self)@.tx.annex()),
        ensures
            *final(self) == (Exec {
                validation_weight: final(self).validation_weight,
                ..*old(self)
            }),
            sig_outcome(r, final(self)@.weight) == check_sig_tap_effect(old(self)@, sig@, pk@),
    {
        if sig.len() > 0 {
            self.validation_weight = self.validation_weight - VALIDATION_WEIGHT_PER_SIGOP_PASSED;
            if self.validation_weight < 0 {
                return Err(ExecError::TapscriptValidationWeight);
            }
        }
        if pk.len() == 0 {
            Err(ExecError::PubkeyType)
        } else if pk.len() == 32 {
            if sig.len() > 0 {
                match check_sig_schnorr(&self.tx, self.last_codeseparator_pos, sig, pk) {
                    Ok(()) => Ok(true),
                    Err(e) => Err(e),
                }
            } else {
                Ok(false)
            }
        } else {
            Ok(true)
        }
    }

    fn check_sig(&mut self, sig: &[u8], pk: &[u8]) -> (r: Result<bool, ExecError>)
        requires
            machine_inv(old(self)@, 0),
            old(self)@.result is None,
        ensures
            *final(self) == (Exec {
                validation_weight: final(self).validation_weight,
                ..*old(self)
            }),
            sig_outcome(r, final(self)@.weight) == check_sig_effect(old(self)@, sig@, pk@),
    {
        match self.ctx {
            ExecCtx::Legacy | ExecCtx::SegwitV0 => self.check_sig_pre_tap(sig, pk),
            ExecCtx::Tapscript => self.check_sig_tap(sig, pk),
        }
    }
}

impl Exec {
    /// What holds of the machine past an opcode that it has still to execute.
    spec fn ready(&self) -> bool {
        &&& self.cond_stack.wf()
        &&& machine_inv(self@, 3)
        &&& self@.levels.len() < self@.position
        &&& self@.result is None
    }

    /// Insists on the lock time in the top item.
    fn exec_cltv(&mut self) -> (r: Result<(), Stop>)
        ensures
            *final(self) == *old(self),
            outcome(r, final(self)@) == cltv_effect(old(self)@),
    {
        let top = match self.stack.topstr(-1) {
            Ok(top) => top,
            Err(e) => {
                return Err(Stop::Error(e));
            },
        };
        // Note that elsewhere numeric opcodes are limited to
        // operands of at most 8 bytes, here as in CHECKSEQUENCEVERIFY
        // at most 5 are accepted, which are good until 2**39-1, well
        // beyond the 2**32-1 limit of the nLockTime field itself.
        let n = match read_scriptint(top.as_slice(), 5, self.opt.require_minimal) {
            Ok(n) => n,
            Err(e) => {
                return Err(Stop::Error(e));
            },
        };
        if n < 0 {
            return Err(Stop::Error(ExecError::NegativeLocktime));
        }
        match check_lock_time(&self.tx, n) {
            None => Err(Stop::Undefined),
            Some(true) => Ok(()),
            Some(false) => Err(Stop::Error(ExecError::UnsatisfiedLocktime)),
        }
    }

    /// Insists on the sequence lock in the top item.
    fn exec_csv(&mut self) -> (r: Result<(), Stop>)
        ensures
            *final(self) == *old(self),
            outcome(r, final(self)@) == csv_effect(old(self)@),
    {
        let top = match self.stack.topstr(-1) {
            Ok(top) => top,
            Err(e) => {
                return Err(Stop::Error(e));
            },
        };
        // nSequence, like nLockTime, is a 32-bit unsigned integer
        // field. See the comment in CHECKLOCKTIMEVERIFY regarding
        // 5-byte numeric operands.
        let n = match read_scriptint(top.as_slice(), 5, self.opt.require_minimal) {
            Ok(n) => n,
            Err(e) => {
                return Err(Stop::Error(e));
            },
        };
        if n < 0 {
            return Err(Stop::Error(ExecError::NegativeLocktime));
        }
        if n & SEQUENCE_LOCKTIME_DISABLE_FLAG != 0 {
            return Ok(());
        }
        match check_sequence(&self.tx, n) {
            None => Err(Stop::Undefined),
            Some(true) => Ok(()),
            Some(false) => Err(Stop::Error(ExecError::UnsatisfiedLocktime)),
        }
    }

    /// Opens a conditional.
    fn exec_if(&mut self, op: u8) -> (r: Result<(), Stop>)
        requires
            old(self).ready(),
        ensures
            final(self).cond_stack.wf(),
            outcome(r, final(self)@) == if_effect(old(self)@, op),
    {
        if !self.cond_stack.all_true() {
            self.cond_stack.push(false);
            return Ok(());
        }
        let top = match self.stack.topstr(-1) {
            Ok(top) => top,
            Err(e) => {
                return Err(Stop::Error(e));
            },
        };
        let minimal = top.len() == 0 || (top.len() == 1 && top[0] == 1);
        // Tapscript requires minimal IF/NOTIF inputs as a consensus rule.
        // The input argument to the OP_IF and OP_NOTIF opcodes must be either
        // exactly 0 (the empty vector) or exactly 1 (the one-byte vector with value 1).
        if self.ctx == ExecCtx::Tapscript && !minimal {
            return Err(Stop::Error(ExecError::TapscriptMinimalIf));
        }
        // Under segwit v0 only enabled as policy.
        if self.opt.verify_minimal_if && self.ctx == ExecCtx::SegwitV0 && !minimal {
            return Err(Stop::Error(ExecError::TapscriptMinimalIf));
        }
        let truth = ops::read_scriptbool(top.as_slice());
        let taken = if op == OP_NOTIF {
            !truth
        } else {
            truth
        };
        let ghost s = self.stack@;
        self.stack.popn(1);
        assert(self.stack@ =~= s.drop_last());
        self.cond_stack.push(taken);
        Ok(())
    }

    /// Checks a signature and says, or insists on, whether it is accepted.
    fn exec_checksig(&mut self, op: u8) -> (r: Result<(), Stop>)
        requires
            old(self).ready(),
            op == OP_CHECKSIG || op == OP_CHECKSIGVERIFY,
        ensures
            final(self).cond_stack.wf(),
            outcome(r, final(self)@) == checksig_effect(old(self)@, op),
    {
        let sig = match self.stack.topstr(-2) {
            Ok(sig) => sig,
            Err(e) => {
                return Err(Stop::Error(e));
            },
        };
        let pk = match self.stack.topstr(-1) {
            Ok(pk) => pk,
            Err(e) => {
                return Err(Stop::Error(e));
            },
        };
        let res = match self.check_sig(sig.as_slice(), pk.as_slice()) {
            Ok(res) => res,
            Err(e) => {
                return Err(Stop::Error(e));
            },
        };
        if op == OP_CHECKSIGVERIFY && !res {
            return Err(Stop::Error(ExecError::CheckSigVerify));
        }
        self.stack.popn(2);
        if op == OP_CHECKSIG {
            let ret: i64 = if res {
                1
            } else {
                0
            };
            self.stack.pushnum(ret);
        }
        Ok(())
    }

    /// Checks a signature and counts it where it is accepted.
    fn exec_checksigadd(&mut self) -> (r: Result<(), Stop>)
        requires
            old(self).ready(),
        ensures
            final(self).cond_stack.wf(),
            outcome(r, final(self)@) == checksigadd_effect(old(self)@),
    {
        if self.ctx == ExecCtx::Legacy || self.ctx == ExecCtx::SegwitV0 {
            return Err(Stop::Error(ExecError::BadOpcode));
        }
        let sig = match self.stack.topstr(-3) {
            Ok(sig) => sig,
            Err(e) => {
                return Err(Stop::Error(e));
            },
        };
        let mut n = match self.stack.topnum(-2, self.opt.require_minimal) {
            Ok(n) => n,
            Err(e) => {
                return Err(Stop::Error(e));
            },
        };
        let pk = match self.stack.topstr(-1) {
            Ok(pk) => pk,
            Err(e) => {
                return Err(Stop::Error(e));
            },
        };
        let res = match self.check_sig(sig.as_slice(), pk.as_slice()) {
            Ok(res) => res,
            Err(e) => {
                return Err(Stop::Error(e));
            },
        };
        if res && n == i64::MAX {
            return Err(Stop::Undefined);
        }
        self.stack.popn(3);
        if res {
            n = n + 1;
        }
        self.stack.pushnum(n);
        Ok(())
    }

    /// Does what the opcode does before the limit on the number of items is looked at.
    #[verifier::rlimit(60)]
    fn exec_action(&mut self, op: u8) -> (r: Result<(), Stop>)
        requires
            old(self).ready(),
            !is_disabled(old(self)@, op),
        ensures
            final(self).cond_stack.wf(),
            outcome(r, final(self)@) == opcode_action(old(self)@, op),
            is_hash(op) && r is Ok ==> final(self)@.stack.last().len() <= MAX_SCRIPT_ELEMENT_SIZE,
    {
        let minimal = self.opt.require_minimal;
        let nonnegative = self.opt.enforce_sub_nonnegative;
        if op == OP_PUSHNUM_NEG1 || (OP_PUSHNUM_1 <= op && op <= OP_PUSHNUM_16) {
            // Push value
            ops::push_num(&mut self.stack, op);
            Ok(())
        } else if op == OP_NOP || op == OP_NOP1 || (OP_NOP4 <= op && op <= OP_NOP10) {
            Ok(())
        } else if op == OP_CLTV {
            if self.opt.verify_cltv {
                self.exec_cltv()
            } else {
                Ok(())
            }
        } else if op == OP_CSV {
            if self.opt.verify_csv {
                self.exec_csv()
            } else {
                Ok(())
            }
        } else if op == OP_IF || op == OP_NOTIF {
            self.exec_if(op)
        } else if op == OP_ELSE {
            if !self.cond_stack.toggle_top() {
                return Err(Stop::Error(ExecError::UnbalancedConditional));
            }
            Ok(())
        } else if op == OP_ENDIF {
            if !self.cond_stack.pop() {
                return Err(Stop::Error(ExecError::UnbalancedConditional));
            }
            Ok(())
        } else if op == OP_VERIFY {
            ops::verify(&mut self.stack)
        } else if op == OP_RETURN {
            Err(Stop::Error(ExecError::OpReturn))
        } else if op == OP_TOALTSTACK {
            match self.stack.pop() {
                Some(top) => {
                    self.altstack.push(top);
                    Ok(())
                },
                None => Err(Stop::Error(ExecError::InvalidStackOperation)),
            }
        } else if op == OP_FROMALTSTACK {
            match self.altstack.pop() {
                Some(top) => {
                    self.stack.push(top);
                    Ok(())
                },
                None => Err(Stop::Error(ExecError::InvalidStackOperation)),
            }
        } else if (OP_2DROP <= op && op <= OP_OVER) || (OP_ROT <= op && op <= OP_TUCK) {
            // Stack operations
            ops::shuffle(&mut self.stack, op)
        } else if op == OP_PICK || op == OP_ROLL {
            ops::pick(&mut self.stack, op, minimal)
        } else if op == OP_CAT || op == OP_AND {
            ops::join(&mut self.stack, op)
        } else if op == OP_SIZE {
            ops::size(&mut self.stack)
        } else if op == OP_EQUAL || op == OP_EQUALVERIFY {
            // Bitwise logic
            ops::equal(&mut self.stack, op)
        } else if op == OP_1ADD || op == OP_1SUB || (OP_NEGATE <= op && op <= OP_0NOTEQUAL) {
            // Numeric
            ops::unary(&mut self.stack, op, minimal, nonnegative)
        } else if op == OP_ADD || op == OP_SUB || (OP_BOOLAND <= op && op <= OP_MAX) {
            ops::binary(&mut self.stack, op, minimal, nonnegative)
        } else if op == OP_MUL {
            ops::multiply(&mut self.stack, minimal)
        } else if op == OP_WITHIN {
            ops::within(&mut self.stack, minimal)
        } else if OP_RIPEMD160 <= op && op <= OP_HASH256 {
            // Crypto
            ops::hash(&mut self.stack, op)
        } else if op == OP_CODESEPARATOR {
            // Store this CODESEPARATOR position and update the scriptcode.
            self.last_codeseparator_pos = Some(self.current_position as u32);
            self.code_start = self.current_position;
            Ok(())
        } else if op == OP_CHECKSIG || op == OP_CHECKSIGVERIFY {
            self.exec_checksig(op)
        } else if op == OP_CHECKSIGADD {
            self.exec_checksigadd()
        } else if op == OP_CHECKMULTISIG || op == OP_CHECKMULTISIGVERIFY {
            Err(Stop::Undefined)
        } else {
            // remainder
            Err(Stop::Error(ExecError::BadOpcode))
        }
    }

    /// Executes an opcode.
    #[verifier::rlimit(40)]
    fn exec_opcode(&mut self, op: u8) -> (r: Result<(), Stop>)
        requires
            old(self).ready(),
            !is_disabled(old(self)@, op),
        ensures
            final(self).cond_stack.wf(),
            outcome(r, final(self)@) == opcode_effect(old(self)@, op),
            items_fit(old(self)@) ==> effect_fits(opcode_effect(old(self)@, op)),
    {
        let ghost before = self@;
        proof {
            lemma_opcode_reach(self@, op);
        }
        // Leave the items intact until all errors have occurred. An opcode adds at most three, so
        // they are kept only near the limit.
        let near = self.opt.enforce_stack_limit && self.stack.len() + self.altstack.len()
            > MAX_STACK_SIZE - 3;
        let kept = if near {
            Some((self.stack.clone(), self.altstack.clone()))
        } else {
            None
        };
        let r = self.exec_action(op);
        proof {
            if items_fit(before) {
                lemma_action_fits(before, op);
            }
            let effect = opcode_action(before, op);
            assert(opcode_effect(before, op) == limited(before, effect));
        }
        match r {
            Ok(()) => {},
            Err(stop) => {
                return Err(stop);
            },
        }
        if self.opt.enforce_stack_limit && self.stack.len() + self.altstack.len()
            > MAX_STACK_SIZE {
            if let Some((stack, altstack)) = kept {
                self.stack = stack;
                self.altstack = altstack;
            }
            return Err(Stop::Error(ExecError::StackSize));
        }
        Ok(())
    }
}

/// Past an instruction of `n` bytes the script still decodes.
proof fn lemma_rest_decodes(m: Machine, n: nat)
    requires
        m.position <= m.script.len(),
        first_error(m.rest(), m.opt.require_minimal) is None,
        decode(m.rest(), m.opt.require_minimal) matches Decoded::Instr(_, k) && k == n,
    ensures
        0 < n <= m.script.len() - m.position,
        first_error(moved(m, n).rest(), m.opt.require_minimal) is None,
{
    assert(m.rest().skip(n as int) =~= moved(m, n).rest());
}

impl Exec {
    /// Brings the statistics up to date.
    fn update_stats(&mut self)
        requires
            old(self)@.items() <= isize::MAX,
        ensures
            final(self).cond_stack == old(self).cond_stack,
            final(self)@ == counted(old(self)@),
    {
        let stack_items = self.stack.len() + self.altstack.len();
        if stack_items > self.stats.max_nb_stack_items {
            self.stats.max_nb_stack_items = stack_items;
        }
        self.stats.opcode_count = self.opcode_count;
        self.stats.validation_weight = self.validation_weight;
    }

    /// Ends the execution with an error.
    fn fail(&mut self, err: ExecError, opcode: Option<Opcode>)
        ensures
            final(self).cond_stack == old(self).cond_stack,
            final(self)@ == failed(old(self)@, err, opcode),
    {
        let res = ExecutionResult {
            success: false,
            error: Some(err),
            opcode,
            final_stack: self.stack.clone(),
        };
        self.result = Some(res);
    }

    /// Whether the opcode fails a script even where it is not executed.
    fn disabled(&self, op: u8) -> (r: bool)
        ensures
            r == is_disabled(self@, op),
    {
        if op == OP_CAT {
            !self.opt.experimental.op_cat || self.ctx != ExecCtx::Tapscript
        } else if op == OP_MUL {
            !self.opt.experimental.op_mul || self.ctx != ExecCtx::Tapscript
        } else if op == OP_AND {
            !self.opt.experimental.op_and || self.ctx != ExecCtx::Tapscript
        } else {
            (OP_SUBSTR <= op && op <= OP_RIGHT) || op == OP_INVERT || op == OP_OR || op == OP_XOR
                || op == OP_2MUL || op == OP_2DIV || (OP_DIV <= op && op <= OP_RSHIFT)
        }
    }

    /// Comes to a push.
    #[verifier::rlimit(40)]
    fn come_to_push(&mut self, data: Vec<u8>)
        requires
            old(self).ready(),
        ensures
            final(self).wf(),
            final(self)@ == push_step(old(self)@, data@),
            items_fit(old(self)@) ==> items_fit(final(self)@),
    {
        if data.len() > MAX_SCRIPT_ELEMENT_SIZE {
            self.fail(ExecError::PushSize, None);
            return;
        }
        if self.cond_stack.all_true() {
            if self.opt.enforce_stack_limit && self.stack.len() + self.altstack.len()
                >= MAX_STACK_SIZE {
                self.fail(ExecError::StackSize, None);
                return;
            }
            self.stack.pushstr(data.as_slice());
        }
        self.update_stats();
    }

    /// Comes to an opcode. Returns whether that has an outcome.
    #[verifier::rlimit(40)]
    fn come_to_op(&mut self, op: u8) -> (r: bool)
        requires
            old(self).ready(),
            old(self)@.op_count < old(self)@.position,
            old(self)@.executed < old(self)@.position,
        ensures
            r == (op_step(old(self)@, op) is Some),
            r ==> final(self).wf() && final(self)@ == op_step(old(self)@, op)->0,
            r && items_fit(old(self)@) ==> items_fit(final(self)@),
    {
        let exec = self.cond_stack.all_true();
        // Some things we do even when we're not executing.
        // Note how OP_RESERVED does not count towards the opcode limit.
        if op > OP_PUSHNUM_16 {
            self.op_count = self.op_count + 1;
            if self.ctx != ExecCtx::Tapscript && self.op_count > MAX_OPS_PER_SCRIPT {
                self.fail(ExecError::OpCount, None);
                return true;
            }
        }
        if self.disabled(op) {
            self.fail(ExecError::DisabledOpcode, Some(Opcode(op)));
            return true;
        }
        if op == OP_RESERVED {
            self.fail(ExecError::Debug, Some(Opcode(op)));
            return true;
        }
        if exec || (OP_IF <= op && op <= OP_ENDIF) {
            self.opcode_count = self.opcode_count + 1;
            proof {
                lemma_opcode_reach(self@, op);
            }
            match self.exec_opcode(op) {
                Ok(()) => {},
                Err(Stop::Error(err)) => {
                    self.fail(err, Some(Opcode(op)));
                    return true;
                },
                Err(Stop::Undefined) => {
                    return false;
                },
            }
        }
        self.update_stats();
        true
    }

    /// Takes one step. Returns whether that has an outcome.
    pub(crate) fn advance(&mut self) -> (r: bool)
        requires
            old(self).wf(),
        ensures
            r == (step(old(self)@) is Some),
            r ==> final(self).wf() && final(self)@ == step(old(self)@)->0,
            r && items_fit(old(self)@) ==> items_fit(final(self)@),
    {
        if self.result.is_some() {
            return true;
        }
        let ghost before = self@;
        self.current_position = self.position;
        if self.opt.enforce_stack_limit && self.stack.len() + self.altstack.len()
            > MAX_STACK_SIZE {
            self.fail(ExecError::StackSize, None);
            return true;
        }
        match next_instruction(self.script.as_slice(), self.position, self.opt.require_minimal) {
            None => {
                let res = ExecutionResult::from_final_stack(self.ctx, self.stack.clone());
                self.result = Some(res);
                true
            },
            Some(Err(_)) => false,
            Some(Ok((instruction, after))) => {
                proof {
                    lemma_rest_decodes(before, (after - before.position) as nat);
                }
                self.position = after;
                match instruction {
                    Instruction::PushBytes(data) => {
                        self.come_to_push(data);
                        true
                    },
                    Instruction::Op(op) => self.come_to_op(op.0),
                }
            },
        }
    }
}

impl Exec {
    /// A machine in the same state.
    fn duplicate(&self) -> (r: Exec)
        ensures
            r.cond_stack == self.cond_stack,
            r@ == self@,
    {
        let result = match &self.result {
            Some(res) => Some(res.clone()),
            None => None,
        };
        Exec {
            ctx: self.ctx,
            opt: self.opt,
            tx: self.tx.clone(),
            result,
            script: self.script.clone(),
            position: self.position,
            current_position: self.current_position,
            cond_stack: self.cond_stack.clone(),
            stack: self.stack.clone(),
            altstack: self.altstack.clone(),
            last_codeseparator_pos: self.last_codeseparator_pos,
            code_start: self.code_start,
            op_count: self.op_count,
            opcode_count: self.opcode_count,
            validation_weight: self.validation_weight,
            stats: self.stats,
        }
    }

    /// A machine that is about to execute `script`, with the witness on its stack.
    pub fn new(
        ctx: ExecCtx,
        opt: Options,
        tx: TxTemplate,
        script: Vec<u8>,
        script_witness: Vec<Vec<u8>>,
    ) -> (r: Result<Exec, Error>)
        requires
            is_countable(script@, witness_items(script_witness@)),
        ensures
            match setup_error(ctx, opt, tx@, script@) {
                Some(e) => r == Err::<Exec, Error>(e),
                None => {
                    &&& r is Ok
                    &&& r->Ok_0.wf()
                    &&& r->Ok_0@ == start(
                        ctx,
                        opt,
                        tx@,
                        script@,
                        witness_items(script_witness@),
                    )
                },
            },
    {
        if ctx == ExecCtx::Tapscript {
            match &tx.taproot_annex_scriptleaf {
                None => {
                    return Err(Error::Other("missing taproot tx info in tapscript context"));
                },
                Some((_, Some(annex))) => {
                    if annex.len() == 0 || annex[0] != ANNEX_PREFIX {
                        return Err(Error::Other("invalid annex: missing prefix"));
                    }
                },
                Some((_, None)) => {},
            }
        }
        // We want to make sure the script is valid so we don't have to throw parsing errors
        // while executing.
        match find_error(script.as_slice(), opt.require_minimal) {
            Some(err) => {
                return Err(Error::InvalidScript(err));
            },
            None => {},
        }
        let witness_size = encoded_size(&script_witness);
        let start_validation_weight: i64 = VALIDATION_WEIGHT_OFFSET + witness_size as i64;
        let stats = ExecStats {
            start_validation_weight,
            validation_weight: start_validation_weight,
            ..Default::default()
        };
        let mut ret = Exec {
            ctx,
            opt,
            tx,
            result: None,
            script,
            position: 0,
            current_position: 0,
            cond_stack: ConditionStack::new(),
            stack: Stack::from_u8_vec(script_witness),
            altstack: Stack::new(),
            last_codeseparator_pos: None,
            code_start: 0,
            op_count: 0,
            opcode_count: 0,
            validation_weight: start_validation_weight,
            stats,
        };
        ret.update_stats();
        assert(ret@.rest() =~= ret@.script);
        Ok(ret)
    }

    /// How the execution ended, once it has.
    pub fn result(&self) -> (r: Option<&ExecutionResult>)
        ensures
            match r {
                Some(res) => self@.result == Some(res@),
                None => self@.result is None,
            },
    {
        self.result.as_ref()
    }

    /// Where the next instruction starts.
    pub fn script_position(&self) -> (r: usize)
        ensures
            r == self@.position,
    {
        self.position
    }

    /// The part of the script that is not executed yet.
    pub fn remaining_script(&self) -> (r: &[u8])
        requires
            self.wf(),
        ensures
            r@ == self@.rest(),
    {
        let r = vstd::slice::slice_subrange(
            self.script.as_slice(),
            self.script_position(),
            self.script.len(),
        );
        assert(r@ =~= self@.rest());
        r
    }

    pub fn stack(&self) -> (r: &Stack)
        ensures
            r@ == self@.stack,
    {
        &self.stack
    }

    pub fn altstack(&self) -> (r: &Stack)
        ensures
            r@ == self@.altstack,
    {
        &self.altstack
    }

    pub fn stats(&self) -> (r: &ExecStats)
        ensures
            *r == self@.stats,
    {
        &self.stats
    }

    /// Executes the next instruction, which must have an outcome. Returns how the execution
    /// ended, once it has.
    pub fn exec_next(&mut self) -> (r: Result<(), &ExecutionResult>)
        requires
            old(self).wf(),
            step(old(self)@) is Some,
        ensures
            final(self).wf(),
            final(self)@ == step(old(self)@)->0,
            items_fit(old(self)@) ==> items_fit(final(self)@),
            match r {
                Ok(()) => final(self)@.result is None,
                Err(res) => final(self)@.result == Some(res@),
            },
    {
        let _ = self.advance();
        match &self.result {
            Some(res) => Err(res),
            None => Ok(()),
        }
    }

    /// Executes the next instruction where that has an outcome, and returns what `exec_next`
    /// returns. Elsewhere leaves the machine as it is and returns nothing.
    pub fn try_exec_next(&mut self) -> (r: Option<Result<(), &ExecutionResult>>)
        requires
            old(self).wf(),
        ensures
            final(self).wf(),
            items_fit(old(self)@) ==> items_fit(final(self)@),
            match step(old(self)@) {
                Some(m) => {
                    &&& final(self)@ == m
                    &&& match r {
                        Some(Ok(())) => m.result is None,
                        Some(Err(res)) => m.result == Some(res@),
                        None => false,
                    }
                },
                None => final(self)@ == old(self)@ && r is None,
            },
    {
        let mut probe = self.duplicate();
        if !probe.advance() {
            return None;
        }
        Some(self.exec_next())
    }
}

} // verus!
