//! How a machine goes through a script.

use vstd::prelude::*;

use crate::effects::{is_true, Effect, Items};
use crate::error::ExecError;
use crate::exec::ExecStats;
use crate::instruction::{decode, Decoded, InstructionData};
use crate::laws::{can_count, holding, lemma_step_stats, refuses};
use crate::machine::{
    executing, is_disabled, moved, op_step, opcode_action, opcode_effect, step, tallied, Machine,
    ResultData,
};
use crate::opcodes::{
    Opcode, OP_2DIV, OP_2MUL, OP_AND, OP_CAT, OP_DIV, OP_ELSE, OP_ENDIF, OP_IF, OP_INVERT, OP_LEFT,
    OP_LSHIFT, OP_MOD, OP_MUL, OP_NOTIF, OP_OR, OP_PUSHNUM_16, OP_RESERVED, OP_RIGHT, OP_RSHIFT,
    OP_SUBSTR, OP_VERIF, OP_VERNOTIF, OP_XOR,
};
use crate::options::ExecCtx;

verus! {

/// Instructions are executed unless some conditional around them is in a branch that is not taken.
pub proof fn lemma_activity(m: Machine)
    ensures
        m.active() <==> !m.levels.contains(false),
        m.levels.len() == 0 ==> m.active(),
{
    if !m.active() {
        let i = choose|i: int| 0 <= i < m.levels.len() && !m.levels[i];
        assert(m.levels[i] == false);
    }
}

/// Whether a condition has to be nothing or the byte one.
pub open spec fn strict_conditions(m: Machine) -> bool {
    ||| m.ctx == ExecCtx::Tapscript
    ||| m.ctx == ExecCtx::SegwitV0 && m.opt.verify_minimal_if
}

/// Where instructions are executed, OP_IF takes the branch where the top item counts as true, and
/// OP_NOTIF where it does not. Where conditions are strict, only nothing and the byte one are
/// allowed. Elsewhere they take no item and open a branch that is not taken.
pub proof fn lemma_opening(m: Machine, s: Items, x: Seq<u8>)
    ensures
        m.active() && (!strict_conditions(m) || x == Seq::<u8>::empty() || x == seq![1u8]) ==> {
            &&& opcode_action(holding(m, s.push(x)), OP_IF) == Effect::Next(
                Machine { stack: s, levels: m.levels.push(is_true(x)), ..m },
            )
            &&& opcode_action(holding(m, s.push(x)), OP_NOTIF) == Effect::Next(
                Machine { stack: s, levels: m.levels.push(!is_true(x)), ..m },
            )
        },
        m.active() && strict_conditions(m) && x != Seq::<u8>::empty() && x != seq![1u8] ==> {
            &&& refuses(m, OP_IF, s.push(x), ExecError::TapscriptMinimalIf)
            &&& refuses(m, OP_NOTIF, s.push(x), ExecError::TapscriptMinimalIf)
        },
        m.active() && m.stack.len() == 0 ==> {
            &&& opcode_action(m, OP_IF) == Effect::Fail(m, ExecError::InvalidStackOperation)
            &&& opcode_action(m, OP_NOTIF) == Effect::Fail(m, ExecError::InvalidStackOperation)
        },
        !m.active() ==> {
            &&& opcode_action(m, OP_IF) == Effect::Next(
                Machine { levels: m.levels.push(false), ..m },
            )
            &&& opcode_action(m, OP_NOTIF) == Effect::Next(
                Machine { levels: m.levels.push(false), ..m },
            )
        },
{
    assert(s.push(x).drop_last() =~= s);
    assert(s.push(x).last() == x);
    let h = holding(m, s.push(x));
    assert(h.active() == m.active());
    if x.len() == 0 {
        assert(x =~= Seq::<u8>::empty());
    }
    if x.len() == 1 && x[0] == 1 {
        assert(x =~= seq![1u8]);
    }
}

/// OP_ELSE turns the innermost branch from taken to not taken and back, OP_ENDIF closes it; both
/// fail where none is open.
pub proof fn lemma_closing(m: Machine, outer: Seq<bool>, inner: bool)
    ensures
        opcode_action(Machine { levels: outer.push(inner), ..m }, OP_ELSE) == Effect::Next(
            Machine { levels: outer.push(!inner), ..m },
        ),
        opcode_action(Machine { levels: outer.push(inner), ..m }, OP_ENDIF) == Effect::Next(
            Machine { levels: outer, ..m },
        ),
        m.levels.len() == 0 ==> {
            &&& opcode_action(m, OP_ELSE) == Effect::Fail(m, ExecError::UnbalancedConditional)
            &&& opcode_action(m, OP_ENDIF) == Effect::Fail(m, ExecError::UnbalancedConditional)
        },
{
    let levels = outer.push(inner);
    assert(levels.update(levels.len() - 1, !levels.last()) =~= outer.push(!inner));
    assert(levels.drop_last() =~= outer);
}

/// The number of items on both stacks.
pub open spec fn total(m: Machine) -> int {
    m.stack.len() as int + m.altstack.len()
}

/// An opcode does what it does where the limit of 1000 items is not enforced or not exceeded.
/// Where it is, it fails for that reason with the items as they were.
pub proof fn lemma_opcode_limits(m: Machine, op: u8)
    ensures
        opcode_action(m, op) matches Effect::Next(n) ==> {
            &&& !n.opt.enforce_stack_limit || total(n) <= 1000 ==> opcode_effect(m, op)
                == Effect::Next(n)
            &&& n.opt.enforce_stack_limit && total(n) > 1000 ==> opcode_effect(m, op)
                == Effect::Fail(
                Machine { stack: m.stack, altstack: m.altstack, ..n },
                ExecError::StackSize,
            )
        },
        opcode_action(m, op) !is Next ==> opcode_effect(m, op) == opcode_action(m, op),
{
}

/// The machine ended by an error.
pub open spec fn ended(m: Machine, e: ExecError, opcode: Option<Opcode>) -> Machine {
    Machine {
        result: Some(
            ResultData { success: false, error: Some(e), opcode, final_stack: m.stack },
        ),
        ..m
    }
}

/// The machine past the next `n` bytes.
pub open spec fn past(m: Machine, n: nat) -> Machine {
    Machine { position: m.position + n, current: m.position, ..m }
}

/// Whether a machine is in the middle of a script, within the limit on the number of items.
pub open spec fn is_running(m: Machine) -> bool {
    &&& m.result is None
    &&& !(m.opt.enforce_stack_limit && total(m) > 1000)
}

/// A push of more than 520 bytes fails, executed or not. Another one is skipped in a branch that
/// is not taken, and elsewhere puts its bytes on the stack, unless 1000 items are already there
/// and no more are allowed.
pub proof fn lemma_pushing(m: Machine, data: Seq<u8>, n: nat)
    requires
        is_running(m),
        decode(m.rest(), m.opt.require_minimal) == Decoded::Instr(
            InstructionData::PushBytes(data),
            n,
        ),
    ensures
        data.len() > 520 ==> step(m) == Some(ended(past(m, n), ExecError::PushSize, None)),
        data.len() <= 520 && m.levels.contains(false) ==> (step(m) matches Some(k) && k
            == (Machine { stats: k.stats, ..past(m, n) })),
        data.len() <= 520 && !m.levels.contains(false) && m.opt.enforce_stack_limit && total(m)
            == 1000 ==> step(m) == Some(ended(past(m, n), ExecError::StackSize, None)),
        data.len() <= 520 && !m.levels.contains(false) && (!m.opt.enforce_stack_limit || total(m)
            < 1000) ==> (step(m) matches Some(k) && k == (Machine {
            stack: m.stack.push(data),
            stats: k.stats,
            ..past(m, n)
        })),
{
    lemma_activity(m);
    assert(moved(m, n) == past(m, n));
    assert(past(m, n).active() == m.active());
}

/// The opcodes that no option brings back.
pub open spec fn is_forbidden(op: u8) -> bool {
    ||| op == OP_SUBSTR || op == OP_LEFT || op == OP_RIGHT
    ||| op == OP_INVERT || op == OP_OR || op == OP_XOR
    ||| op == OP_2MUL || op == OP_2DIV || op == OP_DIV || op == OP_MOD
    ||| op == OP_LSHIFT || op == OP_RSHIFT
}

/// Whether an opcode is allowed: OP_CAT, OP_MUL and OP_AND only in Tapscript and with their
/// option.
pub open spec fn is_allowed(m: Machine, op: u8) -> bool {
    &&& !is_forbidden(op)
    &&& op == OP_CAT ==> m.ctx == ExecCtx::Tapscript && m.opt.experimental.op_cat
    &&& op == OP_MUL ==> m.ctx == ExecCtx::Tapscript && m.opt.experimental.op_mul
    &&& op == OP_AND ==> m.ctx == ExecCtx::Tapscript && m.opt.experimental.op_and
}

/// Whether an opcode is one of a conditional, which is executed everywhere.
pub open spec fn is_conditional(op: u8) -> bool {
    ||| op == OP_IF || op == OP_NOTIF || op == OP_ELSE || op == OP_ENDIF
    ||| op == OP_VERIF || op == OP_VERNOTIF
}

/// The machine past an opcode that is about to be executed: an operation counts towards the limit
/// on operations, and every executed opcode counts as executed.
pub open spec fn about_to(m: Machine, op: u8, n: nat, executed: bool) -> Machine {
    Machine {
        op_count: if op > OP_PUSHNUM_16 {
            m.op_count + 1
        } else {
            m.op_count
        },
        executed: if executed {
            m.executed + 1
        } else {
            m.executed
        },
        ..past(m, n)
    }
}

/// What becomes of an opcode, in this order: outside Tapscript an operation after 201 others
/// fails, an opcode that is not allowed fails, OP_RESERVED fails; in a branch that is not taken it
/// is skipped unless it belongs to a conditional; elsewhere it is executed.
#[verifier::rlimit(60)]
pub proof fn lemma_reaching_opcodes(m: Machine, op: u8, n: nat)
    requires
        is_running(m),
        decode(m.rest(), m.opt.require_minimal) == Decoded::Instr(InstructionData::Op(op), n),
    ensures
        ({
            let too_many = m.ctx != ExecCtx::Tapscript && op > OP_PUSHNUM_16 && m.op_count >= 201;
            let skipped = m.levels.contains(false) && !is_conditional(op);
            let before = about_to(m, op, n, false);
            let k = about_to(m, op, n, true);
            &&& too_many ==> step(m) == Some(ended(before, ExecError::OpCount, None))
            &&& !too_many && !is_allowed(m, op) ==> step(m) == Some(
                ended(before, ExecError::DisabledOpcode, Some(Opcode(op))),
            )
            &&& op == OP_RESERVED ==> step(m) == Some(
                ended(before, ExecError::Debug, Some(Opcode(op))),
            )
            &&& !too_many && is_allowed(m, op) && op != OP_RESERVED && skipped ==> (step(m) matches
                Some(r) && r == (Machine { stats: r.stats, ..before }))
            &&& !too_many && is_allowed(m, op) && op != OP_RESERVED && !skipped
                ==> match opcode_effect(k, op) {
                Effect::Next(q) => step(m) matches Some(r) && r == (Machine {
                    stats: r.stats,
                    ..q
                }),
                Effect::Fail(q, e) => step(m) == Some(ended(q, e, Some(Opcode(op)))),
                Effect::Undefined => step(m) is None,
            }
        }),
{
    lemma_activity(m);
    let p = past(m, n);
    assert(moved(m, n) == p);
    assert(p.active() == m.active());
    assert(tallied(p, op) == about_to(m, op, n, false));
    assert(executing(p, op) == about_to(m, op, n, true));
    assert(is_disabled(p, op) == !is_allowed(m, op));
    assert(step(m) == op_step(p, op));
}

/// A machine that holds more items than are allowed goes no further, and one that has ended stays
/// as it is.
pub proof fn lemma_halting(m: Machine)
    ensures
        m.result is Some ==> step(m) == Some(m),
        m.result is None && m.opt.enforce_stack_limit && total(m) > 1000 ==> step(m) == Some(
            ended(past(m, 0), ExecError::StackSize, None),
        ),
{
}

/// The statistics after an instruction that ends nothing: what was executed, the weight that is
/// left, and the highest number of items so far.
#[verifier::rlimit(60)]
pub proof fn lemma_counting(m: Machine)
    requires
        m.result is None,
        can_count(m),
        m.position < m.script.len(),
    ensures
        step(m) matches Some(n) ==> n.result is None ==> n.stats == (ExecStats {
            max_nb_stack_items: if total(n) > m.stats.max_nb_stack_items {
                total(n) as usize
            } else {
                m.stats.max_nb_stack_items
            },
            opcode_count: n.executed as usize,
            start_validation_weight: m.stats.start_validation_weight,
            validation_weight: n.weight as i64,
        }),
{
    lemma_step_stats(m);
}

} // verus!
