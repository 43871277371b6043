//! What holds of the library as a whole.

pub mod arithmetic;
pub mod control;
pub mod conversion;
pub mod decoding;
pub mod locks;
pub mod numbers;
pub mod outcomes;
pub mod signing;
pub mod stacks;
pub mod words;

use vstd::prelude::*;

use crate::data_structures::{item_at, num_at};
use crate::effects::{
    below, binary_effect, bool_num, equal_effect, hash_effect, hash_of, is_push_num, is_true,
    pick_effect, shuffle_effect, unary_effect, verify_effect, Effect, Items,
    MAX_SCRIPT_ELEMENT_SIZE,
};
use crate::error::{Error, ExecError};
use crate::execute::{
    bare_template_data, ends_without_error, execution, info_of, standard_execution,
    unlimited_execution, without_stack_limit,
};
use crate::instruction::{decode, first_error, Decoded, InstructionData};
use crate::machine::{
    check_sig_effect, checksig_effect, checksigadd_effect, cltv_effect, concluded, counted,
    csv_effect, else_effect, endif_effect, executing, from_alt_effect, if_effect, is_countable,
    is_disabled, is_executed, is_operation, leaves_success, lemma_opcode_reach, lemma_step_progress,
    limited, moved, on_stack, op_step, opcode_action, opcode_effect, over_limit, push_step, run,
    same_items, start, step, strip_signature, tallied, to_alt_effect, within_reach, Machine,
    MAX_OPS_PER_SCRIPT, MAX_STACK_SIZE, VALIDATION_WEIGHT_OFFSET,
    VALIDATION_WEIGHT_PER_SIGOP_PASSED,
};
use crate::opcodes::{
    OP_1SUB, OP_2DROP, OP_2DUP, OP_2ROT, OP_2SWAP, OP_ABS, OP_CHECKMULTISIG, OP_CHECKMULTISIGVERIFY,
    OP_CHECKSIG, OP_CHECKSIGADD, OP_CHECKSIGVERIFY, OP_CLTV, OP_CSV, OP_DROP, OP_DUP, OP_ENDIF,
    OP_EQUAL, OP_EQUALVERIFY, OP_HASH160, OP_HASH256, OP_IF, OP_MUL, OP_NIP, OP_OVER, OP_PICK,
    OP_RESERVED, OP_RIPEMD160, OP_ROLL, OP_ROT, OP_SHA256, OP_SUB, OP_SWAP, OP_TUCK,
};
use crate::options::{standard_options, ExecCtx, Options};
use crate::transaction::TemplateData;
use crate::utils::{le_trimmed, lemma_num_roundtrip, num_bytes};
use crate::witness::{witness_of, witness_op, witness_size};

verus! {

/// The machine with other items on its stack.
pub open spec fn holding(m: Machine, s: Items) -> Machine {
    Machine { stack: s, ..m }
}

/// Whether an opcode turns the items `before` into `after` and touches nothing else.
pub open spec fn turns(m: Machine, op: u8, before: Items, after: Items) -> bool {
    opcode_action(holding(m, before), op) == Effect::Next(holding(m, after))
}

/// Whether an opcode refuses the items `s` with the error `e` and leaves everything as it was.
pub open spec fn refuses(m: Machine, op: u8, s: Items, e: ExecError) -> bool {
    opcode_action(holding(m, s), op) == Effect::Fail(holding(m, s), e)
}

/// What one operation leaves and another goes on with.
pub open spec fn and_then<S>(first: Effect<S>, second: spec_fn(S) -> Effect<S>) -> Effect<S> {
    match first {
        Effect::Next(s) => second(s),
        other => other,
    }
}

/// An execution that has ended stays as it is.
pub proof fn lemma_ended(m: Machine)
    requires
        m.result is Some,
        m.position <= m.script.len(),
    ensures
        step(m) == Some(m),
        run(m) == Some(m),
{
}

/// The machine after `k` steps.
pub open spec fn steps(m: Machine, k: nat) -> Option<Machine>
    decreases k,
{
    if k == 0 {
        Some(m)
    } else {
        match step(m) {
            Some(n) => steps(n, (k - 1) as nat),
            None => None,
        }
    }
}

/// Every execution ends: as many steps as there are bytes to come, and one more, lead to where
/// `run` leads, which has a result, and still has the same script, transaction, context and
/// options.
#[verifier::rlimit(40)]
pub proof fn lemma_run_ends(m: Machine)
    requires
        m.position <= m.script.len(),
    ensures
        run(m) == steps(m, (1 + m.script.len() - m.position) as nat),
        run(m) matches Some(n) ==> {
            &&& n.result is Some
            &&& n.ctx == m.ctx && n.opt == m.opt && n.tx == m.tx && n.script == m.script
            &&& m.position <= n.position <= m.script.len()
            &&& n.weight <= m.weight
        },
    decreases
            (if m.result is Some {
                0
            } else {
                1 + m.script.len() - m.position
            }),
{
    let k = (1 + m.script.len() - m.position) as nat;
    if m.result is Some {
        lemma_steps_ended(m, k);
    } else {
        lemma_step_progress(m);
        match step(m) {
            Some(n) => {
                lemma_run_ends(n);
                if n.result is Some {
                    lemma_steps_ended(n, (k - 1) as nat);
                } else {
                    lemma_steps_more(n, (1 + n.script.len() - n.position) as nat, (k - 1) as nat);
                }
            },
            None => {},
        }
    }
}

proof fn lemma_steps_ended(m: Machine, k: nat)
    requires
        m.result is Some,
    ensures
        steps(m, k) == Some(m),
    decreases k,
{
    if k > 0 {
        lemma_steps_ended(m, (k - 1) as nat);
    }
}

/// Once the end is reached, further steps stay there.
proof fn lemma_steps_more(m: Machine, j: nat, k: nat)
    requires
        j <= k,
        steps(m, j) matches Some(n) ==> n.result is Some,
    ensures
        steps(m, k) == steps(m, j),
    decreases j,
{
    if j == 0 {
        lemma_steps_ended(m, k);
    } else {
        match step(m) {
            Some(n) => lemma_steps_more(n, (j - 1) as nat, (k - 1) as nat),
            None => {},
        }
    }
}

/// What a result says of the machine that it ends: it holds the items that are left; with an
/// error it is no success; without one the whole script was executed, and it is a success where
/// the items that are left make it one.
pub open spec fn result_fits(m: Machine) -> bool {
    m.result matches Some(end) ==> {
        &&& end.final_stack == m.stack
        &&& end.error is Some ==> !end.success
        &&& end.error is None ==> {
            &&& m.position == m.script.len()
            &&& end.success == leaves_success(m.ctx, m.stack)
            &&& end.opcode is None
        }
    }
}

#[verifier::rlimit(40)]
proof fn lemma_step_result(m: Machine)
    requires
        m.result is None,
        m.position <= m.script.len(),
    ensures
        step(m) matches Some(n) ==> result_fits(n),
{
    match decode(m.rest(), m.opt.require_minimal) {
        Decoded::Instr(InstructionData::Op(op), n) => {
            lemma_opcode_reach(executing(moved(m, n), op), op);
        },
        _ => {},
    }
}

/// The result of an execution fits the machine that it ends.
#[verifier::rlimit(40)]
pub proof fn lemma_run_result(m: Machine)
    requires
        m.position <= m.script.len(),
        result_fits(m),
    ensures
        run(m) matches Some(n) ==> result_fits(n),
    decreases
            (if m.result is Some {
                0
            } else {
                1 + m.script.len() - m.position
            }),
{
    if m.result is None {
        lemma_step_progress(m);
        lemma_step_result(m);
        match step(m) {
            Some(n) => lemma_run_result(n),
            None => {},
        }
    }
}

/// In a branch that is not taken no instruction touches the items, the weight or the script code.
#[verifier::rlimit(40)]
pub proof fn lemma_skipped_branch(m: Machine)
    requires
        m.result is None,
        m.position < m.script.len(),
        !m.active(),
    ensures
        step(m) matches Some(n) ==> {
            &&& n.stack == m.stack
            &&& n.altstack == m.altstack
            &&& n.weight == m.weight
            &&& n.code_separator == m.code_separator
            &&& n.code_start == m.code_start
        },
{
}

/// OP_ENDIF closes what OP_IF or OP_NOTIF opened, whatever the condition was, and OP_ELSE twice
/// leads back to the first branch.
pub proof fn lemma_conditionals(m: Machine, op: u8)
    ensures
        if_effect(m, op) matches Effect::Next(n) ==> {
            &&& endif_effect(n) matches Effect::Next(k) && k.levels == m.levels && k == (Machine {
                stack: n.stack,
                ..m
            })
            &&& and_then(else_effect(n), |k: Machine| else_effect(k)) == Effect::Next(n)
        },
        m.levels.len() > 0 ==> and_then(else_effect(m), |k: Machine| else_effect(k))
            == Effect::Next(m),
{
    if m.levels.len() > 0 {
        lemma_else_twice(m);
    }
    if let Effect::Next(n) = if_effect(m, op) {
        assert(n.levels.drop_last() =~= m.levels);
        lemma_else_twice(n);
    }
}

proof fn lemma_else_twice(m: Machine)
    requires
        m.levels.len() > 0,
    ensures
        and_then(else_effect(m), |k: Machine| else_effect(k)) == Effect::Next(m),
{
    let last = m.levels.len() - 1;
    let once = m.levels.update(last, !m.levels.last());
    assert(once.update(last, !once.last()) =~= m.levels);
}

/// What OP_TOALTSTACK moves, OP_FROMALTSTACK moves back, and the other way round.
pub proof fn lemma_alt_stack(m: Machine)
    ensures
        m.stack.len() > 0 ==> and_then(to_alt_effect(m), |k: Machine| from_alt_effect(k))
            == Effect::Next(m),
        m.altstack.len() > 0 ==> and_then(from_alt_effect(m), |k: Machine| to_alt_effect(k))
            == Effect::Next(m),
{
    if m.stack.len() > 0 {
        assert(m.altstack.push(m.stack.last()).drop_last() =~= m.altstack);
        assert(m.stack.drop_last().push(m.stack.last()) =~= m.stack);
    }
    if m.altstack.len() > 0 {
        assert(m.stack.push(m.altstack.last()).drop_last() =~= m.stack);
        assert(m.altstack.drop_last().push(m.altstack.last()) =~= m.altstack);
    }
}

/// What two opcodes do to a stack, one after the other.
pub open spec fn twice(s: Items, first: u8, second: u8) -> Effect<Items> {
    and_then(shuffle_effect(s, first), |t: Items| shuffle_effect(t, second))
}

/// Two swaps leave a stack as it was, and so do two swaps of pairs.
pub proof fn lemma_swaps(s: Items)
    ensures
        s.len() >= 2 ==> twice(s, OP_SWAP, OP_SWAP) == Effect::Next(s),
        s.len() >= 4 ==> twice(s, OP_2SWAP, OP_2SWAP) == Effect::Next(s),
{
    if let Effect::Next(t) = shuffle_effect(s, OP_SWAP) {
        if let Effect::Next(u) = shuffle_effect(t, OP_SWAP) {
            assert(u =~= s);
        }
    }
    if let Effect::Next(t) = shuffle_effect(s, OP_2SWAP) {
        if let Effect::Next(u) = shuffle_effect(t, OP_2SWAP) {
            assert(u =~= s);
        }
    }
}

/// Dropping what was copied leaves a stack as it was.
pub proof fn lemma_copies(s: Items)
    ensures
        s.len() >= 1 ==> twice(s, OP_DUP, OP_DROP) == Effect::Next(s),
        s.len() >= 2 ==> twice(s, OP_OVER, OP_DROP) == Effect::Next(s),
        s.len() >= 2 ==> twice(s, OP_2DUP, OP_2DROP) == Effect::Next(s),
{
    if let Effect::Next(t) = shuffle_effect(s, OP_DUP) {
        if let Effect::Next(u) = shuffle_effect(t, OP_DROP) {
            assert(u =~= s);
        }
    }
    if let Effect::Next(t) = shuffle_effect(s, OP_OVER) {
        if let Effect::Next(u) = shuffle_effect(t, OP_DROP) {
            assert(u =~= s);
        }
    }
    if let Effect::Next(t) = shuffle_effect(s, OP_2DUP) {
        if let Effect::Next(u) = shuffle_effect(t, OP_2DROP) {
            assert(u =~= s);
        }
    }
}

/// OP_TUCK is OP_SWAP and OP_OVER after it, OP_NIP is OP_SWAP and OP_DROP after it.
pub proof fn lemma_tuck_and_nip(s: Items)
    ensures
        s.len() >= 2 ==> twice(s, OP_SWAP, OP_OVER) == shuffle_effect(s, OP_TUCK),
        s.len() >= 2 ==> twice(s, OP_SWAP, OP_DROP) == shuffle_effect(s, OP_NIP),
{
    if let Effect::Next(t) = shuffle_effect(s, OP_SWAP) {
        if let (Effect::Next(u), Effect::Next(v)) = (
            shuffle_effect(t, OP_OVER),
            shuffle_effect(s, OP_TUCK),
        ) {
            assert(u =~= v);
        }
        if let (Effect::Next(u), Effect::Next(v)) = (
            shuffle_effect(t, OP_DROP),
            shuffle_effect(s, OP_NIP),
        ) {
            assert(u =~= v);
        }
    }
}

/// Three rotations of three items, and of three pairs, leave a stack as it was.
#[verifier::rlimit(40)]
pub proof fn lemma_rotations(s: Items)
    ensures
        s.len() >= 3 ==> and_then(twice(s, OP_ROT, OP_ROT), |t: Items| shuffle_effect(t, OP_ROT))
            == Effect::Next(s),
        s.len() >= 6 ==> and_then(
            twice(s, OP_2ROT, OP_2ROT),
            |t: Items| shuffle_effect(t, OP_2ROT),
        ) == Effect::Next(s),
{
    if let Effect::Next(t) = twice(s, OP_ROT, OP_ROT) {
        if let Effect::Next(u) = shuffle_effect(t, OP_ROT) {
            assert(u =~= s);
        }
    }
    if let Effect::Next(t) = twice(s, OP_2ROT, OP_2ROT) {
        if let Effect::Next(u) = shuffle_effect(t, OP_2ROT) {
            assert(u =~= s);
        }
    }
}

/// OP_PICK with 0 or 1 is OP_DUP or OP_OVER, OP_ROLL with 0, 1 or 2 is nothing, OP_SWAP or OP_ROT.
pub proof fn lemma_pick_and_roll(s: Items)
    ensures
        s.len() >= 1 ==> pick_effect(s.push(num_bytes(0)), OP_PICK) == shuffle_effect(s, OP_DUP),
        s.len() >= 2 ==> pick_effect(s.push(num_bytes(1)), OP_PICK) == shuffle_effect(s, OP_OVER),
        s.len() >= 1 ==> pick_effect(s.push(num_bytes(0)), OP_ROLL) == Effect::Next(s),
        s.len() >= 2 ==> pick_effect(s.push(num_bytes(1)), OP_ROLL) == shuffle_effect(s, OP_SWAP),
        s.len() >= 3 ==> pick_effect(s.push(num_bytes(2)), OP_ROLL) == shuffle_effect(s, OP_ROT),
{
    lemma_num_roundtrip(0);
    lemma_num_roundtrip(1);
    lemma_num_roundtrip(2);
    assert(s.push(num_bytes(0)).drop_last() =~= s);
    assert(s.push(num_bytes(1)).drop_last() =~= s);
    assert(s.push(num_bytes(2)).drop_last() =~= s);
    if s.len() >= 1 {
        assert(s.push(s.last()) =~= below(s, 1) + seq![s.last(), s.last()]);
        assert(s.remove(s.len() - 1).push(s.last()) =~= s);
    }
    if s.len() >= 2 {
        let a = s[s.len() - 2];
        assert(s.push(a) =~= below(s, 2) + seq![a, s.last(), a]);
        assert(s.remove(s.len() - 2).push(a) =~= below(s, 2) + seq![s.last(), a]);
    }
    if s.len() >= 3 {
        let a = s[s.len() - 3];
        assert(s.remove(s.len() - 3).push(a) =~= below(s, 3) + seq![s[s.len() - 2], s.last(), a]);
    }
}

/// The number one counts as true and zero does not.
pub proof fn lemma_truth_of_numbers(b: bool)
    ensures
        is_true(num_bytes(bool_num(b))) == b,
{
    if b {
        reveal_with_fuel(le_trimmed, 2);
        assert(num_bytes(1) =~= seq![1u8]);
        assert(num_bytes(1)[0] != 0);
    }
}

/// OP_EQUALVERIFY succeeds where OP_EQUAL and OP_VERIFY after it do, and leaves the same items;
/// OP_CHECKSIGVERIFY likewise.
#[verifier::rlimit(40)]
pub proof fn lemma_verify_variants(m: Machine)
    ensures
        ({
            let both = and_then(equal_effect(m.stack, OP_EQUAL), |t: Items| verify_effect(t));
            let one = equal_effect(m.stack, OP_EQUALVERIFY);
            (one is Next <==> both is Next) && (both is Next ==> one == both)
        }),
        ({
            let both = and_then(
                checksig_effect(m, OP_CHECKSIG),
                |k: Machine| on_stack(k, verify_effect(k.stack)),
            );
            let one = checksig_effect(m, OP_CHECKSIGVERIFY);
            (one is Next <==> both is Next) && (both is Next ==> one == both)
        }),
{
    lemma_truth_of_numbers(true);
    lemma_truth_of_numbers(false);
    assert(below(m.stack, 2).push(num_bytes(1)).drop_last() =~= below(m.stack, 2));
    assert(below(m.stack, 2).push(num_bytes(0)).drop_last() =~= below(m.stack, 2));
}

/// OP_HASH160 is OP_SHA256 and OP_RIPEMD160 after it, OP_HASH256 is OP_SHA256 twice.
pub proof fn lemma_double_hashes(s: Items)
    ensures
        hash_effect(s, OP_HASH160) == and_then(
            hash_effect(s, OP_SHA256),
            |t: Items| hash_effect(t, OP_RIPEMD160),
        ),
        hash_effect(s, OP_HASH256) == and_then(
            hash_effect(s, OP_SHA256),
            |t: Items| hash_effect(t, OP_SHA256),
        ),
{
    if s.len() > 0 {
        assert(s.drop_last().push(hash_of(OP_SHA256, s.last())).drop_last() =~= s.drop_last());
    }
}

/// Where differences must not be negative, OP_SUB and OP_1SUB leave no negative number.
pub proof fn lemma_no_negative_difference(s: Items)
    ensures
        binary_effect(s, OP_SUB, true) matches Effect::Next(t) ==> num_at(t, 1) matches Ok(n)
            && n >= 0,
        unary_effect(s, OP_1SUB, true) matches Effect::Next(t) ==> num_at(t, 1) matches Ok(n)
            && n >= 0,
{
    if let (Ok(a), Ok(b)) = (num_at(s, 2), num_at(s, 1)) {
        lemma_num_roundtrip((a - b) as i64);
    }
    if let Ok(a) = num_at(s, 1) {
        lemma_num_roundtrip((a - 1) as i64);
    }
}

/// No opcode fails by itself for too many operations or too many items.
#[verifier::rlimit(40)]
proof fn lemma_action_errors(m: Machine, op: u8)
    ensures
        opcode_action(m, op) matches Effect::Fail(_, e) ==> e != ExecError::StackSize && e
            != ExecError::OpCount,
{
}

/// Outside Tapscript the 202nd non-push operation that is come to, executed or not, fails for that
/// reason, and no other opcode does. Opcodes that push a number do not count.
#[verifier::rlimit(40)]
pub proof fn lemma_opcode_limit(m: Machine, op: u8)
    requires
        m.result is None,
        m.ctx != ExecCtx::Tapscript,
    ensures
        op_step(m, op) matches Some(n) ==> {
            &&& n.op_count == m.op_count + if is_operation(op) {
                1int
            } else {
                0
            }
            &&& (n.result is Some && n.result->0.error == Some(ExecError::OpCount)) <==> (
            is_operation(op) && m.op_count >= MAX_OPS_PER_SCRIPT)
        },
{
    let k = executing(m, op);
    lemma_opcode_reach(k, op);
    lemma_action_errors(k, op);
    assert(opcode_effect(k, op) == limited(k, opcode_action(k, op)));
}

/// A disabled opcode fails a script whether it is executed or not, and so does OP_RESERVED.
pub proof fn lemma_disabled_opcodes(m: Machine, op: u8)
    requires
        is_disabled(m, op) || op == OP_RESERVED,
    ensures
        op_step(m, op) matches Some(n) && n.result matches Some(end) && !end.success && end.error
            is Some && n.stack == m.stack && n.altstack == m.altstack,
{
}

/// With the check of lock times off, OP_CHECKLOCKTIMEVERIFY does nothing, and likewise
/// OP_CHECKSEQUENCEVERIFY.
pub proof fn lemma_lock_times_off(m: Machine)
    ensures
        !m.opt.verify_cltv ==> opcode_action(m, OP_CLTV) == Effect::Next(m),
        !m.opt.verify_csv ==> opcode_action(m, OP_CSV) == Effect::Next(m),
{
}

/// An opcode that is accepted in a script for a witness does to the witness what executing it
/// does to the stack.
pub proof fn lemma_witness_op_executes(m: Machine, op: u8)
    requires
        witness_op(m.stack, op) matches Some(Ok(_)),
    ensures
        opcode_action(m, op) == Effect::Next(
            Machine { stack: witness_op(m.stack, op)->0->Ok_0, ..m },
        ),
{
}

/// The machine with the limit on the number of items switched off.
pub open spec fn unlimited(m: Machine) -> Machine {
    Machine { opt: Options { enforce_stack_limit: false, ..m.opt }, ..m }
}

/// The machines as `unlimited` makes them.
pub open spec fn unlimited_effect(effect: Effect<Machine>) -> Effect<Machine> {
    match effect {
        Effect::Next(n) => Effect::Next(unlimited(n)),
        Effect::Fail(n, e) => Effect::Fail(unlimited(n), e),
        Effect::Undefined => Effect::Undefined,
    }
}

proof fn lemma_unlimited_signature(m: Machine, sig: Seq<u8>, pk: Seq<u8>)
    ensures
        check_sig_effect(unlimited(m), sig, pk) == check_sig_effect(m, sig, pk),
{
    assert(unlimited(m).script_code() == m.script_code());
}

proof fn lemma_unlimited_checksig(m: Machine, op: u8)
    ensures
        checksig_effect(unlimited(m), op) == unlimited_effect(checksig_effect(m, op)),
{
    let sig = item_at(m.stack, 2);
    let pk = item_at(m.stack, 1);
    lemma_unlimited_signature(m, sig, pk);
    let checked = check_sig_effect(m, sig, pk);
    assert(check_sig_effect(unlimited(m), sig, pk) == checked);
}

proof fn lemma_unlimited_checksigadd(m: Machine)
    ensures
        checksigadd_effect(unlimited(m)) == unlimited_effect(checksigadd_effect(m)),
{
    lemma_unlimited_signature(m, item_at(m.stack, 3), item_at(m.stack, 1));
}

proof fn lemma_unlimited_control(m: Machine, op: u8)
    ensures
        cltv_effect(unlimited(m)) == unlimited_effect(cltv_effect(m)),
        csv_effect(unlimited(m)) == unlimited_effect(csv_effect(m)),
        if_effect(unlimited(m), op) == unlimited_effect(if_effect(m, op)),
        else_effect(unlimited(m)) == unlimited_effect(else_effect(m)),
        endif_effect(unlimited(m)) == unlimited_effect(endif_effect(m)),
        to_alt_effect(unlimited(m)) == unlimited_effect(to_alt_effect(m)),
        from_alt_effect(unlimited(m)) == unlimited_effect(from_alt_effect(m)),
{
}

proof fn lemma_unlimited_on_stack(m: Machine, effect: Effect<Items>)
    ensures
        on_stack(unlimited(m), effect) == unlimited_effect(on_stack(m, effect)),
{
}

#[verifier::rlimit(60)]
proof fn lemma_unlimited_action(m: Machine, op: u8)
    ensures
        opcode_action(unlimited(m), op) == unlimited_effect(opcode_action(m, op)),
{
    lemma_unlimited_checksig(m, op);
    lemma_unlimited_checksigadd(m);
    lemma_unlimited_control(m, op);
    assert forall|effect: Effect<Items>|
        #[trigger] on_stack(unlimited(m), effect) == unlimited_effect(on_stack(m, effect)) by {
        lemma_unlimited_on_stack(m, effect);
    }
}

/// Whether an execution ended for too many items on the stacks.
pub open spec fn ran_into_limit(m: Machine) -> bool {
    m.result matches Some(end) && end.error == Some(ExecError::StackSize)
}

proof fn lemma_unlimited_conclusion(m: Machine, effect: Effect<Machine>, op: u8)
    ensures
        match concluded(limited(m, effect), op) {
            Some(n) => !ran_into_limit(n) ==> concluded(
                limited(unlimited(m), unlimited_effect(effect)),
                op,
            ) == Some(unlimited(n)),
            None => concluded(limited(unlimited(m), unlimited_effect(effect)), op) is None,
        },
{
}

#[verifier::rlimit(60)]
proof fn lemma_unlimited_executed(k: Machine, op: u8)
    ensures
        match concluded(opcode_effect(k, op), op) {
            Some(n) => !ran_into_limit(n) ==> concluded(opcode_effect(unlimited(k), op), op)
                == Some(unlimited(n)),
            None => concluded(opcode_effect(unlimited(k), op), op) is None,
        },
{
    let effect = opcode_action(k, op);
    lemma_unlimited_action(k, op);
    lemma_unlimited_conclusion(k, effect, op);
    assert(opcode_effect(k, op) == limited(k, effect));
    assert(opcode_effect(unlimited(k), op) == limited(unlimited(k), unlimited_effect(effect)));
}

#[verifier::rlimit(60)]
proof fn lemma_unlimited_op(m: Machine, op: u8)
    ensures
        match op_step(m, op) {
            Some(n) => !ran_into_limit(n) ==> op_step(unlimited(m), op) == Some(unlimited(n)),
            None => op_step(unlimited(m), op) is None,
        },
{
    let k = executing(m, op);
    lemma_unlimited_executed(k, op);
    assert(unlimited(k) == executing(unlimited(m), op));
    assert(unlimited(tallied(m, op)) == tallied(unlimited(m), op));
    let u = unlimited(m);
    let over = m.ctx != ExecCtx::Tapscript && is_operation(op) && tallied(m, op).op_count
        > MAX_OPS_PER_SCRIPT;
    if !over && !is_disabled(m, op) && op != OP_RESERVED && is_executed(m, op) {
        assert(op_step(m, op) == concluded(opcode_effect(k, op), op));
        assert(op_step(u, op) == concluded(opcode_effect(unlimited(k), op), op));
    } else {
        assert(is_disabled(u, op) == is_disabled(m, op));
        assert(is_executed(u, op) == is_executed(m, op));
    }
}

proof fn lemma_unlimited_push(m: Machine, data: Seq<u8>)
    ensures
        !ran_into_limit(push_step(m, data)) && m.result is None ==> push_step(unlimited(m), data)
            == unlimited(push_step(m, data)),
{
}

#[verifier::rlimit(60)]
proof fn lemma_unlimited_step(m: Machine)
    ensures
        match step(m) {
            Some(n) => !ran_into_limit(n) ==> step(unlimited(m)) == Some(unlimited(n)),
            None => step(unlimited(m)) is None,
        },
{
    let u = unlimited(m);
    if m.result is None && !over_limit(m) {
        assert(u.rest() == m.rest());
        match decode(m.rest(), m.opt.require_minimal) {
            Decoded::End => {},
            Decoded::Bad(_) => {},
            Decoded::Instr(InstructionData::PushBytes(data), n) => {
                assert(moved(u, n) == unlimited(moved(m, n)));
                lemma_unlimited_push(moved(m, n), data);
            },
            Decoded::Instr(InstructionData::Op(op), n) => {
                assert(moved(u, n) == unlimited(moved(m, n)));
                lemma_unlimited_op(moved(m, n), op);
                assert(step(m) == op_step(moved(m, n), op));
                assert(step(u) == op_step(moved(u, n), op));
            },
        }
    }
}

/// An execution that does not run into the limit on the number of items goes on in the same way
/// without the limit.
#[verifier::rlimit(40)]
pub proof fn lemma_unlimited_run(m: Machine)
    requires
        m.position <= m.script.len(),
    ensures
        match run(m) {
            Some(n) => !ran_into_limit(n) ==> run(unlimited(m)) == Some(unlimited(n)),
            None => run(unlimited(m)) is None,
        },
    decreases
            (if m.result is Some {
                0
            } else {
                1 + m.script.len() - m.position
            }),
{
    if m.result is None {
        lemma_step_progress(m);
        lemma_unlimited_step(m);
        match step(m) {
            Some(n) => {
                lemma_unlimited_run(n);
                if ran_into_limit(n) {
                    assert(run(n) == Some(n));
                }
            },
            None => {},
        }
    }
}

/// Executing a script without a limit on the number of items comes to the same where the limit is
/// not run into.
pub proof fn lemma_unlimited_execution(script: Seq<u8>, witness: Items)
    ensures
        match standard_execution(script, witness) {
            Some(n) => !ran_into_limit(n) ==> unlimited_execution(script, witness) == Some(
                unlimited(n),
            ),
            None => unlimited_execution(script, witness) is None,
        },
{
    let m = start(
        ExecCtx::Tapscript,
        standard_options(false),
        bare_template_data(),
        script,
        witness,
    );
    lemma_unlimited_run(m);
}

/// Executing a script without a limit on the number of items never ends for too many of them, and
/// where the limit is not run into, everything there is to say of it is the same as with the
/// limit.
pub proof fn lemma_unlimited_info(script: Seq<u8>, witness: Items)
    requires
        standard_execution(script, witness) is Some,
        unlimited_execution(script, witness) is Some,
    ensures
        ({
            let limited = info_of(standard_execution(script, witness)->0);
            let unlimited = info_of(unlimited_execution(script, witness)->0);
            &&& unlimited.error != Some(ExecError::StackSize)
            &&& limited.error != Some(ExecError::StackSize) ==> unlimited == limited
        }),
{
    lemma_unlimited_execution(script, witness);
    let m = start(
        ExecCtx::Tapscript,
        standard_options(false),
        bare_template_data(),
        script,
        witness,
    );
    let u = start(
        ExecCtx::Tapscript,
        without_stack_limit(),
        bare_template_data(),
        script,
        witness,
    );
    lemma_unlimited_never_full(u);
    lemma_run_ends(m);
    lemma_run_ends(u);
    let n = standard_execution(script, witness)->0;
    assert(unlimited(n).rest() == n.rest());
}

/// A final stack can be had exactly where the execution has no error, whether it is a success or
/// not, and it holds the items that the execution's information holds.
pub proof fn lemma_final_stack(script: Seq<u8>, witness: Items)
    requires
        standard_execution(script, witness) is Some,
    ensures
        ends_without_error(script, witness) <==> info_of(
            standard_execution(script, witness)->0,
        ).error is None,
        standard_execution(script, witness)->0.stack == info_of(
            standard_execution(script, witness)->0,
        ).final_stack,
{
}

/// Executing a script for the bare transaction is executing it for none in particular, and
/// without a leaf it cannot be executed.
pub proof fn lemma_bare_template(tx: TemplateData, script: Seq<u8>, witness: Items)
    ensures
        tx == bare_template_data() ==> execution(standard_options(false), tx, script, witness)
            == standard_execution(script, witness),
        tx.taproot is None ==> execution(standard_options(false), tx, script, witness) is None,
{
}

/// Without the limit on the number of items no execution ends for too many of them.
#[verifier::rlimit(40)]
pub proof fn lemma_unlimited_never_full(m: Machine)
    requires
        m.position <= m.script.len(),
        !m.opt.enforce_stack_limit,
        !ran_into_limit(m),
    ensures
        run(m) matches Some(n) ==> !ran_into_limit(n),
    decreases
            (if m.result is Some {
                0
            } else {
                1 + m.script.len() - m.position
            }),
{
    if m.result is None {
        lemma_step_progress(m);
        lemma_unlimited_step_not_full(m);
        match step(m) {
            Some(n) => lemma_unlimited_never_full(n),
            None => {},
        }
    }
}

#[verifier::rlimit(40)]
proof fn lemma_unlimited_step_not_full(m: Machine)
    requires
        m.result is None,
        !m.opt.enforce_stack_limit,
    ensures
        step(m) matches Some(n) ==> !ran_into_limit(n),
{
    match decode(m.rest(), m.opt.require_minimal) {
        Decoded::Instr(InstructionData::Op(op), n) => {
            let k = executing(moved(m, n), op);
            lemma_opcode_reach(k, op);
            lemma_action_errors(k, op);
            assert(opcode_effect(k, op) == limited(k, opcode_action(k, op)));
        },
        _ => {},
    }
}

/// Whether no push in a script is too long to be executed.
pub open spec fn pushes_fit(rest: Seq<u8>) -> bool
    decreases rest.len(),
{
    match decode(rest, false) {
        Decoded::Instr(InstructionData::PushBytes(data), n) => data.len()
            <= MAX_SCRIPT_ELEMENT_SIZE && pushes_fit(rest.skip(n as int)),
        Decoded::Instr(InstructionData::Op(_), n) => pushes_fit(rest.skip(n as int)),
        _ => true,
    }
}

/// The number of pushes in a script, of data and of numbers.
pub open spec fn push_count(rest: Seq<u8>) -> nat
    decreases rest.len(),
{
    match decode(rest, false) {
        Decoded::Instr(InstructionData::PushBytes(_), n) => 1 + push_count(rest.skip(n as int)),
        Decoded::Instr(InstructionData::Op(op), n) => {
            let here: nat = if is_push_num(op) {
                1
            } else {
                0
            };
            here + push_count(rest.skip(n as int))
        },
        _ => 0,
    }
}

/// An opcode that is accepted in a script for a witness is executed without an error.
proof fn lemma_witness_op_step(m: Machine, op: u8)
    requires
        m.ctx == ExecCtx::Tapscript,
        m.active(),
        witness_op(m.stack, op) matches Some(Ok(_)),
        m.opt.enforce_stack_limit ==> witness_op(m.stack, op)->0->Ok_0.len() + m.altstack.len()
            <= MAX_STACK_SIZE,
    ensures
        op_step(m, op) == Some(
            counted(
                Machine { stack: witness_op(m.stack, op)->0->Ok_0, ..executing(m, op) },
            ),
        ),
{
    let k = executing(m, op);
    lemma_witness_op_executes(k, op);
    let effect = opcode_action(k, op);
    assert(opcode_effect(k, op) == limited(k, effect));
}

/// A machine that has still to execute a script for the witness `w`.
spec fn builds_witness(m: Machine, w: Items) -> bool {
    &&& m.result is None
    &&& m.position <= m.script.len()
    &&& m.ctx == ExecCtx::Tapscript
    &&& !m.opt.require_minimal
    &&& m.opt.enforce_stack_limit ==> m.items() + push_count(m.rest()) <= MAX_STACK_SIZE
    &&& m.active()
    &&& pushes_fit(m.rest())
    &&& witness_of(m.rest(), m.stack) == Some(Ok::<Items, Error>(w))
}

#[verifier::rlimit(40)]
proof fn lemma_witness_step(m: Machine, w: Items) -> (n: Machine)
    requires
        builds_witness(m, w),
    ensures
        step(m) == Some(n),
        m.position < m.script.len() ==> builds_witness(n, w) && m.position < n.position
            && n.script == m.script,
        m.position == m.script.len() ==> n.stack == w && n.result is Some && n.result->0.error
            is None && n.position == m.position && n.script == m.script,
{
    let n = step(m)->0;
    match decode(m.rest(), false) {
        Decoded::End => {},
        Decoded::Bad(_) => {},
        Decoded::Instr(InstructionData::PushBytes(data), k) => {
            assert(n.rest() =~= m.rest().skip(k as int));
        },
        Decoded::Instr(InstructionData::Op(op), k) => {
            lemma_witness_op_step(moved(m, k), op);
            assert(n.rest() =~= m.rest().skip(k as int));
        },
    }
    n
}

/// Executing a script for a witness leaves the items of the witness.
#[verifier::rlimit(40)]
proof fn lemma_witness_run(m: Machine, w: Items)
    requires
        builds_witness(m, w),
    ensures
        run(m) matches Some(n) && n.stack == w && n.result->0.error is None,
    decreases m.script.len() - m.position,
{
    let n = lemma_witness_step(m, w);
    if m.position < m.script.len() {
        lemma_witness_run(n, w);
    } else {
        assert(run(n) == Some(n));
    }
    assert(run(m) == run(n));
}

/// The witness that a script converts to is what executing the script leaves on the stack, where
/// no push is too long: without a limit on the number of items always, and with it where there
/// are no more pushes than items are allowed.
pub proof fn lemma_witness_executes(script: Seq<u8>, w: Items)
    requires
        witness_of(script, Seq::empty()) == Some(Ok::<Items, Error>(w)),
        pushes_fit(script),
    ensures
        unlimited_execution(script, Seq::empty()) matches Some(n) && n.stack == w
            && n.result->0.error is None,
        push_count(script) <= MAX_STACK_SIZE ==> (standard_execution(script, Seq::empty()) matches
            Some(n) && n.stack == w && n.result->0.error is None),
{
    lemma_witness_decodes(script, Seq::empty());
    let unlimited = start(
        ExecCtx::Tapscript,
        without_stack_limit(),
        bare_template_data(),
        script,
        Seq::empty(),
    );
    assert(unlimited.rest() =~= script);
    lemma_witness_run(unlimited, w);
    if push_count(script) <= MAX_STACK_SIZE {
        let limited = start(
            ExecCtx::Tapscript,
            standard_options(false),
            bare_template_data(),
            script,
            Seq::empty(),
        );
        assert(limited.rest() =~= script);
        lemma_witness_run(limited, w);
    }
}

/// A script that converts to a witness decodes.
proof fn lemma_witness_decodes(rest: Seq<u8>, items: Items)
    requires
        witness_of(rest, items) matches Some(Ok(_)),
    ensures
        first_error(rest, false) is None,
    decreases rest.len(),
{
    match decode(rest, false) {
        Decoded::Instr(InstructionData::PushBytes(data), n) => {
            lemma_witness_decodes(rest.skip(n as int), items.push(data));
        },
        Decoded::Instr(InstructionData::Op(op), n) => {
            lemma_witness_decodes(rest.skip(n as int), witness_op(items, op)->0->Ok_0);
        },
        _ => {},
    }
}

/// Whether the statistics are those of the machine as it is.
pub open spec fn stats_current(m: Machine) -> bool {
    &&& m.stats.opcode_count == m.executed
    &&& m.stats.validation_weight == m.weight
    &&& m.items() <= m.stats.max_nb_stack_items
}

/// Whether a machine that has not ended can count what it may come to hold.
pub open spec fn can_count(m: Machine) -> bool {
    &&& m.position <= m.script.len() <= isize::MAX
    &&& m.executed <= m.position
    &&& m.items() + 3 * (m.script.len() - m.position) <= isize::MAX
    &&& 0 <= m.weight <= i64::MAX
}

/// The higher one of two numbers of items.
pub open spec fn higher(a: nat, b: nat) -> nat {
    if a > b {
        a
    } else {
        b
    }
}

/// A step that ends nothing brings the statistics up to date: the highest number of items takes
/// in the items that there are now. A step that ends the execution leaves them as they are, and
/// none touches the weight that the execution started with.
#[verifier::rlimit(40)]
pub proof fn lemma_step_stats(m: Machine)
    requires
        m.result is None,
        can_count(m),
    ensures
        step(m) matches Some(n) ==> {
            &&& n.stats.start_validation_weight == m.stats.start_validation_weight
            &&& n.result is None ==> {
                &&& can_count(n)
                &&& stats_current(n)
                &&& n.stats.max_nb_stack_items == higher(
                    m.stats.max_nb_stack_items as nat,
                    n.items(),
                )
            }
            &&& n.result is Some ==> n.stats == m.stats
            &&& n.result is Some && n.result->0.error is None ==> n.items() == m.items()
                && n.executed == m.executed && n.weight == m.weight
        },
{
    match decode(m.rest(), m.opt.require_minimal) {
        Decoded::Instr(InstructionData::Op(op), n) => {
            let counting = executing(moved(m, n), op);
            lemma_opcode_reach(counting, op);
            let effect = opcode_effect(counting, op);
            assert(effect is Next ==> within_reach(counting, effect->Next_0));
        },
        _ => {},
    }
}

/// After an execution without an error the statistics are those of the machine as it is left. The
/// highest number of items never falls, and the weight that it started with is still there.
#[verifier::rlimit(40)]
pub proof fn lemma_run_stats(m: Machine)
    requires
        m.result is None,
        can_count(m),
        stats_current(m),
    ensures
        run(m) matches Some(n) ==> {
            &&& n.stats.start_validation_weight == m.stats.start_validation_weight
            &&& n.stats.max_nb_stack_items >= m.stats.max_nb_stack_items
            &&& n.result->0.error is None ==> stats_current(n)
        },
    decreases m.script.len() - m.position,
{
    lemma_step_progress(m);
    lemma_step_stats(m);
    match step(m) {
        Some(n) => {
            if n.result is None {
                lemma_run_stats(n);
            } else {
                assert(run(n) == Some(n));
            }
            assert(run(m) == run(n));
        },
        None => {},
    }
}

/// The statistics of an execution without an error: it started with the weight of its witness and
/// fifty more, counted every opcode that it executed, and at some point held at least the items of
/// the witness and those that it leaves.
pub proof fn lemma_execution_stats(
    opt: Options,
    tx: TemplateData,
    script: Seq<u8>,
    witness: Items,
)
    requires
        is_countable(script, witness),
    ensures
        execution(opt, tx, script, witness) matches Some(n) ==> {
            &&& n.stats.start_validation_weight == VALIDATION_WEIGHT_OFFSET + witness_size(witness)
            &&& n.stats.max_nb_stack_items >= witness.len()
            &&& n.result->0.error is None ==> stats_current(n)
        },
{
    lemma_run_stats(start(ExecCtx::Tapscript, opt, tx, script, witness));
}

proof fn lemma_signature_weight(m: Machine, op: u8)
    requires
        m.weight >= 0,
    ensures
        checksig_effect(m, op) matches Effect::Fail(n, e) ==> n.weight < 0 ==> e
            == ExecError::TapscriptValidationWeight,
        checksigadd_effect(m) matches Effect::Fail(n, e) ==> n.weight < 0 ==> e
            == ExecError::TapscriptValidationWeight,
        m.ctx != ExecCtx::Tapscript ==> (checksig_effect(m, op) matches Effect::Next(n)
            ==> n.weight == m.weight),
        m.ctx != ExecCtx::Tapscript ==> (checksig_effect(m, op) matches Effect::Fail(n, _)
            ==> n.weight == m.weight),
{
}

/// A step takes no weight or that of one signature, and outside Tapscript none. A machine whose
/// weight is overdrawn has ended for that reason.
#[verifier::rlimit(40)]
pub proof fn lemma_step_weight(m: Machine)
    requires
        m.result is None,
        m.weight >= 0,
    ensures
        step(m) matches Some(n) ==> {
            &&& n.weight == m.weight || n.weight == m.weight - VALIDATION_WEIGHT_PER_SIGOP_PASSED
            &&& m.ctx != ExecCtx::Tapscript ==> n.weight == m.weight
            &&& n.weight < 0 ==> n.result is Some && n.result->0.error == Some(
                ExecError::TapscriptValidationWeight,
            )
        },
{
    match decode(m.rest(), m.opt.require_minimal) {
        Decoded::Instr(InstructionData::Op(op), n) => {
            let counting = executing(moved(m, n), op);
            lemma_opcode_reach(counting, op);
            lemma_signature_weight(counting, op);
        },
        _ => {},
    }
}

proof fn lemma_whole_signatures(a: int, b: int, c: int)
    requires
        b == a || b == a - VALIDATION_WEIGHT_PER_SIGOP_PASSED,
        (b - c) % (VALIDATION_WEIGHT_PER_SIGOP_PASSED as int) == 0,
    ensures
        (a - c) % (VALIDATION_WEIGHT_PER_SIGOP_PASSED as int) == 0,
{
}

/// An execution takes the weight of a whole number of signatures, and overdraws it in no other
/// way than to end for that reason.
#[verifier::rlimit(40)]
pub proof fn lemma_run_weight(m: Machine)
    requires
        m.result is None,
        m.position <= m.script.len(),
        m.weight >= 0,
    ensures
        run(m) matches Some(n) ==> {
            &&& (m.weight - n.weight) % (VALIDATION_WEIGHT_PER_SIGOP_PASSED as int) == 0
            &&& n.weight <= m.weight
            &&& m.ctx != ExecCtx::Tapscript ==> n.weight == m.weight
            &&& n.weight < 0 ==> n.result->0.error == Some(ExecError::TapscriptValidationWeight)
        },
    decreases m.script.len() - m.position,
{
    lemma_step_progress(m);
    lemma_step_weight(m);
    match step(m) {
        Some(n) => {
            if n.result is None {
                lemma_run_weight(n);
            } else {
                assert(run(n) == Some(n));
            }
            if let Some(end) = run(n) {
                lemma_whole_signatures(m.weight, n.weight, end.weight);
            }
            assert(run(m) == run(n));
        },
        None => {},
    }
}

/// Where the limit on the number of items is enforced, a machine that goes on, or comes to the end
/// of the script without an error, holds no more, and no instruction, whatever it comes to, leads
/// over the limit.
#[verifier::rlimit(40)]
pub proof fn lemma_stack_limit(m: Machine)
    requires
        m.result is None,
        m.opt.enforce_stack_limit,
    ensures
        step(m) matches Some(n) ==> {
            &&& n.result is None ==> n.items() <= MAX_STACK_SIZE
            &&& n.result is Some && n.result->0.error is None ==> n.items() <= MAX_STACK_SIZE
            &&& m.items() <= MAX_STACK_SIZE ==> n.items() <= MAX_STACK_SIZE
            &&& m.items() > MAX_STACK_SIZE ==> ran_into_limit(n) && same_items(m, n)
        },
{
    match decode(m.rest(), m.opt.require_minimal) {
        Decoded::Instr(InstructionData::Op(op), n) => {
            lemma_opcode_reach(executing(moved(m, n), op), op);
        },
        _ => {},
    }
}

/// Where the limit on the number of items is enforced, an execution without an error leaves no
/// more, whatever it starts with.
#[verifier::rlimit(40)]
pub proof fn lemma_run_within_limit(m: Machine)
    requires
        m.position <= m.script.len(),
        m.opt.enforce_stack_limit,
        m.result is None,
    ensures
        run(m) matches Some(n) ==> n.result->0.error is None ==> n.items() <= MAX_STACK_SIZE,
    decreases m.script.len() - m.position,
{
    lemma_step_progress(m);
    lemma_stack_limit(m);
    match step(m) {
        Some(n) => {
            if n.result is None {
                lemma_run_within_limit(n);
            } else {
                assert(run(n) == Some(n));
            }
            assert(run(m) == run(n));
        },
        None => {},
    }
}

/// An execution that starts within the enforced limit on the number of items never leaves it, and
/// the highest number of items in its statistics says so.
#[verifier::rlimit(40)]
pub proof fn lemma_run_limit(m: Machine)
    requires
        m.position <= m.script.len(),
        m.opt.enforce_stack_limit,
        m.items() <= MAX_STACK_SIZE,
        m.stats.max_nb_stack_items <= MAX_STACK_SIZE,
    ensures
        run(m) matches Some(n) ==> n.items() <= MAX_STACK_SIZE && n.stats.max_nb_stack_items
            <= MAX_STACK_SIZE,
    decreases
            (if m.result is Some {
                0
            } else {
                1 + m.script.len() - m.position
            }),
{
    if m.result is None {
        lemma_step_progress(m);
        lemma_stack_limit(m);
        lemma_step_highest(m);
        match step(m) {
            Some(n) => lemma_run_limit(n),
            None => {},
        }
    }
}

proof fn lemma_concluded_highest(m: Machine, effect: Effect<Machine>, op: u8)
    requires
        m.stats.max_nb_stack_items <= MAX_STACK_SIZE,
        effect matches Effect::Next(n) ==> n.stats == m.stats && n.items() <= MAX_STACK_SIZE,
        effect matches Effect::Fail(n, _) ==> n.stats == m.stats,
    ensures
        concluded(effect, op) matches Some(n) ==> n.stats.max_nb_stack_items <= MAX_STACK_SIZE,
{
}

#[verifier::rlimit(40)]
proof fn lemma_step_highest(m: Machine)
    requires
        m.result is None,
        m.opt.enforce_stack_limit,
        m.items() <= MAX_STACK_SIZE,
        m.stats.max_nb_stack_items <= MAX_STACK_SIZE,
    ensures
        step(m) matches Some(n) ==> n.stats.max_nb_stack_items <= MAX_STACK_SIZE,
{
    match decode(m.rest(), m.opt.require_minimal) {
        Decoded::Instr(InstructionData::Op(op), n) => {
            let k = executing(moved(m, n), op);
            lemma_opcode_reach(k, op);
            lemma_concluded_highest(k, opcode_effect(k, op), op);
        },
        _ => {},
    }
}

/// The instruction that ends an execution, for an error or at the end of the script, leaves the
/// items of both stacks as they were.
#[verifier::rlimit(40)]
pub proof fn lemma_end_keeps_items(m: Machine)
    requires
        m.result is None,
    ensures
        step(m) matches Some(n) ==> n.result is Some ==> same_items(m, n),
{
    match decode(m.rest(), m.opt.require_minimal) {
        Decoded::Instr(InstructionData::Op(op), n) => {
            lemma_opcode_reach(executing(moved(m, n), op), op);
        },
        _ => {},
    }
}

/// Only opcodes that are executed are counted as such: a step counts one where it comes to an
/// opcode in a branch that is taken, or to an opcode of a conditional, and goes on.
#[verifier::rlimit(40)]
pub proof fn lemma_executed_opcodes(m: Machine, op: u8)
    requires
        m.result is None,
    ensures
        op_step(m, op) matches Some(n) ==> n.result is None ==> n.executed == m.executed
            + if is_executed(m, op) {
            1int
        } else {
            0
        },
{
    lemma_opcode_reach(executing(m, op), op);
}

/// The opcodes that may have no outcome: those that read an input of the transaction, those that
/// reach for an item deep down, those whose number may not have 64 bits, and those that check
/// several signatures.
pub open spec fn may_be_undefined(op: u8) -> bool {
    ||| op == OP_CLTV || op == OP_CSV
    ||| op == OP_PICK || op == OP_ROLL
    ||| op == OP_ABS || op == OP_MUL || op == OP_CHECKSIGADD
    ||| op == OP_CHECKMULTISIG || op == OP_CHECKMULTISIGVERIFY
}

/// In a script that decodes, every instruction has an outcome but for those opcodes.
#[verifier::rlimit(40)]
pub proof fn lemma_defined_steps(m: Machine)
    requires
        m.result is None,
        first_error(m.rest(), m.opt.require_minimal) is None,
    ensures
        step(m) is None ==> (decode(m.rest(), m.opt.require_minimal) matches Decoded::Instr(
            InstructionData::Op(op),
            _,
        ) && may_be_undefined(op)),
{
}

/// A legacy script code that does not hold the signature is signed as it is.
pub proof fn lemma_signature_absent(code: Seq<u8>, sig: Seq<u8>)
    requires
        forall|j: int|
            0 <= j <= code.len() - sig.len() ==> #[trigger] code.subrange(j, j + sig.len()) != sig,
    ensures
        strip_signature(code, sig) == code,
    decreases code.len(),
{
    if 0 < sig.len() <= code.len() {
        assert(code.subrange(0, 0int + sig.len()) != sig);
        assert(code.take(sig.len() as int) =~= code.subrange(0, 0int + sig.len()));
        let rest = code.skip(1);
        assert forall|j: int| 0 <= j <= rest.len() - sig.len() implies #[trigger] rest.subrange(
            j,
            j + sig.len(),
        ) != sig by {
            assert(rest.subrange(j, j + sig.len()) =~= code.subrange(j + 1, j + 1 + sig.len()));
        }
        lemma_signature_absent(rest, sig);
        assert(seq![code[0]] + rest =~= code);
    }
}

/// A signature at the front of a legacy script code, or alone in it, is dropped.
pub proof fn lemma_signature_dropped(code: Seq<u8>, sig: Seq<u8>)
    requires
        sig.len() > 0,
    ensures
        strip_signature(sig + code, sig) == strip_signature(code, sig),
        strip_signature(sig, sig) == Seq::<u8>::empty(),
{
    assert((sig + code).take(sig.len() as int) =~= sig);
    assert((sig + code).skip(sig.len() as int) =~= code);
    assert(sig.take(sig.len() as int) =~= sig);
    assert(sig.skip(sig.len() as int) =~= Seq::<u8>::empty());
    assert(strip_signature(Seq::<u8>::empty(), sig) == Seq::<u8>::empty());
}

/// Whether `t` has the items of `s` in another order, those below the `k` on top in place.
pub open spec fn permutes_top(s: Items, t: Items, k: int) -> bool {
    &&& t.to_multiset() == s.to_multiset()
    &&& t.len() == s.len()
    &&& below(t, k) == below(s, k)
}

/// The number of items that OP_SWAP, OP_ROT, OP_2SWAP and OP_2ROT work on.
pub open spec fn rearranged(op: u8) -> int {
    if op == OP_SWAP {
        2
    } else if op == OP_ROT {
        3
    } else if op == OP_2SWAP {
        4
    } else {
        // OP_2ROT
        6
    }
}

/// OP_SWAP, OP_ROT, OP_2SWAP and OP_2ROT only change the order of the items that they work on.
pub proof fn lemma_rearrangements(s: Items, op: u8)
    requires
        op == OP_SWAP || op == OP_ROT || op == OP_2SWAP || op == OP_2ROT,
        s.len() >= rearranged(op),
    ensures
        shuffle_effect(s, op) matches Effect::Next(t) && permutes_top(s, t, rearranged(op)),
{
    broadcast use vstd::seq_lib::group_to_multiset_ensures;

    let k = rearranged(op);
    let t = shuffle_effect(s, op)->Next_0;
    let b = below(s, k);
    let x1 = item_at(s, 1);
    let x2 = item_at(s, 2);
    let x3 = item_at(s, 3);
    let x4 = item_at(s, 4);
    let x5 = item_at(s, 5);
    let x6 = item_at(s, 6);
    assert(below(t, k) =~= b);
    if op == OP_SWAP {
        assert(s =~= b.push(x2).push(x1));
        assert(t =~= b.push(x1).push(x2));
    } else if op == OP_ROT {
        assert(s =~= b.push(x3).push(x2).push(x1));
        assert(t =~= b.push(x2).push(x1).push(x3));
    } else if op == OP_2SWAP {
        assert(s =~= b.push(x4).push(x3).push(x2).push(x1));
        assert(t =~= b.push(x2).push(x1).push(x4).push(x3));
    } else {
        assert(s =~= b.push(x6).push(x5).push(x4).push(x3).push(x2).push(x1));
        assert(t =~= b.push(x4).push(x3).push(x2).push(x1).push(x6).push(x5));
    }
    assert(t.to_multiset() =~= s.to_multiset());
}

/// Executed within the limit on the number of items, they succeed and touch nothing else.
pub proof fn lemma_rearranging_opcodes(m: Machine, op: u8)
    requires
        op == OP_SWAP || op == OP_ROT || op == OP_2SWAP || op == OP_2ROT,
        m.stack.len() >= rearranged(op),
        m.items() <= MAX_STACK_SIZE,
    ensures
        opcode_effect(m, op) == on_stack(m, shuffle_effect(m.stack, op)),
        opcode_effect(m, op) matches Effect::Next(n) && n == (Machine { stack: n.stack, ..m })
            && permutes_top(m.stack, n.stack, rearranged(op)),
{
    lemma_rearrangements(m.stack, op);
    let t = shuffle_effect(m.stack, op)->Next_0;
    assert(opcode_action(m, op) == Effect::Next(Machine { stack: t, ..m }));
}

/// The machine after one opcode is executed several times.
pub open spec fn repeated(m: Machine, op: u8, times: nat) -> Effect<Machine>
    decreases times,
{
    if times == 0 {
        Effect::Next(m)
    } else {
        match opcode_effect(m, op) {
            Effect::Next(n) => repeated(n, op, (times - 1) as nat),
            other => other,
        }
    }
}

/// Executed within the limit on the number of items, OP_SWAP and OP_2SWAP twice and OP_ROT and
/// OP_2ROT three times leave a machine as it was.
pub proof fn lemma_rearranging_restores(m: Machine, op: u8)
    requires
        op == OP_SWAP || op == OP_ROT || op == OP_2SWAP || op == OP_2ROT,
        m.stack.len() >= rearranged(op),
        m.items() <= MAX_STACK_SIZE,
    ensures
        op == OP_SWAP || op == OP_2SWAP ==> repeated(m, op, 2) == Effect::Next(m),
        op == OP_ROT || op == OP_2ROT ==> repeated(m, op, 3) == Effect::Next(m),
{
    lemma_rearranging_opcodes(m, op);
    let n1 = opcode_effect(m, op)->Next_0;
    lemma_rearranging_opcodes(n1, op);
    let n2 = opcode_effect(n1, op)->Next_0;
    assert(repeated(n2, op, 0) == Effect::Next(n2));
    if op == OP_SWAP || op == OP_2SWAP {
        lemma_swaps(m.stack);
        assert(n2.stack == m.stack);
        assert(repeated(n1, op, 1) == Effect::Next(n2));
    } else {
        lemma_rearranging_opcodes(n2, op);
        let n3 = opcode_effect(n2, op)->Next_0;
        lemma_rotations(m.stack);
        assert(n3.stack == m.stack);
        assert(repeated(n3, op, 0) == Effect::Next(n3));
        assert(repeated(n2, op, 1) == Effect::Next(n3));
        assert(repeated(n1, op, 2) == Effect::Next(n3));
    }
}

} // verus!
