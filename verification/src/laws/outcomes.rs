//! How executions start and end.

use vstd::prelude::*;

use crate::effects::{is_true, Effect, Items};
use crate::error::{Error, ExecError};
use crate::execute::{
    asm_text, bare_template_data, ends_without_error, info_of, standard_execution,
    unlimited_execution,
};
use crate::instruction::first_error;
use crate::laws::control::{is_running, past};
use crate::laws::holding;
use crate::machine::{leaves_success, opcode_action, run, setup_error, start, step, Machine};
use crate::opcodes::OP_VERIFY;
use crate::options::{standard_options, ExecCtx, Options};
use crate::transaction::{TemplateData, TxTemplate};
use crate::witness::{compact_size, witness_size};

verus! {

/// The verdict on a machine that is at the end of its script.
pub open spec fn succeeds(m: Machine) -> bool {
    step(m) matches Some(n) && n.result matches Some(end) && end.success
}

/// Whether a machine is at the end of its script, within the limit on the number of items.
pub open spec fn is_at_end(m: Machine) -> bool {
    is_running(m) && m.position == m.script.len()
}

/// At its end a script has no error, whatever it leaves, and its result holds the items that it
/// leaves.
pub proof fn lemma_ending(m: Machine)
    requires
        is_at_end(m),
    ensures
        step(m) matches Some(n) && n.result is Some && n.result->0.error is None
            && n.result->0.opcode is None && n.result->0.final_stack == m.stack && n == (Machine {
            result: n.result,
            ..past(m, 0)
        }),
{
}

/// A legacy script succeeds where the item on top counts as true, whatever lies below: it depends
/// on no other item, and nothing, or a false item on top of anything, is no success.
pub proof fn lemma_legacy_verdict(m: Machine, s: Items, t: Items, x: Seq<u8>)
    requires
        is_at_end(holding(m, s.push(x))),
        is_at_end(holding(m, t.push(x))),
        m.ctx == ExecCtx::Legacy,
    ensures
        succeeds(holding(m, s.push(x))) <==> is_true(x),
        succeeds(holding(m, s.push(x))) == succeeds(holding(m, t.push(x))),
        is_at_end(holding(m, Seq::empty())) ==> !succeeds(holding(m, Seq::empty())),
        x == Seq::<u8>::empty() ==> !succeeds(holding(m, s.push(x))),
        leaves_success(ExecCtx::Legacy, s.push(x)) <==> is_true(x),
        !leaves_success(ExecCtx::Legacy, Seq::empty()),
{
    assert(s.push(x).last() == x);
    assert(t.push(x).last() == x);
}

/// From segwit on a script succeeds where it leaves one item and that counts as true.
pub proof fn lemma_strict_verdict(m: Machine, s: Items, x: Seq<u8>, y: Seq<u8>)
    requires
        m.ctx != ExecCtx::Legacy,
    ensures
        is_at_end(holding(m, seq![x])) ==> (succeeds(holding(m, seq![x])) <==> is_true(x)),
        is_at_end(holding(m, Seq::empty())) ==> !succeeds(holding(m, Seq::empty())),
        is_at_end(holding(m, s.push(x).push(y))) ==> !succeeds(holding(m, s.push(x).push(y))),
        leaves_success(m.ctx, seq![x]) <==> is_true(x),
        !leaves_success(m.ctx, Seq::empty()),
        !leaves_success(m.ctx, s.push(x).push(y)),
{
    assert(seq![x].last() == x);
}

/// A script succeeds as a legacy script exactly where OP_VERIFY behind it would succeed.
pub proof fn lemma_verdict_is_verify(m: Machine)
    requires
        is_at_end(m),
        m.ctx == ExecCtx::Legacy,
    ensures
        succeeds(m) <==> opcode_action(m, OP_VERIFY) is Next,
        m.stack.len() > 0 ==> (succeeds(m) <==> opcode_action(m, OP_VERIFY) != Effect::Fail(
            m,
            ExecError::Verify,
        )),
{
}

/// A machine starts at the front of its script, with the witness on its stack and nothing on the
/// other one, no conditional open and nothing counted but the weight: fifty and the size of the
/// witness.
pub proof fn lemma_starting(
    ctx: ExecCtx,
    opt: Options,
    tx: TemplateData,
    script: Seq<u8>,
    witness: Items,
)
    ensures
        ({
            let m = start(ctx, opt, tx, script, witness);
            &&& m.ctx == ctx && m.opt == opt && m.tx == tx && m.script == script
            &&& m.position == 0 && m.current == 0 && m.code_start == 0 && m.code_separator is None
            &&& m.levels.len() == 0 && m.altstack.len() == 0 && m.stack == witness
            &&& m.op_count == 0 && m.executed == 0 && m.result is None
            &&& m.weight == 50 + witness_size(witness)
            &&& m.rest() == script && m.script_code() == script
        }),
{
    let m = start(ctx, opt, tx, script, witness);
    assert(m.rest() =~= script);
    assert(m.script_code() =~= script);
}

/// A length takes one byte up to 252, three up to 65535, five up to 2^32 - 1 and nine above. A
/// witness has the bytes of its items, each with its length in front, behind the length of the
/// list.
pub proof fn lemma_witness_sizes(witness: Items, item: Seq<u8>, n: nat)
    ensures
        n < 253 ==> compact_size(n) == 1,
        253 <= n < 0x1_0000 ==> compact_size(n) == 3,
        0x1_0000 <= n < 0x1_0000_0000 ==> compact_size(n) == 5,
        0x1_0000_0000 <= n ==> compact_size(n) == 9,
        witness_size(Seq::empty()) == 1,
        witness_size(witness.push(item)) - compact_size(witness.len() + 1) == witness_size(witness)
            - compact_size(witness.len()) + compact_size(item.len()) + item.len(),
{
    assert(witness.push(item).drop_last() =~= witness);
}

/// A machine cannot be set up in Tapscript without a leaf, or with an annex that does not start
/// with 0x50, or for a script that does not decode; otherwise it can.
pub proof fn lemma_setting_up(
    ctx: ExecCtx,
    opt: Options,
    tx: TemplateData,
    script: Seq<u8>,
    leaf: Seq<u8>,
    annex: Seq<u8>,
)
    ensures
        ctx == ExecCtx::Tapscript && tx.taproot is None ==> setup_error(ctx, opt, tx, script)
            == Some(Error::Other("missing taproot tx info in tapscript context")),
        ctx == ExecCtx::Tapscript && tx.taproot == Some((leaf, Some(annex))) && !(annex.len() > 0
            && annex[0] == 0x50) ==> setup_error(ctx, opt, tx, script) == Some(
            Error::Other("invalid annex: missing prefix"),
        ),
        ctx != ExecCtx::Tapscript || tx.taproot == Some((leaf, None::<Seq<u8>>)) || (tx.taproot
            == Some((leaf, Some(annex))) && annex.len() > 0 && annex[0] == 0x50)
            ==> match first_error(script, opt.require_minimal) {
            Some(e) => setup_error(ctx, opt, tx, script) == Some(Error::InvalidScript(e)),
            None => setup_error(ctx, opt, tx, script) is None,
        },
{
}

/// The standard options: everything is verified and limited, pushes need not be minimal, and of
/// the experimental opcodes OP_CAT and OP_AND are enabled.
pub proof fn lemma_standard_options(op_mul: bool)
    ensures
        ({
            let opt = standard_options(op_mul);
            &&& !opt.require_minimal
            &&& opt.verify_cltv && opt.verify_csv && opt.verify_minimal_if
            &&& opt.enforce_stack_limit && opt.enforce_sub_nonnegative
            &&& opt.experimental.op_cat && opt.experimental.op_and
            &&& opt.experimental.op_mul == op_mul
        }),
{
}

/// A script that is executed for no transaction in particular is executed for one of version 2
/// without inputs and outputs and without a lock time, with a leaf of 32 zero bytes and no annex,
/// as a Tapscript, with the standard options but for OP_MUL; without a limit on the number of
/// items where that is asked for.
pub proof fn lemma_plain_execution(script: Seq<u8>, witness: Items, opt: Options)
    requires
        opt == (Options { enforce_stack_limit: false, ..standard_options(false) }),
    ensures
        ({
            let t = bare_template_data();
            &&& t.tx.version == 2 && t.tx.lock_time == 0 && t.input_idx == 0
            &&& t.tx.input.len() == 0 && t.tx.output.len() == 0 && t.prevouts.len() == 0
            &&& t.annex() is None && t.leaf().len() == 32
            &&& forall|i: int| 0 <= i < 32 ==> t.leaf()[i] == 0
            &&& t.taproot is Some
        }),
        setup_error(
            ExecCtx::Tapscript,
            standard_options(false),
            bare_template_data(),
            script,
        ) is None ==> standard_execution(script, witness) == run(
            start(
                ExecCtx::Tapscript,
                standard_options(false),
                bare_template_data(),
                script,
                witness,
            ),
        ) && unlimited_execution(script, witness) == run(
            start(ExecCtx::Tapscript, opt, bare_template_data(), script, witness),
        ) && (ends_without_error(script, witness) <==> (standard_execution(
            script,
            witness,
        ) matches Some(m) && m.result->0.error is None)),
        setup_error(
            ExecCtx::Tapscript,
            standard_options(false),
            bare_template_data(),
            script,
        ) is Some ==> standard_execution(script, witness) is None && unlimited_execution(
            script,
            witness,
        ) is None && !ends_without_error(script, witness),
{
}

/// What is said of an execution is what the machine holds once it has ended.
pub proof fn lemma_information(m: Machine)
    requires
        m.result is Some,
    ensures
        info_of(m).success == m.result->0.success,
        info_of(m).error == m.result->0.error,
        info_of(m).last_opcode == m.result->0.opcode,
        info_of(m).final_stack == m.stack,
        info_of(m).stats == m.stats,
        info_of(m).remaining_script == asm_text(m.script.skip(m.position as int)),
{
}

/// A template says what its fields hold.
pub proof fn lemma_template_fields(t: TxTemplate, i: int)
    ensures
        t@.input_idx == t.input_idx,
        t@.tx.version == t.tx.version && t@.tx.lock_time == t.tx.lock_time,
        t@.tx.input == t.tx.input@,
        t@.tx.output.len() == t.tx.output.len() && t@.prevouts.len() == t.prevouts.len(),
        0 <= i < t.tx.output.len() ==> t@.tx.output[i].value == t.tx.output[i].value
            && t@.tx.output[i].script_pubkey == t.tx.output[i].script_pubkey@,
        0 <= i < t.prevouts.len() ==> t@.prevouts[i].value == t.prevouts[i].value
            && t@.prevouts[i].script_pubkey == t.prevouts[i].script_pubkey@,
        t@.taproot is Some <==> t.taproot_annex_scriptleaf is Some,
        t.taproot_annex_scriptleaf matches Some((leaf, annex)) ==> {
            &&& t@.leaf() == leaf@
            &&& annex is None ==> t@.annex() is None
            &&& annex matches Some(a) ==> t@.annex() == Some(a@)
        },
{
}

} // verus!
