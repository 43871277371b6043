//! Which signatures the signature opcodes accept.

use vstd::prelude::*;

use crate::data_structures::item_at;
use crate::effects::{below, bool_num, Effect, Items};
use crate::error::ExecError;
use crate::laws::arithmetic::stands_for;
use crate::laws::numbers::lemma_writing;
use crate::laws::{holding, refuses, turns};
use crate::machine::{opcode_action, strip_signature, Machine};
use crate::opcodes::{OP_CHECKSIG, OP_CHECKSIGADD, OP_CHECKSIGVERIFY};
use crate::options::ExecCtx;
use crate::signatures::{
    ecdsa_accepts, ecdsa_verifies, is_der_signature, is_public_key, is_xonly_key, legacy_digest,
    schnorr_result, schnorr_verifies, segwit_digest, taproot_digest,
};
use crate::transaction::TemplateData;
use crate::utils::num_bytes;

verus! {

/// The item that stands for true.
pub open spec fn yes() -> Seq<u8> {
    seq![1u8]
}

/// The item that stands for false.
pub open spec fn no() -> Seq<u8> {
    Seq::empty()
}

/// Whether an opcode turns one stack into another for a weight.
pub open spec fn turns_for(m: Machine, op: u8, cost: int, before: Items, after: Items) -> bool {
    opcode_action(holding(m, before), op) == Effect::Next(
        Machine { weight: m.weight - cost, stack: after, ..m },
    )
}

/// Whether an opcode refuses a stack, which it leaves, after taking a weight.
pub open spec fn refuses_for(m: Machine, op: u8, cost: int, s: Items, e: ExecError) -> bool {
    opcode_action(holding(m, s), op) == Effect::Fail(
        Machine { weight: m.weight - cost, stack: s, ..m },
        e,
    )
}

/// The three signature opcodes take a signature as accepted: OP_CHECKSIG leaves true,
/// OP_CHECKSIGVERIFY leaves nothing, and OP_CHECKSIGADD, which has a number `n` in the item `x`
/// between the signature and the key, leaves the next number.
pub open spec fn accepted(
    m: Machine,
    s: Items,
    sig: Seq<u8>,
    pk: Seq<u8>,
    x: Seq<u8>,
    n: i64,
    cost: int,
) -> bool {
    &&& turns_for(m, OP_CHECKSIG, cost, s.push(sig).push(pk), s.push(yes()))
    &&& turns_for(m, OP_CHECKSIGVERIFY, cost, s.push(sig).push(pk), s)
    &&& m.ctx == ExecCtx::Tapscript && n < i64::MAX ==> turns_for(
        m,
        OP_CHECKSIGADD,
        cost,
        s.push(sig).push(x).push(pk),
        s.push(num_bytes((n + 1) as i64)),
    )
    &&& m.ctx == ExecCtx::Tapscript && n == i64::MAX ==> opcode_action(
        holding(m, s.push(sig).push(x).push(pk)),
        OP_CHECKSIGADD,
    ) is Undefined
}

/// The three signature opcodes take a signature as not accepted: OP_CHECKSIG leaves false,
/// OP_CHECKSIGVERIFY refuses, and OP_CHECKSIGADD leaves the number.
pub open spec fn declined(
    m: Machine,
    s: Items,
    sig: Seq<u8>,
    pk: Seq<u8>,
    x: Seq<u8>,
    n: i64,
    cost: int,
) -> bool {
    &&& turns_for(m, OP_CHECKSIG, cost, s.push(sig).push(pk), s.push(no()))
    &&& refuses_for(m, OP_CHECKSIGVERIFY, cost, s.push(sig).push(pk), ExecError::CheckSigVerify)
    &&& m.ctx == ExecCtx::Tapscript ==> turns_for(
        m,
        OP_CHECKSIGADD,
        cost,
        s.push(sig).push(x).push(pk),
        s.push(num_bytes(n)),
    )
}

/// The three signature opcodes refuse.
pub open spec fn rejected(
    m: Machine,
    s: Items,
    sig: Seq<u8>,
    pk: Seq<u8>,
    x: Seq<u8>,
    cost: int,
    e: ExecError,
) -> bool {
    &&& refuses_for(m, OP_CHECKSIG, cost, s.push(sig).push(pk), e)
    &&& refuses_for(m, OP_CHECKSIGVERIFY, cost, s.push(sig).push(pk), e)
    &&& m.ctx == ExecCtx::Tapscript ==> refuses_for(
        m,
        OP_CHECKSIGADD,
        cost,
        s.push(sig).push(x).push(pk),
        e,
    )
}

proof fn lemma_operands(s: Items, sig: Seq<u8>, x: Seq<u8>, pk: Seq<u8>)
    ensures
        ({
            let two = s.push(sig).push(pk);
            let three = s.push(sig).push(x).push(pk);
            &&& below(two, 2) == s && item_at(two, 1) == pk && item_at(two, 2) == sig
            &&& below(three, 3) == s && item_at(three, 1) == pk && item_at(three, 2) == x
            &&& item_at(three, 3) == sig
            &&& two.len() >= 2 && three.len() >= 3
        }),
        num_bytes(bool_num(true)) == yes(),
        num_bytes(bool_num(false)) == no(),
{
    assert(below(s.push(sig).push(pk), 2) =~= s);
    assert(below(s.push(sig).push(x).push(pk), 3) =~= s);
    lemma_writing(1);
    lemma_writing(0);
    assert(num_bytes(0) =~= no());
}

/// What a signature of a hash type signs in a Tapscript: the transaction, the executed input, the
/// spent outputs, the annex, the leaf and the last executed OP_CODESEPARATOR.
pub open spec fn signed_in_tapscript(m: Machine, hash_type: u8) -> Seq<u8> {
    taproot_digest(
        m.tx.tx,
        m.tx.input_idx,
        m.tx.prevouts,
        m.tx.annex(),
        m.tx.leaf(),
        if m.code_separator is Some {
            m.code_separator->0
        } else {
            0xffff_ffff
        },
        hash_type,
    )
}

/// In Tapscript a signature of 64 bytes is accepted where it is one by the key on what a
/// signature for the executed input signs, whichever input that is. Any other is refused. Either
/// way it costs a weight of 50.
pub proof fn lemma_schnorr_signature(
    m: Machine,
    s: Items,
    sig: Seq<u8>,
    pk: Seq<u8>,
    x: Seq<u8>,
    n: i64,
)
    requires
        m.ctx == ExecCtx::Tapscript,
        m.weight >= 50,
        m.tx.prevouts.len() == m.tx.tx.input.len(),
        sig.len() == 64,
        pk.len() == 32,
        stands_for(x, n),
    ensures
        is_xonly_key(pk) && schnorr_verifies(signed_in_tapscript(m, 0), sig, pk) ==> accepted(
            m,
            s,
            sig,
            pk,
            x,
            n,
            50,
        ),
        !(is_xonly_key(pk) && schnorr_verifies(signed_in_tapscript(m, 0), sig, pk)) ==> rejected(
            m,
            s,
            sig,
            pk,
            x,
            50,
            ExecError::SchnorrSig,
        ),
{
    lemma_operands(s, sig, x, pk);
    assert(sig.take(64) =~= sig);
}

/// The hash types that a signature of 65 bytes may end in.
pub open spec fn names_what_is_signed(b: u8) -> bool {
    b == 1 || b == 2 || b == 3 || b == 0x81 || b == 0x82 || b == 0x83
}

/// Whether the transaction has the input and the output that a hash type singles out.
pub open spec fn has_what_is_signed(m: Machine, b: u8) -> bool {
    &&& m.tx.prevouts.len() == m.tx.tx.input.len()
    &&& b == 0x81 || b == 0x82 || b == 0x83 ==> m.tx.input_idx < m.tx.tx.input.len()
    &&& b == 3 || b == 0x83 ==> m.tx.input_idx < m.tx.tx.output.len()
}

/// With one more byte a signature names its hash type, and is held against what a signature of
/// that type for the executed input signs. A hash type that is none, or that singles out what is
/// not there, is refused.
pub proof fn lemma_schnorr_signature_with_type(
    m: Machine,
    s: Items,
    sig: Seq<u8>,
    b: u8,
    pk: Seq<u8>,
    x: Seq<u8>,
    n: i64,
)
    requires
        m.ctx == ExecCtx::Tapscript,
        m.weight >= 50,
        sig.len() == 64,
        pk.len() == 32,
        stands_for(x, n),
    ensures
        ({
            let verifies = is_xonly_key(pk) && schnorr_verifies(signed_in_tapscript(m, b), sig, pk);
            let defined = names_what_is_signed(b) && has_what_is_signed(m, b);
            &&& defined && verifies ==> accepted(m, s, sig.push(b), pk, x, n, 50)
            &&& defined && !verifies ==> rejected(
                m,
                s,
                sig.push(b),
                pk,
                x,
                50,
                ExecError::SchnorrSig,
            )
            &&& !defined ==> rejected(
                m,
                s,
                sig.push(b),
                pk,
                x,
                50,
                ExecError::SchnorrSigHashtype,
            )
        }),
{
    lemma_operands(s, sig.push(b), x, pk);
    assert(sig.push(b).take(64) =~= sig);
}

/// In Tapscript no signature is not accepted, but no error, and costs nothing. Signatures that
/// have neither 64 nor 65 bytes are refused, and so is any without the weight for it, and every
/// one where the spent outputs are not known. A key of no bytes is refused; one that has neither
/// 32 bytes nor none accepts whatever it is given.
pub proof fn lemma_tapscript_operands(
    m: Machine,
    s: Items,
    sig: Seq<u8>,
    pk: Seq<u8>,
    x: Seq<u8>,
    n: i64,
)
    requires
        m.ctx == ExecCtx::Tapscript,
        stands_for(x, n),
    ensures
        ({
            let cost = if sig.len() == 0 {
                0int
            } else {
                50int
            };
            let paid = sig.len() == 0 || m.weight >= 50;
            &&& !paid ==> rejected(m, s, sig, pk, x, 50, ExecError::TapscriptValidationWeight)
            &&& paid && pk.len() == 0 ==> rejected(m, s, sig, pk, x, cost, ExecError::PubkeyType)
            &&& paid && pk.len() != 0 && pk.len() != 32 ==> accepted(m, s, sig, pk, x, n, cost)
            &&& pk.len() == 32 && sig.len() == 0 ==> declined(m, s, sig, pk, x, n, 0)
            &&& paid && pk.len() == 32 && sig.len() != 0 && sig.len() != 64 && sig.len() != 65
                ==> rejected(m, s, sig, pk, x, 50, ExecError::SchnorrSigSize)
            &&& paid && pk.len() == 32 && sig.len() == 64 && m.tx.prevouts.len()
                != m.tx.tx.input.len() ==> rejected(
                m,
                s,
                sig,
                pk,
                x,
                50,
                ExecError::SchnorrSigHashtype,
            )
        }),
{
    lemma_operands(s, sig, x, pk);
}

/// OP_CHECKSIGADD refuses fewer than three items, and an item between the signature and the key
/// that is no number.
pub proof fn lemma_checksigadd_operands(
    m: Machine,
    s: Items,
    sig: Seq<u8>,
    pk: Seq<u8>,
    x: Seq<u8>,
)
    requires
        m.ctx == ExecCtx::Tapscript,
    ensures
        m.stack.len() < 3 ==> refuses(
            m,
            OP_CHECKSIGADD,
            m.stack,
            ExecError::InvalidStackOperation,
        ),
        x.len() > 8 ==> refuses(
            m,
            OP_CHECKSIGADD,
            s.push(sig).push(x).push(pk),
            ExecError::ScriptIntNumericOverflow,
        ),
{
    lemma_operands(s, sig, x, pk);
    assert(holding(m, m.stack) == m);
}

/// In a witness script a signature, which ends in its hash type, is accepted where the bytes
/// before that are one by the key on what a signature of that type for the executed input signs:
/// with the script code from the last executed OP_CODESEPARATOR on, and the amount that the input
/// spends. Any other is not accepted, but no error. A key of 65 bytes is refused.
pub proof fn lemma_segwit_signature(m: Machine, s: Items, sig: Seq<u8>, b: u8, pk: Seq<u8>)
    requires
        m.ctx == ExecCtx::SegwitV0,
    ensures
        ({
            let i = m.tx.input_idx;
            let there = i < m.tx.tx.input.len() && i < m.tx.prevouts.len();
            let digest = segwit_digest(
                m.tx.tx,
                i,
                m.script.skip(m.code_start as int),
                m.tx.prevouts[i as int].value,
                b as u32,
            );
            let verifies = there && is_public_key(pk) && is_der_signature(sig) && ecdsa_verifies(
                digest,
                sig,
                pk,
            );
            &&& pk.len() != 65 && verifies ==> accepted(m, s, sig.push(b), pk, no(), 0, 0)
            &&& pk.len() != 65 && !verifies ==> declined(m, s, sig.push(b), pk, no(), 0, 0)
            &&& pk.len() != 65 ==> declined(m, s, no(), pk, no(), 0, 0)
            &&& pk.len() == 65 ==> rejected(
                m,
                s,
                sig.push(b),
                pk,
                no(),
                0,
                ExecError::WitnessPubkeyType,
            )
            &&& pk.len() == 65 ==> rejected(
                m,
                s,
                no(),
                pk,
                no(),
                0,
                ExecError::WitnessPubkeyType,
            )
        }),
{
    lemma_operands(s, sig.push(b), no(), pk);
    lemma_operands(s, no(), no(), pk);
    assert(sig.push(b).drop_last() =~= sig);
}

/// In a legacy script a signature is accepted where it is one on what a signature for the
/// executed input signs, with the script code from the last executed OP_CODESEPARATOR on, without
/// the signature itself. Any other is not accepted, but no error.
pub proof fn lemma_legacy_signature(m: Machine, s: Items, sig: Seq<u8>, b: u8, pk: Seq<u8>)
    requires
        m.ctx == ExecCtx::Legacy,
    ensures
        ({
            let code = strip_signature(m.script.skip(m.code_start as int), sig.push(b));
            let digest = legacy_digest(m.tx.tx, m.tx.input_idx, code, b as u32);
            let verifies = m.tx.input_idx < m.tx.tx.input.len() && is_public_key(pk)
                && is_der_signature(sig) && ecdsa_verifies(digest, sig, pk);
            &&& verifies ==> accepted(m, s, sig.push(b), pk, no(), 0, 0)
            &&& !verifies ==> declined(m, s, sig.push(b), pk, no(), 0, 0)
            &&& declined(m, s, no(), pk, no(), 0, 0)
        }),
{
    lemma_operands(s, sig.push(b), no(), pk);
    lemma_operands(s, no(), no(), pk);
    assert(sig.push(b).drop_last() =~= sig);
}

/// A legacy script code loses a signature wherever it is found from the front, and nothing else.
pub proof fn lemma_stripping(code: Seq<u8>, first: u8, sig: Seq<u8>)
    ensures
        sig.len() > 0 ==> strip_signature(sig + code, sig) == strip_signature(code, sig),
        !sig.is_prefix_of(seq![first] + code) ==> strip_signature(seq![first] + code, sig)
            == seq![first] + strip_signature(code, sig),
        strip_signature(code, Seq::empty()) == code,
        strip_signature(Seq::empty(), sig) == Seq::<u8>::empty(),
        strip_signature(code, sig).len() <= code.len(),
    decreases code.len(),
{
    let longer = seq![first] + code;
    assert(longer.skip(1) =~= code);
    assert((sig + code).take(sig.len() as int) =~= sig);
    assert((sig + code).skip(sig.len() as int) =~= code);
    if code.len() > 0 {
        let rest = code.skip(1);
        lemma_stripping(rest, code[0], sig);
        assert(code =~= seq![code[0]] + rest);
        if sig.len() > 0 && sig.len() <= code.len() && code.take(sig.len() as int) == sig {
            lemma_stripping(code.skip(sig.len() as int), first, sig);
        }
    } else {
        assert(code =~= Seq::empty());
    }
}

/// No ECDSA signature is accepted in a Tapscript.
pub proof fn lemma_no_ecdsa_in_tapscript(m: Machine, sig: Seq<u8>, pk: Seq<u8>, code: Seq<u8>)
    ensures
        !ecdsa_accepts(ExecCtx::Tapscript, m.tx, sig, pk, code),
{
}

/// Whether a signature is accepted depends on the executed input: for two templates that differ
/// in nothing else, a signature of 64 bytes is accepted for each where it verifies for the input
/// of that one.
pub proof fn lemma_signature_is_for_one_input(
    m: Machine,
    other: usize,
    sig: Seq<u8>,
    pk: Seq<u8>,
)
    requires
        sig.len() == 64,
        m.tx.prevouts.len() == m.tx.tx.input.len(),
        is_xonly_key(pk),
    ensures
        ({
            let t = TemplateData { input_idx: other, ..m.tx };
            let k = Machine { tx: t, ..m };
            &&& schnorr_result(t, m.code_separator, sig, pk) is Ok <==> schnorr_verifies(
                signed_in_tapscript(k, 0),
                sig,
                pk,
            )
            &&& schnorr_result(m.tx, m.code_separator, sig, pk) is Ok <==> schnorr_verifies(
                signed_in_tapscript(m, 0),
                sig,
                pk,
            )
        }),
{
    assert(sig.take(64) =~= sig);
}

} // verus!
