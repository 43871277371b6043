use bitcoin::hashes::Hash as _;
use bitcoin::secp256k1::{ecdsa, schnorr, Message, PublicKey, Secp256k1, XOnlyPublicKey};
use bitcoin::sighash::{Annex, EcdsaSighashType, Prevouts, SighashCache, TapSighashType};
use vstd::prelude::*;

use crate::error::ExecError;
use crate::options::ExecCtx;
use crate::transaction::{
    outputs_data, OutputData, SpendingTx, TemplateData, TxData, TxOutput, TxTemplate,
};

verus! {

/// The first byte of every annex.
pub const ANNEX_PREFIX: u8 = 0x50;

/// A transaction as the `bitcoin` crate holds it.
#[verifier::external_type_specification]
#[verifier::external_body]
pub struct ExTransaction(bitcoin::Transaction);

/// An output as the `bitcoin` crate holds it.
#[verifier::external_type_specification]
#[verifier::external_body]
pub struct ExTxOut(bitcoin::TxOut);

/// The version, the lock time, the inputs and the outputs that a transaction of the `bitcoin`
/// crate holds.
pub uninterp spec fn transaction_data(tx: bitcoin::Transaction) -> TxData;

/// The amount and the script that an output of the `bitcoin` crate holds.
pub uninterp spec fn output_data(output: bitcoin::TxOut) -> OutputData;

/// Whether a byte string is an encoded public key.
pub uninterp spec fn is_public_key(key: Seq<u8>) -> bool;

/// Whether a byte string is a DER encoded ECDSA signature.
pub uninterp spec fn is_der_signature(sig: Seq<u8>) -> bool;

/// Whether an ECDSA signature on a digest is one by a public key.
pub uninterp spec fn ecdsa_verifies(digest: Seq<u8>, sig: Seq<u8>, key: Seq<u8>) -> bool;

/// Whether a byte string is an encoded x-only public key.
pub uninterp spec fn is_xonly_key(key: Seq<u8>) -> bool;

/// Whether a Schnorr signature on a digest is one by an x-only public key.
pub uninterp spec fn schnorr_verifies(digest: Seq<u8>, sig: Seq<u8>, key: Seq<u8>) -> bool;

/// The digest that a signature in a legacy script signs.
pub uninterp spec fn legacy_digest(tx: TxData, input: usize, code: Seq<u8>, hash_type: u32) -> Seq<
    u8,
>;

/// The digest that a signature in a witness script signs.
pub uninterp spec fn segwit_digest(
    tx: TxData,
    input: usize,
    code: Seq<u8>,
    value: u64,
    hash_type: u32,
) -> Seq<u8>;

/// The digest that a signature in a Tapscript signs.
pub uninterp spec fn taproot_digest(
    tx: TxData,
    input: usize,
    prevouts: Seq<OutputData>,
    annex: Option<Seq<u8>>,
    leaf: Seq<u8>,
    code_separator: u32,
    hash_type: u8,
) -> Seq<u8>;

/// The hash types of signatures in a Tapscript.
pub open spec fn is_tap_hash_type(b: u8) -> bool {
    b <= 3 || 0x81 <= b <= 0x83
}

/// Whether the transaction has all that a signature of this hash type signs.
pub open spec fn taproot_digest_defined(
    tx: TxData,
    input: usize,
    prevouts: Seq<OutputData>,
    hash_type: u8,
) -> bool {
    &&& is_tap_hash_type(hash_type)
    &&& prevouts.len() == tx.input.len()
    &&& hash_type >= 0x81 ==> input < tx.input.len()
    &&& (hash_type == 3 || hash_type == 0x83) ==> input < tx.output.len()
}

/// Whether an annex, where there is one, starts as an annex does.
pub open spec fn annex_ok(annex: Option<Seq<u8>>) -> bool {
    annex matches Some(a) ==> a.len() > 0 && a[0] == ANNEX_PREFIX
}

/// The digest that an ECDSA signature signs, where the transaction has all that it takes.
pub open spec fn ecdsa_digest(
    ctx: ExecCtx,
    t: TemplateData,
    code: Seq<u8>,
    hash_type: u8,
) -> Option<Seq<u8>> {
    if t.input_idx >= t.tx.input.len() {
        None
    } else {
        match ctx {
            ExecCtx::Legacy => Some(legacy_digest(t.tx, t.input_idx, code, hash_type as u32)),
            ExecCtx::SegwitV0 => if t.input_idx >= t.prevouts.len() {
                None
            } else {
                Some(
                    segwit_digest(
                        t.tx,
                        t.input_idx,
                        code,
                        t.prevouts[t.input_idx as int].value,
                        hash_type as u32,
                    ),
                )
            },
            ExecCtx::Tapscript => None,
        }
    }
}

/// Whether `sig`, which ends in its hash type, is a signature by `pk` for this input.
pub open spec fn ecdsa_accepts(
    ctx: ExecCtx,
    t: TemplateData,
    sig: Seq<u8>,
    pk: Seq<u8>,
    code: Seq<u8>,
) -> bool {
    &&& sig.len() > 0
    &&& is_public_key(pk)
    &&& is_der_signature(sig.drop_last())
    &&& ecdsa_digest(ctx, t, code, sig.last()) matches Some(digest) && ecdsa_verifies(
        digest,
        sig.drop_last(),
        pk,
    )
}

/// Whether `sig`, which may end in its hash type, is a signature by the x-only key `pk` for this
/// input, and if not, why.
pub open spec fn schnorr_result(
    t: TemplateData,
    code_separator: Option<u32>,
    sig: Seq<u8>,
    pk: Seq<u8>,
) -> Result<(), ExecError> {
    let hash_type: u8 = if sig.len() == 65 {
        sig.last()
    } else {
        0
    };
    let separator = match code_separator {
        Some(p) => p,
        None => u32::MAX,
    };
    if sig.len() != 64 && sig.len() != 65 {
        Err(ExecError::SchnorrSigSize)
    } else if sig.len() == 65 && hash_type == 0 {
        Err(ExecError::SchnorrSigHashtype)
    } else if !taproot_digest_defined(t.tx, t.input_idx, t.prevouts, hash_type) {
        Err(ExecError::SchnorrSigHashtype)
    } else if is_xonly_key(pk) && schnorr_verifies(
        taproot_digest(
            t.tx,
            t.input_idx,
            t.prevouts,
            t.annex(),
            t.leaf(),
            separator,
            hash_type,
        ),
        sig.take(64),
        pk,
    ) {
        Ok(())
    } else {
        Err(ExecError::SchnorrSig)
    }
}

/// Builds a `bitcoin::Transaction`. The contract claims that it holds the version, the lock
/// time, the inputs and the outputs of `tx`. The script and the witness of each input are
/// empty: no signature hash reads them.
#[verifier::external_body]
fn outside_transaction(tx: &SpendingTx) -> (r: bitcoin::Transaction)
    ensures
        transaction_data(r) == tx@,
{
    bitcoin::Transaction {
        version: bitcoin::transaction::Version(tx.version),
        lock_time: bitcoin::absolute::LockTime::from_consensus(tx.lock_time),
        input: tx.input.iter().map(|i| bitcoin::TxIn {
            previous_output: bitcoin::OutPoint::new(bitcoin::Txid::from_byte_array(i.txid), i.vout),
            sequence: bitcoin::Sequence::from_consensus(i.sequence),
            ..Default::default()
        }).collect(),
        output: tx.output.iter().map(|o| bitcoin::TxOut {
            value: bitcoin::Amount::from_sat(o.value),
            script_pubkey: bitcoin::ScriptBuf::from_bytes(o.script_pubkey.clone()),
        }).collect(),
    }
}

/// Builds a `bitcoin::TxOut`. The contract claims that it holds the amount and the script of
/// `output`.
#[verifier::external_body]
fn outside_output(output: &TxOutput) -> (r: bitcoin::TxOut)
    ensures
        output_data(r) == output@,
{
    bitcoin::TxOut {
        value: bitcoin::Amount::from_sat(output.value),
        script_pubkey: bitcoin::ScriptBuf::from_bytes(output.script_pubkey.clone()),
    }
}

/// Builds a list of outputs for the `bitcoin` crate.
fn outside_outputs(outputs: &Vec<TxOutput>) -> (r: Vec<bitcoin::TxOut>)
    ensures
        r@.map_values(|o: bitcoin::TxOut| output_data(o)) == outputs_data(outputs@),
{
    let mut out: Vec<bitcoin::TxOut> = Vec::new();
    for i in 0..outputs.len()
        invariant
            out.len() == i,
            forall|j: int| 0 <= j < i ==> output_data(#[trigger] out[j]) == outputs[j]@,
    {
        out.push(outside_output(&outputs[i]));
    }
    assert(out@.map_values(|o: bitcoin::TxOut| output_data(o)) =~= outputs_data(outputs@));
    out
}

/// Calls `bitcoin::secp256k1::PublicKey::from_slice`. The contract names whether it succeeds,
/// which depends on the bytes alone.
#[verifier::external_body]
fn public_key_parses(key: &[u8]) -> (r: bool)
    ensures
        r == is_public_key(key@),
{
    PublicKey::from_slice(key).is_ok()
}

/// Calls `bitcoin::secp256k1::ecdsa::Signature::from_der`. The contract names whether it
/// succeeds, which depends on the bytes alone.
#[verifier::external_body]
fn der_signature_parses(sig: &[u8]) -> (r: bool)
    ensures
        r == is_der_signature(sig@),
{
    ecdsa::Signature::from_der(sig).is_ok()
}

/// Calls `bitcoin::secp256k1::Secp256k1::verify_ecdsa`. The contract names whether it succeeds,
/// which depends on the digest, the signature and the key alone.
#[verifier::external_body]
fn verify_ecdsa(digest: [u8; 32], sig: &[u8], key: &[u8]) -> (r: bool)
    requires
        is_der_signature(sig@),
        is_public_key(key@),
    ensures
        r == ecdsa_verifies(digest@, sig@, key@),
{
    let sig = ecdsa::Signature::from_der(sig).expect("a signature");
    let key = PublicKey::from_slice(key).expect("a public key");
    let message = Message::from_digest(digest);
    Secp256k1::verification_only().verify_ecdsa(&message, &sig, &key).is_ok()
}

/// Calls `bitcoin::secp256k1::XOnlyPublicKey::from_slice`. The contract names whether it
/// succeeds, which depends on the bytes alone.
#[verifier::external_body]
fn xonly_key_parses(key: &[u8]) -> (r: bool)
    ensures
        r == is_xonly_key(key@),
{
    XOnlyPublicKey::from_slice(key).is_ok()
}

/// Calls `bitcoin::secp256k1::Secp256k1::verify_schnorr`. The contract names whether it
/// succeeds, which depends on the digest, the signature of 64 bytes and the key alone.
#[verifier::external_body]
fn verify_schnorr(digest: [u8; 32], sig: &[u8], key: &[u8]) -> (r: bool)
    requires
        sig@.len() == 64,
        is_xonly_key(key@),
    ensures
        r == schnorr_verifies(digest@, sig@, key@),
{
    let sig = schnorr::Signature::from_slice(sig).expect("a signature");
    let key = XOnlyPublicKey::from_slice(key).expect("an x-only key");
    let message = Message::from_digest(digest);
    Secp256k1::verification_only().verify_schnorr(&sig, &message, &key).is_ok()
}

/// Calls `bitcoin::sighash::SighashCache::legacy_signature_hash`, which succeeds for every input
/// that there is. The contract names the result, which depends on the arguments alone.
#[verifier::external_body]
fn legacy_signature_hash(
    tx: &bitcoin::Transaction,
    input: usize,
    code: &[u8],
    hash_type: u32,
) -> (r: [u8; 32])
    requires
        input < transaction_data(*tx).input.len(),
    ensures
        r@ == legacy_digest(transaction_data(*tx), input, code@, hash_type),
{
    SighashCache::new(tx)
        .legacy_signature_hash(input, bitcoin::Script::from_bytes(code), hash_type)
        .expect("the input is there")
        .to_byte_array()
}

/// Calls `bitcoin::sighash::SighashCache::p2wsh_signature_hash`, which succeeds for every input
/// that there is, with the hash type as `EcdsaSighashType::from_consensus` reads it. The
/// contract names the result, which depends on the arguments alone.
#[verifier::external_body]
fn p2wsh_signature_hash(
    tx: &bitcoin::Transaction,
    input: usize,
    code: &[u8],
    value: u64,
    hash_type: u32,
) -> (r: [u8; 32])
    requires
        input < transaction_data(*tx).input.len(),
    ensures
        r@ == segwit_digest(transaction_data(*tx), input, code@, value, hash_type),
{
    let value = bitcoin::Amount::from_sat(value);
    let hash_type = EcdsaSighashType::from_consensus(hash_type);
    SighashCache::new(tx)
        .p2wsh_signature_hash(input, bitcoin::Script::from_bytes(code), value, hash_type)
        .expect("the input is there")
        .to_byte_array()
}

/// Calls `bitcoin::sighash::SighashCache::taproot_signature_hash` with all spent outputs, which
/// succeeds where there are as many of them as inputs, and where the input and the output that
/// the hash type singles out are there. The contract names the result, which depends on the
/// arguments alone.
#[verifier::external_body]
fn taproot_signature_hash(
    tx: &bitcoin::Transaction,
    input: usize,
    prevouts: &Vec<bitcoin::TxOut>,
    annex: &Option<Vec<u8>>,
    leaf: [u8; 32],
    code_separator: u32,
    hash_type: u8,
) -> (r: [u8; 32])
    requires
        annex_ok(crate::transaction::annex_data(*annex)),
        taproot_digest_defined(
            transaction_data(*tx),
            input,
            prevouts@.map_values(|o: bitcoin::TxOut| output_data(o)),
            hash_type,
        ),
    ensures
        r@ == taproot_digest(
            transaction_data(*tx),
            input,
            prevouts@.map_values(|o: bitcoin::TxOut| output_data(o)),
            crate::transaction::annex_data(*annex),
            leaf@,
            code_separator,
            hash_type,
        ),
{
    let annex = annex.as_ref().map(|a| Annex::new(a).expect("an annex"));
    let leaf = bitcoin::TapLeafHash::from_byte_array(leaf);
    let hash_type = TapSighashType::from_consensus_u8(hash_type).expect("a hash type");
    let prevouts = Prevouts::All(prevouts.as_slice());
    SighashCache::new(tx)
        .taproot_signature_hash(input, &prevouts, annex, Some((leaf, code_separator)), hash_type)
        .expect("all that is signed is there")
        .to_byte_array()
}

/// Whether `sig`, which ends in its hash type, is an ECDSA signature by `pk` for this input.
pub fn check_sig_ecdsa(
    ctx: ExecCtx,
    template: &TxTemplate,
    sig: &[u8],
    pk: &[u8],
    script_code: &[u8],
) -> (r: bool)
    ensures
        r == ecdsa_accepts(ctx, template@, sig@, pk@, script_code@),
{
    if !public_key_parses(pk) || sig.len() == 0 {
        return false;
    }
    let body = vstd::slice::slice_subrange(sig, 0, sig.len() - 1);
    assert(body@ =~= sig@.drop_last());
    let hash_type = sig[sig.len() - 1];
    if !der_signature_parses(body) {
        return false;
    }
    let idx = template.input_idx;
    if idx >= template.tx.input.len() {
        return false;
    }
    let tx = outside_transaction(&template.tx);
    let digest = match ctx {
        ExecCtx::Legacy => legacy_signature_hash(&tx, idx, script_code, hash_type as u32),
        ExecCtx::SegwitV0 => {
            if idx >= template.prevouts.len() {
                return false;
            }
            let value = template.prevouts[idx].value;
            p2wsh_signature_hash(&tx, idx, script_code, value, hash_type as u32)
        },
        ExecCtx::Tapscript => {
            return false;
        },
    };
    verify_ecdsa(digest, body, pk)
}

/// Whether `sig`, which may end in its hash type, is a Schnorr signature by the x-only key `pk`
/// for this input, and if not, why.
pub fn check_sig_schnorr(
    template: &TxTemplate,
    code_separator: Option<u32>,
    sig: &[u8],
    pk: &[u8],
) -> (r: Result<(), ExecError>)
    requires
        template@.taproot is Some,
        annex_ok(template@.annex()),
    ensures
        r == schnorr_result(template@, code_separator, sig@, pk@),
{
    if sig.len() != 64 && sig.len() != 65 {
        return Err(ExecError::SchnorrSigSize);
    }
    let hash_type: u8 = if sig.len() == 65 {
        sig[64]
    } else {
        0
    };
    if sig.len() == 65 && hash_type == 0 {
        return Err(ExecError::SchnorrSigHashtype);
    }
    let valid = hash_type <= 3 || (0x81 <= hash_type && hash_type <= 0x83);
    let single = hash_type == 3 || hash_type == 0x83;
    let inputs = template.tx.input.len();
    if !valid || template.prevouts.len() != inputs || (hash_type >= 0x81 && template.input_idx
        >= inputs) || (single && template.input_idx >= template.tx.output.len()) {
        return Err(ExecError::SchnorrSigHashtype);
    }
    if !xonly_key_parses(pk) {
        return Err(ExecError::SchnorrSig);
    }
    let separator: u32 = match code_separator {
        Some(p) => p,
        None => u32::MAX,
    };
    match &template.taproot_annex_scriptleaf {
        Some((leaf, annex)) => {
            let tx = outside_transaction(&template.tx);
            let prevouts = outside_outputs(&template.prevouts);
            let digest = taproot_signature_hash(
                &tx,
                template.input_idx,
                &prevouts,
                annex,
                *leaf,
                separator,
                hash_type,
            );
            let body = vstd::slice::slice_subrange(sig, 0, 64);
            assert(body@ =~= sig@.take(64));
            if verify_schnorr(digest, body, pk) {
                Ok(())
            } else {
                Err(ExecError::SchnorrSig)
            }
        },
        None => Err(ExecError::SchnorrSig),
    }
}

} // verus!
