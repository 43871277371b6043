use bitcoin::hashes::Hash as _;
use bitcoin::secp256k1::{Keypair, Message, PublicKey, Secp256k1, SecretKey};
use bitcoin::sighash::{Annex, EcdsaSighashType, Prevouts, SighashCache, TapSighashType};
use bitcoin_scriptexec::opcodes::{
    OP_CHECKSIG, OP_CHECKSIGADD, OP_CHECKSIGVERIFY, OP_CODESEPARATOR, OP_NOP,
};
use bitcoin_scriptexec::transaction::{SpendingTx, TxInput, TxOutput};
use bitcoin_scriptexec::{Exec, ExecCtx, ExecError, ExecutionResult, Options, TxTemplate};

const ANNEX: [u8; 3] = [0x50, 1, 2];

fn spending() -> TxTemplate {
    TxTemplate {
        tx: SpendingTx {
            version: 2,
            lock_time: 77,
            input: vec![
                TxInput { txid: [3; 32], vout: 1, sequence: 9 },
                TxInput { txid: [4; 32], vout: 0, sequence: 8 },
            ],
            output: vec![TxOutput { value: 600, script_pubkey: vec![0x51] }],
        },
        prevouts: vec![
            TxOutput { value: 1000, script_pubkey: vec![0x52] },
            TxOutput { value: 2000, script_pubkey: vec![0x53] },
        ],
        input_idx: 0,
        taproot_annex_scriptleaf: Some(([7; 32], Some(ANNEX.to_vec()))),
    }
}

/// The same transaction as the `bitcoin` crate holds it.
fn outside_spending() -> bitcoin::Transaction {
    let input = |b: u8, vout: u32, sequence: u32| bitcoin::TxIn {
        previous_output: bitcoin::OutPoint::new(bitcoin::Txid::from_byte_array([b; 32]), vout),
        sequence: bitcoin::Sequence(sequence),
        ..Default::default()
    };
    bitcoin::Transaction {
        version: bitcoin::transaction::Version::TWO,
        lock_time: bitcoin::absolute::LockTime::from_consensus(77),
        input: vec![input(3, 1, 9), input(4, 0, 8)],
        output: vec![outside_out(600, 0x51)],
    }
}

fn outside_out(value: u64, op: u8) -> bitcoin::TxOut {
    bitcoin::TxOut {
        value: bitcoin::Amount::from_sat(value),
        script_pubkey: bitcoin::ScriptBuf::from_bytes(vec![op]),
    }
}

fn secret() -> SecretKey {
    SecretKey::from_slice(&[0x11; 32]).unwrap()
}

fn public() -> Vec<u8> {
    PublicKey::from_secret_key(&Secp256k1::new(), &secret()).serialize().to_vec()
}

fn xonly() -> Vec<u8> {
    let keypair = Keypair::from_secret_key(&Secp256k1::new(), &secret());
    keypair.x_only_public_key().0.serialize().to_vec()
}

fn ecdsa_sign(digest: [u8; 32], hash_type: u8) -> Vec<u8> {
    let sig = Secp256k1::new().sign_ecdsa(&Message::from_digest(digest), &secret());
    let mut out = sig.serialize_der().to_vec();
    out.push(hash_type);
    out
}

fn schnorr_sign(code_separator: u32, hash_type: TapSighashType) -> Vec<u8> {
    let tx = outside_spending();
    let prevouts = [outside_out(1000, 0x52), outside_out(2000, 0x53)];
    let leaf = bitcoin::TapLeafHash::from_byte_array([7; 32]);
    let digest = SighashCache::new(&tx)
        .taproot_signature_hash(
            0,
            &Prevouts::All(&prevouts),
            Some(Annex::new(&ANNEX).unwrap()),
            Some((leaf, code_separator)),
            hash_type,
        )
        .unwrap();
    let secp = Secp256k1::new();
    let keypair = Keypair::from_secret_key(&secp, &secret());
    let message = Message::from_digest(digest.to_byte_array());
    secp.sign_schnorr_no_aux_rand(&message, &keypair).serialize().to_vec()
}

fn signed_run(
    ctx: ExecCtx,
    tx: TxTemplate,
    script: Vec<u8>,
    witness: Vec<Vec<u8>>,
) -> (ExecutionResult, i64) {
    let mut exec = Exec::new(ctx, Options::default(), tx, script, witness).unwrap();
    while exec.exec_next().is_ok() {}
    (exec.result().unwrap().clone(), exec.stats().validation_weight)
}

#[test]
fn witness_signatures_are_checked() {
    let script = vec![OP_CHECKSIG];
    let digest = SighashCache::new(&outside_spending())
        .p2wsh_signature_hash(
            0,
            bitcoin::Script::from_bytes(&script),
            bitcoin::Amount::from_sat(1000),
            EcdsaSighashType::All,
        )
        .unwrap()
        .to_byte_array();
    let sig = ecdsa_sign(digest, 1);
    let run = |tx: TxTemplate, sig: Vec<u8>, pk: Vec<u8>| {
        signed_run(ExecCtx::SegwitV0, tx, vec![OP_CHECKSIG], vec![sig, pk]).0
    };
    assert!(run(spending(), sig.clone(), public()).success);
    // Another hash type, amount, input, key or signature.
    let mut other = sig.clone();
    *other.last_mut().unwrap() = 2;
    assert!(!run(spending(), other, public()).success);
    let mut tx = spending();
    tx.prevouts[0].value = 1001;
    assert!(!run(tx, sig.clone(), public()).success);
    let mut tx = spending();
    tx.input_idx = 1;
    assert!(!run(tx, sig.clone(), public()).success);
    let mut tx = spending();
    tx.input_idx = 2;
    assert!(!run(tx, sig.clone(), public()).success);
    let mut pk = public();
    pk[5] ^= 1;
    assert!(!run(spending(), sig.clone(), pk).success);
    assert!(!run(spending(), vec![], public()).success);
    assert!(!run(spending(), vec![0x30, 1], public()).success);
    assert_eq!(run(spending(), sig, vec![4; 65]).error, Some(ExecError::WitnessPubkeyType));
}

#[test]
fn legacy_signatures_are_dropped_from_the_script() {
    let mut code = vec![33];
    code.extend(public());
    code.push(OP_CHECKSIG);
    code.extend([OP_NOP; 80]);
    let digest_of = |code: &[u8]| {
        SighashCache::new(&outside_spending())
            .legacy_signature_hash(0, bitcoin::Script::from_bytes(code), 1)
            .unwrap()
            .to_byte_array()
    };
    let sig = ecdsa_sign(digest_of(&code), 1);
    let end = signed_run(ExecCtx::Legacy, spending(), code.clone(), vec![sig]).0;
    assert!(end.success);
    // A script that pushes the signature that it checks signs itself without the signature; only
    // the opcode of the push stays. A signature has 71 or 72 bytes with its hash type.
    let mut found = false;
    for length in [71, 72] {
        let mut signed = vec![length];
        signed.extend(&code);
        let sig = ecdsa_sign(digest_of(&signed), 1);
        if sig.len() == length as usize {
            let mut script = vec![length];
            script.extend(&sig);
            script.extend(&code);
            assert!(signed_run(ExecCtx::Legacy, spending(), script, vec![]).0.success);
            found = true;
        }
    }
    assert!(found);
    let forged = ecdsa_sign([9; 32], 1);
    let end = signed_run(ExecCtx::Legacy, spending(), code, vec![forged]).0;
    assert!(!end.success && end.error.is_none());
}

#[test]
fn legacy_signatures_are_dropped_from_the_very_end() {
    // The script ends with a push of the signature that it checks. A signature has 71 or 72 bytes
    // with its hash type; some script of this form has one of the length that it signs.
    let mut found = false;
    for padding in 0..20 {
        let mut signed = vec![33];
        signed.extend(public());
        signed.push(OP_CHECKSIGVERIFY);
        signed.extend(vec![OP_NOP; padding]);
        signed.push(71);
        let digest = SighashCache::new(&outside_spending())
            .legacy_signature_hash(0, bitcoin::Script::from_bytes(&signed), 1)
            .unwrap()
            .to_byte_array();
        let sig = ecdsa_sign(digest, 1);
        if sig.len() == 71 {
            let mut script = signed;
            script.extend(&sig);
            let end = signed_run(ExecCtx::Legacy, spending(), script, vec![sig]).0;
            assert!(end.success && end.error.is_none());
            found = true;
        }
    }
    assert!(found);
}

#[test]
fn odd_legacy_signatures_are_refused_without_an_error() {
    let run = |sig: Vec<u8>| {
        let mut exec = Exec::new(
            ExecCtx::Legacy,
            Options::default(),
            spending(),
            vec![OP_CHECKSIG],
            vec![sig, public()],
        )
        .unwrap();
        assert!(matches!(exec.try_exec_next(), Some(Ok(()))));
        exec.stack().to_u8_array()
    };
    // An empty one, and one that is longer than the script.
    assert_eq!(run(vec![]), vec![Vec::<u8>::new()]);
    assert_eq!(run(vec![1, 2]), vec![Vec::<u8>::new()]);
}

#[test]
fn tapscript_signatures_are_checked() {
    let sig = schnorr_sign(u32::MAX, TapSighashType::Default);
    let run = |tx: TxTemplate, sig: Vec<u8>, pk: Vec<u8>| {
        signed_run(ExecCtx::Tapscript, tx, vec![OP_CHECKSIG], vec![sig, pk]).0
    };
    assert!(run(spending(), sig.clone(), xonly()).success);
    let mut with_type = schnorr_sign(u32::MAX, TapSighashType::All);
    with_type.push(1);
    assert!(run(spending(), with_type.clone(), xonly()).success);
    let refused = Some(ExecError::SchnorrSig);
    let mut bad = sig.clone();
    bad[0] ^= 1;
    assert_eq!(run(spending(), bad, xonly()).error, refused);
    assert_eq!(run(spending(), sig.clone(), vec![0xff; 32]).error, refused);
    let mut tx = spending();
    tx.taproot_annex_scriptleaf = Some(([7; 32], None));
    assert_eq!(run(tx, sig.clone(), xonly()).error, refused);
    let mut tx = spending();
    tx.taproot_annex_scriptleaf = Some(([8; 32], Some(ANNEX.to_vec())));
    assert_eq!(run(tx, sig.clone(), xonly()).error, refused);
    let mut tx = spending();
    tx.tx.output[0].value = 601;
    assert_eq!(run(tx, sig.clone(), xonly()).error, refused);
    let mut tx = spending();
    tx.prevouts[1].value = 2001;
    assert_eq!(run(tx, sig.clone(), xonly()).error, refused);
    assert_eq!(run(spending(), vec![1; 63], xonly()).error, Some(ExecError::SchnorrSigSize));
    let hash_type = Some(ExecError::SchnorrSigHashtype);
    let mut default_type = sig.clone();
    default_type.push(0);
    assert_eq!(run(spending(), default_type, xonly()).error, hash_type);
    let mut unknown_type = sig.clone();
    unknown_type.push(4);
    assert_eq!(run(spending(), unknown_type, xonly()).error, hash_type);
    let mut tx = spending();
    tx.prevouts.pop();
    assert_eq!(run(tx, sig, xonly()).error, hash_type);
}

#[test]
fn tapscript_signatures_sign_the_code_separator() {
    let script = vec![OP_NOP, OP_CODESEPARATOR, OP_CHECKSIG];
    let run = |sig: Vec<u8>| {
        signed_run(ExecCtx::Tapscript, spending(), script.clone(), vec![sig, xonly()]).0
    };
    assert!(run(schnorr_sign(1, TapSighashType::Default)).success);
    assert!(!run(schnorr_sign(u32::MAX, TapSighashType::Default)).success);
}

#[test]
fn tapscript_keys_of_other_lengths_accept() {
    let run = |sig: Vec<u8>, pk: Vec<u8>| {
        signed_run(ExecCtx::Tapscript, spending(), vec![OP_CHECKSIG], vec![sig, pk])
    };
    assert!(run(vec![1], vec![1; 33]).0.success);
    assert!(run(vec![], vec![1; 33]).0.success);
    assert_eq!(run(vec![1], vec![]).0.error, Some(ExecError::PubkeyType));
    // An empty signature is not accepted by a real key, without an error.
    let (end, weight) = run(vec![], xonly());
    assert!(!end.success && end.error.is_none());
    // Two items of no and 32 bytes.
    assert_eq!(weight, 50 + 1 + 1 + 33);
}

#[test]
fn tapscript_signatures_cost_weight() {
    let sig = schnorr_sign(u32::MAX, TapSighashType::Default);
    let script = vec![OP_CHECKSIG];
    let (end, weight) =
        signed_run(ExecCtx::Tapscript, spending(), script, vec![sig, xonly()]);
    assert!(end.success);
    assert_eq!(weight, 50 + 1 + 65 + 33 - 50);
    // A short witness pays for one signature and not for two.
    let script = vec![OP_CHECKSIGVERIFY, OP_CHECKSIG];
    let witness = vec![vec![1], vec![1; 2], vec![1], vec![1; 2]];
    let (end, _) = signed_run(ExecCtx::Tapscript, spending(), script, witness);
    assert_eq!(end.error, Some(ExecError::TapscriptValidationWeight));
}

#[test]
fn accepted_signatures_are_insisted_on_and_counted() {
    let sig = schnorr_sign(u32::MAX, TapSighashType::Default);
    let witness = vec![vec![1], sig.clone(), xonly()];
    let end =
        signed_run(ExecCtx::Tapscript, spending(), vec![OP_CHECKSIGVERIFY], witness).0;
    assert!(end.success);
    let witness = vec![vec![1], vec![], xonly()];
    let end =
        signed_run(ExecCtx::Tapscript, spending(), vec![OP_CHECKSIGVERIFY], witness).0;
    assert_eq!(end.error, Some(ExecError::CheckSigVerify));
    let count = |sig: Vec<u8>, n: Vec<u8>| {
        let witness = vec![sig, n, xonly()];
        signed_run(ExecCtx::Tapscript, spending(), vec![OP_CHECKSIGADD], witness)
            .0
            .final_stack
            .to_u8_array()
    };
    assert_eq!(count(sig.clone(), vec![6]), vec![vec![7]]);
    assert_eq!(count(vec![], vec![6]), vec![vec![6]]);
    // A count that does not have 64 bits.
    let highest = vec![0xff, 0xff, 0xff, 0xff, 0xff, 0xff, 0xff, 0x7f];
    let mut exec = Exec::new(
        ExecCtx::Tapscript,
        Options::default(),
        spending(),
        vec![OP_CHECKSIGADD],
        vec![sig, highest, xonly()],
    )
    .unwrap();
    assert!(exec.try_exec_next().is_none());
}
