use bitcoin_scriptexec::opcodes::{
    Opcode, OP_CAT, OP_CHECKSIGADD, OP_CLTV, OP_CSV, OP_ENDIF, OP_IF, OP_MUL, OP_NOP, OP_OR,
    OP_RESERVED, OP_RETURN, OP_SUBSTR, OP_VER, OP_VERIFY,
};
use bitcoin_scriptexec::transaction::{SpendingTx, TxInput};
use bitcoin_scriptexec::{Exec, ExecCtx, ExecError, ExecutionResult, Options, TxTemplate};

fn template(sequence: u32) -> TxTemplate {
    TxTemplate {
        tx: SpendingTx {
            version: 2,
            lock_time: 100,
            input: vec![TxInput { txid: [0; 32], vout: 0, sequence }],
            output: vec![],
        },
        prevouts: vec![],
        input_idx: 0,
        taproot_annex_scriptleaf: Some(([0; 32], None)),
    }
}

/// Executes a script to its end.
fn ends(ctx: ExecCtx, opt: Options, script: Vec<u8>, witness: Vec<Vec<u8>>) -> ExecutionResult {
    let mut exec = Exec::new(ctx, opt, template(5), script, witness).unwrap();
    while exec.exec_next().is_ok() {}
    exec.result().unwrap().clone()
}

fn error_of(ctx: ExecCtx, script: Vec<u8>, witness: Vec<Vec<u8>>) -> Option<ExecError> {
    ends(ctx, Options::default(), script, witness).error
}

#[test]
fn disabled_opcodes_fail_even_in_skipped_branches() {
    for op in [OP_SUBSTR, OP_OR, OP_MUL] {
        let script = vec![OP_IF, op, OP_ENDIF];
        let end = ends(ExecCtx::Tapscript, Options::default(), script, vec![vec![]]);
        assert_eq!(end.error, Some(ExecError::DisabledOpcode));
        assert_eq!(end.opcode, Some(Opcode(op)));
    }
    assert_eq!(error_of(ExecCtx::SegwitV0, vec![OP_CAT], vec![]), Some(ExecError::DisabledOpcode));
    let mut opt = Options::default();
    opt.experimental.op_cat = false;
    let end = ends(ExecCtx::Tapscript, opt, vec![OP_CAT], vec![vec![], vec![]]);
    assert_eq!(end.error, Some(ExecError::DisabledOpcode));
}

#[test]
fn reserved_opcode_fails_even_in_a_skipped_branch() {
    let script = vec![OP_IF, OP_RESERVED, OP_ENDIF];
    assert_eq!(error_of(ExecCtx::Tapscript, script, vec![vec![]]), Some(ExecError::Debug));
}

#[test]
fn bad_opcodes_fail_where_they_are_executed() {
    assert_eq!(error_of(ExecCtx::Tapscript, vec![OP_VER], vec![]), Some(ExecError::BadOpcode));
    assert_eq!(error_of(ExecCtx::Tapscript, vec![0xfe], vec![]), Some(ExecError::BadOpcode));
    assert_eq!(
        error_of(ExecCtx::Legacy, vec![OP_CHECKSIGADD], vec![vec![]; 3]),
        Some(ExecError::BadOpcode)
    );
    let skipped = vec![OP_IF, OP_VER, OP_ENDIF];
    assert_eq!(error_of(ExecCtx::Tapscript, skipped, vec![vec![]]), None);
}

#[test]
fn opcodes_are_limited_before_tapscript() {
    assert_eq!(error_of(ExecCtx::Legacy, vec![OP_NOP; 201], vec![]), None);
    let end = ends(ExecCtx::SegwitV0, Options::default(), vec![OP_NOP; 202], vec![]);
    assert_eq!(end.error, Some(ExecError::OpCount));
    assert_eq!(end.opcode, None);
    assert_eq!(error_of(ExecCtx::Tapscript, vec![OP_NOP; 202], vec![]), None);
    // Opcodes that push a number do not count.
    let mut script = vec![0x51; 201];
    script.push(OP_NOP);
    assert_eq!(error_of(ExecCtx::Legacy, script, vec![]), None);
    // Skipped operations do.
    let mut script = vec![0, OP_IF];
    script.extend(vec![OP_NOP; 200]);
    script.push(OP_ENDIF);
    assert_eq!(error_of(ExecCtx::Legacy, script, vec![]), Some(ExecError::OpCount));
}

#[test]
fn long_pushes_fail_even_in_skipped_branches() {
    let mut script = vec![OP_IF, 0x4d, 9, 2];
    script.extend(vec![7; 521]);
    script.push(OP_ENDIF);
    assert_eq!(error_of(ExecCtx::Tapscript, script, vec![vec![]]), Some(ExecError::PushSize));
    let mut script = vec![0x4d, 8, 2];
    script.extend(vec![7; 520]);
    assert_eq!(error_of(ExecCtx::Tapscript, script, vec![]), None);
}

#[test]
fn verify_and_return_fail() {
    let end = ends(ExecCtx::Tapscript, Options::default(), vec![OP_VERIFY], vec![vec![0x80]]);
    assert_eq!(end.error, Some(ExecError::Verify));
    // The item is still there.
    assert_eq!(end.final_stack.len(), 1);
    assert_eq!(error_of(ExecCtx::Tapscript, vec![OP_RETURN], vec![]), Some(ExecError::OpReturn));
    assert_eq!(
        error_of(ExecCtx::Tapscript, vec![OP_VERIFY], vec![]),
        Some(ExecError::InvalidStackOperation)
    );
}

#[test]
fn lock_times_are_checked() {
    let cltv = |n: Vec<u8>| error_of(ExecCtx::Tapscript, vec![OP_CLTV], vec![n]);
    assert_eq!(cltv(vec![100]), None);
    assert_eq!(cltv(vec![99]), None);
    assert_eq!(cltv(vec![101]), Some(ExecError::UnsatisfiedLocktime));
    // A time where the transaction has a height.
    assert_eq!(cltv(vec![0, 0, 0, 0x40]), Some(ExecError::UnsatisfiedLocktime));
    // More than 32 bits.
    assert_eq!(cltv(vec![0, 0, 0, 0, 1]), Some(ExecError::UnsatisfiedLocktime));
    assert_eq!(cltv(vec![0, 0, 0, 0, 0, 1]), Some(ExecError::ScriptIntNumericOverflow));
    assert_eq!(
        error_of(ExecCtx::Tapscript, vec![OP_CLTV], vec![]),
        Some(ExecError::InvalidStackOperation)
    );
    // An input with the highest sequence number is final.
    let opt = Options::default();
    let script = vec![OP_CLTV];
    let mut exec =
        Exec::new(ExecCtx::Tapscript, opt, template(u32::MAX), script, vec![vec![1]]).unwrap();
    assert_eq!(exec.exec_next().unwrap_err().error, Some(ExecError::UnsatisfiedLocktime));
    // Without the check the opcode does nothing.
    let off = Options { verify_cltv: false, ..opt };
    assert_eq!(ends(ExecCtx::Tapscript, off, vec![OP_CLTV], vec![]).error, None);
}

#[test]
fn sequence_locks_are_checked() {
    let csv = |n: Vec<u8>| error_of(ExecCtx::Tapscript, vec![OP_CSV], vec![n]);
    assert_eq!(csv(vec![5]), None);
    assert_eq!(csv(vec![6]), Some(ExecError::UnsatisfiedLocktime));
    // A time where the input has a number of blocks.
    assert_eq!(csv(vec![1, 0, 0x40]), Some(ExecError::UnsatisfiedLocktime));
    // The disable flag.
    assert_eq!(csv(vec![9, 0, 0, 0x80]), None);
    // Only the low 32 bits count.
    assert_eq!(csv(vec![5, 0, 0, 0, 1]), None);
    let opt = Options::default();
    let mut old = template(5);
    old.tx.version = 1;
    let mut exec = Exec::new(ExecCtx::Tapscript, opt, old, vec![OP_CSV], vec![vec![5]]).unwrap();
    assert_eq!(exec.exec_next().unwrap_err().error, Some(ExecError::UnsatisfiedLocktime));
    let disabled = template(0x8000_0005);
    let mut exec =
        Exec::new(ExecCtx::Tapscript, opt, disabled, vec![OP_CSV], vec![vec![5]]).unwrap();
    assert_eq!(exec.exec_next().unwrap_err().error, Some(ExecError::UnsatisfiedLocktime));
    let timed = template(0x40_0007);
    let witness = vec![vec![7, 0, 0x40]];
    let mut exec = Exec::new(ExecCtx::Tapscript, opt, timed, vec![OP_CSV], witness).unwrap();
    assert!(exec.exec_next().is_ok());
    let off = Options { verify_csv: false, ..opt };
    assert_eq!(ends(ExecCtx::Tapscript, off, vec![OP_CSV], vec![]).error, None);
}
