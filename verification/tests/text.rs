use bitcoin_scriptexec::opcodes::{OP_ADD, OP_NOP, OP_VERIFY};
use bitcoin_scriptexec::{execute_script_with_witness, ExecError, FmtStack, Stack};

fn shown(items: Vec<Vec<u8>>) -> FmtStack {
    FmtStack(Stack::from_u8_vec(items))
}

#[test]
fn stacks_are_shown_in_rows() {
    assert_eq!(shown(vec![]).to_text(None), "\n0:\t\t ");
    assert_eq!(shown(vec![vec![0xab]]).to_text(None), "\n0:\t\t 0xab      ");
    assert_eq!(
        shown(vec![vec![1], vec![], vec![0xde, 0xad, 0xbe, 0xef, 9]]).to_text(Some(2)),
        "\n0:\t\t 0x01       0x        \n2:\t\t 0xdeadbeef09"
    );
    let twelve = vec![vec![1, 2, 3, 4]; 12];
    assert!(shown(twelve).to_text(Some(10)).contains("\n10:\t\t 0x01020304 0x01020304"));
}

#[test]
fn outcomes_are_told() {
    let info = execute_script_with_witness(vec![OP_ADD], vec![vec![2], vec![3]]);
    assert_eq!(
        info.to_text(None),
        "Script execution successful.\nFinal Stack: \n0:\t\t 0x05      \nStats: ExecStats { \
         max_nb_stack_items: 2, opcode_count: 1, start_validation_weight: 55, \
         validation_weight: 55 }\n"
    );
    let info = execute_script_with_witness(vec![OP_VERIFY, OP_NOP], vec![vec![7], vec![]]);
    assert_eq!(
        info.to_text(Some(1)),
        "Script execution failed!\nError: Verify\nRemaining Script: OP_NOP\nFinal Stack: \n0:\t\t \
         0x07      \n1:\t\t 0x        \nLast Opcode: OP_VERIFY\nStats: ExecStats { \
         max_nb_stack_items: 2, opcode_count: 0, start_validation_weight: 54, \
         validation_weight: 54 }\n"
    );
}

#[test]
fn statistics_are_told_as_they_are_debugged() {
    let mut info = execute_script_with_witness(vec![], vec![vec![1]]);
    info.stats.validation_weight = i64::MIN;
    info.stats.start_validation_weight = -10;
    info.stats.opcode_count = usize::MAX;
    let line = format!("Stats: {:?}\n", info.stats);
    assert!(info.to_text(None).ends_with(&line));
}

#[test]
fn errors_are_told_as_they_are_debugged() {
    let errors = [
        ExecError::DisabledOpcode,
        ExecError::BadOpcode,
        ExecError::OpCount,
        ExecError::PushSize,
        ExecError::MinimalData,
        ExecError::InvalidStackOperation,
        ExecError::NegativeLocktime,
        ExecError::UnsatisfiedLocktime,
        ExecError::UnbalancedConditional,
        ExecError::TapscriptMinimalIf,
        ExecError::Verify,
        ExecError::OpReturn,
        ExecError::EqualVerify,
        ExecError::NumEqualVerify,
        ExecError::CheckSigVerify,
        ExecError::TapscriptValidationWeight,
        ExecError::PubkeyType,
        ExecError::WitnessPubkeyType,
        ExecError::SchnorrSigSize,
        ExecError::SchnorrSigHashtype,
        ExecError::SchnorrSig,
        ExecError::StackSize,
        ExecError::ScriptIntNumericOverflow,
        ExecError::Debug,
    ];
    for error in errors {
        let mut info = execute_script_with_witness(vec![], vec![]);
        info.error = Some(error);
        assert!(info.to_text(None).contains(&format!("\nError: {:?}\n", error)));
    }
}
