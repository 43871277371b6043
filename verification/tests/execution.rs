use bitcoin_scriptexec::opcodes::{
    Opcode, OP_0NOTEQUAL, OP_1ADD, OP_1SUB, OP_2DROP, OP_2DUP, OP_2OVER, OP_2ROT, OP_2SWAP,
    OP_3DUP, OP_ABS, OP_ADD, OP_AND, OP_BOOLAND, OP_BOOLOR, OP_CAT, OP_CHECKMULTISIG,
    OP_CHECKSIGVERIFY, OP_CLTV,
    OP_CODESEPARATOR, OP_DEPTH, OP_DROP, OP_DUP, OP_ELSE, OP_ENDIF, OP_EQUAL, OP_EQUALVERIFY,
    OP_FROMALTSTACK, OP_GREATERTHAN, OP_GREATERTHANOREQUAL, OP_HASH160, OP_HASH256, OP_IF,
    OP_IFDUP, OP_LESSTHAN, OP_LESSTHANOREQUAL, OP_MAX, OP_MIN, OP_MUL, OP_NEGATE, OP_NIP, OP_NOP,
    OP_NOP1, OP_NOP10, OP_NOP4, OP_NOT, OP_NOTIF, OP_NUMEQUAL, OP_NUMEQUALVERIFY, OP_NUMNOTEQUAL,
    OP_OVER, OP_PICK, OP_PUSHNUM_16, OP_PUSHNUM_NEG1, OP_RETURN, OP_RIPEMD160, OP_ROLL, OP_ROT,
    OP_SHA1, OP_SHA256, OP_SIZE, OP_SUB, OP_SWAP, OP_TOALTSTACK, OP_TUCK, OP_VERIFY, OP_WITHIN,
};
use bitcoin_scriptexec::transaction::SpendingTx;
use bitcoin_scriptexec::{
    execute_script, execute_script_with_witness, execute_script_with_witness_and_tx_template,
    execute_script_with_witness_unlimited_stack, get_final_stack, try_execute_script,
    try_execute_script_with_witness, try_execute_script_with_witness_and_tx_template,
    try_execute_script_with_witness_unlimited_stack, try_get_final_stack, Error, Exec, ExecCtx,
    ExecError, ExecuteInfo, ExecutionResult, Options, Stack, TxTemplate,
};

fn bare() -> TxTemplate {
    TxTemplate {
        tx: SpendingTx { version: 2, lock_time: 0, input: vec![], output: vec![] },
        prevouts: vec![],
        input_idx: 0,
        taproot_annex_scriptleaf: Some(([0; 32], None)),
    }
}

/// The item of a number that fits in one byte.
fn num(n: u8) -> Vec<u8> {
    if n == 0 {
        vec![]
    } else {
        vec![n]
    }
}

fn items(numbers: &[u8]) -> Vec<Vec<u8>> {
    numbers.iter().map(|n| num(*n)).collect()
}

/// Executes opcodes on a witness and returns what they leave.
fn leaves(witness: &[u8], ops: &[u8]) -> Vec<Vec<u8>> {
    let info = execute_script_with_witness(ops.to_vec(), items(witness));
    assert_eq!(info.error, None);
    info.final_stack.0.to_u8_array()
}

fn fails(witness: Vec<Vec<u8>>, ops: &[u8]) -> ExecError {
    let info = execute_script_with_witness(ops.to_vec(), witness);
    assert!(!info.success);
    info.error.unwrap()
}

#[test]
fn items_are_dropped_copied_and_moved() {
    assert_eq!(leaves(&[1, 2, 3], &[OP_2DROP]), items(&[1]));
    assert_eq!(leaves(&[1, 2], &[OP_2DUP]), items(&[1, 2, 1, 2]));
    assert_eq!(leaves(&[1, 2, 3], &[OP_3DUP]), items(&[1, 2, 3, 1, 2, 3]));
    assert_eq!(leaves(&[1, 2, 3, 4], &[OP_2OVER]), items(&[1, 2, 3, 4, 1, 2]));
    assert_eq!(leaves(&[1, 2, 3, 4, 5, 6], &[OP_2ROT]), items(&[3, 4, 5, 6, 1, 2]));
    assert_eq!(leaves(&[1, 2, 3, 4], &[OP_2SWAP]), items(&[3, 4, 1, 2]));
    assert_eq!(leaves(&[7, 5], &[OP_IFDUP]), items(&[7, 5, 5]));
    assert_eq!(leaves(&[7, 0], &[OP_IFDUP]), items(&[7, 0]));
    assert_eq!(leaves(&[7, 0], &[OP_DEPTH]), items(&[7, 0, 2]));
    assert_eq!(leaves(&[7, 8], &[OP_DROP]), items(&[7]));
    assert_eq!(leaves(&[7, 8], &[OP_DUP]), items(&[7, 8, 8]));
    assert_eq!(leaves(&[7, 8], &[OP_NIP]), items(&[8]));
    assert_eq!(leaves(&[7, 8], &[OP_OVER]), items(&[7, 8, 7]));
    assert_eq!(leaves(&[1, 2, 3], &[OP_ROT]), items(&[2, 3, 1]));
    assert_eq!(leaves(&[7, 8], &[OP_SWAP]), items(&[8, 7]));
    assert_eq!(leaves(&[7, 8], &[OP_TUCK]), items(&[8, 7, 8]));
}

#[test]
fn items_are_picked_and_rolled() {
    assert_eq!(leaves(&[1, 2, 3, 0], &[OP_PICK]), items(&[1, 2, 3, 3]));
    assert_eq!(leaves(&[1, 2, 3, 2], &[OP_PICK]), items(&[1, 2, 3, 1]));
    assert_eq!(leaves(&[1, 2, 3, 2], &[OP_ROLL]), items(&[2, 3, 1]));
    assert_eq!(leaves(&[1, 2, 3, 1], &[OP_ROLL]), items(&[1, 3, 2]));
    assert_eq!(fails(items(&[1, 2, 9]), &[OP_PICK]), ExecError::InvalidStackOperation);
    assert_eq!(fails(vec![vec![1], vec![0xff; 8]], &[OP_ROLL]), ExecError::InvalidStackOperation);
    // One place further down than the bottom item.
    assert!(try_execute_script_with_witness(vec![OP_PICK], items(&[1, 2, 2])).is_none());
}

#[test]
fn swaps_copies_and_rotations_undo() {
    assert_eq!(leaves(&[1, 2], &[OP_SWAP, OP_SWAP]), items(&[1, 2]));
    assert_eq!(leaves(&[1, 2, 3, 4], &[OP_2SWAP, OP_2SWAP]), items(&[1, 2, 3, 4]));
    assert_eq!(leaves(&[1, 2], &[OP_2DUP, OP_2DROP]), items(&[1, 2]));
    assert_eq!(leaves(&[1, 2], &[OP_OVER, OP_DROP]), items(&[1, 2]));
    assert_eq!(leaves(&[1, 2, 3], &[OP_ROT, OP_ROT, OP_ROT]), items(&[1, 2, 3]));
    let six = [1, 2, 3, 4, 5, 6];
    assert_eq!(leaves(&six, &[OP_2ROT, OP_2ROT, OP_2ROT]), items(&six));
    assert_eq!(leaves(&[1, 2], &[OP_SWAP, OP_OVER]), leaves(&[1, 2], &[OP_TUCK]));
    assert_eq!(leaves(&[1, 2], &[OP_SWAP, OP_DROP]), leaves(&[1, 2], &[OP_NIP]));
    assert_eq!(leaves(&[1, 2, 1], &[OP_ROLL]), leaves(&[1, 2], &[OP_SWAP]));
    assert_eq!(leaves(&[1, 2, 1], &[OP_PICK]), leaves(&[1, 2], &[OP_OVER]));
    assert_eq!(leaves(&[1, 2], &[OP_TOALTSTACK, OP_FROMALTSTACK]), items(&[1, 2]));
}

#[test]
fn items_are_joined_measured_and_compared() {
    assert_eq!(leaves(&[1, 2], &[OP_CAT]), vec![vec![1, 2]]);
    assert_eq!(leaves(&[0, 2], &[OP_CAT]), vec![vec![2]]);
    let info = execute_script_with_witness(vec![OP_AND], vec![vec![0xf0, 0x0f], vec![0x3c, 0xff]]);
    assert_eq!(info.final_stack.0.to_u8_array(), vec![vec![0x30, 0x0f]]);
    let info = execute_script_with_witness(vec![OP_SIZE], vec![vec![3; 300]]);
    assert_eq!(info.final_stack.0.to_u8_array(), vec![vec![3; 300], vec![44, 1]]);
    assert_eq!(leaves(&[5, 5], &[OP_EQUAL]), items(&[1]));
    assert_eq!(leaves(&[5, 6], &[OP_EQUAL]), items(&[0]));
    assert_eq!(leaves(&[4, 5, 5], &[OP_EQUALVERIFY]), items(&[4]));
    assert_eq!(leaves(&[4, 5], &[OP_VERIFY]), items(&[4]));
    assert_eq!(fails(vec![vec![1; 261], vec![2; 260]], &[OP_CAT]), ExecError::PushSize);
    assert_eq!(
        fails(vec![vec![1], vec![1, 2]], &[OP_AND]),
        ExecError::InvalidStackOperation
    );
}

#[test]
fn verifying_opcodes_compare_and_verify() {
    assert_eq!(leaves(&[4, 5, 5], &[OP_EQUAL, OP_VERIFY]), leaves(&[4, 5, 5], &[OP_EQUALVERIFY]));
    assert_eq!(fails(items(&[4, 5]), &[OP_EQUAL, OP_VERIFY]), ExecError::Verify);
    assert_eq!(fails(items(&[4, 5]), &[OP_EQUALVERIFY]), ExecError::EqualVerify);
}

#[test]
fn one_number_is_computed_on() {
    assert_eq!(leaves(&[5], &[OP_1ADD]), items(&[6]));
    assert_eq!(leaves(&[5], &[OP_1SUB]), items(&[4]));
    assert_eq!(leaves(&[0], &[OP_NEGATE]), items(&[0]));
    assert_eq!(leaves(&[1], &[OP_NEGATE]), vec![vec![0xff; 8]]);
    assert_eq!(leaves(&[], &[OP_PUSHNUM_NEG1, OP_ABS]), items(&[1]));
    assert_eq!(leaves(&[9], &[OP_ABS]), items(&[9]));
    assert_eq!(leaves(&[0], &[OP_NOT]), items(&[1]));
    assert_eq!(leaves(&[3], &[OP_NOT]), items(&[0]));
    assert_eq!(leaves(&[3], &[OP_0NOTEQUAL]), items(&[1]));
    assert_eq!(leaves(&[0], &[OP_0NOTEQUAL]), items(&[0]));
    let highest = vec![0xff, 0xff, 0xff, 0xff, 0xff, 0xff, 0xff, 0x7f];
    let lowest = vec![0, 0, 0, 0, 0, 0, 0, 0x80];
    let overflow = ExecError::ScriptIntNumericOverflow;
    assert_eq!(fails(vec![highest], &[OP_1ADD]), overflow);
    assert_eq!(fails(vec![lowest.clone()], &[OP_1SUB]), overflow);
    assert_eq!(fails(vec![lowest.clone()], &[OP_NEGATE]), overflow);
    assert_eq!(fails(vec![vec![]], &[OP_1SUB]), overflow);
    assert_eq!(fails(vec![vec![1; 9]], &[OP_NOT]), overflow);
    // The absolute value of the lowest number does not have 64 bits.
    assert!(try_execute_script_with_witness(vec![OP_ABS], vec![lowest]).is_none());
}

#[test]
fn two_numbers_are_computed_on() {
    assert_eq!(leaves(&[200, 100], &[OP_ADD]), vec![vec![44, 1]]);
    assert_eq!(leaves(&[200, 100], &[OP_SUB]), items(&[100]));
    assert_eq!(leaves(&[2, 0], &[OP_BOOLAND]), items(&[0]));
    assert_eq!(leaves(&[2, 3], &[OP_BOOLAND]), items(&[1]));
    assert_eq!(leaves(&[2, 0], &[OP_BOOLOR]), items(&[1]));
    assert_eq!(leaves(&[0, 0], &[OP_BOOLOR]), items(&[0]));
    assert_eq!(leaves(&[2, 2], &[OP_NUMEQUAL]), items(&[1]));
    assert_eq!(leaves(&[2, 3], &[OP_NUMEQUAL]), items(&[0]));
    assert_eq!(leaves(&[8, 2, 2], &[OP_NUMEQUALVERIFY]), items(&[8]));
    assert_eq!(leaves(&[2, 3], &[OP_NUMNOTEQUAL]), items(&[1]));
    assert_eq!(leaves(&[2, 3], &[OP_LESSTHAN]), items(&[1]));
    assert_eq!(leaves(&[3, 3], &[OP_LESSTHAN]), items(&[0]));
    assert_eq!(leaves(&[2, 3], &[OP_GREATERTHAN]), items(&[0]));
    assert_eq!(leaves(&[3, 3], &[OP_LESSTHANOREQUAL]), items(&[1]));
    assert_eq!(leaves(&[3, 3], &[OP_GREATERTHANOREQUAL]), items(&[1]));
    assert_eq!(leaves(&[2, 3], &[OP_GREATERTHANOREQUAL]), items(&[0]));
    assert_eq!(leaves(&[2, 3], &[OP_MIN]), items(&[2]));
    assert_eq!(leaves(&[2, 3], &[OP_MAX]), items(&[3]));
    assert_eq!(leaves(&[3, 3, 5], &[OP_WITHIN]), items(&[1]));
    assert_eq!(leaves(&[5, 3, 5], &[OP_WITHIN]), items(&[0]));
    assert_eq!(leaves(&[2, 3, 5], &[OP_WITHIN]), items(&[0]));
    // Numbers with all bits set are negative.
    assert_eq!(leaves(&[], &[OP_PUSHNUM_NEG1, OP_PUSHNUM_16, OP_LESSTHAN]), items(&[1]));
    assert_eq!(fails(items(&[2, 3]), &[OP_SUB]), ExecError::ScriptIntNumericOverflow);
    assert_eq!(fails(items(&[2, 3]), &[OP_NUMEQUALVERIFY]), ExecError::NumEqualVerify);
    let highest = vec![0xff, 0xff, 0xff, 0xff, 0xff, 0xff, 0xff, 0x7f];
    assert_eq!(
        fails(vec![highest.clone(), highest], &[OP_ADD]),
        ExecError::ScriptIntNumericOverflow
    );
}

#[test]
fn differences_may_be_negative_where_that_is_allowed() {
    let opt = Options { enforce_sub_nonnegative: false, ..Options::default() };
    let mut exec =
        Exec::new(ExecCtx::Tapscript, opt, bare(), vec![OP_SUB], items(&[2, 3])).unwrap();
    assert!(exec.exec_next().is_ok());
    assert_eq!(exec.stack().to_u8_array(), vec![vec![0xff; 8]]);
}

#[test]
fn products_need_an_option() {
    assert_eq!(fails(items(&[20, 30]), &[OP_MUL]), ExecError::DisabledOpcode);
    let opt = Options::default_with_mul();
    let mut exec =
        Exec::new(ExecCtx::Tapscript, opt, bare(), vec![OP_MUL], items(&[20, 30])).unwrap();
    assert!(exec.exec_next().is_ok());
    assert_eq!(exec.stack().to_u8_array(), vec![vec![0x58, 2]]);
    // A product that does not have 64 bits.
    let big = vec![0, 0, 0, 0, 1];
    let mut exec =
        Exec::new(ExecCtx::Tapscript, opt, bare(), vec![OP_MUL], vec![big.clone(), big]).unwrap();
    assert!(exec.try_exec_next().is_none());
    assert_eq!(exec.script_position(), 0);
    assert_eq!(exec.stack().len(), 2);
}

#[test]
fn items_are_hashed() {
    let hex = |b: &[u8]| b.iter().map(|x| format!("{:02x}", x)).collect::<String>();
    let hash = |op: u8| {
        let left = get_final_stack(vec![op], vec![b"abc".to_vec()]);
        assert_eq!(left.len(), 1);
        hex(&left[0])
    };
    assert_eq!(hash(OP_RIPEMD160), "8eb208f7e05d987a9b044a8e98c6b087f15a0bfc");
    assert_eq!(hash(OP_SHA1), "a9993e364706816aba3e25717850c26c9cd0d89d");
    assert_eq!(
        hash(OP_SHA256),
        "ba7816bf8f01cfea414140de5dae2223b00361a396177a9cb410ff61f20015ad"
    );
    assert_eq!(hash(OP_HASH160), "bb1be98c142444d7a56aa3981c3942a978e4dc33");
    assert_eq!(
        hash(OP_HASH256),
        "4f8b42c22dd3729b519ba6f68d2da7cc5b2d606d05daed5ad5128cc03e6c6358"
    );
    let data = vec![b"abc".to_vec()];
    assert_eq!(
        get_final_stack(vec![OP_HASH160], data.clone()),
        get_final_stack(vec![OP_SHA256, OP_RIPEMD160], data.clone())
    );
    assert_eq!(
        get_final_stack(vec![OP_HASH256], data.clone()),
        get_final_stack(vec![OP_SHA256, OP_SHA256], data)
    );
}

#[test]
fn branches_are_taken_and_skipped() {
    let script = vec![OP_IF, 0x52, OP_ELSE, 0x53, OP_ENDIF];
    assert_eq!(leaves(&[1], &script), items(&[2]));
    assert_eq!(leaves(&[0], &script), items(&[3]));
    let script = vec![OP_NOTIF, 0x52, OP_ELSE, 0x53, OP_ENDIF];
    assert_eq!(leaves(&[1], &script), items(&[3]));
    assert_eq!(leaves(&[0], &script), items(&[2]));
    // A conditional in a branch that is not taken takes no item.
    let script = vec![OP_IF, OP_IF, 0x52, OP_ENDIF, OP_ENDIF];
    assert_eq!(leaves(&[7, 0], &script), items(&[7]));
    // OP_ELSE twice leads back.
    let script = vec![OP_IF, 0x52, OP_ELSE, 0x53, OP_ELSE, 0x54, OP_ENDIF];
    assert_eq!(leaves(&[1], &script), items(&[2, 4]));
    // Nothing is executed in a branch that is not taken, not even a failing opcode or a push.
    let script = vec![OP_IF, OP_RETURN, 0x01, 0x07, OP_DROP, OP_ENDIF];
    assert_eq!(leaves(&[9, 0], &script), items(&[9]));
    // A conditional that is not closed is no error.
    assert_eq!(leaves(&[5, 1], &[OP_IF]), items(&[5]));
    assert_eq!(fails(items(&[1]), &[OP_ELSE]), ExecError::UnbalancedConditional);
    assert_eq!(fails(items(&[1]), &[OP_ENDIF]), ExecError::UnbalancedConditional);
    assert_eq!(fails(items(&[2]), &[OP_IF]), ExecError::TapscriptMinimalIf);
    assert_eq!(fails(vec![vec![1, 0]], &[OP_NOTIF]), ExecError::TapscriptMinimalIf);
}

#[test]
fn conditions_are_minimal_where_that_is_asked_for() {
    let result = |ctx: ExecCtx, verify_minimal_if: bool| {
        let opt = Options { verify_minimal_if, ..Options::default() };
        let mut exec = Exec::new(ctx, opt, bare(), vec![OP_IF], vec![vec![2]]).unwrap();
        let _ = exec.exec_next();
        exec.result().and_then(|r| r.error)
    };
    assert_eq!(result(ExecCtx::Legacy, true), None);
    assert_eq!(result(ExecCtx::SegwitV0, false), None);
    assert_eq!(result(ExecCtx::SegwitV0, true), Some(ExecError::TapscriptMinimalIf));
    assert_eq!(result(ExecCtx::Tapscript, false), Some(ExecError::TapscriptMinimalIf));
}

#[test]
fn items_move_to_the_other_stack_and_back() {
    let script = vec![OP_TOALTSTACK, 0x55, OP_FROMALTSTACK];
    assert_eq!(leaves(&[1, 2], &script), items(&[1, 5, 2]));
    let mut exec = Exec::new(
        ExecCtx::Tapscript,
        Options::default(),
        bare(),
        vec![OP_TOALTSTACK],
        items(&[1, 2]),
    )
    .unwrap();
    assert!(exec.exec_next().is_ok());
    assert_eq!(exec.altstack().to_u8_array(), items(&[2]));
    assert_eq!(exec.stack().to_u8_array(), items(&[1]));
    assert_eq!(fails(vec![], &[OP_TOALTSTACK]), ExecError::InvalidStackOperation);
    assert_eq!(fails(items(&[1]), &[OP_FROMALTSTACK]), ExecError::InvalidStackOperation);
}

#[test]
fn some_opcodes_do_nothing() {
    assert_eq!(leaves(&[3], &[OP_NOP, OP_NOP1, OP_NOP4, OP_NOP10, OP_CODESEPARATOR]), items(&[3]));
}

#[test]
fn pushes_of_every_width_are_executed() {
    let mut script = vec![2, 8, 9, 0x4c, 1, 7, 0x4d, 1, 0, 6, 0x4e, 1, 0, 0, 0, 5, 0];
    script.extend([OP_PUSHNUM_NEG1, OP_PUSHNUM_16]);
    let left = vec![vec![8, 9], vec![7], vec![6], vec![5], vec![], vec![0xff; 8], vec![16]];
    assert_eq!(leaves(&[], &script), left);
}

#[test]
fn success_takes_one_true_item() {
    let outcome = |witness: Vec<Vec<u8>>| {
        let info = execute_script_with_witness(vec![], witness);
        assert_eq!(info.error, None);
        info.success
    };
    assert!(outcome(vec![vec![1]]));
    assert!(outcome(vec![vec![0x80, 0]]));
    assert!(!outcome(vec![vec![]]));
    assert!(!outcome(vec![vec![0x80]]));
    assert!(!outcome(vec![vec![0, 0x80]]));
    assert!(!outcome(vec![]));
    assert!(!outcome(vec![vec![1], vec![1]]));
    // A legacy script may leave more.
    let mut exec = Exec::new(
        ExecCtx::Legacy,
        Options::default(),
        bare(),
        vec![],
        vec![vec![1], vec![1]],
    )
    .unwrap();
    assert!(exec.exec_next().unwrap_err().success);
}

#[test]
fn an_error_says_where_it_happened() {
    let info = execute_script_with_witness(vec![0x52, 0x53, OP_EQUALVERIFY, OP_NOP], vec![]);
    assert!(!info.success);
    assert_eq!(info.error, Some(ExecError::EqualVerify));
    assert_eq!(info.last_opcode, Some(Opcode(OP_EQUALVERIFY)));
    assert_eq!(info.remaining_script, "OP_NOP");
    // The items are left as they were.
    assert_eq!(info.final_stack.0.to_u8_array(), items(&[2, 3]));
    // The statistics are those before the failing opcode.
    assert_eq!(info.stats.opcode_count, 2);
    assert_eq!(info.stats.max_nb_stack_items, 2);
}

#[test]
fn statistics_are_kept() {
    let info = execute_script_with_witness(vec![OP_2DUP, OP_2DROP, OP_DROP], items(&[1, 2]));
    assert!(info.success);
    assert_eq!(info.remaining_script, "");
    assert_eq!(info.stats.max_nb_stack_items, 4);
    assert_eq!(info.stats.opcode_count, 3);
    // Two items of one byte: five bytes, and fifty on top.
    assert_eq!(info.stats.start_validation_weight, 55);
    assert_eq!(info.stats.validation_weight, 55);
}

#[test]
fn witness_sizes_are_counted() {
    let weight = |witness: Vec<Vec<u8>>| {
        execute_script_with_witness(vec![], witness).stats.start_validation_weight
    };
    assert_eq!(weight(vec![]), 51);
    assert_eq!(weight(vec![vec![0; 252]]), 50 + 1 + 1 + 252);
    assert_eq!(weight(vec![vec![0; 253]]), 50 + 1 + 3 + 253);
    assert_eq!(weight(vec![vec![0; 0x10000]]), 50 + 1 + 5 + 0x10000);
    assert_eq!(weight(vec![vec![]; 253]), 50 + 3 + 253);
}

#[test]
fn too_many_items_are_refused_unless_unlimited() {
    let mut script = vec![0x51; 1001];
    let info = execute_script(script.clone());
    assert_eq!(info.error, Some(ExecError::StackSize));
    assert_eq!(info.last_opcode, Some(Opcode(0x51)));
    assert_eq!(info.final_stack.len(), 1000);
    assert_eq!(info.stats.max_nb_stack_items, 1000);
    let info = execute_script_with_witness_unlimited_stack(script.clone(), vec![]);
    assert_eq!(info.error, None);
    assert_eq!(info.final_stack.len(), 1001);
    script.pop();
    assert_eq!(execute_script(script).error, None);
    // Data pushes are limited too.
    let mut script = vec![1, 7].repeat(1001);
    let info = execute_script(script.clone());
    assert_eq!(info.error, Some(ExecError::StackSize));
    assert_eq!(info.last_opcode, None);
    assert_eq!(info.final_stack.len(), 1000);
    script.truncate(2000);
    assert_eq!(execute_script(script.clone()).error, None);
    script.extend([0x52, OP_2DROP]);
    assert_eq!(execute_script(script).error, Some(ExecError::StackSize));
    // Skipped pushes are not.
    let mut script = vec![0, OP_IF];
    script.extend([1, 7].repeat(1001));
    script.push(OP_ENDIF);
    assert_eq!(execute_script(script).error, None);
}

#[test]
fn a_witness_over_the_limit_is_refused() {
    let over = vec![vec![1]; 1001];
    for script in [vec![], vec![OP_2DROP]] {
        let info = execute_script_with_witness(script.clone(), over.clone());
        assert!(!info.success);
        assert_eq!(info.error, Some(ExecError::StackSize));
        assert_eq!(info.last_opcode, None);
        assert_eq!(info.final_stack.len(), 1001);
        let info = execute_script_with_witness_unlimited_stack(script, over.clone());
        assert_eq!(info.error, None);
    }
    let mut exec =
        Exec::new(ExecCtx::Legacy, Options::default(), bare(), vec![], over).unwrap();
    assert_eq!(exec.exec_next().unwrap_err().error, Some(ExecError::StackSize));
    let info = execute_script_with_witness(vec![OP_NOP], vec![vec![1]; 1000]);
    assert_eq!(info.error, None);
}

#[test]
fn the_bare_template_is_the_one_in_use() {
    let script = vec![OP_ADD, OP_DUP];
    let a = execute_script_with_witness(script.clone(), items(&[2, 3]));
    let b = execute_script_with_witness_and_tx_template(script, bare(), items(&[2, 3]));
    assert_eq!(a.to_text(None), b.to_text(None));
}

#[test]
fn the_last_allowed_data_push_is_the_thousandth() {
    let tx = TxTemplate { taproot_annex_scriptleaf: None, ..bare() };
    let script = vec![0; 1001];
    let mut exec = Exec::new(ExecCtx::Legacy, Options::default(), tx, script, vec![]).unwrap();
    for _ in 0..1000 {
        assert!(exec.exec_next().is_ok());
    }
    assert_eq!(exec.exec_next().unwrap_err().error, Some(ExecError::StackSize));
}

#[test]
fn only_executed_opcodes_are_counted() {
    let script = vec![OP_IF, OP_NOP, OP_ENDIF, 0x51];
    let info = execute_script_with_witness(script, vec![vec![]]);
    assert!(info.success);
    assert_eq!(info.final_stack.0.to_u8_array(), items(&[1]));
    assert_eq!(info.stats.opcode_count, 3);
}

#[test]
fn failing_opcodes_leave_the_items_intact() {
    let left = |witness: Vec<Vec<u8>>, op: u8| {
        let info = execute_script_with_witness(vec![op], witness);
        assert!(info.error.is_some());
        info.final_stack.0.to_u8_array()
    };
    let two = items(&[1, 2]);
    assert_eq!(left(two.clone(), OP_EQUALVERIFY), two);
    let long = vec![vec![1; 261], vec![2; 260]];
    assert_eq!(left(long.clone(), OP_CAT), long);
    let uneven = vec![vec![1], vec![1, 2]];
    assert_eq!(left(uneven.clone(), OP_AND), uneven);
    // An empty signature is refused by a key of 32 bytes.
    let unsigned = vec![vec![], vec![5; 32]];
    assert_eq!(left(unsigned.clone(), OP_CHECKSIGVERIFY), unsigned);
    let full = vec![vec![9]; 999];
    assert_eq!(left(full.clone(), OP_3DUP), full);
}

#[test]
fn profiled_executions_end_like_others_once_complete() {
    let end = |items: Vec<Vec<u8>>, completed: bool| {
        ExecutionResult::from_final_stack_and_profiler(
            ExecCtx::Tapscript,
            Stack::from_u8_vec(items),
            completed,
        )
    };
    assert!(end(vec![vec![1]], true).success);
    assert!(!end(vec![vec![]], true).success);
    assert_eq!(end(vec![vec![1]], true).error, None);
    let open = end(vec![vec![1]], false);
    assert!(!open.success);
    assert_eq!(open.error, Some(ExecError::Debug));
    assert_eq!(open.final_stack.len(), 1);
}

#[test]
fn unlimited_execution_agrees_below_the_limit() {
    let script = vec![0x52, 0x53, OP_ADD, 0x55, OP_EQUAL];
    let limited = execute_script_with_witness(script.clone(), vec![]);
    let unlimited = execute_script_with_witness_unlimited_stack(script, vec![]);
    assert!(limited.success && unlimited.success);
    assert_eq!(limited.stats, unlimited.stats);
}

#[test]
fn items_stay_short() {
    let left = get_final_stack(vec![OP_CAT, OP_DUP, OP_SHA256], vec![vec![1; 260], vec![2; 260]]);
    assert_eq!(left[0].len(), 520);
    assert_eq!(left[1].len(), 32);
}

#[test]
fn scripts_without_an_outcome_are_told_apart() {
    assert!(try_execute_script(vec![OP_CHECKMULTISIG]).is_none());
    assert!(try_execute_script_with_witness(vec![OP_CLTV], vec![vec![]]).is_none());
    assert!(try_execute_script_with_witness_unlimited_stack(vec![OP_CHECKMULTISIG], vec![])
        .is_none());
    assert!(try_get_final_stack(vec![OP_RETURN], vec![]).is_none());
    assert!(try_get_final_stack(vec![OP_CHECKMULTISIG], vec![]).is_none());
    let template = TxTemplate { taproot_annex_scriptleaf: None, ..bare() };
    let info = try_execute_script_with_witness_and_tx_template(vec![0x51], template, vec![]);
    assert!(info.is_none());
    // A push that reaches past the end.
    assert!(try_execute_script(vec![5, 1]).is_none());
}

#[test]
fn every_way_to_execute_agrees() {
    let same = |info: ExecuteInfo| {
        assert!(info.success);
        assert_eq!(info.final_stack.0.to_u8_array(), items(&[1]));
    };
    let script = vec![0x51];
    same(execute_script(script.clone()));
    same(try_execute_script(script.clone()).unwrap());
    same(execute_script_with_witness(script.clone(), vec![]));
    same(try_execute_script_with_witness(script.clone(), vec![]).unwrap());
    same(execute_script_with_witness_unlimited_stack(script.clone(), vec![]));
    same(try_execute_script_with_witness_unlimited_stack(script.clone(), vec![]).unwrap());
    same(execute_script_with_witness_and_tx_template(script.clone(), bare(), vec![]));
    same(try_execute_script_with_witness_and_tx_template(script.clone(), bare(), vec![]).unwrap());
    assert_eq!(get_final_stack(script.clone(), vec![]), items(&[1]));
    assert_eq!(try_get_final_stack(script, vec![]), Some(items(&[1])));
}

#[test]
fn machines_step_and_then_stay() {
    let script = vec![0x52, 0x53, OP_ADD];
    let mut exec =
        Exec::new(ExecCtx::Tapscript, Options::default(), bare(), script, vec![]).unwrap();
    assert!(exec.result().is_none());
    assert_eq!(exec.script_position(), 0);
    assert!(exec.exec_next().is_ok());
    assert_eq!(exec.script_position(), 1);
    assert_eq!(exec.remaining_script(), &[0x53, OP_ADD]);
    assert!(matches!(exec.try_exec_next(), Some(Ok(()))));
    assert!(exec.exec_next().is_ok());
    assert_eq!(exec.stack().to_u8_array(), items(&[5]));
    assert_eq!(exec.stats().opcode_count, 3);
    for _ in 0..3 {
        let end = exec.exec_next().unwrap_err();
        assert!(end.success);
        assert_eq!(end.error, None);
        assert_eq!(end.final_stack.to_u8_array(), items(&[5]));
    }
    assert!(matches!(exec.try_exec_next(), Some(Err(_))));
    assert_eq!(exec.script_position(), 3);
    assert!(exec.result().unwrap().success);
}

#[test]
fn machines_are_not_set_up_for_bad_input() {
    let new = |ctx: ExecCtx, opt: Options, tx: TxTemplate, script: Vec<u8>| {
        format!("{:?}", Exec::new(ctx, opt, tx, script, vec![]).err())
    };
    let opt = Options::default();
    let minimal = Options { require_minimal: true, ..opt };
    let no_leaf = TxTemplate { taproot_annex_scriptleaf: None, ..bare() };
    let bad_annex = TxTemplate {
        taproot_annex_scriptleaf: Some(([0; 32], Some(vec![0x51, 1]))),
        ..bare()
    };
    let empty_annex =
        TxTemplate { taproot_annex_scriptleaf: Some(([0; 32], Some(vec![]))), ..bare() };
    let good_annex = TxTemplate {
        taproot_annex_scriptleaf: Some(([0; 32], Some(vec![0x50, 1]))),
        ..bare()
    };
    let other = |s: &'static str| format!("{:?}", Some(Error::Other(s)));
    assert_eq!(
        new(ExecCtx::Tapscript, opt, no_leaf.clone(), vec![]),
        other("missing taproot tx info in tapscript context")
    );
    assert_eq!(new(ExecCtx::Legacy, opt, no_leaf, vec![]), "None");
    let missing = other("invalid annex: missing prefix");
    assert_eq!(new(ExecCtx::Tapscript, opt, bad_annex.clone(), vec![]), missing);
    assert_eq!(new(ExecCtx::Tapscript, opt, empty_annex, vec![]), missing);
    assert_eq!(new(ExecCtx::SegwitV0, opt, bad_annex, vec![]), "None");
    assert_eq!(new(ExecCtx::Tapscript, opt, good_annex, vec![]), "None");
    assert_eq!(
        new(ExecCtx::Legacy, opt, bare(), vec![0x51, 3, 1, 2]),
        "Some(InvalidScript(EarlyEndOfScript))"
    );
    // A push of one byte where an opcode for small numbers would do.
    assert_eq!(new(ExecCtx::Legacy, opt, bare(), vec![1, 16]), "None");
    assert_eq!(
        new(ExecCtx::Legacy, minimal, bare(), vec![1, 16]),
        "Some(InvalidScript(NonMinimalPush))"
    );
    assert_eq!(new(ExecCtx::Legacy, minimal, bare(), vec![1, 17]), "None");
    assert_eq!(
        new(ExecCtx::Legacy, minimal, bare(), vec![0x4c, 1, 17]),
        "Some(InvalidScript(NonMinimalPush))"
    );
}
