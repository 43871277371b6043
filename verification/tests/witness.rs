use bitcoin_scriptexec::opcodes::{OP_ADD, OP_DUP};
use bitcoin_scriptexec::{
    convert_to_witness, execute_script_with_witness_unlimited_stack, get_final_stack,
    profiler_end, profiler_start, try_convert_to_witness,
};

#[test]
fn pushes_become_a_witness() {
    let script = vec![2, 8, 9, 0, 0x4f, 0x51, 0x60, 0x4c, 1, 3];
    let witness = convert_to_witness(script).unwrap();
    assert_eq!(witness, vec![vec![8, 9], vec![], vec![0xff; 8], vec![1], vec![16], vec![3]]);
    assert_eq!(convert_to_witness(vec![]).unwrap(), Vec::<Vec<u8>>::new());
}

#[test]
fn sums_become_a_witness() {
    // 128 and one more.
    assert_eq!(convert_to_witness(vec![1, 0x80, 0x51, OP_ADD]).unwrap(), vec![vec![0x81]]);
    assert_eq!(convert_to_witness(vec![0x4f, 0x51, OP_ADD]).unwrap(), vec![Vec::<u8>::new()]);
}

#[test]
fn witness_conversion_fails_in_words() {
    let error = |script: Vec<u8>| format!("{:?}", convert_to_witness(script).unwrap_err());
    assert_eq!(
        error(vec![0x51, OP_ADD]),
        "Other(\"OP_ADD in witness conversion requires two stack elements\")"
    );
    let mut long = vec![9];
    long.extend([1; 9]);
    long.extend([0x51, OP_ADD]);
    assert_eq!(error(long), "Other(\"invalid scriptint in OP_ADD\")");
    assert_eq!(
        error(vec![0x51, OP_DUP]),
        "Other(\"the initial input to the witness elements can only contain elements, but not any \
         opcode.\")"
    );
    assert_eq!(error(vec![0x51, 2, 1]), "InvalidScript(EarlyEndOfScript)");
}

#[test]
fn sums_that_do_not_fit_are_told_apart() {
    let highest = [8, 0xff, 0xff, 0xff, 0xff, 0xff, 0xff, 0xff, 0x7f];
    let mut script = highest.to_vec();
    script.extend([0x51, OP_ADD]);
    assert!(try_convert_to_witness(script).is_none());
    assert!(matches!(try_convert_to_witness(highest.to_vec()), Some(Ok(w)) if w.len() == 1));
}

#[test]
fn converted_witness_is_what_execution_leaves() {
    let script = vec![2, 8, 9, 0, 0x4f, 0x52, 0x53, OP_ADD, 1, 0x80, 0x51, OP_ADD];
    let info = execute_script_with_witness_unlimited_stack(script.clone(), vec![]);
    assert_eq!(info.error, None);
    assert_eq!(info.final_stack.0.to_u8_array(), convert_to_witness(script.clone()).unwrap());
    assert_eq!(get_final_stack(script.clone(), vec![]), convert_to_witness(script).unwrap());
}

#[test]
fn profiler_marks_are_empty() {
    assert!(profiler_start("part").is_empty());
    assert!(profiler_end("part").is_empty());
}
