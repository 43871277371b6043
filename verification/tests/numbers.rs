use bitcoin_scriptexec::data_structures::{read_scriptint, ScriptIntError};
use bitcoin_scriptexec::utils::{read_scriptint_size, scriptint_parse, scriptint_vec};
use bitcoin_scriptexec::ExecError;

#[test]
fn numbers_are_written_without_trailing_zeros() {
    assert_eq!(scriptint_vec(0), Vec::<u8>::new());
    assert_eq!(scriptint_vec(1), vec![1]);
    assert_eq!(scriptint_vec(127), vec![0x7f]);
    assert_eq!(scriptint_vec(128), vec![0x80]);
    assert_eq!(scriptint_vec(255), vec![0xff]);
    assert_eq!(scriptint_vec(256), vec![0, 1]);
    assert_eq!(scriptint_vec(0x0102_0304), vec![4, 3, 2, 1]);
    assert_eq!(scriptint_vec(i64::MAX), vec![0xff, 0xff, 0xff, 0xff, 0xff, 0xff, 0xff, 0x7f]);
    assert_eq!(scriptint_vec(-1), vec![0xff; 8]);
    assert_eq!(scriptint_vec(i64::MIN), vec![0, 0, 0, 0, 0, 0, 0, 0x80]);
}

#[test]
fn numbers_are_read_back() {
    let numbers = [0, 1, -1, 16, 127, 128, 255, 256, -256, 1 << 40, i64::MAX, i64::MIN];
    for n in numbers {
        assert_eq!(read_scriptint_size(&scriptint_vec(n), 8, true), Ok(n));
    }
}

#[test]
fn numbers_with_trailing_zeros_are_read() {
    assert_eq!(read_scriptint_size(&[], 8, true), Ok(0));
    assert_eq!(read_scriptint_size(&[0], 8, true), Ok(0));
    assert_eq!(read_scriptint_size(&[5, 0, 0], 8, true), Ok(5));
    assert_eq!(read_scriptint_size(&[0x80], 8, true), Ok(128));
    // Written back, they lose them.
    assert_eq!(scriptint_vec(read_scriptint_size(&[5, 0, 0], 8, true).unwrap()), vec![5]);
}

#[test]
fn numbers_that_are_too_long_are_refused() {
    assert_eq!(read_scriptint_size(&[1; 9], 8, false), Err(ScriptIntError::NumericOverflow));
    assert_eq!(read_scriptint_size(&[1, 2], 1, false), Err(ScriptIntError::NumericOverflow));
    assert_eq!(read_scriptint_size(&[1, 2], 2, false), Ok(0x201));
    assert_eq!(read_scriptint(&[1; 6], 5, false), Err(ExecError::ScriptIntNumericOverflow));
    assert_eq!(read_scriptint(&[0xff; 5], 5, false), Ok(0xff_ffff_ffff));
}

#[test]
fn appended_bytes_add_their_value() {
    assert_eq!(read_scriptint_size(&[7], 8, false), Ok(7));
    assert_eq!(scriptint_parse(&[7, 3]), scriptint_parse(&[7]) + 3 * 256);
    assert_eq!(read_scriptint_size(&[7, 3], 8, false), Ok(7 + 3 * 256));
    assert_eq!(read_scriptint_size(&[7, 3, 9], 8, false), Ok(7 + 3 * 256 + 9 * 65536));
}
