use bitcoin_scriptexec::utils::ConditionStack;
use bitcoin_scriptexec::{ExecError, FmtStack, Stack};

#[test]
fn condition_stack_knows_whether_all_is_true() {
    let mut c = ConditionStack::new();
    assert!(c.all_true());
    c.push(true);
    assert!(c.all_true());
    c.push(false);
    assert!(!c.all_true());
    c.push(true);
    assert!(!c.all_true());
    assert!(c.pop());
    assert!(!c.all_true());
    assert!(c.pop());
    assert!(c.all_true());
    assert!(c.pop());
    assert!(!c.pop());
    assert!(c.all_true());
}

#[test]
fn condition_stack_toggles_its_top() {
    let mut c = ConditionStack::default();
    assert!(!c.toggle_top());
    c.push(true);
    assert!(c.toggle_top());
    assert!(!c.all_true());
    assert!(c.toggle_top());
    assert!(c.all_true());
    c.push(false);
    c.push(true);
    // The top is not the first false one.
    assert!(c.toggle_top());
    assert!(!c.all_true());
    assert!(c.pop());
    assert!(c.toggle_top());
    assert!(c.all_true());
}

#[test]
fn stack_gives_back_what_was_pushed() {
    let mut s = Stack::from_u8_vec(vec![vec![1, 2], vec![]]);
    s.pushnum(256);
    s.pushstr(&[7]);
    assert_eq!(s.len(), 4);
    assert_eq!(s.to_u8_array(), vec![vec![1, 2], vec![], vec![0, 1], vec![7]]);
    assert_eq!(s.get(2), vec![0, 1]);
    assert_eq!(s.topnum(-2, false), Ok(256));
    assert_eq!(s.topnum(-4, false), Ok(0x201));
    assert_eq!(s.topnum(-5, false), Err(ExecError::InvalidStackOperation));
    assert_eq!(s.topstr(-2), Ok(vec![0, 1]));
    assert_eq!(s.last(), Ok(vec![7]));
    assert_eq!(s.needn(4), Ok(()));
    assert_eq!(s.needn(5), Err(ExecError::InvalidStackOperation));
    s.remove(1);
    assert_eq!(s.to_u8_array(), vec![vec![1, 2], vec![0, 1], vec![7]]);
    assert_eq!(s.popstr(), Ok(vec![7]));
    assert_eq!(s.pop().unwrap().to_bytes(), vec![0, 1]);
    s.popn(1);
    assert!(s.is_empty());
    assert!(s.pop().is_none());
    assert_eq!(s.popstr(), Err(ExecError::InvalidStackOperation));
}

#[test]
fn shown_stack_counts_its_items() {
    let shown = FmtStack(Stack::from_u8_vec(vec![vec![9], vec![8]]));
    assert_eq!(shown.len(), 2);
    assert!(!shown.is_empty());
    assert_eq!(shown.get(0), vec![9]);
    assert!(FmtStack(Stack::new()).is_empty());
}
