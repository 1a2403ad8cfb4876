use movm::stack::{Stack, StackError, StackErrorKind, STACK_MAX_SIZE};
use movm::word::Word;

#[test]
fn create_stack() {
    let stack = Stack::new();

    assert_eq!(stack.get_size(), 0);
    assert_eq!(stack.dump(), Vec::<Word>::new());
}

#[test]
fn push() {
    let mut stack = Stack::new();

    stack.push(Word::new_i64(1)).unwrap();
    stack.push(Word::new_i64(-1)).unwrap();

    assert_eq!(stack.get_size(), 2);
    assert_eq!(stack.dump(), vec![Word::new_i64(1), Word::new_i64(-1)]);
}

#[test]
fn pop() {
    let mut stack = Stack::new();

    stack.push(Word::new_i64(10)).unwrap();
    stack.push(Word::new_i64(20)).unwrap();

    assert_eq!(stack.pop().unwrap(), Word::new_i64(20));
    assert_eq!(stack.get_size(), 1);

    assert_eq!(stack.pop().unwrap(), Word::new_i64(10));
    assert_eq!(stack.get_size(), 0)
}

#[test]
fn overflow() {
    let mut stack = Stack::new();

    for i in 0..STACK_MAX_SIZE {
        stack.push(Word::new_u64(i as u64)).unwrap();
    }

    let err = stack.push(Word::new_i64(1));
    assert_eq!(
        err.unwrap_err(),
        StackError {
            kind: StackErrorKind::Overflow
        }
    )
}

#[test]
fn underflow() {
    let mut stack = Stack::new();
    let err = stack.pop();

    assert_eq!(
        err.unwrap_err(),
        StackError {
            kind: StackErrorKind::Underflow
        }
    )
}

#[test]
fn push_then_pop_round_trip() {
    let mut stack = Stack::new();
    stack.push(Word::new_i64(7)).unwrap();
    let before = stack.get_size();
    stack.push(Word::new_i64(-42)).unwrap();
    assert_eq!(stack.pop().unwrap().get_as_i64(), -42);
    assert_eq!(stack.get_size(), before);
    assert_eq!(stack.dump(), vec![Word::new_i64(7)]);
}

#[test]
fn full_stack_push_changes_nothing() {
    let mut stack = Stack::new();
    for i in 0..STACK_MAX_SIZE {
        stack.push(Word::new_u64(i as u64)).unwrap();
    }
    let before = stack.dump();
    assert!(stack.push(Word::new_u64(999)).is_err());
    assert_eq!(stack.dump(), before);
    assert_eq!(stack.get_size(), 90);
}

#[test]
fn at_counts_from_the_bottom() {
    let mut stack = Stack::new();
    stack.push(Word::new_i64(5)).unwrap();
    stack.push(Word::new_i64(6)).unwrap();
    assert_eq!(stack.at(0).unwrap(), Word::new_i64(5));
    assert_eq!(stack.at(1).unwrap(), Word::new_i64(6));
    assert_eq!(
        stack.at(2).unwrap_err(),
        StackError {
            kind: StackErrorKind::Index
        }
    );
    assert_eq!(stack.get_size(), 2);
}

#[test]
fn stack_error_descriptions() {
    let text = |kind| StackError { kind }.__description();
    assert_eq!(text(StackErrorKind::Overflow), "stack is full");
    assert_eq!(text(StackErrorKind::Underflow), "stack is empty");
    assert_eq!(text(StackErrorKind::Index), "index out of range");
}

#[test]
fn word_interpretations() {
    assert_eq!(Word::zero().get_as_i64(), 0);
    assert_eq!(Word::zero().get_as_u64(), 0);
    assert_eq!(Word::new_i64(-1).get_as_u64(), u64::MAX);
    assert_eq!(Word::new_u64(u64::MAX).get_as_i64(), -1);
    assert_eq!(Word::new_i64(i64::MIN).get_as_i64(), i64::MIN);
    assert_eq!(Word::new_i64(1), Word::new_u64(1));
    assert_ne!(Word::new_u64(1.0f64.to_bits()), Word::new_i64(1));
}
