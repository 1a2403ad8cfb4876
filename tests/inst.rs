use movm::inst::{div, dump, dup, minus, mp, plus, InstError, InstErrorKind, InstType};
use movm::stack::{Stack, STACK_MAX_SIZE};
use movm::word::Word;

fn stack_of(values: &[i64]) -> Stack {
    let mut stack = Stack::new();
    for v in values {
        stack.push(Word::new_i64(*v)).unwrap();
    }
    stack
}

fn values(stack: &Stack) -> Vec<i64> {
    stack.dump().iter().map(|w| w.get_as_i64()).collect()
}

fn err(kind: InstErrorKind) -> InstError {
    InstError { kind }
}

#[test]
fn inst_push_test() {
    let mut stack = Stack::new();

    movm::inst::push(&mut stack, Word::new_i64(69)).unwrap();

    assert_eq!(stack.get_size(), 1);
    assert_eq!(stack.pop().unwrap().get_as_i64(), 69);
}

#[test]
fn inst_plus_test() {
    let mut stack = Stack::new();

    stack.push(Word::new_i64(15)).unwrap();
    stack.push(Word::new_i64(20)).unwrap();

    plus(&mut stack).unwrap();

    assert_eq!(stack.get_size(), 1);
    assert_eq!(stack.pop().unwrap().get_as_i64(), 35);
}

#[test]
fn inst_macro_test() {
    let mut stack = Stack::new();
    let e = plus(&mut stack);

    assert_eq!(e.unwrap_err(), err(InstErrorKind::NotEnoughOperands))
}

#[test]
fn inst_minus_test() {
    let mut stack = Stack::new();
    stack.push(Word::new_i64(4)).unwrap();
    stack.push(Word::new_i64(12)).unwrap();

    minus(&mut stack).unwrap();

    assert_eq!(stack.get_size(), 1);
    assert_eq!(stack.pop().unwrap().get_as_i64(), 8);
}

#[test]
fn inst_mp_test() {
    let mut stack = Stack::new();
    stack.push(Word::new_i64(6)).unwrap();
    stack.push(Word::new_i64(-8)).unwrap();

    mp(&mut stack).unwrap();

    assert_eq!(stack.get_size(), 1);
    assert_eq!(stack.pop().unwrap().get_as_i64(), -48);
}

#[test]
fn inst_div_test() {
    let mut stack = Stack::new();
    stack.push(Word::new_i64(7)).unwrap();
    stack.push(Word::new_i64(14)).unwrap();

    div(&mut stack).unwrap();

    assert_eq!(stack.get_size(), 1);
    assert_eq!(stack.pop().unwrap().get_as_i64(), 2);
}

#[test]
fn inst_div_by_zero() {
    let mut stack = Stack::new();
    stack.push(Word::new_i64(0)).unwrap();
    stack.push(Word::new_i64(1337)).unwrap();

    let e = div(&mut stack).unwrap_err();

    assert_eq!(e, err(InstErrorKind::DivisionByZero))
}

#[test]
fn check_overflow() {
    let mut stack = Stack::new();
    stack.push(Word::new_i64(i64::MAX)).unwrap();
    stack.push(Word::new_i64(2)).unwrap();

    let plus_err = plus(&mut stack).unwrap_err();
    let mp_err = mp(&mut stack).unwrap_err();

    assert_eq!(plus_err, err(InstErrorKind::Overflow));

    assert_eq!(mp_err, err(InstErrorKind::Overflow))
}

#[test]
fn overflow_restores_operands_in_order() {
    let mut stack = stack_of(&[3, i64::MAX, 2]);
    assert_eq!(plus(&mut stack).unwrap_err(), err(InstErrorKind::Overflow));
    assert_eq!(values(&stack), vec![3, i64::MAX, 2]);
    assert_eq!(mp(&mut stack).unwrap_err(), err(InstErrorKind::Overflow));
    assert_eq!(values(&stack), vec![3, i64::MAX, 2]);
    let mut low = stack_of(&[i64::MIN, -1]);
    assert_eq!(plus(&mut low).unwrap_err(), err(InstErrorKind::Overflow));
    assert_eq!(values(&low), vec![i64::MIN, -1]);
}

#[test]
fn arithmetic_needs_two_operands() {
    for op in [plus, minus, mp, div] {
        let mut empty = Stack::new();
        assert_eq!(op(&mut empty).unwrap_err(), err(InstErrorKind::NotEnoughOperands));
        assert_eq!(empty.get_size(), 0);
        let mut one = stack_of(&[9]);
        assert_eq!(op(&mut one).unwrap_err(), err(InstErrorKind::NotEnoughOperands));
        assert_eq!(values(&one), vec![9]);
    }
}

#[test]
fn operand_order_for_minus_and_div() {
    let mut stack = stack_of(&[100, 3, 10]);
    minus(&mut stack).unwrap();
    assert_eq!(values(&stack), vec![100, 7]);
    div(&mut stack).unwrap();
    assert_eq!(values(&stack), vec![0]);
}

#[test]
fn div_truncates_toward_zero() {
    let mut stack = stack_of(&[2, -7]);
    div(&mut stack).unwrap();
    assert_eq!(values(&stack), vec![-3]);
    let mut stack = stack_of(&[-2, 7]);
    div(&mut stack).unwrap();
    assert_eq!(values(&stack), vec![-3]);
}

#[test]
fn div_by_zero_any_dividend_consumes_operands() {
    for a in [0, 1, -1, i64::MAX, i64::MIN] {
        let mut stack = stack_of(&[5, 0, a]);
        assert_eq!(div(&mut stack).unwrap_err(), err(InstErrorKind::DivisionByZero));
        assert_eq!(values(&stack), vec![5]);
    }
}

#[test]
fn div_min_by_minus_one_overflows() {
    let mut stack = stack_of(&[-1, i64::MIN]);
    assert_eq!(div(&mut stack).unwrap_err(), err(InstErrorKind::Overflow));
    assert_eq!(values(&stack), vec![-1, i64::MIN]);
}

#[test]
fn minus_wraps_around() {
    let mut stack = stack_of(&[1, i64::MIN]);
    minus(&mut stack).unwrap();
    assert_eq!(values(&stack), vec![i64::MAX]);
}

#[test]
fn dup_copies_from_below_the_top() {
    let mut stack = stack_of(&[1, 2, 3]);
    dup(&mut stack, Word::new_u64(0)).unwrap();
    assert_eq!(values(&stack), vec![1, 2, 3, 3]);
    dup(&mut stack, Word::new_u64(3)).unwrap();
    assert_eq!(values(&stack), vec![1, 2, 3, 3, 1]);
}

#[test]
fn dup_index_out_of_range() {
    let mut stack = stack_of(&[1, 2]);
    assert_eq!(dup(&mut stack, Word::new_u64(2)).unwrap_err(), err(InstErrorKind::IndexOutOfRange));
    assert_eq!(dup(&mut stack, Word::new_i64(-1)).unwrap_err(), err(InstErrorKind::IndexOutOfRange));
    assert_eq!(values(&stack), vec![1, 2]);
    let mut empty = Stack::new();
    assert_eq!(dup(&mut empty, Word::zero()).unwrap_err(), err(InstErrorKind::IndexOutOfRange));
}

#[test]
fn push_and_dup_on_full_stack() {
    let mut stack = Stack::new();
    for i in 0..STACK_MAX_SIZE {
        stack.push(Word::new_u64(i as u64)).unwrap();
    }
    assert_eq!(
        movm::inst::push(&mut stack, Word::zero()).unwrap_err(),
        err(InstErrorKind::StackOverflow)
    );
    assert_eq!(dup(&mut stack, Word::zero()).unwrap_err(), err(InstErrorKind::StackOverflow));
    assert_eq!(stack.get_size(), STACK_MAX_SIZE);
}

#[test]
fn dump_lists_bottom_to_top() {
    let stack = stack_of(&[4, 5]);
    assert_eq!(dump(&stack), vec![Word::new_i64(4), Word::new_i64(5)]);
}

#[test]
fn inst_error_descriptions() {
    assert_eq!(err(InstErrorKind::NotEnoughOperands).__description(), "not enough operands at stack");
    assert_eq!(err(InstErrorKind::DivisionByZero).__description(), "tried divide by zero");
    assert_eq!(err(InstErrorKind::StackOverflow).__description(), "stack is full");
    assert_eq!(err(InstErrorKind::IllegalPointer).__description(), "illegal pointer position");
    assert_eq!(err(InstErrorKind::IndexOutOfRange).__description(), "index out of range");
    assert_eq!(err(InstErrorKind::Overflow).__description(), "variable is overflowing");
}

#[test]
fn required_operands() {
    assert!(InstType::PUSH.is_required_op());
    assert!(InstType::JMP.is_required_op());
    assert!(InstType::DUP.is_required_op());
    for t in [InstType::PLUS, InstType::MINUS, InstType::MP, InstType::DIV, InstType::DUMP] {
        assert!(!t.is_required_op());
    }
}
