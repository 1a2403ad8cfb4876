use vstd::prelude::*;

use crate::stack::{Stack, STACK_MAX_SIZE};
use crate::vm::VM;
use crate::word::{Word, i64_of_bits, bits_of_i64};

verus! {

#[derive(Clone, Copy, Debug, PartialEq, Eq, Structural)]
pub enum InstErrorKind {
    NotEnoughOperands,
    DivisionByZero,
    StackOverflow,
    IllegalPointer,
    IndexOutOfRange,
    Overflow,
}

#[derive(Clone, Copy, Debug, PartialEq, Eq, Structural)]
pub struct InstError {
    pub kind: InstErrorKind,
}

/// The message that goes with each kind of instruction error.
pub open spec fn inst_error_text(kind: InstErrorKind) -> Seq<char> {
    match kind {
        InstErrorKind::NotEnoughOperands => "not enough operands at stack"@,
        InstErrorKind::DivisionByZero => "tried divide by zero"@,
        InstErrorKind::StackOverflow => "stack is full"@,
        InstErrorKind::IllegalPointer => "illegal pointer position"@,
        InstErrorKind::IndexOutOfRange => "index out of range"@,
        InstErrorKind::Overflow => "variable is overflowing"@,
    }
}

impl InstError {
    pub fn __description(&self) -> (r: &'static str)
        ensures
            r@ == inst_error_text(self.kind),
    {
        match self.kind {
            InstErrorKind::NotEnoughOperands => "not enough operands at stack",
            InstErrorKind::DivisionByZero => "tried divide by zero",
            InstErrorKind::StackOverflow => "stack is full",
            InstErrorKind::IllegalPointer => "illegal pointer position",
            InstErrorKind::IndexOutOfRange => "index out of range",
            InstErrorKind::Overflow => "variable is overflowing",
        }
    }
}

#[derive(Clone, Copy, Debug, PartialEq, Eq, Structural)]
pub enum InstType {
    PUSH,
    PLUS,
    MINUS,
    MP,
    DIV,
    DUMP,
    JMP,
    DUP,
}

/// The opcodes whose operand means something.
pub open spec fn requires_operand(typ: InstType) -> bool {
    typ == InstType::PUSH || typ == InstType::JMP || typ == InstType::DUP
}

impl InstType {
    pub fn is_required_op(&self) -> (r: bool)
        ensures
            r == requires_operand(*self),
    {
        match self {
            InstType::PUSH | InstType::JMP | InstType::DUP => true,
            _ => false,
        }
    }
}

/// One instruction: an opcode and its operand (zero where unused).
#[derive(Clone, Copy, Debug, PartialEq, Eq, Structural)]
pub struct Inst {
    pub typ: InstType,
    pub op: Word,
}

pub open spec fn inst_err(kind: InstErrorKind) -> Result<(), InstError> {
    Err(InstError { kind })
}

/// The top word of `s` read as a signed value: the first operand.
pub open spec fn operand_a(s: Seq<Word>) -> i64 {
    i64_of_bits(s[s.len() - 1].bits)
}

/// The word under the top read as a signed value: the second operand.
pub open spec fn operand_b(s: Seq<Word>) -> i64 {
    i64_of_bits(s[s.len() - 2].bits)
}

/// `s` without its two top words.
pub open spec fn below_operands(s: Seq<Word>) -> Seq<Word> {
    s.subrange(0, s.len() - 2)
}

pub open spec fn word_of_i64(v: i64) -> Word {
    Word { bits: bits_of_i64(v) }
}

pub open spec fn push_inst_spec(s: Seq<Word>, op: Word) -> (Seq<Word>, Result<(), InstError>) {
    if s.len() < STACK_MAX_SIZE {
        (s.push(op), Ok(()))
    } else {
        (s, inst_err(InstErrorKind::StackOverflow))
    }
}

/// `a + b` where `a` was on top; an overflow leaves the stack as it was.
pub open spec fn plus_spec(s: Seq<Word>) -> (Seq<Word>, Result<(), InstError>) {
    if s.len() < 2 {
        (s, inst_err(InstErrorKind::NotEnoughOperands))
    } else {
        let sum = operand_a(s) + operand_b(s);
        if sum < i64::MIN || sum > i64::MAX {
            (s, inst_err(InstErrorKind::Overflow))
        } else {
            (below_operands(s).push(word_of_i64(sum as i64)), Ok(()))
        }
    }
}

/// `a - b` where `a` was on top, wrapping around on overflow.
pub open spec fn minus_spec(s: Seq<Word>) -> (Seq<Word>, Result<(), InstError>) {
    if s.len() < 2 {
        (s, inst_err(InstErrorKind::NotEnoughOperands))
    } else {
        (below_operands(s).push(word_of_i64(operand_a(s).wrapping_sub(operand_b(s)))), Ok(()))
    }
}

/// `a * b` where `a` was on top; an overflow leaves the stack as it was.
pub open spec fn mp_spec(s: Seq<Word>) -> (Seq<Word>, Result<(), InstError>) {
    if s.len() < 2 {
        (s, inst_err(InstErrorKind::NotEnoughOperands))
    } else {
        let product = operand_a(s) * operand_b(s);
        if product < i64::MIN || product > i64::MAX {
            (s, inst_err(InstErrorKind::Overflow))
        } else {
            (below_operands(s).push(word_of_i64(product as i64)), Ok(()))
        }
    }
}

/// `a / b` rounded toward zero, where `a` was on top. A zero divisor fails
/// with both operands consumed; the one quotient that does not fit
/// (`i64::MIN / -1`) leaves the stack as it was.
pub open spec fn div_spec(s: Seq<Word>) -> (Seq<Word>, Result<(), InstError>) {
    if s.len() < 2 {
        (s, inst_err(InstErrorKind::NotEnoughOperands))
    } else if operand_b(s) == 0 {
        (below_operands(s), inst_err(InstErrorKind::DivisionByZero))
    } else {
        match operand_a(s).checked_div(operand_b(s)) {
            Some(q) => (below_operands(s).push(word_of_i64(q)), Ok(())),
            None => (s, inst_err(InstErrorKind::Overflow)),
        }
    }
}

/// Pushes a copy of the word `op` places below the top.
pub open spec fn dup_spec(s: Seq<Word>, op: Word) -> (Seq<Word>, Result<(), InstError>) {
    if op.bits >= s.len() {
        (s, inst_err(InstErrorKind::IndexOutOfRange))
    } else if s.len() >= STACK_MAX_SIZE {
        (s, inst_err(InstErrorKind::StackOverflow))
    } else {
        (s.push(s[s.len() - 1 - op.bits]), Ok(()))
    }
}

/// The effect on the stack of an instruction other than a jump.
pub open spec fn stack_effect(s: Seq<Word>, inst: Inst) -> (Seq<Word>, Result<(), InstError>) {
    match inst.typ {
        InstType::PUSH => push_inst_spec(s, inst.op),
        InstType::PLUS => plus_spec(s),
        InstType::MINUS => minus_spec(s),
        InstType::MP => mp_spec(s),
        InstType::DIV => div_spec(s),
        InstType::DUMP => (s, Ok(())),
        InstType::JMP => (s, Ok(())),
        InstType::DUP => dup_spec(s, inst.op),
    }
}

/// An arithmetic opcode on fewer than two words fails with
/// `NotEnoughOperands` and leaves the stack as it was.
pub proof fn lemma_arith_needs_two_operands(s: Seq<Word>, inst: Inst)
    requires
        s.len() < 2,
        inst.typ == InstType::PLUS || inst.typ == InstType::MINUS || inst.typ == InstType::MP
            || inst.typ == InstType::DIV,
    ensures
        stack_effect(s, inst) == (s, inst_err(InstErrorKind::NotEnoughOperands)),
{
}

/// A zero divisor fails with `DivisionByZero`, whatever the dividend.
pub proof fn lemma_div_by_zero(s: Seq<Word>)
    requires
        s.len() >= 2,
        operand_b(s) == 0,
    ensures
        div_spec(s).1 == inst_err(InstErrorKind::DivisionByZero),
{
}

/// An addition or a multiplication that leaves the signed 64-bit range fails
/// with `Overflow` and leaves both operands where they were.
pub proof fn lemma_overflow_restores(s: Seq<Word>)
    requires
        s.len() >= 2,
    ensures
        (operand_a(s) + operand_b(s) > i64::MAX || operand_a(s) + operand_b(s) < i64::MIN)
            ==> plus_spec(s) == (s, inst_err(InstErrorKind::Overflow)),
        (operand_a(s) * operand_b(s) > i64::MAX || operand_a(s) * operand_b(s) < i64::MIN)
            ==> mp_spec(s) == (s, inst_err(InstErrorKind::Overflow)),
{
}

/// DUPLICATE with operand 0 copies the top word; an operand at or past the
/// stack length fails with `IndexOutOfRange`.
pub proof fn lemma_dup_range(s: Seq<Word>, op: Word)
    ensures
        op.bits == 0 && 0 < s.len() < STACK_MAX_SIZE ==> dup_spec(s, op) == (
            s.push(s.last()),
            Ok::<(), InstError>(()),
        ),
        op.bits >= s.len() ==> dup_spec(s, op) == (s, inst_err(InstErrorKind::IndexOutOfRange)),
{
}

pub fn push(stack: &mut Stack, op: Word) -> (r: Result<(), InstError>)
    requires
        old(stack).wf(),
    ensures
        final(stack).wf(),
        (final(stack)@, r) == push_inst_spec(old(stack)@, op),
{
    let res = stack.push(op);
    if res.is_ok() {
        Ok(())
    } else {
        Err(InstError { kind: InstErrorKind::StackOverflow })
    }
}

/// Pops the two operands; `a` was on top.
fn pop_operands(stack: &mut Stack) -> (r: (i64, i64))
    requires
        old(stack).wf(),
        old(stack)@.len() >= 2,
    ensures
        final(stack).wf(),
        r == (operand_a(old(stack)@), operand_b(old(stack)@)),
        final(stack)@ == below_operands(old(stack)@),
{
    let ghost s = stack@;
    let a = match stack.pop() {
        Ok(w) => w.get_as_i64(),
        Err(_) => 0,
    };
    let b = match stack.pop() {
        Ok(w) => w.get_as_i64(),
        Err(_) => 0,
    };
    assert(stack@ =~= below_operands(s));
    (a, b)
}

/// Pushes `b` then `a` back, undoing `pop_operands`.
fn restore_operands(stack: &mut Stack, a: i64, b: i64, Ghost(s): Ghost<Seq<Word>>)
    requires
        old(stack).wf(),
        s.len() >= 2,
        s.len() <= STACK_MAX_SIZE,
        old(stack)@ == below_operands(s),
        a == operand_a(s),
        b == operand_b(s),
    ensures
        final(stack).wf(),
        final(stack)@ == s,
{
    proof {
        lemma_bits_i64_round_trip_at(s, s.len() - 1);
        lemma_bits_i64_round_trip_at(s, s.len() - 2);
    }
    let _ = stack.push(Word::new_i64(b));
    let _ = stack.push(Word::new_i64(a));
    assert(stack@ =~= s);
}

proof fn lemma_bits_i64_round_trip_at(s: Seq<Word>, i: int)
    requires
        0 <= i < s.len(),
    ensures
        word_of_i64(i64_of_bits(s[i].bits)) == s[i],
{
    crate::word::lemma_bits_i64_round_trip(s[i].bits);
}

pub fn plus(stack: &mut Stack) -> (r: Result<(), InstError>)
    requires
        old(stack).wf(),
    ensures
        final(stack).wf(),
        (final(stack)@, r) == plus_spec(old(stack)@),
{
    if stack.get_size() < 2 {
        return Err(InstError { kind: InstErrorKind::NotEnoughOperands });
    }
    let ghost s = stack@;
    let (a, b) = pop_operands(stack);
    match a.checked_add(b) {
        Some(sum) => {
            let _ = stack.push(Word::new_i64(sum));
            Ok(())
        },
        None => {
            restore_operands(stack, a, b, Ghost(s));
            Err(InstError { kind: InstErrorKind::Overflow })
        },
    }
}

pub fn minus(stack: &mut Stack) -> (r: Result<(), InstError>)
    requires
        old(stack).wf(),
    ensures
        final(stack).wf(),
        (final(stack)@, r) == minus_spec(old(stack)@),
{
    if stack.get_size() < 2 {
        return Err(InstError { kind: InstErrorKind::NotEnoughOperands });
    }
    let (a, b) = pop_operands(stack);
    let _ = stack.push(Word::new_i64(a.wrapping_sub(b)));
    Ok(())
}

pub fn mp(stack: &mut Stack) -> (r: Result<(), InstError>)
    requires
        old(stack).wf(),
    ensures
        final(stack).wf(),
        (final(stack)@, r) == mp_spec(old(stack)@),
{
    if stack.get_size() < 2 {
        return Err(InstError { kind: InstErrorKind::NotEnoughOperands });
    }
    let ghost s = stack@;
    let (a, b) = pop_operands(stack);
    match a.checked_mul(b) {
        Some(product) => {
            let _ = stack.push(Word::new_i64(product));
            Ok(())
        },
        None => {
            restore_operands(stack, a, b, Ghost(s));
            Err(InstError { kind: InstErrorKind::Overflow })
        },
    }
}

pub fn div(stack: &mut Stack) -> (r: Result<(), InstError>)
    requires
        old(stack).wf(),
    ensures
        final(stack).wf(),
        (final(stack)@, r) == div_spec(old(stack)@),
{
    if stack.get_size() < 2 {
        return Err(InstError { kind: InstErrorKind::NotEnoughOperands });
    }
    let ghost s = stack@;
    let (a, b) = pop_operands(stack);
    if b == 0 {
        return Err(InstError { kind: InstErrorKind::DivisionByZero });
    }
    match a.checked_div(b) {
        Some(q) => {
            let _ = stack.push(Word::new_i64(q));
            Ok(())
        },
        None => {
            restore_operands(stack, a, b, Ghost(s));
            Err(InstError { kind: InstErrorKind::Overflow })
        },
    }
}

/// The listing that a DUMP shows: the words from the bottom to the top.
pub fn dump(stack: &Stack) -> (r: Vec<Word>)
    ensures
        r@ == stack@,
{
    stack.dump()
}

/// Sets the instruction pointer to `op`; the program length itself is a
/// valid target, one past the last instruction.
pub fn jmp(vm: &mut VM, op: Word) -> (r: Result<(), InstError>)
    ensures
        final(vm).stack_view() == old(vm).stack_view(),
        final(vm).halted() == old(vm).halted(),
        final(vm).program_length() == old(vm).program_length(),
        op.bits <= old(vm).program_length() ==> r == Ok::<(), InstError>(()) && final(vm).inst_pointer() == op.bits,
        op.bits > old(vm).program_length() ==> r == inst_err(InstErrorKind::IllegalPointer)
            && final(vm).inst_pointer() == old(vm).inst_pointer(),
{
    if op.get_as_u64() > vm.get_program_length() as u64 {
        return Err(InstError { kind: InstErrorKind::IllegalPointer });
    }
    let _ = vm.set_inst_pointer(op.get_as_u64() as usize);
    Ok(())
}

pub fn dup(stack: &mut Stack, op: Word) -> (r: Result<(), InstError>)
    requires
        old(stack).wf(),
    ensures
        final(stack).wf(),
        (final(stack)@, r) == dup_spec(old(stack)@, op),
{
    let size = stack.get_size();
    if op.get_as_u64() >= size as u64 {
        return Err(InstError { kind: InstErrorKind::IndexOutOfRange });
    }
    let index = size - 1 - (op.get_as_u64() as usize);
    let duplicate = match stack.at(index) {
        Ok(w) => w,
        Err(_) => Word::zero(),
    };
    let res = stack.push(duplicate);
    if res.is_err() {
        Err(InstError { kind: InstErrorKind::StackOverflow })
    } else {
        Ok(())
    }
}

} // verus!
