use vstd::prelude::*;

use crate::word::Word;

verus! {

/// How many words a stack holds at most.
pub const STACK_MAX_SIZE: usize = 90;

#[derive(Clone, Copy, Debug, PartialEq, Eq, Structural)]
pub enum StackErrorKind {
    Overflow,
    Underflow,
    Index,
}

#[derive(Clone, Copy, Debug, PartialEq, Eq, Structural)]
pub struct StackError {
    pub kind: StackErrorKind,
}

impl StackError {
    pub fn __description(&self) -> (r: &'static str)
        ensures
            r@ == stack_error_text(self.kind),
    {
        match self.kind {
            StackErrorKind::Overflow => "stack is full",
            StackErrorKind::Underflow => "stack is empty",
            StackErrorKind::Index => "index out of range",
        }
    }
}

/// The message that goes with each kind of stack error.
pub open spec fn stack_error_text(kind: StackErrorKind) -> Seq<char> {
    match kind {
        StackErrorKind::Overflow => "stack is full"@,
        StackErrorKind::Underflow => "stack is empty"@,
        StackErrorKind::Index => "index out of range"@,
    }
}

/// What pushing `value` onto a stack holding `s` leaves, and the result.
pub open spec fn push_spec(s: Seq<Word>, value: Word) -> (Seq<Word>, Result<(), StackError>) {
    if s.len() < STACK_MAX_SIZE {
        (s.push(value), Ok(()))
    } else {
        (s, Err(StackError { kind: StackErrorKind::Overflow }))
    }
}

/// What popping a stack holding `s` leaves, and the result.
pub open spec fn pop_spec(s: Seq<Word>) -> (Seq<Word>, Result<Word, StackError>) {
    if s.len() > 0 {
        (s.drop_last(), Ok(s.last()))
    } else {
        (s, Err(StackError { kind: StackErrorKind::Underflow }))
    }
}

/// Popping right after a successful push gives back the pushed word and the
/// stack as it was.
pub proof fn lemma_push_then_pop(s: Seq<Word>, value: Word)
    requires
        s.len() < STACK_MAX_SIZE,
    ensures
        push_spec(s, value).1 is Ok,
        pop_spec(push_spec(s, value).0) == (s, Ok::<Word, StackError>(value)),
        pop_spec(push_spec(s, value).0).0.len() == s.len(),
{
    assert(s.push(value).drop_last() =~= s);
}

/// Pushing onto a full stack fails with `Overflow` and changes nothing.
pub proof fn lemma_push_full(s: Seq<Word>, value: Word)
    requires
        s.len() == STACK_MAX_SIZE,
    ensures
        push_spec(s, value) == (s, Err::<(), StackError>(StackError { kind: StackErrorKind::Overflow })),
{
}

/// Popping an empty stack fails with `Underflow`.
pub proof fn lemma_pop_empty(s: Seq<Word>)
    requires
        s.len() == 0,
    ensures
        pop_spec(s).1 == Err::<Word, StackError>(StackError { kind: StackErrorKind::Underflow }),
{
}

/// A last-in first-out store of at most `STACK_MAX_SIZE` words. Its view
/// lists the words from the bottom (index 0) to the top.
pub struct Stack {
    stack: Vec<Word>,
}

impl View for Stack {
    type V = Seq<Word>;

    closed spec fn view(&self) -> Seq<Word> {
        self.stack@
    }
}

impl Stack {
    /// A stack never holds more than its capacity.
    pub open spec fn wf(&self) -> bool {
        self@.len() <= STACK_MAX_SIZE
    }

    pub fn new() -> (s: Stack)
        ensures
            s.wf(),
            s@ == Seq::<Word>::empty(),
    {
        Stack { stack: Vec::new() }
    }

    /// The word at `index`, counted from the bottom.
    pub fn at(&self, index: usize) -> (r: Result<Word, StackError>)
        requires
            self.wf(),
        ensures
            index < self@.len() ==> r == Ok::<Word, StackError>(self@[index as int]),
            index >= self@.len() ==> r == Err::<Word, StackError>(
                StackError { kind: StackErrorKind::Index },
            ),
    {
        if index >= self.stack.len() {
            Err(StackError { kind: StackErrorKind::Index })
        } else {
            Ok(self.stack[index])
        }
    }

    pub fn push(&mut self, value: Word) -> (r: Result<(), StackError>)
        requires
            old(self).wf(),
        ensures
            final(self).wf(),
            (final(self)@, r) == push_spec(old(self)@, value),
    {
        if self.stack.len() == STACK_MAX_SIZE {
            return Err(StackError { kind: StackErrorKind::Overflow });
        }
        self.stack.push(value);
        Ok(())
    }

    pub fn pop(&mut self) -> (r: Result<Word, StackError>)
        requires
            old(self).wf(),
        ensures
            final(self).wf(),
            (final(self)@, r) == pop_spec(old(self)@),
    {
        match self.stack.pop() {
            Some(w) => Ok(w),
            None => Err(StackError { kind: StackErrorKind::Underflow }),
        }
    }

    /// The words from the bottom to the top, for display.
    pub fn dump(&self) -> (r: Vec<Word>)
        ensures
            r@ == self@,
    {
        self.stack.clone()
    }

    pub fn get_size(&self) -> (r: usize)
        ensures
            r == self@.len(),
    {
        self.stack.len()
    }
}

} // verus!
