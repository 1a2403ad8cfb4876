use vstd::prelude::*;

use crate::inst::{
    below_operands, div, dup, dup_spec, jmp, minus, mp, operand_a, operand_b, plus, plus_spec,
    push, stack_effect, word_of_i64, Inst, InstError, InstErrorKind, InstType,
};
use crate::stack::Stack;
use crate::word::{lemma_i64_bits_round_trip, Word};

verus! {

/// What executing `inst` at `ip` in a program of `len` instructions does:
/// the stack after it, the next pointer, and the result. On an error the
/// pointer stays on the failing instruction.
pub open spec fn exec_spec(s: Seq<Word>, ip: int, len: int, inst: Inst) -> (
    Seq<Word>,
    int,
    Result<(), InstError>,
) {
    if inst.typ == InstType::JMP {
        if inst.op.bits <= len {
            (s, inst.op.bits as int, Ok(()))
        } else {
            (s, ip, Err(InstError { kind: InstErrorKind::IllegalPointer }))
        }
    } else {
        let (s2, r) = stack_effect(s, inst);
        (s2, if r is Ok { ip + 1 } else { ip }, r)
    }
}

/// How a bounded run ended.
#[derive(Clone, Copy, Debug, PartialEq, Eq, Structural)]
pub enum RunOutcome {
    /// The pointer reached the end of the program.
    Completed,
    /// An instruction failed and the machine halted.
    Halted(InstError),
    /// The step budget ran out first.
    OutOfSteps,
}

/// A run from stack `s` and pointer `ip` over `p`, for at most `fuel`
/// instructions: the final stack, the final pointer and how it ended.
pub open spec fn run_spec(s: Seq<Word>, ip: int, p: Seq<Inst>, fuel: nat) -> (
    Seq<Word>,
    int,
    RunOutcome,
)
    decreases fuel,
{
    if ip == p.len() {
        (s, ip, RunOutcome::Completed)
    } else if fuel == 0 {
        (s, ip, RunOutcome::OutOfSteps)
    } else {
        let (s2, ip2, r) = exec_spec(s, ip, p.len() as int, p[ip]);
        match r {
            Err(e) => (s2, ip2, RunOutcome::Halted(e)),
            Ok(_) => run_spec(s2, ip2, p, (fuel - 1) as nat),
        }
    }
}

/// A jump to the program length is accepted and ends the run normally.
pub proof fn lemma_jump_to_end(s: Seq<Word>, ip: int, p: Seq<Inst>, fuel: nat)
    requires
        0 <= ip < p.len(),
        p[ip].typ == InstType::JMP,
        p[ip].op.bits == p.len(),
        fuel >= 1,
    ensures
        run_spec(s, ip, p, fuel) == (s, p.len() as int, RunOutcome::Completed),
{
    assert(run_spec(s, p.len() as int, p, (fuel - 1) as nat) == (s, p.len() as int, RunOutcome::Completed));
}

/// A jump past the program length fails with `IllegalPointer` and halts the
/// run on that instruction.
pub proof fn lemma_jump_past_end(s: Seq<Word>, ip: int, p: Seq<Inst>, fuel: nat)
    requires
        0 <= ip < p.len(),
        p[ip].typ == InstType::JMP,
        p[ip].op.bits > p.len(),
        fuel >= 1,
    ensures
        run_spec(s, ip, p, fuel) == (
            s,
            ip,
            RunOutcome::Halted(InstError { kind: InstErrorKind::IllegalPointer }),
        ),
{
}

/// Running `a` steps and then `b` more is running `a + b` steps, when the
/// first `a` neither finish nor fail.
pub proof fn lemma_run_compose(s: Seq<Word>, ip: int, p: Seq<Inst>, a: nat, b: nat)
    requires
        run_spec(s, ip, p, a).2 == RunOutcome::OutOfSteps,
    ensures
        run_spec(s, ip, p, a + b) == run_spec(run_spec(s, ip, p, a).0, run_spec(s, ip, p, a).1, p, b),
    decreases a,
{
    if a > 0 && ip != p.len() {
        let (s2, ip2, r) = exec_spec(s, ip, p.len() as int, p[ip]);
        if r is Ok {
            lemma_run_compose(s2, ip2, p, (a - 1) as nat, b);
            assert((a + b - 1) as nat == ((a - 1) as nat + b) as nat);
        }
    }
}

/// The Fibonacci numbers: 0, 1, 1, 2, 3, 5, ...
pub open spec fn fib(n: nat) -> nat
    decreases n,
{
    if n == 0 {
        0
    } else if n == 1 {
        1
    } else {
        fib((n - 1) as nat) + fib((n - 2) as nat)
    }
}

/// A stack holding the first `n` Fibonacci numbers from 1, 1 on.
pub open spec fn fib_words(n: nat) -> Seq<Word> {
    Seq::new(n, |i: int| word_of_i64(fib((i + 1) as nat) as i64))
}

/// `push 1`, `push 1`, `dup 1`, `dup 1`, `plus`, `jmp 2`.
pub open spec fn fibonacci_program() -> Seq<Inst> {
    seq![
        Inst { typ: InstType::PUSH, op: Word { bits: 1 } },
        Inst { typ: InstType::PUSH, op: Word { bits: 1 } },
        Inst { typ: InstType::DUP, op: Word { bits: 1 } },
        Inst { typ: InstType::DUP, op: Word { bits: 1 } },
        Inst { typ: InstType::PLUS, op: Word { bits: 0 } },
        Inst { typ: InstType::JMP, op: Word { bits: 2 } },
    ]
}

proof fn lemma_fib_grows(n: nat, m: nat)
    requires
        n <= m,
    ensures
        fib(n) <= fib(m),
    decreases m - n,
{
    if n < m {
        lemma_fib_grows(n, (m - 1) as nat);
        if m >= 2 {
            assert(fib(m) == fib((m - 1) as nat) + fib((m - 2) as nat));
        }
    }
}

proof fn lemma_fib_fits(n: nat)
    requires
        n <= 89,
    ensures
        fib(n) <= 1779979416004714189,
{
    assert(fib(0) == 0);
    assert(fib(1) == 1);
    assert(fib(2) == 1);
    assert(fib(3) == 2);
    assert(fib(4) == 3);
    assert(fib(5) == 5);
    assert(fib(6) == 8);
    assert(fib(7) == 13);
    assert(fib(8) == 21);
    assert(fib(9) == 34);
    assert(fib(10) == 55);
    assert(fib(11) == 89);
    assert(fib(12) == 144);
    assert(fib(13) == 233);
    assert(fib(14) == 377);
    assert(fib(15) == 610);
    assert(fib(16) == 987);
    assert(fib(17) == 1597);
    assert(fib(18) == 2584);
    assert(fib(19) == 4181);
    assert(fib(20) == 6765);
    assert(fib(21) == 10946);
    assert(fib(22) == 17711);
    assert(fib(23) == 28657);
    assert(fib(24) == 46368);
    assert(fib(25) == 75025);
    assert(fib(26) == 121393);
    assert(fib(27) == 196418);
    assert(fib(28) == 317811);
    assert(fib(29) == 514229);
    assert(fib(30) == 832040);
    assert(fib(31) == 1346269);
    assert(fib(32) == 2178309);
    assert(fib(33) == 3524578);
    assert(fib(34) == 5702887);
    assert(fib(35) == 9227465);
    assert(fib(36) == 14930352);
    assert(fib(37) == 24157817);
    assert(fib(38) == 39088169);
    assert(fib(39) == 63245986);
    assert(fib(40) == 102334155);
    assert(fib(41) == 165580141);
    assert(fib(42) == 267914296);
    assert(fib(43) == 433494437);
    assert(fib(44) == 701408733);
    assert(fib(45) == 1134903170);
    assert(fib(46) == 1836311903);
    assert(fib(47) == 2971215073);
    assert(fib(48) == 4807526976);
    assert(fib(49) == 7778742049);
    assert(fib(50) == 12586269025);
    assert(fib(51) == 20365011074);
    assert(fib(52) == 32951280099);
    assert(fib(53) == 53316291173);
    assert(fib(54) == 86267571272);
    assert(fib(55) == 139583862445);
    assert(fib(56) == 225851433717);
    assert(fib(57) == 365435296162);
    assert(fib(58) == 591286729879);
    assert(fib(59) == 956722026041);
    assert(fib(60) == 1548008755920);
    assert(fib(61) == 2504730781961);
    assert(fib(62) == 4052739537881);
    assert(fib(63) == 6557470319842);
    assert(fib(64) == 10610209857723);
    assert(fib(65) == 17167680177565);
    assert(fib(66) == 27777890035288);
    assert(fib(67) == 44945570212853);
    assert(fib(68) == 72723460248141);
    assert(fib(69) == 117669030460994);
    assert(fib(70) == 190392490709135);
    assert(fib(71) == 308061521170129);
    assert(fib(72) == 498454011879264);
    assert(fib(73) == 806515533049393);
    assert(fib(74) == 1304969544928657);
    assert(fib(75) == 2111485077978050);
    assert(fib(76) == 3416454622906707);
    assert(fib(77) == 5527939700884757);
    assert(fib(78) == 8944394323791464);
    assert(fib(79) == 14472334024676221);
    assert(fib(80) == 23416728348467685);
    assert(fib(81) == 37889062373143906);
    assert(fib(82) == 61305790721611591);
    assert(fib(83) == 99194853094755497);
    assert(fib(84) == 160500643816367088);
    assert(fib(85) == 259695496911122585);
    assert(fib(86) == 420196140727489673);
    assert(fib(87) == 679891637638612258);
    assert(fib(88) == 1100087778366101931);
    assert(fib(89) == 1779979416004714189);
    lemma_fib_grows(n, 89);
}

/// One pass of the loop (`dup 1`, `dup 1`, `plus`, `jmp 2`) adds the next
/// Fibonacci number.
proof fn lemma_fibonacci_pass(k: nat)
    requires
        1 <= k <= 87,
    ensures
        run_spec(fib_words(k + 1), 2, fibonacci_program(), 4) == (
            fib_words(k + 2),
            2int,
            RunOutcome::OutOfSteps,
        ),
{
    let p = fibonacci_program();
    let n = k + 1;
    let s0 = fib_words(k + 1);
    let fk = fib(k);
    let fk1 = fib(k + 1);
    lemma_fib_fits(k);
    lemma_fib_fits(k + 1);
    lemma_fib_fits(k + 2);
    assert(fib(k + 2) == fk + fk1);
    lemma_i64_bits_round_trip(fk as i64);
    lemma_i64_bits_round_trip(fk1 as i64);
    assert(s0[n - 2] == word_of_i64(fk as i64));
    assert(s0[n - 1] == word_of_i64(fk1 as i64));
    let s1 = s0.push(s0[n - 2]);
    let s2 = s1.push(s1[n - 1]);
    assert(dup_spec(s0, Word { bits: 1 }) == (s1, Ok::<(), InstError>(())));
    assert(dup_spec(s1, Word { bits: 1 }) == (s2, Ok::<(), InstError>(())));
    assert(operand_a(s2) == fk1 as i64);
    assert(operand_b(s2) == fk as i64);
    assert(below_operands(s2) =~= s0);
    let s3 = s0.push(word_of_i64((fk1 + fk) as i64));
    assert(plus_spec(s2) == (s3, Ok::<(), InstError>(())));
    assert(s3 =~= fib_words(k + 2));
    assert(run_spec(s3, 2, p, 0) == (s3, 2int, RunOutcome::OutOfSteps));
    assert(run_spec(s3, 5, p, 1) == run_spec(s3, 2, p, 0));
    assert(run_spec(s2, 4, p, 2) == run_spec(s3, 5, p, 1));
    assert(run_spec(s1, 3, p, 3) == run_spec(s2, 4, p, 2));
    assert(run_spec(s0, 2, p, 4) == run_spec(s1, 3, p, 3));
}

/// The program `push 1`, `push 1`, `dup 1`, `dup 1`, `plus`, `jmp 2` builds
/// the Fibonacci numbers on the stack: after its two pushes and `k` passes
/// of its loop (`2 + 4 * k` steps) the stack holds F(1) to F(k + 2) and the
/// pointer is back at the loop's start, for every `k` that the stack's
/// capacity allows.
pub proof fn lemma_fibonacci_program(k: nat)
    requires
        k <= 87,
    ensures
        run_spec(Seq::empty(), 0, fibonacci_program(), 2 + 4 * k) == (
            fib_words(k + 2),
            2int,
            RunOutcome::OutOfSteps,
        ),
    decreases k,
{
    let p = fibonacci_program();
    if k == 0 {
        let w = Word { bits: 1 };
        assert(word_of_i64(1) == w);
        let s1 = Seq::<Word>::empty().push(w);
        let s2 = s1.push(w);
        assert(fib(0) == 0 && fib(1) == 1 && fib(2) == 1);
        assert(fib_words(2) =~= s2);
        assert(run_spec(s2, 2, p, 0) == (s2, 2int, RunOutcome::OutOfSteps));
        assert(run_spec(s1, 1, p, 1) == run_spec(s2, 2, p, 0));
        assert(run_spec(Seq::empty(), 0, p, 2) == run_spec(s1, 1, p, 1));
    } else {
        lemma_fibonacci_program((k - 1) as nat);
        let a = (2 + 4 * (k - 1)) as nat;
        lemma_run_compose(Seq::empty(), 0, p, a, 4);
        lemma_fibonacci_pass(k);
        assert(a + 4 == 2 + 4 * k);
        assert((k - 1 + 2) as nat == k + 1);
    }
}

/// What one call of `step` reports.
#[derive(Clone, Copy, Debug, PartialEq, Eq, Structural)]
pub enum Step {
    /// An instruction ran and the pointer moved.
    Executed,
    /// A DUMP ran: the caller may show the stack.
    Dumped,
    /// The pointer is at the end of the program; nothing ran.
    Finished,
    /// An instruction failed; the machine is halted and the pointer names
    /// the failing instruction.
    Fault(InstError),
}

/// The execution engine: an operand stack, the instruction pointer, the
/// length of the program being run and whether it has halted.
pub struct VM {
    stack: Stack,
    halt: bool,
    current_ip: usize,
    total_ip: usize,
}

impl VM {
    pub closed spec fn stack_view(&self) -> Seq<Word> {
        self.stack@
    }

    pub closed spec fn halted(&self) -> bool {
        self.halt
    }

    pub closed spec fn inst_pointer(&self) -> nat {
        self.current_ip as nat
    }

    pub closed spec fn program_length(&self) -> nat {
        self.total_ip as nat
    }

    pub closed spec fn wf(&self) -> bool {
        self.stack.wf()
    }

    /// A machine in this state can take a step.
    pub open spec fn ready(&self) -> bool {
        &&& self.wf()
        &&& !self.halted()
        &&& self.inst_pointer() <= self.program_length()
    }

    /// A machine as `new` builds it.
    pub open spec fn fresh(&self) -> bool {
        &&& self.wf()
        &&& !self.halted()
        &&& self.inst_pointer() == 0
        &&& self.program_length() == 0
        &&& self.stack_view().len() == 0
    }

    pub fn new() -> (vm: VM)
        ensures
            vm.fresh(),
    {
        VM { stack: Stack::new(), halt: false, current_ip: 0, total_ip: 0 }
    }

    pub fn is_halted(&self) -> (r: bool)
        ensures
            r == self.halted(),
    {
        self.halt
    }

    pub fn get_inst_pointer(&self) -> (r: usize)
        ensures
            r == self.inst_pointer(),
    {
        self.current_ip
    }

    /// Moves the pointer to `ip` if it is within the program (its length
    /// included) and says whether it did.
    pub fn set_inst_pointer(&mut self, ip: usize) -> (r: bool)
        ensures
            r == (ip <= old(self).program_length()),
            final(self).inst_pointer() == if r { ip as nat } else { old(self).inst_pointer() },
            final(self).stack_view() == old(self).stack_view(),
            final(self).halted() == old(self).halted(),
            final(self).program_length() == old(self).program_length(),
            final(self).wf() == old(self).wf(),
    {
        if ip > self.total_ip {
            false
        } else {
            self.current_ip = ip;
            true
        }
    }

    pub fn get_program_length(&self) -> (r: usize)
        ensures
            r == self.program_length(),
    {
        self.total_ip
    }

    pub fn get_stack(&self) -> (r: &Stack)
        ensures
            r@ == self.stack_view(),
            self.wf() ==> r.wf(),
    {
        &self.stack
    }

    /// Makes a fresh machine ready to run a program of `program_length`
    /// instructions from its first one.
    pub fn begin(&mut self, program_length: usize)
        requires
            old(self).fresh(),
        ensures
            final(self).ready(),
            final(self).inst_pointer() == 0,
            final(self).program_length() == program_length,
            final(self).stack_view().len() == 0,
    {
        self.total_ip = program_length;
    }

    /// Runs one instruction: a jump sets the pointer, any other instruction
    /// that succeeds moves it on by one, and an error halts the machine.
    fn exec_inst(&mut self, inst: &Inst) -> (r: Result<(), InstError>)
        requires
            old(self).ready(),
            old(self).inst_pointer() < old(self).program_length(),
        ensures
            final(self).wf(),
            final(self).program_length() == old(self).program_length(),
            (final(self).stack_view(), final(self).inst_pointer() as int, r) == exec_spec(
                old(self).stack_view(),
                old(self).inst_pointer() as int,
                old(self).program_length() as int,
                *inst,
            ),
            final(self).halted() == r is Err,
    {
        let res = match inst.typ {
            InstType::PUSH => push(&mut self.stack, inst.op),
            InstType::PLUS => plus(&mut self.stack),
            InstType::MINUS => minus(&mut self.stack),
            InstType::MP => mp(&mut self.stack),
            InstType::DIV => div(&mut self.stack),
            InstType::DUMP => Ok(()),
            InstType::DUP => dup(&mut self.stack, inst.op),
            InstType::JMP => {
                let res = jmp(self, inst.op);
                if res.is_err() {
                    self.halt = true;
                }
                return res;
            },
        };
        if res.is_err() {
            self.halt = true;
        } else {
            self.current_ip = self.current_ip + 1;
        }
        res
    }

    /// Runs the instruction under the pointer, if any, and reports what
    /// happened. When the run ends, normally or on an error, the program
    /// length goes back to zero.
    pub fn step(&mut self, program: &Vec<Inst>) -> (r: Step)
        requires
            old(self).ready(),
            program@.len() == old(self).program_length(),
        ensures
            final(self).wf(),
            final(self).program_length() == match r {
                Step::Finished | Step::Fault(_) => 0,
                _ => old(self).program_length(),
            },
            old(self).inst_pointer() == program@.len() ==> r == Step::Finished
                && final(self).stack_view() == old(self).stack_view()
                && final(self).inst_pointer() == old(self).inst_pointer()
                && final(self).halted() == old(self).halted(),
            old(self).inst_pointer() < program@.len() ==> {
                let (s, ip, res) = exec_spec(
                    old(self).stack_view(),
                    old(self).inst_pointer() as int,
                    program@.len() as int,
                    program@[old(self).inst_pointer() as int],
                );
                &&& final(self).stack_view() == s
                &&& final(self).inst_pointer() == ip
                &&& final(self).halted() == res is Err
                &&& match res {
                    Err(e) => r == Step::Fault(e),
                    Ok(_) => r == if program@[old(self).inst_pointer() as int].typ
                        == InstType::DUMP {
                        Step::Dumped
                    } else {
                        Step::Executed
                    },
                }
            },
    {
        if self.current_ip == self.total_ip {
            self.total_ip = 0;
            return Step::Finished;
        }
        let inst = program[self.current_ip];
        match self.exec_inst(&inst) {
            Err(e) => {
                self.total_ip = 0;
                Step::Fault(e)
            },
            Ok(()) => {
                if inst.typ == InstType::DUMP {
                    Step::Dumped
                } else {
                    Step::Executed
                }
            },
        }
    }

    /// Runs `program_vec` on a fresh machine for at most `max_steps`
    /// instructions. When the run ends, normally or on an error, the
    /// program length goes back to zero.
    pub fn execute_program(&mut self, program_vec: Vec<Inst>, max_steps: usize) -> (r: RunOutcome)
        requires
            old(self).fresh(),
        ensures
            final(self).wf(),
            ({
                let (s, ip, out) = run_spec(Seq::empty(), 0, program_vec@, max_steps as nat);
                &&& r == out
                &&& final(self).stack_view() == s
                &&& final(self).inst_pointer() == ip
                &&& final(self).halted() == r is Halted
                &&& final(self).program_length() == if r is OutOfSteps {
                    program_vec@.len()
                } else {
                    0
                }
            }),
    {
        self.total_ip = program_vec.len();
        let mut fuel: usize = max_steps;
        let ghost start = run_spec(Seq::empty(), 0, program_vec@, max_steps as nat);
        assert(self.stack_view() =~= Seq::<Word>::empty());
        loop
            invariant
                start == run_spec(Seq::empty(), 0, program_vec@, max_steps as nat),
                self.ready(),
                self.program_length() == program_vec@.len(),
                run_spec(self.stack_view(), self.inst_pointer() as int, program_vec@, fuel as nat)
                    == start,
            decreases fuel,
        {
            if self.current_ip == self.total_ip {
                assert(self.stack_view() == start.0);
                self.total_ip = 0;
                return RunOutcome::Completed;
            }
            if fuel == 0 {
                return RunOutcome::OutOfSteps;
            }
            let ghost before_stack = self.stack_view();
            let ghost before_ip = self.inst_pointer() as int;
            assert(run_spec(before_stack, before_ip, program_vec@, fuel as nat) == start);
            match self.exec_inst(&program_vec[self.current_ip]) {
                Err(e) => {
                    self.total_ip = 0;
                    assert(self.stack_view() == start.0);
                    return RunOutcome::Halted(e);
                },
                Ok(()) => {
                    fuel = fuel - 1;
                },
            }
        }
    }
}

impl Default for VM {
    fn default() -> (vm: VM)
        ensures
            vm.fresh(),
    {
        VM::new()
    }
}

} // verus!
