use vstd::prelude::*;
use vstd::std_specs::iter::IteratorSpec;

use crate::inst::{requires_operand, Inst, InstType};
use crate::word::{bits_of_i64, Word};

verus! {

broadcast use {vstd::string::axiom_spec_iter, vstd::string::next_postcondition};

/// Why a line of assembly text is not an instruction.
#[derive(Clone, Copy, Debug, PartialEq, Eq, Structural)]
pub enum ParseError {
    /// The line holds nothing but white space.
    EmptyLine,
    /// The first word names no opcode.
    UnknownMnemonic,
    /// The opcode needs an operand and the line has none.
    MissingOperand,
    /// The operand is not a 64-bit integer.
    BadOperand,
    /// The operand has a decimal point: it is a floating-point number, which
    /// the caller reads itself. The opcode is given.
    FloatOperand(InstType),
}

/// The word that names each opcode in assembly text, as listings show it.
pub open spec fn mnemonic_text(t: InstType) -> Seq<char> {
    match t {
        InstType::PUSH => "push"@,
        InstType::PLUS => "plus"@,
        InstType::MINUS => "minus"@,
        InstType::MP => "mp"@,
        InstType::DIV => "div"@,
        InstType::DUMP => "dump"@,
        InstType::JMP => "jmp"@,
        InstType::DUP => "dup"@,
    }
}

/// The opcode that a word of assembly text names, if any. The assembler
/// reads four words: `push`, `plus`, `dup` and `jmp`.
pub open spec fn type_of_mnemonic(s: Seq<char>) -> Option<InstType> {
    if s == "push"@ {
        Some(InstType::PUSH)
    } else if s == "plus"@ {
        Some(InstType::PLUS)
    } else if s == "dup"@ {
        Some(InstType::DUP)
    } else if s == "jmp"@ {
        Some(InstType::JMP)
    } else {
        None
    }
}

/// Whether two byte strings are the same.
pub(crate) fn bytes_equal(a: &[u8], b: &[u8]) -> (r: bool)
    ensures
        r == (a@ == b@),
{
    if a.len() != b.len() {
        return false;
    }
    let mut i: usize = 0;
    while i < a.len()
        invariant
            a@.len() == b@.len(),
            0 <= i <= a@.len(),
            forall|k: int| 0 <= k < i ==> a@[k] == b@[k],
        decreases a@.len() - i,
    {
        if a[i] != b[i] {
            return false;
        }
        i = i + 1;
    }
    assert(a@ =~= b@);
    true
}

fn chars_equal(a: &[char], b: &[char]) -> (r: bool)
    ensures
        r == (a@ == b@),
{
    if a.len() != b.len() {
        return false;
    }
    let mut i: usize = 0;
    while i < a.len()
        invariant
            a@.len() == b@.len(),
            0 <= i <= a@.len(),
            forall|k: int| 0 <= k < i ==> a@[k] == b@[k],
        decreases a@.len() - i,
    {
        if a[i] != b[i] {
            return false;
        }
        i = i + 1;
    }
    assert(a@ =~= b@);
    true
}

/// The characters of `s`, in order.
fn chars_of(s: &str) -> (r: Vec<char>)
    ensures
        r@ == s@,
{
    let mut it = s.chars();
    let mut out: Vec<char> = Vec::new();
    loop
        invariant
            out@ + IteratorSpec::remaining(&it) == s@,
            IteratorSpec::decrease(&it) is Some,
        ensures
            out@ == s@,
        decreases IteratorSpec::decrease(&it)->0,
    {
        match it.next() {
            Some(c) => {
                out.push(c);
            },
            None => {
                assert(out@ =~= s@);
                break;
            },
        }
    }
    out
}

fn mnemonic_from_chars(c: &[char]) -> (r: Option<InstType>)
    ensures
        r == type_of_mnemonic(c@),
{
    if chars_equal(c, chars_of("push").as_slice()) {
        Some(InstType::PUSH)
    } else if chars_equal(c, chars_of("plus").as_slice()) {
        Some(InstType::PLUS)
    } else if chars_equal(c, chars_of("dup").as_slice()) {
        Some(InstType::DUP)
    } else if chars_equal(c, chars_of("jmp").as_slice()) {
        Some(InstType::JMP)
    } else {
        None
    }
}

/// Whether `s` is one of the assembler's four words.
pub fn is_mnemonic(s: &str) -> (r: bool)
    ensures
        r == type_of_mnemonic(s@) is Some,
{
    mnemonic_from_chars(chars_of(s).as_slice()).is_some()
}

/// The opcode that an assembler word names. Callers test the word with
/// `is_mnemonic` first: any other word is a fatal input error.
pub fn get_inst_type_from_str(typ_str: &str) -> (r: InstType)
    requires
        type_of_mnemonic(typ_str@) is Some,
    ensures
        type_of_mnemonic(typ_str@) == Some(r),
{
    match mnemonic_from_chars(chars_of(typ_str).as_slice()) {
        Some(t) => t,
        None => InstType::PUSH,
    }
}

impl InstType {
    /// The word that names this opcode in listings.
    pub fn mnemonic(&self) -> (r: &'static str)
        ensures
            r@ == mnemonic_text(*self),
    {
        match self {
            InstType::PUSH => "push",
            InstType::PLUS => "plus",
            InstType::MINUS => "minus",
            InstType::MP => "mp",
            InstType::DIV => "div",
            InstType::DUMP => "dump",
            InstType::JMP => "jmp",
            InstType::DUP => "dup",
        }
    }
}

/// The listing word of each opcode that the assembler reads names that
/// opcode again.
pub proof fn lemma_mnemonic_round_trip(t: InstType)
    requires
        t == InstType::PUSH || t == InstType::PLUS || t == InstType::DUP || t == InstType::JMP,
    ensures
        type_of_mnemonic(mnemonic_text(t)) == Some(t),
{
    reveal_strlit("push");
    reveal_strlit("plus");
    reveal_strlit("dup");
    reveal_strlit("jmp");
    let m = mnemonic_text(t);
    assert("push"@.len() == 4 && "plus"@.len() == 4 && "dup"@.len() == 3 && "jmp"@.len() == 3);
    if t == InstType::PLUS {
        assert(m[1] != "push"@[1]);
    } else if t == InstType::JMP {
        assert(m[0] != "dup"@[0]);
    }
}

/// White space as Unicode's White_Space property has it.
pub open spec fn is_space(c: char) -> bool {
    ('\t' <= c && c <= '\r') || c == ' ' || c == '\u{85}' || c == '\u{a0}' || c == '\u{1680}'
        || ('\u{2000}' <= c && c <= '\u{200a}') || c == '\u{2028}' || c == '\u{2029}' || c
        == '\u{202f}' || c == '\u{205f}' || c == '\u{3000}'
}

/// The first index from `i` on that holds no white space (or the end).
pub open spec fn skip_spaces(b: Seq<char>, i: int) -> int
    decreases b.len() - i,
{
    if i >= b.len() {
        b.len() as int
    } else if is_space(b[i]) {
        skip_spaces(b, i + 1)
    } else {
        i
    }
}

/// The first index from `i` on that holds white space (or the end).
pub open spec fn word_end(b: Seq<char>, i: int) -> int
    decreases b.len() - i,
{
    if i >= b.len() {
        b.len() as int
    } else if !is_space(b[i]) {
        word_end(b, i + 1)
    } else {
        i
    }
}

/// Going back from `j` to no further than `lo`: the end of the last
/// character that is not white space (`lo` if there is none).
pub open spec fn trim_back(b: Seq<char>, lo: int, j: int) -> int
    decreases j - lo,
{
    if j <= lo {
        lo
    } else if is_space(b[j - 1]) {
        trim_back(b, lo, j - 1)
    } else {
        j
    }
}

/// Going back from `j` to no further than `lo`: the start of the word that
/// ends at `j`.
pub open spec fn word_start_back(b: Seq<char>, lo: int, j: int) -> int
    decreases j - lo,
{
    if j <= lo {
        lo
    } else if !is_space(b[j - 1]) {
        word_start_back(b, lo, j - 1)
    } else {
        j
    }
}

pub open spec fn is_digit(c: char) -> bool {
    '0' <= c && c <= '9'
}

pub open spec fn all_digits(s: Seq<char>) -> bool {
    forall|k: int| 0 <= k < s.len() ==> is_digit(#[trigger] s[k])
}

/// The number that a string of decimal digits spells.
pub open spec fn decimal_value(s: Seq<char>) -> nat
    decreases s.len(),
{
    if s.len() == 0 {
        0
    } else {
        decimal_value(s.drop_last()) * 10 + (s.last() as int - 48) as nat
    }
}

/// The natural number that `s` spells, if it is a non-empty run of digits
/// whose value is at most `limit`.
pub open spec fn bounded_decimal(s: Seq<char>, limit: nat) -> Option<nat> {
    if s.len() > 0 && all_digits(s) && decimal_value(s) <= limit {
        Some(decimal_value(s))
    } else {
        None
    }
}

/// The bit pattern of an integer operand: a signed 64-bit integer, or failing
/// that an unsigned one, in decimal with an optional sign.
pub open spec fn operand_bits(t: Seq<char>) -> Option<u64> {
    if t.len() > 0 && t[0] == '-' {
        match bounded_decimal(t.drop_first(), 0x8000_0000_0000_0000) {
            Some(v) => Some(bits_of_i64((-v) as i64)),
            None => None,
        }
    } else {
        let digits = if t.len() > 0 && t[0] == '+' {
            t.drop_first()
        } else {
            t
        };
        match bounded_decimal(digits, 0xffff_ffff_ffff_ffff) {
            Some(v) => Some(v as u64),
            None => None,
        }
    }
}

/// What a line of assembly text reads as. The first word is the mnemonic;
/// an opcode that takes an operand reads it from the last word of the line.
pub open spec fn parse_line_spec(b: Seq<char>) -> Result<Inst, ParseError> {
    let s = skip_spaces(b, 0);
    let e = word_end(b, s);
    if s == b.len() {
        Err(ParseError::EmptyLine)
    } else {
        match type_of_mnemonic(b.subrange(s, e)) {
            None => Err(ParseError::UnknownMnemonic),
            Some(typ) => if !requires_operand(typ) {
                Ok(Inst { typ, op: Word { bits: 0 } })
            } else {
                let oe = trim_back(b, e, b.len() as int);
                let os = word_start_back(b, e, oe);
                let tok = b.subrange(os, oe);
                if oe == e {
                    Err(ParseError::MissingOperand)
                } else if tok.contains('.') {
                    Err(ParseError::FloatOperand(typ))
                } else {
                    match operand_bits(tok) {
                        Some(bits) => Ok(Inst { typ, op: Word { bits } }),
                        None => Err(ParseError::BadOperand),
                    }
                }
            },
        }
    }
}

proof fn lemma_skip_spaces_bounds(b: Seq<char>, i: int)
    requires
        0 <= i <= b.len(),
    ensures
        i <= skip_spaces(b, i) <= b.len(),
    decreases b.len() - i,
{
    if i < b.len() && is_space(b[i]) {
        lemma_skip_spaces_bounds(b, i + 1);
    }
}

proof fn lemma_word_end_bounds(b: Seq<char>, i: int)
    requires
        0 <= i <= b.len(),
    ensures
        i <= word_end(b, i) <= b.len(),
    decreases b.len() - i,
{
    if i < b.len() && !is_space(b[i]) {
        lemma_word_end_bounds(b, i + 1);
    }
}

proof fn lemma_trim_back_bounds(b: Seq<char>, lo: int, j: int)
    requires
        0 <= lo <= j <= b.len(),
    ensures
        lo <= trim_back(b, lo, j) <= j,
    decreases j - lo,
{
    if j > lo && is_space(b[j - 1]) {
        lemma_trim_back_bounds(b, lo, j - 1);
    }
}

proof fn lemma_word_start_back_bounds(b: Seq<char>, lo: int, j: int)
    requires
        0 <= lo <= j <= b.len(),
    ensures
        lo <= word_start_back(b, lo, j) <= j,
    decreases j - lo,
{
    if j > lo && !is_space(b[j - 1]) {
        lemma_word_start_back_bounds(b, lo, j - 1);
    }
}

fn char_is_space(c: char) -> (r: bool)
    ensures
        r == is_space(c),
{
    ('\t' <= c && c <= '\r') || c == ' ' || c == '\u{85}' || c == '\u{a0}' || c == '\u{1680}'
        || ('\u{2000}' <= c && c <= '\u{200a}') || c == '\u{2028}' || c == '\u{2029}' || c
        == '\u{202f}' || c == '\u{205f}' || c == '\u{3000}'
}

/// A digit string's value is at least that of each of its prefixes.
proof fn lemma_decimal_prefix(s: Seq<char>, i: int)
    requires
        0 <= i <= s.len(),
    ensures
        decimal_value(s.subrange(0, i)) <= decimal_value(s),
    decreases s.len() - i,
{
    if i < s.len() {
        lemma_decimal_prefix(s.drop_last(), i);
        assert(s.drop_last().subrange(0, i) =~= s.subrange(0, i));
    } else {
        assert(s.subrange(0, i) =~= s);
    }
}

/// Reads `b[lo..hi]` as a decimal number no larger than `limit`.
fn parse_decimal(b: &[char], lo: usize, hi: usize, limit: u64) -> (r: Option<u64>)
    requires
        lo <= hi <= b@.len(),
        limit >= 9,
    ensures
        match bounded_decimal(b@.subrange(lo as int, hi as int), limit as nat) {
            Some(v) => r == Some(v as u64),
            None => r is None,
        },
{
    let ghost s = b@.subrange(lo as int, hi as int);
    if lo == hi {
        return None;
    }
    let mut i: usize = lo;
    while i < hi
        invariant
            lo <= i <= hi <= b@.len(),
            s == b@.subrange(lo as int, hi as int),
            forall|k: int| lo <= k < i ==> is_digit(#[trigger] b@[k]),
        decreases hi - i,
    {
        if !('0' <= b[i] && b[i] <= '9') {
            assert(s[i - lo] == b@[i as int]);
            return None;
        }
        i = i + 1;
    }
    assert(all_digits(s)) by {
        assert forall|k: int| 0 <= k < s.len() implies is_digit(#[trigger] s[k]) by {
            assert(s[k] == b@[lo + k]);
        }
    }
    let mut acc: u64 = 0;
    i = lo;
    while i < hi
        invariant
            lo <= i <= hi <= b@.len(),
            s == b@.subrange(lo as int, hi as int),
            all_digits(s),
            acc as nat == decimal_value(s.subrange(0, i - lo)),
            acc <= limit,
            limit >= 9,
        decreases hi - i,
    {
        assert(s[i - lo] == b@[i as int] && is_digit(s[i - lo]));
        let d = (b[i] as u32 - 48) as u64;
        let ghost pre = s.subrange(0, i - lo);
        let ghost next = s.subrange(0, i + 1 - lo);
        assert(s[i - lo] == b@[i as int]);
        assert(next.drop_last() =~= pre);
        assert(decimal_value(next) == acc * 10 + d);
        if acc > (limit - d) / 10 {
            assert(acc * 10 + d > limit) by (nonlinear_arith)
                requires
                    acc > (limit - d) / 10,
                    d <= 9,
                    limit >= 9,
            ;
            proof {
                lemma_decimal_prefix(s, i + 1 - lo);
            }
            return None;
        }
        assert(acc * 10 + d <= limit) by (nonlinear_arith)
            requires
                acc <= (limit - d) / 10,
                d <= 9,
                d <= limit,
        ;
        acc = acc * 10 + d;
        i = i + 1;
    }
    assert(s.subrange(0, i - lo) =~= s);
    Some(acc)
}

fn find_skip_spaces(b: &[char], i: usize) -> (r: usize)
    requires
        i <= b@.len(),
    ensures
        r == skip_spaces(b@, i as int),
{
    let mut k = i;
    while k < b.len() && char_is_space(b[k])
        invariant
            i <= k <= b@.len(),
            skip_spaces(b@, k as int) == skip_spaces(b@, i as int),
        decreases b@.len() - k,
    {
        k = k + 1;
    }
    k
}

fn find_word_end(b: &[char], i: usize) -> (r: usize)
    requires
        i <= b@.len(),
    ensures
        r == word_end(b@, i as int),
{
    let mut k = i;
    while k < b.len() && !char_is_space(b[k])
        invariant
            i <= k <= b@.len(),
            word_end(b@, k as int) == word_end(b@, i as int),
        decreases b@.len() - k,
    {
        k = k + 1;
    }
    k
}

fn find_trim_back(b: &[char], lo: usize, j: usize) -> (r: usize)
    requires
        lo <= j <= b@.len(),
    ensures
        r == trim_back(b@, lo as int, j as int),
{
    let mut k = j;
    while k > lo && char_is_space(b[k - 1])
        invariant
            lo <= k <= j <= b@.len(),
            trim_back(b@, lo as int, k as int) == trim_back(b@, lo as int, j as int),
        decreases k - lo,
    {
        k = k - 1;
    }
    k
}

fn find_word_start_back(b: &[char], lo: usize, j: usize) -> (r: usize)
    requires
        lo <= j <= b@.len(),
    ensures
        r == word_start_back(b@, lo as int, j as int),
{
    let mut k = j;
    while k > lo && !char_is_space(b[k - 1])
        invariant
            lo <= k <= j <= b@.len(),
            word_start_back(b@, lo as int, k as int) == word_start_back(b@, lo as int, j as int),
        decreases k - lo,
    {
        k = k - 1;
    }
    k
}

fn has_dot(b: &[char], lo: usize, hi: usize) -> (r: bool)
    requires
        lo <= hi <= b@.len(),
    ensures
        r == b@.subrange(lo as int, hi as int).contains('.'),
{
    let ghost t = b@.subrange(lo as int, hi as int);
    let mut k = lo;
    while k < hi
        invariant
            lo <= k <= hi <= b@.len(),
            t == b@.subrange(lo as int, hi as int),
            forall|m: int| lo <= m < k ==> b@[m] != '.',
        decreases hi - k,
    {
        if b[k] == '.' {
            assert(t[k - lo] == '.');
            return true;
        }
        k = k + 1;
    }
    assert forall|m: int| 0 <= m < t.len() implies t[m] != '.' by {
        assert(t[m] == b@[lo + m]);
    }
    false
}

/// The bit pattern of the integer operand in `b[lo..hi]`.
fn parse_operand(b: &[char], lo: usize, hi: usize) -> (r: Option<u64>)
    requires
        lo <= hi <= b@.len(),
    ensures
        r == operand_bits(b@.subrange(lo as int, hi as int)),
{
    let ghost t = b@.subrange(lo as int, hi as int);
    if lo < hi && b[lo] == '-' {
        assert(t.drop_first() =~= b@.subrange(lo + 1, hi as int));
        match parse_decimal(b, lo + 1, hi, 0x8000_0000_0000_0000) {
            Some(v) => {
                let x: i64 = if v == 0x8000_0000_0000_0000 {
                    i64::MIN
                } else {
                    -(v as i64)
                };
                assert(x == -(v as int));
                Some(x as u64)
            },
            None => None,
        }
    } else {
        let start = if lo < hi && b[lo] == '+' {
            lo + 1
        } else {
            lo
        };
        assert(lo < hi && b@[lo as int] == '+' ==> t.drop_first() =~= b@.subrange(
            start as int,
            hi as int,
        ));
        assert(!(lo < hi && b@[lo as int] == '+') ==> t =~= b@.subrange(start as int, hi as int));
        parse_decimal(b, start, hi, 0xffff_ffff_ffff_ffff)
    }
}

fn parse_chars(b: &[char]) -> (r: Result<Inst, ParseError>)
    ensures
        r == parse_line_spec(b@),
{
    let n = b.len();
    let s = find_skip_spaces(b, 0);
    proof {
        lemma_skip_spaces_bounds(b@, 0);
        lemma_word_end_bounds(b@, s as int);
    }
    let e = find_word_end(b, s);
    if s == n {
        return Err(ParseError::EmptyLine);
    }
    let typ = match mnemonic_from_chars(&b[s..e]) {
        None => {
            return Err(ParseError::UnknownMnemonic);
        },
        Some(t) => t,
    };
    if !typ.is_required_op() {
        return Ok(Inst { typ, op: Word::zero() });
    }
    proof {
        lemma_trim_back_bounds(b@, e as int, n as int);
    }
    let oe = find_trim_back(b, e, n);
    proof {
        lemma_word_start_back_bounds(b@, e as int, oe as int);
    }
    let os = find_word_start_back(b, e, oe);
    if oe == e {
        return Err(ParseError::MissingOperand);
    }
    if has_dot(b, os, oe) {
        return Err(ParseError::FloatOperand(typ));
    }
    match parse_operand(b, os, oe) {
        Some(bits) => Ok(Inst { typ, op: Word::new_u64(bits) }),
        None => Err(ParseError::BadOperand),
    }
}

/// Whether a result of `parse_line_spec` is an input error: anything but an
/// instruction or a floating-point operand, which the caller reads.
pub open spec fn is_input_error(r: Result<Inst, ParseError>) -> bool {
    match r {
        Ok(_) => false,
        Err(ParseError::FloatOperand(_)) => false,
        Err(_) => true,
    }
}

/// Tests a line of assembly text before it is read: `Err` with the input
/// error that makes it unreadable, else `Ok`.
pub fn check_line(line: &str) -> (r: Result<(), ParseError>)
    ensures
        is_input_error(parse_line_spec(line@)) ==> r == Err::<(), ParseError>(
            parse_line_spec(line@)->Err_0,
        ),
        !is_input_error(parse_line_spec(line@)) ==> r is Ok,
{
    match parse_chars(chars_of(line).as_slice()) {
        Ok(_) => Ok(()),
        Err(ParseError::FloatOperand(_)) => Ok(()),
        Err(e) => Err(e),
    }
}

/// Reads one line of assembly text: a mnemonic, then for PUSH, JMP and DUP
/// an integer operand, taken from the last word of the line. Callers test
/// the line with `check_line` first: a line that fails it is a fatal input
/// error. The one `Err` left is `FloatOperand`.
pub fn get_inst_from_line(line: &str) -> (r: Result<Inst, ParseError>)
    requires
        !is_input_error(parse_line_spec(line@)),
    ensures
        r == parse_line_spec(line@),
{
    parse_chars(chars_of(line).as_slice())
}

} // verus!
