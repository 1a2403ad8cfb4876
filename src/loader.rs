use vstd::prelude::*;

use crate::inst::{Inst, InstType};
use crate::word::Word;

verus! {

/// The first byte of every program file.
pub const FORMAT_VERSION: u8 = 1;

/// Bytes per instruction: one opcode tag, then the operand's eight bytes,
/// least significant first.
pub const RECORD_SIZE: usize = 9;

/// Why a byte string is not a program.
#[derive(Clone, Copy, Debug, PartialEq, Eq, Structural)]
pub enum DecodeError {
    /// There is not even a version byte.
    MissingVersion,
    /// The version byte is not `FORMAT_VERSION`.
    UnsupportedVersion,
    /// The bytes after the version do not split into whole records.
    TruncatedRecord,
    /// A record's tag names no opcode.
    UnknownOpcode,
}

pub open spec fn tag_of(t: InstType) -> u8 {
    match t {
        InstType::PUSH => 0,
        InstType::PLUS => 1,
        InstType::MINUS => 2,
        InstType::MP => 3,
        InstType::DIV => 4,
        InstType::DUMP => 5,
        InstType::JMP => 6,
        InstType::DUP => 7,
    }
}

pub open spec fn tag_valid(b: u8) -> bool {
    b < 8
}

/// The opcode that a valid tag names.
pub open spec fn type_of_tag(b: u8) -> InstType {
    if b == 0 {
        InstType::PUSH
    } else if b == 1 {
        InstType::PLUS
    } else if b == 2 {
        InstType::MINUS
    } else if b == 3 {
        InstType::MP
    } else if b == 4 {
        InstType::DIV
    } else if b == 5 {
        InstType::DUMP
    } else if b == 6 {
        InstType::JMP
    } else {
        InstType::DUP
    }
}

/// Byte `k` of the record of `inst`.
pub open spec fn record_byte(inst: Inst, k: int) -> u8 {
    let x = inst.op.bits;
    if k == 0 {
        tag_of(inst.typ)
    } else if k == 1 {
        (x & 0xff) as u8
    } else if k == 2 {
        ((x >> 8u64) & 0xff) as u8
    } else if k == 3 {
        ((x >> 16u64) & 0xff) as u8
    } else if k == 4 {
        ((x >> 24u64) & 0xff) as u8
    } else if k == 5 {
        ((x >> 32u64) & 0xff) as u8
    } else if k == 6 {
        ((x >> 40u64) & 0xff) as u8
    } else if k == 7 {
        ((x >> 48u64) & 0xff) as u8
    } else {
        ((x >> 56u64) & 0xff) as u8
    }
}

/// The file for program `p`: the version byte, then the records in order.
pub open spec fn encode_spec(p: Seq<Inst>) -> Seq<u8> {
    seq![FORMAT_VERSION] + Seq::new(
        (RECORD_SIZE * p.len()) as nat,
        |i: int| record_byte(p[i / 9], i % 9),
    )
}

/// The eight bytes from `start` on, read least significant first.
pub open spec fn le_u64(b: Seq<u8>, start: int) -> u64 {
    (b[start] as u64) | ((b[start + 1] as u64) << 8u64) | ((b[start + 2] as u64) << 16u64) | ((
    b[start + 3] as u64) << 24u64) | ((b[start + 4] as u64) << 32u64) | ((b[start + 5] as u64)
        << 40u64) | ((b[start + 6] as u64) << 48u64) | ((b[start + 7] as u64) << 56u64)
}

/// Number of whole records after the version byte.
pub open spec fn record_count(b: Seq<u8>) -> int {
    (b.len() - 1) / 9
}

/// The instruction in record `k` of a file.
pub open spec fn record_at(b: Seq<u8>, k: int) -> Inst {
    Inst { typ: type_of_tag(b[1 + 9 * k]), op: Word { bits: le_u64(b, 2 + 9 * k) } }
}

/// What a byte string decodes to.
pub open spec fn decode_spec(b: Seq<u8>) -> Result<Seq<Inst>, DecodeError> {
    if b.len() == 0 {
        Err(DecodeError::MissingVersion)
    } else if b[0] != FORMAT_VERSION {
        Err(DecodeError::UnsupportedVersion)
    } else if (b.len() - 1) % 9 != 0 {
        Err(DecodeError::TruncatedRecord)
    } else if exists|k: int| 0 <= k < record_count(b) && !tag_valid(#[trigger] b[1 + 9 * k]) {
        Err(DecodeError::UnknownOpcode)
    } else {
        Ok(Seq::new(record_count(b) as nat, |k: int| record_at(b, k)))
    }
}

proof fn lemma_record_index(k: int, j: int)
    requires
        0 <= k,
        0 <= j < 9,
    ensures
        (9 * k + j) / 9 == k,
        (9 * k + j) % 9 == j,
{
    assert((9 * k + j) / 9 == k && (9 * k + j) % 9 == j) by (nonlinear_arith)
        requires
            0 <= k,
            0 <= j < 9,
    ;
}

proof fn lemma_le_u64_round_trip(x: u64)
    ensures
        ((x & 0xff) as u8 as u64) | ((((x >> 8u64) & 0xff) as u8 as u64) << 8u64) | ((((x
            >> 16u64) & 0xff) as u8 as u64) << 16u64) | ((((x >> 24u64) & 0xff) as u8 as u64)
            << 24u64) | ((((x >> 32u64) & 0xff) as u8 as u64) << 32u64) | ((((x >> 40u64)
            & 0xff) as u8 as u64) << 40u64) | ((((x >> 48u64) & 0xff) as u8 as u64) << 48u64)
            | ((((x >> 56u64) & 0xff) as u8 as u64) << 56u64) == x,
{
    assert(((x & 0xff) as u8 as u64) | ((((x >> 8u64) & 0xff) as u8 as u64) << 8u64) | ((((x
        >> 16u64) & 0xff) as u8 as u64) << 16u64) | ((((x >> 24u64) & 0xff) as u8 as u64)
        << 24u64) | ((((x >> 32u64) & 0xff) as u8 as u64) << 32u64) | ((((x >> 40u64) & 0xff)
        as u8 as u64) << 40u64) | ((((x >> 48u64) & 0xff) as u8 as u64) << 48u64) | ((((x
        >> 56u64) & 0xff) as u8 as u64) << 56u64) == x) by (bit_vector);
}

/// Decoding the encoding of any program gives back that program, each
/// opcode and each operand bit pattern unchanged.
pub proof fn lemma_encode_decode(p: Seq<Inst>)
    ensures
        decode_spec(encode_spec(p)) == Ok::<Seq<Inst>, DecodeError>(p),
{
    let b = encode_spec(p);
    let n = p.len() as int;
    assert(b.len() == 1 + 9 * n);
    assert((b.len() - 1) % 9 == 0 && record_count(b) == n) by {
        lemma_record_index(n, 0);
    }
    assert forall|k: int, j: int| 0 <= k < n && 0 <= j < 9 implies b[1 + 9 * k + j] == record_byte(
        p[k],
        j,
    ) by {
        lemma_record_index(k, j);
    }
    assert forall|k: int| 0 <= k < n implies tag_valid(#[trigger] b[1 + 9 * k]) by {
        assert(b[1 + 9 * k + 0] == record_byte(p[k], 0));
    }
    assert forall|k: int| 0 <= k < n implies record_at(b, k) == p[k] by {
        assert(b[1 + 9 * k + 0] == record_byte(p[k], 0));
        assert(b[1 + 9 * k + 1] == record_byte(p[k], 1));
        assert(b[1 + 9 * k + 2] == record_byte(p[k], 2));
        assert(b[1 + 9 * k + 3] == record_byte(p[k], 3));
        assert(b[1 + 9 * k + 4] == record_byte(p[k], 4));
        assert(b[1 + 9 * k + 5] == record_byte(p[k], 5));
        assert(b[1 + 9 * k + 6] == record_byte(p[k], 6));
        assert(b[1 + 9 * k + 7] == record_byte(p[k], 7));
        assert(b[1 + 9 * k + 8] == record_byte(p[k], 8));
        lemma_le_u64_round_trip(p[k].op.bits);
    }
    assert(Seq::new(record_count(b) as nat, |k: int| record_at(b, k)) =~= p);
}

fn tag_byte(t: InstType) -> (r: u8)
    ensures
        r == tag_of(t),
{
    match t {
        InstType::PUSH => 0,
        InstType::PLUS => 1,
        InstType::MINUS => 2,
        InstType::MP => 3,
        InstType::DIV => 4,
        InstType::DUMP => 5,
        InstType::JMP => 6,
        InstType::DUP => 7,
    }
}

fn type_from_tag(b: u8) -> (r: InstType)
    requires
        tag_valid(b),
    ensures
        r == type_of_tag(b),
{
    match b {
        0 => InstType::PUSH,
        1 => InstType::PLUS,
        2 => InstType::MINUS,
        3 => InstType::MP,
        4 => InstType::DIV,
        5 => InstType::DUMP,
        6 => InstType::JMP,
        _ => InstType::DUP,
    }
}

/// The bytes of a program file holding `program_vec`.
pub fn dump_program(program_vec: &Vec<Inst>) -> (r: Vec<u8>)
    ensures
        r@ == encode_spec(program_vec@),
{
    let mut out: Vec<u8> = Vec::new();
    out.push(FORMAT_VERSION);
    let mut i: usize = 0;
    while i < program_vec.len()
        invariant
            0 <= i <= program_vec@.len(),
            out@.len() == 1 + 9 * i,
            out@[0] == FORMAT_VERSION,
            forall|j: int|
                0 <= j < 9 * i ==> #[trigger] out@[1 + j] == record_byte(
                    program_vec@[j / 9],
                    j % 9,
                ),
        decreases program_vec@.len() - i,
    {
        let inst = program_vec[i];
        let x = inst.op.bits;
        out.push(tag_byte(inst.typ));
        out.push((x & 0xff) as u8);
        out.push(((x >> 8) & 0xff) as u8);
        out.push(((x >> 16) & 0xff) as u8);
        out.push(((x >> 24) & 0xff) as u8);
        out.push(((x >> 32) & 0xff) as u8);
        out.push(((x >> 40) & 0xff) as u8);
        out.push(((x >> 48) & 0xff) as u8);
        out.push(((x >> 56) & 0xff) as u8);
        proof {
            assert forall|j: int| 9 * i <= j < 9 * (i + 1) implies #[trigger] out@[1 + j]
                == record_byte(program_vec@[j / 9], j % 9) by {
                lemma_record_index(i as int, j - 9 * i);
            }
        }
        i = i + 1;
    }
    assert forall|j: int| 1 <= j < out@.len() implies out@[j] == encode_spec(program_vec@)[j] by {
        assert(out@[1 + (j - 1)] == record_byte(program_vec@[(j - 1) / 9], (j - 1) % 9));
    }
    assert(out@ =~= encode_spec(program_vec@));
    out
}

/// The program that the bytes of a program file hold, or why they hold none.
pub fn load_program(bytes: &[u8]) -> (r: Result<Vec<Inst>, DecodeError>)
    ensures
        match decode_spec(bytes@) {
            Ok(p) => r is Ok && r->Ok_0@ == p,
            Err(e) => r == Err::<Vec<Inst>, DecodeError>(e),
        },
{
    let len = bytes.len();
    if len == 0 {
        return Err(DecodeError::MissingVersion);
    }
    if bytes[0] != FORMAT_VERSION {
        return Err(DecodeError::UnsupportedVersion);
    }
    if (len - 1) % RECORD_SIZE != 0 {
        return Err(DecodeError::TruncatedRecord);
    }
    let n = (len - 1) / RECORD_SIZE;
    let ghost b = bytes@;
    assert(len == 1 + 9 * n);
    let mut out: Vec<Inst> = Vec::new();
    let mut k: usize = 0;
    let mut pos: usize = 1;
    while k < n
        invariant
            b == bytes@,
            len == b.len(),
            len == 1 + 9 * n,
            b[0] == FORMAT_VERSION,
            (b.len() - 1) % 9 == 0,
            n == record_count(b),
            0 <= k <= n,
            pos == 1 + 9 * k,
            forall|k2: int| 0 <= k2 < k ==> tag_valid(#[trigger] b[1 + 9 * k2]),
            out@ =~= Seq::new(k as nat, |k2: int| record_at(b, k2)),
        decreases n - k,
    {
        let tag = bytes[pos];
        if tag >= 8 {
            assert(!tag_valid(b[1 + 9 * (k as int)]));
            return Err(DecodeError::UnknownOpcode);
        }
        let bits = (bytes[pos + 1] as u64) | ((bytes[pos + 2] as u64) << 8) | ((bytes[pos
            + 3] as u64) << 16) | ((bytes[pos + 4] as u64) << 24) | ((bytes[pos + 5] as u64)
            << 32) | ((bytes[pos + 6] as u64) << 40) | ((bytes[pos + 7] as u64) << 48) | ((
        bytes[pos + 8] as u64) << 56);
        let inst = Inst { typ: type_from_tag(tag), op: Word::new_u64(bits) };
        assert(inst == record_at(b, k as int));
        out.push(inst);
        k = k + 1;
        pos = pos + RECORD_SIZE;
    }
    Ok(out)
}

} // verus!
