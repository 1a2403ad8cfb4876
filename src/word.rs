use vstd::prelude::*;

verus! {

/// One 64-bit machine value. It carries no tag: it is read back with the
/// interpretation that built it, and two words are equal when their bit
/// patterns are.
#[derive(Clone, Copy, Debug, PartialEq, Eq, Structural)]
pub struct Word {
    pub bits: u64,
}

/// The bit pattern of a signed value (two's complement).
pub open spec fn bits_of_i64(v: i64) -> u64 {
    v as u64
}

/// The signed value that a bit pattern stands for.
pub open spec fn i64_of_bits(b: u64) -> i64 {
    b as i64
}

pub proof fn lemma_i64_bits_round_trip(v: i64)
    ensures
        i64_of_bits(bits_of_i64(v)) == v,
{
    assert((v as u64) as i64 == v) by (bit_vector);
}

pub proof fn lemma_bits_i64_round_trip(b: u64)
    ensures
        bits_of_i64(i64_of_bits(b)) == b,
{
    assert((b as i64) as u64 == b) by (bit_vector);
}

impl Word {
    /// The word whose bits are all zero: 0 read as signed or unsigned.
    pub fn zero() -> (w: Word)
        ensures
            w.bits == 0,
            i64_of_bits(w.bits) == 0,
    {
        proof {
            assert((0u64 as i64) == 0) by (bit_vector);
        }
        Word { bits: 0 }
    }

    pub fn new_i64(value: i64) -> (w: Word)
        ensures
            w.bits == bits_of_i64(value),
            i64_of_bits(w.bits) == value,
    {
        proof {
            lemma_i64_bits_round_trip(value);
        }
        Word { bits: value as u64 }
    }

    pub fn new_u64(value: u64) -> (w: Word)
        ensures
            w.bits == value,
    {
        Word { bits: value }
    }

    pub fn get_as_i64(&self) -> (r: i64)
        ensures
            r == i64_of_bits(self.bits),
    {
        self.bits as i64
    }

    pub fn get_as_u64(&self) -> (r: u64)
        ensures
            r == self.bits,
    {
        self.bits
    }
}

} // verus!
