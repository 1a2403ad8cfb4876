use vstd::prelude::*;

verus! {

/// How many decimal digits `n` has (none for zero).
pub open spec fn decimal_digits(n: nat) -> nat
    decreases n,
{
    if n == 0 {
        0
    } else {
        1 + decimal_digits(n / 10)
    }
}

proof fn lemma_digits_at_most(n: nat)
    ensures
        decimal_digits(n) <= n,
    decreases n,
{
    if n > 0 {
        lemma_digits_at_most(n / 10);
    }
}

/// The width of the index column in a listing of `length` instructions.
pub fn get_space_count(length: &usize) -> (r: usize)
    ensures
        r == decimal_digits(*length as nat),
{
    proof {
        lemma_digits_at_most(*length as nat);
    }
    let mut counter: usize = 0;
    let mut number: usize = *length;
    while number != 0
        invariant
            counter + decimal_digits(number as nat) == decimal_digits(*length as nat),
            decimal_digits(*length as nat) <= *length,
        decreases number,
    {
        counter = counter + 1;
        number = number / 10;
    }
    counter
}

} // verus!
