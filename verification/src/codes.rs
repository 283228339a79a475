//! Integer views of characters, bytes and indices used by the orders.

use vstd::prelude::*;

use crate::board::Cell;
use crate::text::{decimal_chars, lemma_decimal_digits};

verus! {

/// The integer value of an index.
pub open spec fn usize_int(i: usize) -> int {
    i as int
}

/// The value of an index as a natural number.
pub open spec fn usize_nat(i: usize) -> nat {
    i as nat
}

/// The successor of an index as a natural number.
pub open spec fn succ_nat(i: usize) -> nat {
    (i + 1) as nat
}

/// The value of a `u64` as an integer.
pub open spec fn u64_int(x: u64) -> int {
    x as int
}

/// The code point of a character.
pub open spec fn char_int(c: char) -> int {
    c as int
}

/// The code points of a character sequence.
pub open spec fn char_codes(s: Seq<char>) -> Seq<int> {
    s.map_values(|c: char| c as int)
}

/// The values of a `u32` sequence.
pub open spec fn u32_codes(s: Seq<u32>) -> Seq<int> {
    s.map_values(|x: u32| x as int)
}

/// The file-major index of a cell as an integer.
pub open spec fn cell_code(c: Cell) -> int {
    c@ as int
}

/// The decimal rendering of a JSON integer.
pub open spec fn decimal_of(n: u64) -> Seq<char> {
    decimal_chars(n as nat)
}

/// The integer value of a byte.
pub open spec fn byte_code(b: u8) -> int {
    b as int
}

/// The integer value of a sequence length.
pub open spec fn len_code(n: nat) -> int {
    n as int
}

/// The decimal rendering of an unsigned integer is nonempty and its codes are
/// those of ASCII digits.
pub proof fn lemma_decimal_of_digits(n: u64)
    ensures
        decimal_of(n).len() >= 1,
        forall|i: int|
            0 <= i < decimal_of(n).len() ==> 48 <= #[trigger] char_codes(decimal_of(n))[i] <= 57,
{
    lemma_decimal_digits(n as nat);
}

/// A byte as an unsigned integer.
pub open spec fn byte_u64(b: u8) -> u64 {
    b as u64
}

/// The JSON text of a byte.
pub open spec fn digit_text(b: u8) -> Seq<char> {
    decimal_of(byte_u64(b))
}

} // verus!
