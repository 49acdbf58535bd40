//! Sixteen-bit machine words, modelled as mathematical integers in the
//! signed range.

use vstd::prelude::*;

verus! {

/// The value of `x` reduced to the signed sixteen-bit range by wrap-around.
pub open spec fn wrap(x: int) -> int {
    (x + 32768) % 65536 - 32768
}

/// Whether `x` is a value that a sixteen-bit word can hold.
pub open spec fn is_word(x: int) -> bool {
    -32768 <= x <= 32767
}

/// The bitwise complement of a word in two's complement.
pub open spec fn bit_not(x: int) -> int {
    -1 - x
}

/// The bitwise and of two words.
pub open spec fn bit_and(x: int, y: int) -> int {
    ((x as i16) & (y as i16)) as int
}

/// The bitwise or of two words.
pub open spec fn bit_or(x: int, y: int) -> int {
    ((x as i16) | (y as i16)) as int
}

/// The word that stands for "true": all bits set.
pub open spec fn truth() -> int {
    -1
}

/// The word that stands for "false": all bits clear.
pub open spec fn falsity() -> int {
    0
}

/// Wrapping gives a word, and leaves a word as it is.
pub proof fn law_wrap(x: int)
    ensures
        is_word(wrap(x)),
        is_word(x) ==> wrap(x) == x,
{
}

/// The complement of a word is a word, and so are the bitwise and and the
/// bitwise or of two words.
pub proof fn law_bitwise_words(x: int, y: int)
    requires
        is_word(x),
    ensures
        is_word(bit_not(x)),
        is_word(bit_and(x, y)),
        is_word(bit_or(x, y)),
{
}

} // verus!
