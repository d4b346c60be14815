//! Numbers as decimal text.

use vstd::prelude::*;

verus! {

/// The character code of the decimal digit `d`.
pub open spec fn digit(d: nat) -> u8 {
    (0x30 + d) as u8
}

/// The decimal digits of `n`, most significant first, without leading zeros.
pub open spec fn decimal(n: nat) -> Seq<u8>
    decreases n,
{
    if n < 10 {
        seq![digit(n)]
    } else {
        decimal(n / 10).push(digit(n % 10))
    }
}

/// The number that a sequence of decimal digits denotes.
pub open spec fn denoted(digits: Seq<u8>) -> int
    decreases digits.len(),
{
    if digits.len() == 0 {
        0
    } else {
        denoted(digits.drop_last()) * 10 + (digits.last() - 0x30)
    }
}

/// The decimal digits of `n` are digits, at least one of them, they denote
/// `n`, and the first of them is a zero only if `n` is zero.
pub proof fn lemma_decimal(n: nat)
    ensures
        decimal(n).len() >= 1,
        forall|i: int| 0 <= i < decimal(n).len() ==> 0x30 <= #[trigger] decimal(n)[i] <= 0x39,
        denoted(decimal(n)) == n,
        n > 0 ==> decimal(n)[0] != 0x30,
    decreases n,
{
    if n < 10 {
        assert(denoted(decimal(n).drop_last()) == 0);
    } else {
        lemma_decimal(n / 10);
        assert(decimal(n).drop_last() =~= decimal(n / 10));
    }
}

} // verus!
