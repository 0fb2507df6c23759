//! The arithmetic vocabulary of the analysis: decimal digit strings and the
//! integers they denote, decimal rendering, bitwise or/and on unbounded
//! naturals, and the or/and/min/max reductions of a value sequence.

use vstd::prelude::*;

verus! {

/// True when `c` is an ASCII decimal digit.
pub open spec fn is_digit(c: char) -> bool {
    48 <= c as int && c as int <= 57
}

/// True when `s` is a non-empty sequence of ASCII decimal digits.
pub open spec fn is_digit_seq(s: Seq<char>) -> bool {
    s.len() > 0 && forall|i: int| 0 <= i < s.len() ==> is_digit(#[trigger] s[i])
}

/// The integer a sequence of decimal digits denotes, most significant first.
pub open spec fn digits_value(s: Seq<char>) -> int
    decreases s.len(),
{
    if s.len() == 0 {
        0
    } else {
        digits_value(s.drop_last()) * 10 + (s.last() as int - 48)
    }
}

/// A digit sequence denotes a non-negative integer.
pub proof fn lemma_digits_value_nonneg(s: Seq<char>)
    requires
        forall|i: int| 0 <= i < s.len() ==> is_digit(#[trigger] s[i]),
    ensures
        digits_value(s) >= 0,
    decreases s.len(),
{
    if s.len() > 0 {
        assert forall|i: int| 0 <= i < s.drop_last().len() implies is_digit(
            #[trigger] s.drop_last()[i],
        ) by {
            assert(s.drop_last()[i] == s[i]);
        }
        lemma_digits_value_nonneg(s.drop_last());
    }
}

/// The decimal digit character for `d`, meaningful for `0 <= d <= 9`.
pub open spec fn digit_char(d: int) -> char {
    if d == 0 {
        '0'
    } else if d == 1 {
        '1'
    } else if d == 2 {
        '2'
    } else if d == 3 {
        '3'
    } else if d == 4 {
        '4'
    } else if d == 5 {
        '5'
    } else if d == 6 {
        '6'
    } else if d == 7 {
        '7'
    } else if d == 8 {
        '8'
    } else {
        '9'
    }
}

/// The decimal digits of `n`, most significant first, without leading zeros
/// (except that zero itself is the single digit `0`).
pub open spec fn digits_text(n: nat) -> Seq<char>
    decreases n,
{
    if n < 10 {
        seq![digit_char(n as int)]
    } else {
        digits_text(n / 10).push(digit_char((n % 10) as int))
    }
}

/// The decimal rendering of `v`: a `-` sign for negative values, then the
/// digits of the magnitude.
pub open spec fn decimal_text(v: int) -> Seq<char> {
    if v < 0 {
        seq!['-'] + digits_text((-v) as nat)
    } else {
        digits_text(v as nat)
    }
}

/// Bitwise or of two unbounded naturals, on their binary representations.
pub open spec fn nat_or(a: nat, b: nat) -> nat
    decreases a + b,
{
    if a == 0 && b == 0 {
        0
    } else {
        2 * nat_or(a / 2, b / 2) + (if a % 2 == 1 || b % 2 == 1 {
            1nat
        } else {
            0nat
        })
    }
}

/// Bitwise and of two unbounded naturals, on their binary representations.
pub open spec fn nat_and(a: nat, b: nat) -> nat
    decreases a + b,
{
    if a == 0 || b == 0 {
        0
    } else {
        2 * nat_and(a / 2, b / 2) + (if a % 2 == 1 && b % 2 == 1 {
            1nat
        } else {
            0nat
        })
    }
}

/// The bitwise-or reduction of a sequence of non-negative values; zero for
/// the empty sequence.
pub open spec fn or_reduce(s: Seq<int>) -> int
    decreases s.len(),
{
    if s.len() == 0 {
        0
    } else {
        nat_or(or_reduce(s.drop_last()) as nat, s.last() as nat) as int
    }
}

/// The bitwise-and reduction of a sequence of non-negative values,
/// meaningful for a non-empty sequence.
pub open spec fn and_reduce(s: Seq<int>) -> int
    decreases s.len(),
{
    if s.len() == 0 {
        0
    } else if s.len() == 1 {
        s[0]
    } else {
        nat_and(and_reduce(s.drop_last()) as nat, s.last() as nat) as int
    }
}

/// The numeric minimum of a sequence, meaningful for a non-empty sequence.
pub open spec fn min_reduce(s: Seq<int>) -> int
    decreases s.len(),
{
    if s.len() == 0 {
        0
    } else if s.len() == 1 {
        s[0]
    } else if s.last() < min_reduce(s.drop_last()) {
        s.last()
    } else {
        min_reduce(s.drop_last())
    }
}

/// The numeric maximum of a sequence, meaningful for a non-empty sequence.
pub open spec fn max_reduce(s: Seq<int>) -> int
    decreases s.len(),
{
    if s.len() == 0 {
        0
    } else if s.len() == 1 {
        s[0]
    } else if s.last() > max_reduce(s.drop_last()) {
        s.last()
    } else {
        max_reduce(s.drop_last())
    }
}

/// Law: the minimum reduction of a non-empty sequence is one of its
/// elements, and no element lies below it.
pub proof fn lemma_min_reduce_is_minimum(s: Seq<int>)
    requires
        s.len() > 0,
    ensures
        exists|i: int| 0 <= i < s.len() && s[i] == min_reduce(s),
        forall|i: int| 0 <= i < s.len() ==> min_reduce(s) <= #[trigger] s[i],
    decreases s.len(),
{
    if s.len() == 1 {
        assert(s[0] == min_reduce(s));
    } else {
        lemma_min_reduce_is_minimum(s.drop_last());
        assert(forall|i: int| 0 <= i < s.len() - 1 ==> #[trigger] s[i] == s.drop_last()[i]);
        if s.last() < min_reduce(s.drop_last()) {
            assert(s[s.len() - 1] == min_reduce(s));
        } else {
            let j = choose|j: int|
                0 <= j < s.drop_last().len() && s.drop_last()[j] == min_reduce(s.drop_last());
            assert(s[j] == min_reduce(s));
        }
    }
}

/// Law: the maximum reduction of a non-empty sequence is one of its
/// elements, and no element lies above it.
pub proof fn lemma_max_reduce_is_maximum(s: Seq<int>)
    requires
        s.len() > 0,
    ensures
        exists|i: int| 0 <= i < s.len() && s[i] == max_reduce(s),
        forall|i: int| 0 <= i < s.len() ==> #[trigger] s[i] <= max_reduce(s),
    decreases s.len(),
{
    if s.len() == 1 {
        assert(s[0] == max_reduce(s));
    } else {
        lemma_max_reduce_is_maximum(s.drop_last());
        assert(forall|i: int| 0 <= i < s.len() - 1 ==> #[trigger] s[i] == s.drop_last()[i]);
        if s.last() > max_reduce(s.drop_last()) {
            assert(s[s.len() - 1] == max_reduce(s));
        } else {
            let j = choose|j: int|
                0 <= j < s.drop_last().len() && s.drop_last()[j] == max_reduce(s.drop_last());
            assert(s[j] == max_reduce(s));
        }
    }
}

} // verus!
