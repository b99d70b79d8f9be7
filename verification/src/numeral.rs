//! What a digit string means, and how a number is written: the mathematical
//! model that the conversion functions are stated against.

use crate::alphabet::{digit_char, digit_value, lemma_digit_char_value};
use vstd::prelude::*;

verus! {

/// A base that the alphabet can write: from 2 to 62.
pub open spec fn valid_base(base: int) -> bool {
    2 <= base <= 62
}

/// `c` is a digit whose value is below `base`.
pub open spec fn is_digit_in(c: char, base: int) -> bool {
    match digit_value(c) {
        Some(d) => d < base,
        None => false,
    }
}

/// Every character of `s` is a digit of `base`.
pub open spec fn all_digits(s: Seq<char>, base: int) -> bool {
    forall|i: int| 0 <= i < s.len() ==> is_digit_in(#[trigger] s[i], base)
}

/// The value of `c` as a digit; 0 for a character outside the alphabet.
pub open spec fn digit_or_zero(c: char) -> int {
    match digit_value(c) {
        Some(d) => d,
        None => 0,
    }
}

/// The number that `s` writes in `base`, most significant digit first.
/// The empty string writes 0.
pub open spec fn value_of(s: Seq<char>, base: int) -> int
    decreases s.len(),
{
    if s.len() == 0 {
        0
    } else {
        value_of(s.drop_last(), base) * base + digit_or_zero(s.last())
    }
}

/// The digits of a positive `n` in `base`, most significant first; empty for 0.
pub open spec fn positive_digits(n: int, base: int) -> Seq<char>
    decreases n,
{
    if n <= 0 || base < 2 {
        Seq::empty()
    } else {
        proof {
            assert(0 <= n / base < n) by (nonlinear_arith)
                requires
                    n > 0,
                    base >= 2,
            ;
        }
        positive_digits(n / base, base).push(digit_char(n % base))
    }
}

/// How `n` is written in `base`: `"0"` for 0 (and for anything below), else its
/// digits without a leading zero.
pub open spec fn numeral(n: int, base: int) -> Seq<char> {
    if n <= 0 {
        seq!['0']
    } else {
        positive_digits(n, base)
    }
}

/// The sum of each digit times its place value, for digits given least significant
/// first: the first digit counts once, the next `base` times, and so on.
pub open spec fn place_value_sum(r: Seq<char>, base: int) -> int
    decreases r.len(),
{
    if r.len() == 0 {
        0
    } else {
        digit_or_zero(r[0]) + base * place_value_sum(r.drop_first(), base)
    }
}

/// `s` is a numeral as `numeral` writes them: not empty, digits of `base` only,
/// and no leading zero unless it is `"0"` itself.
pub open spec fn is_canonical(s: Seq<char>, base: int) -> bool {
    &&& s.len() > 0
    &&& all_digits(s, base)
    &&& (s.len() > 1 ==> s[0] != '0')
}

/// One more digit at the end multiplies the value by the base and adds the digit.
pub proof fn lemma_value_push(s: Seq<char>, c: char, base: int)
    ensures
        value_of(s.push(c), base) == value_of(s, base) * base + digit_or_zero(c),
{
    assert(s.push(c).drop_last() =~= s);
}

/// A value is never negative, and no prefix of a string is worth more than the string.
pub proof fn lemma_value_prefix(s: Seq<char>, k: int, base: int)
    requires
        1 <= base,
        0 <= k <= s.len(),
    ensures
        0 <= value_of(s.take(k), base) <= value_of(s, base),
    decreases s.len(),
{
    if s.len() == 0 {
        assert(s.take(k) =~= s);
    } else if k == s.len() {
        assert(s.take(k) =~= s);
        lemma_value_prefix(s.drop_last(), k - 1, base);
        let v = value_of(s.drop_last(), base);
        assert(0 <= v * base) by (nonlinear_arith)
            requires
                0 <= v,
                1 <= base,
        ;
    } else {
        lemma_value_prefix(s.drop_last(), k, base);
        assert(s.drop_last().take(k) =~= s.take(k));
        let v = value_of(s.drop_last(), base);
        assert(v <= v * base) by (nonlinear_arith)
            requires
                0 <= v,
                1 <= base,
        ;
    }
}

/// A string whose first character is a digit above 0 is worth at least 1.
pub proof fn lemma_value_positive(s: Seq<char>, base: int)
    requires
        1 <= base,
        s.len() > 0,
        digit_or_zero(s[0]) > 0,
    ensures
        value_of(s, base) >= 1,
{
    let first = Seq::<char>::empty().push(s[0]);
    assert(s.take(1) =~= first);
    lemma_value_push(Seq::<char>::empty(), s[0], base);
    lemma_value_prefix(s, 1, base);
}

/// The digits written for a positive number are digits of the base, start with a
/// digit other than `'0'`, and are worth that number.
pub proof fn lemma_positive_digits(n: int, base: int)
    requires
        valid_base(base),
        n > 0,
    ensures
        positive_digits(n, base).len() > 0,
        all_digits(positive_digits(n, base), base),
        positive_digits(n, base)[0] != '0',
        value_of(positive_digits(n, base), base) == n,
    decreases n,
{
    let q = n / base;
    let r = n % base;
    let front = positive_digits(q, base);
    let c = digit_char(r);
    assert(0 <= q < n && 0 <= r < base && q * base + r == n) by (nonlinear_arith)
        requires
            n > 0,
            base >= 2,
            q == n / base,
            r == n % base,
    ;
    lemma_digit_char_value(r, c);
    lemma_digit_char_value(0, '0');
    lemma_value_push(front, c, base);
    if q > 0 {
        lemma_positive_digits(q, base);
    } else {
        assert(value_of(front, base) == 0);
    }
    assert forall|i: int| 0 <= i < front.push(c).len() implies is_digit_in(
        #[trigger] front.push(c)[i],
        base,
    ) by {
        if i < front.len() {
            assert(front.push(c)[i] == front[i]);
        }
    }
}

/// What `numeral` writes is canonical and is worth the number written.
pub proof fn lemma_numeral_value(n: int, base: int)
    requires
        valid_base(base),
        0 <= n,
    ensures
        is_canonical(numeral(n, base), base),
        value_of(numeral(n, base), base) == n,
{
    if n == 0 {
        let zero = seq!['0'];
        lemma_digit_char_value(0, '0');
        assert(zero.drop_last() =~= Seq::<char>::empty());
        assert(value_of(zero.drop_last(), base) == 0);
    } else {
        lemma_positive_digits(n, base);
    }
}

/// A string of digits that does not start with `'0'` is the one that is written
/// for its value.
pub proof fn lemma_positive_digits_unique(s: Seq<char>, base: int)
    requires
        valid_base(base),
        s.len() > 0,
        all_digits(s, base),
        s[0] != '0',
    ensures
        value_of(s, base) > 0,
        positive_digits(value_of(s, base), base) == s,
    decreases s.len(),
{
    let front = s.drop_last();
    let c = s.last();
    let d = digit_or_zero(c);
    let v = value_of(front, base);
    assert(is_digit_in(s[s.len() - 1], base));
    assert(is_digit_in(s[0], base));
    lemma_digit_char_value(d, c);
    lemma_digit_char_value(digit_or_zero(s[0]), s[0]);
    lemma_value_positive(s, base);
    assert(all_digits(front, base)) by {
        assert forall|i: int| 0 <= i < front.len() implies is_digit_in(
            #[trigger] front[i],
            base,
        ) by {
            assert(front[i] == s[i]);
        }
    }
    if front.len() > 0 {
        assert(front[0] == s[0]);
        lemma_positive_digits_unique(front, base);
    } else {
        assert(positive_digits(0, base) =~= front);
    }
    assert((v * base + d) / base == v && (v * base + d) % base == d) by (nonlinear_arith)
        requires
            0 <= d < base,
            0 <= v,
    ;
    assert(front.push(c) =~= s);
}

/// Two canonical numerals of the same value are the same string: a canonical
/// numeral is what `numeral` writes for its value.
pub proof fn lemma_canonical_unique(s: Seq<char>, base: int)
    requires
        valid_base(base),
        is_canonical(s, base),
    ensures
        numeral(value_of(s, base), base) == s,
{
    if s[0] == '0' {
        lemma_digit_char_value(0, '0');
        assert(s.drop_last() =~= Seq::<char>::empty());
        assert(value_of(s.drop_last(), base) == 0);
        assert(s =~= seq!['0']);
    } else {
        lemma_positive_digits_unique(s, base);
    }
}

} // verus!
