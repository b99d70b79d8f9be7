//! What holds between reading, writing and converting, for every input.

use crate::convert::{convert_spec, format_spec, parse_spec};
use crate::error::ConvertError;
use crate::numeral::{
    is_canonical, lemma_canonical_unique, lemma_numeral_value, lemma_value_prefix, numeral,
    place_value_sum, valid_base, value_of,
};
use vstd::prelude::*;

verus! {

/// Reading from the most significant digit down agrees with summing place values
/// from the least significant digit up: the value of `s` is the place-value sum
/// of `s` reversed.
pub proof fn lemma_value_is_place_value_sum(s: Seq<char>, base: int)
    ensures
        value_of(s, base) == place_value_sum(s.reverse(), base),
    decreases s.len(),
{
    if s.len() > 0 {
        lemma_value_is_place_value_sum(s.drop_last(), base);
        assert(s.reverse().drop_first() =~= s.drop_last().reverse());
        assert(s.reverse()[0] == s.last());
        let rest = place_value_sum(s.drop_last().reverse(), base);
        assert(rest * base == base * rest) by (nonlinear_arith);
    }
}

/// Writing a number and reading it back gives the number: for every 64-bit `v`
/// and every base from 2 to 62, `v` written in that base reads as `v`.
pub proof fn lemma_write_then_read(v: u64, base: u64)
    requires
        valid_base(base as int),
    ensures
        format_spec(v, base) == Ok::<Seq<char>, ConvertError>(numeral(v as int, base as int)),
        parse_spec(numeral(v as int, base as int), base) == Ok::<u64, ConvertError>(v),
{
    lemma_numeral_value(v as int, base as int);
}

/// Converting any readable numeral gives its value written in the target base.
pub proof fn lemma_convert_keeps_value(s: Seq<char>, from: u64, to: u64)
    requires
        valid_base(to as int),
        parse_spec(s, from) is Ok,
    ensures
        convert_spec(s, from, to) == Ok::<Seq<char>, ConvertError>(
            numeral(value_of(s, from as int), to as int),
        ),
        parse_spec(numeral(value_of(s, from as int), to as int), to) == parse_spec(s, from),
{
    lemma_value_prefix(s, 0, from as int);
    lemma_numeral_value(value_of(s, from as int), to as int);
}

/// Converting to another base and back gives the numeral without its leading
/// zeros: for every readable numeral `s` of base `b1` and every base `b2`, the
/// way there and back ends at the canonical numeral of the value of `s`.
pub proof fn lemma_there_and_back(s: Seq<char>, b1: u64, b2: u64)
    requires
        valid_base(b2 as int),
        parse_spec(s, b1) is Ok,
    ensures
        convert_spec(s, b1, b2) is Ok,
        convert_spec(convert_spec(s, b1, b2)->Ok_0, b2, b1) == Ok::<Seq<char>, ConvertError>(
            numeral(value_of(s, b1 as int), b1 as int),
        ),
{
    let value = value_of(s, b1 as int);
    lemma_value_prefix(s, 0, b1 as int);
    lemma_numeral_value(value, b2 as int);
    lemma_convert_keeps_value(s, b1, b2);
    lemma_convert_keeps_value(numeral(value, b2 as int), b2, b1);
}

/// A written number survives the way to another base and back unchanged: for
/// every 64-bit `v` and bases `b1`, `b2` from 2 to 62, converting `v` written in
/// `b1` to `b2` and back to `b1` gives the same string.
pub proof fn lemma_round_trip(v: u64, b1: u64, b2: u64)
    requires
        valid_base(b1 as int),
        valid_base(b2 as int),
    ensures
        convert_spec(numeral(v as int, b1 as int), b1, b2) is Ok,
        convert_spec(convert_spec(numeral(v as int, b1 as int), b1, b2)->Ok_0, b2, b1) == Ok::<
            Seq<char>,
            ConvertError,
        >(numeral(v as int, b1 as int)),
{
    lemma_numeral_value(v as int, b1 as int);
    lemma_there_and_back(numeral(v as int, b1 as int), b1, b2);
}

/// Converting a numeral to its own base changes nothing, where the numeral is
/// canonical (not empty, no leading zero unless it is `"0"`) and fits in 64 bits.
pub proof fn lemma_same_base_identity(s: Seq<char>, base: u64)
    requires
        valid_base(base as int),
        is_canonical(s, base as int),
        value_of(s, base as int) <= u64::MAX,
    ensures
        convert_spec(s, base, base) == Ok::<Seq<char>, ConvertError>(s),
{
    lemma_canonical_unique(s, base as int);
    lemma_convert_keeps_value(s, base, base);
}

/// Zero is written `"0"` in every base: converting `"0"` between any two bases
/// from 2 to 62 gives `"0"`.
pub proof fn lemma_zero_stays_zero(from: u64, to: u64)
    requires
        valid_base(from as int),
        valid_base(to as int),
    ensures
        convert_spec(seq!['0'], from, to) == Ok::<Seq<char>, ConvertError>(seq!['0']),
{
    let zero = seq!['0'];
    lemma_numeral_value(0, from as int);
    lemma_convert_keeps_value(zero, from, to);
}

/// The empty string reads as 0 in every base from 2 to 62.
pub proof fn lemma_empty_reads_zero(base: u64)
    requires
        valid_base(base as int),
    ensures
        parse_spec(Seq::<char>::empty(), base) == Ok::<u64, ConvertError>(0),
{
}

} // verus!
