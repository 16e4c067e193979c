//! The values that messages are made of: where their bytes stand, and which bytes
//! hold no such value.

use vstd::arithmetic::div_mod::lemma_div_denominator;
use vstd::arithmetic::power::{lemma_pow0, lemma_pow1, lemma_pow_adds, lemma_pow_positive, pow};
use vstd::prelude::*;
use vstd::utf8::{decode_utf8_encode_utf8, encode_utf8, valid_utf8};

use crate::laws::numbers::{is_number, law_decimal_is_read_back, number_value};
use crate::text::decimal;
use crate::wire::{
    blob_bytes, blob_fault, bool_bytes, bool_fault, integer_fault, le_bytes, le_range, le_value,
    lemma_le_bytes_len, lemma_le_round_trip, short_fault, take_blob, take_bool, take_le,
    take_octets, take_size, take_text, text_bytes, usize_fault,
};

verus! {

/// The bytes of a number are its digits in base 256, the least significant first.
pub proof fn law_bytes_are_digits(n: nat, width: nat, i: int)
    requires
        0 <= i < width,
    ensures
        le_bytes(n, width).len() == width,
        le_bytes(n, width)[i] as int == (n as int / pow(256, i as nat)) % 256,
    decreases width,
{
    lemma_le_bytes_len(n, width);
    let rest = le_bytes(n / 256, (width - 1) as nat);
    if i == 0 {
        lemma_pow0(256);
    } else {
        law_bytes_are_digits(n / 256, (width - 1) as nat, i - 1);
        lemma_pow_positive(256, (i - 1) as nat);
        lemma_div_denominator(n as int, 256, pow(256, (i - 1) as nat));
        lemma_pow_adds(256, 1, (i - 1) as nat);
        lemma_pow1(256);
        assert(le_bytes(n, width)[i] == rest[i - 1]);
    }
}

/// One more byte counts 256 times as much as the one before it would.
pub proof fn law_last_byte_counts_most(b: Seq<u8>, x: u8)
    ensures
        le_value(Seq::empty()) == 0,
        le_value(b.push(x)) == le_value(b) + x * pow(256, b.len()),
    decreases b.len(),
{
    if b.len() == 0 {
        lemma_pow0(256);
        let one = b.push(x);
        assert(one.drop_first() =~= Seq::empty());
        assert(le_value(one) == one[0] as nat + 256 * le_value(Seq::empty()));
        assert(b =~= Seq::empty());
    } else {
        let t = b.drop_first();
        law_last_byte_counts_most(t, x);
        assert(b.push(x).drop_first() =~= t.push(x));
        lemma_pow_adds(256, 1, t.len());
        lemma_pow1(256);
        let p = pow(256, t.len());
        assert(256 * (x * p) == x * (256 * p)) by (nonlinear_arith);
        assert(1 + t.len() == b.len());
    }
}

/// So many bytes write so many numbers.
pub proof fn law_range_is_a_power(width: nat)
    ensures
        le_range(width) == pow(256, width),
    decreases width,
{
    lemma_pow0(256);
    if width > 0 {
        law_range_is_a_power((width - 1) as nat);
        lemma_pow_adds(256, 1, (width - 1) as nat);
        lemma_pow1(256);
    }
}

/// Bytes are those of the number that they stand for.
pub proof fn law_bytes_of_value(b: Seq<u8>)
    ensures
        le_value(b) < le_range(b.len()),
        le_bytes(le_value(b), b.len()) == b,
    decreases b.len(),
{
    if b.len() == 0 {
        assert(le_bytes(0, 0) =~= b);
    } else {
        let t = b.drop_first();
        law_bytes_of_value(t);
        let n = le_value(b);
        assert(n % 256 == b[0] as nat && n / 256 == le_value(t)) by (nonlinear_arith)
            requires
                n == b[0] as nat + 256 * le_value(t),
                0 <= b[0] < 256,
        ;
        assert(le_bytes(n, b.len()) =~= b);
    }
}

/// A flag is one byte: 1 if it is set, 0 if not.
pub proof fn law_flag_is_a_byte(x: bool)
    ensures
        bool_bytes(x).len() == 1,
        x ==> bool_bytes(x)[0] == 1,
        !x ==> bool_bytes(x)[0] == 0,
{
}

/// A byte string stands whole behind its length.
pub proof fn law_blob_stands_behind_its_length(b: Seq<u8>)
    requires
        b.len() <= u64::MAX,
    ensures
        blob_bytes(b).len() == b.len() + 8,
        le_value(blob_bytes(b).take(8)) == b.len(),
        blob_bytes(b).skip(8) == b,
{
    lemma_le_bytes_len(b.len(), 8);
    reveal_with_fuel(le_range, 9);
    lemma_le_round_trip(b.len(), 8);
    assert(blob_bytes(b).take(8) =~= le_bytes(b.len(), 8));
    assert(blob_bytes(b).skip(8) =~= b);
}

/// Text stands whole, in UTF-8, behind the length of that.
pub proof fn law_text_stands_behind_its_length(s: Seq<char>)
    requires
        encode_utf8(s).len() <= u64::MAX,
    ensures
        text_bytes(s).len() == encode_utf8(s).len() + 8,
        le_value(text_bytes(s).take(8)) == encode_utf8(s).len(),
        text_bytes(s).skip(8) == encode_utf8(s),
{
    law_blob_stands_behind_its_length(encode_utf8(s));
}

/// A number is found at the front of exactly those bytes that are enough for it,
/// and what is found is what was written there.
pub proof fn law_number_found(b: Seq<u8>, width: nat)
    ensures
        match take_le(b, width) {
            Some((n, rest)) => n < pow(256, width) && b == le_bytes(n, width) + rest,
            None => b.len() < width,
        },
{
    if b.len() >= width {
        let front = b.take(width as int);
        law_bytes_of_value(front);
        law_range_is_a_power(width);
        assert(b =~= front + b.skip(width as int));
    }
}

/// The same of a number that has to fit a `usize`.
pub proof fn law_size_found(b: Seq<u8>)
    ensures
        match take_size(b) {
            Some((n, rest)) => n <= usize::MAX && b == le_bytes(n, 8) + rest,
            None => b.len() < 8 || le_value(b.take(8)) > usize::MAX,
        },
{
    law_number_found(b, 8);
}

/// A flag is found where the first byte is 0 or 1.
pub proof fn law_flag_found(b: Seq<u8>)
    ensures
        match take_bool(b) {
            Some((x, rest)) => b == bool_bytes(x) + rest,
            None => b.len() == 0 || b[0] > 1,
        },
{
    if take_bool(b) is Some {
        let (x, rest) = take_bool(b)->Some_0;
        assert(b =~= bool_bytes(x) + rest);
    }
}

/// Octets are found where there are enough.
pub proof fn law_octets_found(b: Seq<u8>, count: nat)
    ensures
        match take_octets(b, count) {
            Some((octets, rest)) => octets.len() == count && b == octets + rest,
            None => b.len() < count,
        },
{
    if b.len() >= count {
        assert(b =~= b.take(count as int) + b.skip(count as int));
    }
}

/// A byte string is found where as many bytes follow as its length says.
pub proof fn law_blob_found(b: Seq<u8>)
    ensures
        match take_blob(b) {
            Some((t, rest)) => t.len() <= u64::MAX && b == blob_bytes(t) + rest,
            None => b.len() < 8 || b.len() - 8 < le_value(b.take(8)),
        },
{
    law_number_found(b, 8);
    if b.len() >= 8 {
        let (n, after) = take_le(b, 8)->Some_0;
        law_octets_found(after, n);
        law_range_is_a_power(8);
        reveal_with_fuel(le_range, 9);
        if take_blob(b) is Some {
            let (t, rest) = take_blob(b)->Some_0;
            assert(b =~= blob_bytes(t) + rest);
        }
    }
}

/// Text is found where a byte string of valid UTF-8 is.
pub proof fn law_text_found(b: Seq<u8>)
    ensures
        match take_text(b) {
            Some((s, rest)) => encode_utf8(s).len() <= u64::MAX && b == text_bytes(s) + rest,
            None => b.len() < 8 || b.len() - 8 < le_value(b.take(8)) || !valid_utf8(
                b.subrange(8, 8int + le_value(b.take(8))),
            ),
        },
{
    law_blob_found(b);
    if take_blob(b) is Some {
        let (t, rest) = take_blob(b)->Some_0;
        law_blob_stands_behind_its_length(t);
        assert(b.take(8) =~= blob_bytes(t).take(8));
        assert(b.subrange(8, 8int + t.len()) =~= blob_bytes(t).skip(8));
        if valid_utf8(t) {
            decode_utf8_encode_utf8(t);
        }
    }
}

/// What is said of an unexpected integer names it, and what was expected.
pub proof fn law_integer_fault_names_it(n: nat, expected: Seq<char>)
    ensures
        ({
            let fault = integer_fault(n, expected);
            let lead = "invalid value: integer `"@;
            let middle = "`, expected "@;
            let digits = fault.subrange(
                lead.len() as int,
                fault.len() - expected.len() - middle.len(),
            );
            &&& fault.len() > lead.len() + middle.len() + expected.len()
            &&& fault.take(lead.len() as int) == lead
            &&& is_number(digits)
            &&& number_value(digits) == n
            &&& fault.subrange(
                fault.len() - expected.len() - middle.len(),
                fault.len() - expected.len(),
            ) == middle
            &&& fault.skip(fault.len() - expected.len()) == expected
        }),
{
    law_decimal_is_read_back(n);
    let fault = integer_fault(n, expected);
    let lead = "invalid value: integer `"@;
    let middle = "`, expected "@;
    let from = fault.len() - expected.len() - middle.len();
    assert(fault.take(lead.len() as int) =~= lead);
    assert(fault.subrange(lead.len() as int, from) =~= decimal(n));
    assert(fault.subrange(from, fault.len() - expected.len()) =~= middle);
    assert(fault.skip(fault.len() - expected.len()) =~= expected);
}

/// Where bytes end too early, that is what is said; otherwise what is wrong is
/// named.
pub proof fn law_faults_say_what_is_wrong(b: Seq<u8>)
    ensures
        b.len() == 0 ==> bool_fault(b) == short_fault(b),
        b.len() > 0 ==> bool_fault(b)
            == "invalid u8 while decoding bool, expected 0 or 1, found "@ + decimal(b[0] as nat),
        b.len() < 8 ==> usize_fault(b) == short_fault(b) && blob_fault(b) == short_fault(b),
        b.len() >= 8 ==> usize_fault(b) == integer_fault(le_value(b.take(8)), "usize"@),
        b.len() >= 8 && le_value(b.take(8)) <= usize::MAX ==> blob_fault(b) == short_fault(b),
{
}

} // verus!
