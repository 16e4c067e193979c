//! The byte format of the values that messages are made of.
//!
//! Integers are little-endian and of fixed width; text and byte strings carry
//! their length as a 64-bit integer in front. `bincode` does the encoding: this
//! module states what it writes and what it accepts, and reads a message field
//! by field.

use vstd::prelude::*;
use vstd::utf8::{decode_utf8, decode_utf8_encode_utf8, encode_utf8, encode_utf8_decode_utf8,
    encode_utf8_valid_utf8, valid_utf8};

use crate::text::{decimal, number_text};

verus! {

// ---------------------------------------------------------------------------
// The format
// ---------------------------------------------------------------------------

/// `n` in base 256, least significant digit first, cut or padded to `width` bytes.
pub open spec fn le_bytes(n: nat, width: nat) -> Seq<u8>
    decreases width,
{
    if width == 0 {
        Seq::empty()
    } else {
        seq![(n % 256) as u8] + le_bytes(n / 256, (width - 1) as nat)
    }
}

/// The number whose base 256 digits are `b`, least significant first.
pub open spec fn le_value(b: Seq<u8>) -> nat
    decreases b.len(),
{
    if b.len() == 0 {
        0
    } else {
        b[0] as nat + 256 * le_value(b.drop_first())
    }
}

/// How many numbers `width` base 256 digits can write.
pub open spec fn le_range(width: nat) -> nat
    decreases width,
{
    if width == 0 {
        1
    } else {
        256 * le_range((width - 1) as nat)
    }
}

pub open spec fn bool_bytes(x: bool) -> Seq<u8> {
    if x {
        seq![1u8]
    } else {
        seq![0u8]
    }
}

/// A byte string: its length in eight bytes, then its bytes.
pub open spec fn blob_bytes(b: Seq<u8>) -> Seq<u8> {
    le_bytes(b.len(), 8) + b
}

/// Text: the byte string of its UTF-8 encoding.
pub open spec fn text_bytes(s: Seq<char>) -> Seq<u8> {
    blob_bytes(encode_utf8(s))
}

// The readers below take a value off the front of `b` and give it back with
// what is left, or `None` where `b` does not begin with such a value.

pub open spec fn take_le(b: Seq<u8>, width: nat) -> Option<(nat, Seq<u8>)> {
    if b.len() < width {
        None
    } else {
        Some((le_value(b.take(width as int)), b.skip(width as int)))
    }
}

/// A number that must also fit the machine's `usize`.
pub open spec fn take_size(b: Seq<u8>) -> Option<(nat, Seq<u8>)> {
    match take_le(b, 8) {
        Some((n, rest)) => if n <= usize::MAX {
            Some((n, rest))
        } else {
            None
        },
        None => None,
    }
}

pub open spec fn take_bool(b: Seq<u8>) -> Option<(bool, Seq<u8>)> {
    if b.len() == 0 || b[0] > 1 {
        None
    } else {
        Some((b[0] == 1, b.skip(1)))
    }
}

pub open spec fn take_octets(b: Seq<u8>, count: nat) -> Option<(Seq<u8>, Seq<u8>)> {
    if b.len() < count {
        None
    } else {
        Some((b.take(count as int), b.skip(count as int)))
    }
}

pub open spec fn take_blob(b: Seq<u8>) -> Option<(Seq<u8>, Seq<u8>)> {
    match take_le(b, 8) {
        Some((n, rest)) => take_octets(rest, n),
        None => None,
    }
}

pub open spec fn take_text(b: Seq<u8>) -> Option<(Seq<char>, Seq<u8>)> {
    match take_blob(b) {
        Some((t, rest)) => if valid_utf8(t) {
            Some((decode_utf8(t), rest))
        } else {
            None
        },
        None => None,
    }
}

// ---------------------------------------------------------------------------
// What a reader gives back of what was written
// ---------------------------------------------------------------------------

pub proof fn lemma_le_bytes_len(n: nat, width: nat)
    ensures
        le_bytes(n, width).len() == width,
    decreases width,
{
    if width > 0 {
        lemma_le_bytes_len(n / 256, (width - 1) as nat);
    }
}

/// A number that `width` bytes can hold is read back from its `width` bytes.
pub proof fn lemma_le_round_trip(n: nat, width: nat)
    requires
        n < le_range(width),
    ensures
        le_value(le_bytes(n, width)) == n,
    decreases width,
{
    if width > 0 {
        let b = le_bytes(n, width);
        assert(n / 256 < le_range((width - 1) as nat));
        lemma_le_round_trip(n / 256, (width - 1) as nat);
        assert(b.drop_first() =~= le_bytes(n / 256, (width - 1) as nat));
    }
}

pub proof fn lemma_le_ranges()
    ensures
        le_range(2) == 0x1_0000,
        le_range(4) == 0x1_0000_0000,
        le_range(8) == 0x1_0000_0000_0000_0000,
{
    reveal_with_fuel(le_range, 9);
}

pub proof fn lemma_take_le(n: nat, width: nat, rest: Seq<u8>)
    requires
        n < le_range(width),
    ensures
        take_le(le_bytes(n, width) + rest, width) == Some((n, rest)),
{
    lemma_le_bytes_len(n, width);
    lemma_le_round_trip(n, width);
    let b = le_bytes(n, width) + rest;
    assert(b.take(width as int) =~= le_bytes(n, width));
    assert(b.skip(width as int) =~= rest);
}

pub proof fn lemma_take_size(n: nat, rest: Seq<u8>)
    requires
        n <= usize::MAX,
    ensures
        take_size(le_bytes(n, 8) + rest) == Some((n, rest)),
{
    lemma_le_ranges();
    lemma_take_le(n, 8, rest);
}

pub proof fn lemma_take_bool(x: bool, rest: Seq<u8>)
    ensures
        take_bool(bool_bytes(x) + rest) == Some((x, rest)),
{
    assert((bool_bytes(x) + rest).skip(1) =~= rest);
}

pub proof fn lemma_take_octets(octets: Seq<u8>, rest: Seq<u8>)
    ensures
        take_octets(octets + rest, octets.len()) == Some((octets, rest)),
{
    let n = octets.len() as int;
    assert((octets + rest).take(n) =~= octets);
    assert((octets + rest).skip(n) =~= rest);
}

pub proof fn lemma_take_blob(b: Seq<u8>, rest: Seq<u8>)
    requires
        b.len() <= u64::MAX,
    ensures
        take_blob(blob_bytes(b) + rest) == Some((b, rest)),
{
    lemma_le_ranges();
    assert(blob_bytes(b) + rest =~= le_bytes(b.len(), 8) + (b + rest));
    lemma_take_le(b.len(), 8, b + rest);
    lemma_take_octets(b, rest);
}

pub proof fn lemma_take_text(s: Seq<char>, rest: Seq<u8>)
    requires
        encode_utf8(s).len() <= u64::MAX,
    ensures
        take_text(text_bytes(s) + rest) == Some((s, rest)),
{
    lemma_take_blob(encode_utf8(s), rest);
    encode_utf8_valid_utf8(s);
    encode_utf8_decode_utf8(s);
}

// ---------------------------------------------------------------------------
// bincode
// ---------------------------------------------------------------------------

/// A failure of `bincode`. It is opaque: callers learn only that there was one.
#[verifier::external_type_specification]
#[verifier::external_body]
pub struct ExBincodeErrorKind(bincode::ErrorKind);

/// `bincode::serialize` on a `bool`: one byte, 0 or 1; it does not fail.
#[verifier::external_body]
pub(crate) fn serialize_bool(x: bool) -> (r: Result<Vec<u8>, Box<bincode::ErrorKind>>)
    ensures
        r is Ok,
        r->Ok_0@ == bool_bytes(x),
{
    bincode::serialize(&x)
}

/// `bincode::serialize` on a `u16`: two bytes, little-endian; it does not fail.
#[verifier::external_body]
pub(crate) fn serialize_u16(x: u16) -> (r: Result<Vec<u8>, Box<bincode::ErrorKind>>)
    ensures
        r is Ok,
        r->Ok_0@ == le_bytes(x as nat, 2),
{
    bincode::serialize(&x)
}

/// `bincode::serialize` on a `u32`: four bytes, little-endian; it does not fail.
#[verifier::external_body]
pub(crate) fn serialize_u32(x: u32) -> (r: Result<Vec<u8>, Box<bincode::ErrorKind>>)
    ensures
        r is Ok,
        r->Ok_0@ == le_bytes(x as nat, 4),
{
    bincode::serialize(&x)
}

/// `bincode::serialize` on a `u64`: eight bytes, little-endian; it does not fail.
#[verifier::external_body]
pub(crate) fn serialize_u64(x: u64) -> (r: Result<Vec<u8>, Box<bincode::ErrorKind>>)
    ensures
        r is Ok,
        r->Ok_0@ == le_bytes(x as nat, 8),
{
    bincode::serialize(&x)
}

/// `bincode::serialize` on an array of four bytes: the bytes themselves, with no
/// length in front; it does not fail.
#[verifier::external_body]
pub(crate) fn serialize_4_octets(x: &[u8; 4]) -> (r: Result<Vec<u8>, Box<bincode::ErrorKind>>)
    ensures
        r is Ok,
        r->Ok_0@ == x@,
{
    bincode::serialize(x)
}

/// `bincode::serialize` on an array of sixteen bytes: the bytes themselves, with
/// no length in front; it does not fail.
#[verifier::external_body]
pub(crate) fn serialize_16_octets(x: &[u8; 16]) -> (r: Result<Vec<u8>, Box<bincode::ErrorKind>>)
    ensures
        r is Ok,
        r->Ok_0@ == x@,
{
    bincode::serialize(x)
}

/// `bincode::serialize` on a vector of bytes: its length as a `u64`, then the
/// bytes; it does not fail.
#[verifier::external_body]
pub(crate) fn serialize_blob(x: &Vec<u8>) -> (r: Result<Vec<u8>, Box<bincode::ErrorKind>>)
    ensures
        r is Ok,
        r->Ok_0@ == blob_bytes(x@),
{
    bincode::serialize(x)
}

/// `bincode::serialize` on a string: the length of its UTF-8 encoding as a `u64`,
/// then that encoding; it does not fail.
#[verifier::external_body]
pub(crate) fn serialize_text(x: &String) -> (r: Result<Vec<u8>, Box<bincode::ErrorKind>>)
    ensures
        r is Ok,
        r->Ok_0@ == text_bytes(x@),
{
    bincode::serialize(x)
}

/// What `bincode::deserialize` says where the bytes end before the value does, in
/// the display form of its error. It is the same for all integers, and for what is
/// made of single bytes.
pub uninterp spec fn short_fault(b: Seq<u8>) -> Seq<char>;

/// What `bincode::deserialize` to a string says of bytes that hold none, in the
/// display form of its error.
pub uninterp spec fn text_fault(b: Seq<u8>) -> Seq<char>;

/// What `serde` says of an integer where something else was expected.
pub open spec fn integer_fault(n: nat, expected: Seq<char>) -> Seq<char> {
    "invalid value: integer `"@ + decimal(n) + "`, expected "@ + expected
}

/// What is wrong with bytes that begin with no `bool`.
pub open spec fn bool_fault(b: Seq<u8>) -> Seq<char> {
    if b.len() == 0 {
        short_fault(b)
    } else {
        "invalid u8 while decoding bool, expected 0 or 1, found "@ + decimal(b[0] as nat)
    }
}

/// What is wrong with bytes that begin with no `usize`.
pub open spec fn usize_fault(b: Seq<u8>) -> Seq<char> {
    match take_le(b, 8) {
        None => short_fault(b),
        Some((n, _)) => integer_fault(n, "usize"@),
    }
}

/// What is wrong with bytes that begin with no byte string.
pub open spec fn blob_fault(b: Seq<u8>) -> Seq<char> {
    match take_le(b, 8) {
        None => short_fault(b),
        Some((n, _)) => if n > usize::MAX {
            "Invalid size "@ + decimal(n) + ": sizes must fit in a usize (0 to "@ + decimal(
                usize::MAX as nat,
            ) + ")"@
        } else {
            short_fault(b)
        },
    }
}

/// `bincode::deserialize` to a `bool`: the first byte, which must be 0 or 1; what
/// follows is ignored. Of another byte the error says which it was.
#[verifier::external_body]
fn deserialize_bool(b: &[u8]) -> (r: Result<bool, String>)
    ensures
        r is Ok <==> take_bool(b@) is Some,
        r matches Ok(x) ==> x == take_bool(b@)->Some_0.0,
        r matches Err(text) ==> text@ == bool_fault(b@),
{
    bincode::deserialize(b).map_err(|e| e.to_string())
}

/// `bincode::deserialize` to a `u16`: the first two bytes, little-endian; it
/// fails when there are fewer, and ignores what follows.
#[verifier::external_body]
fn deserialize_u16(b: &[u8]) -> (r: Result<u16, String>)
    ensures
        r is Ok <==> take_le(b@, 2) is Some,
        r matches Ok(x) ==> x as nat == take_le(b@, 2)->Some_0.0,
        r matches Err(text) ==> text@ == short_fault(b@),
{
    bincode::deserialize(b).map_err(|e| e.to_string())
}

/// `bincode::deserialize` to a `u32`: the first four bytes, little-endian; it
/// fails when there are fewer, and ignores what follows.
#[verifier::external_body]
fn deserialize_u32(b: &[u8]) -> (r: Result<u32, String>)
    ensures
        r is Ok <==> take_le(b@, 4) is Some,
        r matches Ok(x) ==> x as nat == take_le(b@, 4)->Some_0.0,
        r matches Err(text) ==> text@ == short_fault(b@),
{
    bincode::deserialize(b).map_err(|e| e.to_string())
}

/// `bincode::deserialize` to a `usize`: the first eight bytes as a little-endian
/// `u64`, which must fit; it fails when there are fewer, and ignores what follows.
/// Of a number that does not fit the error names it.
#[verifier::external_body]
fn deserialize_usize(b: &[u8]) -> (r: Result<usize, String>)
    ensures
        r is Ok <==> take_size(b@) is Some,
        r matches Ok(x) ==> x as nat == take_size(b@)->Some_0.0,
        r matches Err(text) ==> text@ == usize_fault(b@),
{
    bincode::deserialize(b).map_err(|e| e.to_string())
}

/// `bincode::deserialize` to an array of four bytes: the first four bytes; it
/// fails when there are fewer, and ignores what follows.
#[verifier::external_body]
fn deserialize_4_octets(b: &[u8]) -> (r: Result<[u8; 4], String>)
    ensures
        r is Ok <==> take_octets(b@, 4) is Some,
        r matches Ok(x) ==> x@ == take_octets(b@, 4)->Some_0.0,
        r matches Err(text) ==> text@ == short_fault(b@),
{
    bincode::deserialize(b).map_err(|e| e.to_string())
}

/// `bincode::deserialize` to an array of sixteen bytes: the first sixteen bytes;
/// it fails when there are fewer, and ignores what follows.
#[verifier::external_body]
fn deserialize_16_octets(b: &[u8]) -> (r: Result<[u8; 16], String>)
    ensures
        r is Ok <==> take_octets(b@, 16) is Some,
        r matches Ok(x) ==> x@ == take_octets(b@, 16)->Some_0.0,
        r matches Err(text) ==> text@ == short_fault(b@),
{
    bincode::deserialize(b).map_err(|e| e.to_string())
}

/// `bincode::deserialize` to a vector of bytes: a `u64` length and as many bytes;
/// it fails when there are fewer, and ignores what follows. Of a length that does
/// not fit a `usize` the error names it.
#[verifier::external_body]
fn deserialize_blob(b: &[u8]) -> (r: Result<Vec<u8>, String>)
    ensures
        r is Ok <==> take_blob(b@) is Some,
        r matches Ok(x) ==> x@ == take_blob(b@)->Some_0.0,
        r matches Err(text) ==> text@ == blob_fault(b@),
{
    bincode::deserialize(b).map_err(|e| e.to_string())
}

/// `bincode::deserialize` to a string: a `u64` length and as many bytes, which
/// must be UTF-8; it fails when there are fewer, and ignores what follows.
#[verifier::external_body]
fn deserialize_text(b: &[u8]) -> (r: Result<String, String>)
    ensures
        r is Ok <==> take_text(b@) is Some,
        r matches Ok(x) ==> x@ == take_text(b@)->Some_0.0,
        r matches Err(text) ==> text@ == text_fault(b@),
{
    bincode::deserialize(b).map_err(|e| e.to_string())
}

// ---------------------------------------------------------------------------
// Reading field by field
// ---------------------------------------------------------------------------

/// What is left to read of an encoded value.
pub(crate) struct FieldReader<'a> {
    pub rest: &'a [u8],
}

impl<'a> FieldReader<'a> {
    /// Drops the first `count` bytes.
    fn skip(&mut self, count: usize)
        requires
            count <= old(self).rest@.len(),
        ensures
            final(self).rest@ == old(self).rest@.skip(count as int),
    {
        let (_, rest) = self.rest.split_at(count);
        self.rest = rest;
    }

    pub(crate) fn take_bool(&mut self) -> (r: Result<bool, String>)
        ensures
            match take_bool(old(self).rest@) {
                Some((x, rest)) => r == Ok::<bool, String>(x) && final(self).rest@ == rest,
                None => r is Err && r->Err_0@ == bool_fault(old(self).rest@),
            },
    {
        match deserialize_bool(self.rest) {
            Ok(x) => {
                self.skip(1);
                Ok(x)
            },
            Err(text) => Err(text),
        }
    }

    pub(crate) fn take_u16(&mut self) -> (r: Result<u16, String>)
        ensures
            match take_le(old(self).rest@, 2) {
                Some((x, rest)) => r is Ok && r->Ok_0 as nat == x && final(self).rest@ == rest,
                None => r is Err && r->Err_0@ == short_fault(old(self).rest@),
            },
    {
        match deserialize_u16(self.rest) {
            Ok(x) => {
                self.skip(2);
                Ok(x)
            },
            Err(text) => Err(text),
        }
    }

    pub(crate) fn take_u32(&mut self) -> (r: Result<u32, String>)
        ensures
            match take_le(old(self).rest@, 4) {
                Some((x, rest)) => r is Ok && r->Ok_0 as nat == x && final(self).rest@ == rest,
                None => r is Err && r->Err_0@ == short_fault(old(self).rest@),
            },
    {
        match deserialize_u32(self.rest) {
            Ok(x) => {
                self.skip(4);
                Ok(x)
            },
            Err(text) => Err(text),
        }
    }

    pub(crate) fn take_usize(&mut self) -> (r: Result<usize, String>)
        ensures
            match take_size(old(self).rest@) {
                Some((x, rest)) => r is Ok && r->Ok_0 as nat == x && final(self).rest@ == rest,
                None => r is Err && r->Err_0@ == usize_fault(old(self).rest@),
            },
    {
        match deserialize_usize(self.rest) {
            Ok(x) => {
                self.skip(8);
                Ok(x)
            },
            Err(text) => Err(text),
        }
    }

    pub(crate) fn take_4_octets(&mut self) -> (r: Result<[u8; 4], String>)
        ensures
            match take_octets(old(self).rest@, 4) {
                Some((x, rest)) => r is Ok && r->Ok_0@ == x && final(self).rest@ == rest,
                None => r is Err && r->Err_0@ == short_fault(old(self).rest@),
            },
    {
        match deserialize_4_octets(self.rest) {
            Ok(x) => {
                self.skip(4);
                Ok(x)
            },
            Err(text) => Err(text),
        }
    }

    pub(crate) fn take_16_octets(&mut self) -> (r: Result<[u8; 16], String>)
        ensures
            match take_octets(old(self).rest@, 16) {
                Some((x, rest)) => r is Ok && r->Ok_0@ == x && final(self).rest@ == rest,
                None => r is Err && r->Err_0@ == short_fault(old(self).rest@),
            },
    {
        match deserialize_16_octets(self.rest) {
            Ok(x) => {
                self.skip(16);
                Ok(x)
            },
            Err(text) => Err(text),
        }
    }

    pub(crate) fn take_blob(&mut self) -> (r: Result<Vec<u8>, String>)
        ensures
            match take_blob(old(self).rest@) {
                Some((x, rest)) => r is Ok && r->Ok_0@ == x && final(self).rest@ == rest,
                None => r is Err && r->Err_0@ == blob_fault(old(self).rest@),
            },
    {
        match deserialize_blob(self.rest) {
            Ok(x) => {
                self.skip(8);
                self.skip(x.len());
                Ok(x)
            },
            Err(text) => Err(text),
        }
    }

    pub(crate) fn take_text(&mut self) -> (r: Result<String, String>)
        ensures
            match take_text(old(self).rest@) {
                Some((x, rest)) => r is Ok && r->Ok_0@ == x && final(self).rest@ == rest,
                None => r is Err && r->Err_0@ == text_fault(old(self).rest@),
            },
    {
        match deserialize_text(self.rest) {
            Ok(x) => {
                proof {
                    decode_utf8_encode_utf8(take_blob(self.rest@)->Some_0.0);
                }
                self.skip(8);
                self.skip(x.as_str().as_bytes().len());
                Ok(x)
            },
            Err(text) => Err(text),
        }
    }
}

/// The number in the first eight bytes.
pub(crate) fn read_usize(b: &[u8]) -> (r: Result<usize, String>)
    ensures
        match take_size(b@) {
            Some((x, _)) => r is Ok && r->Ok_0 as nat == x,
            None => r is Err && r->Err_0@ == usize_fault(b@),
        },
{
    deserialize_usize(b)
}

/// What is said of an integer where something else was expected.
pub(crate) fn integer_fault_text(n: usize, expected: &str) -> (r: String)
    ensures
        r@ == integer_fault(n as nat, expected@),
{
    let mut text = "invalid value: integer `".to_owned();
    text.append(number_text(n).as_str());
    text.append("`, expected ");
    text.append(expected);
    text
}

} // verus!
