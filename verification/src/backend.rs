//! The fixed binary encoding of leaf values, which `bincode` provides.
//!
//! Every function here hands one value to `bincode`, or takes one from it.
//! What is stated of the bytes is `bincode`'s format for its plain functions:
//! integers of fixed width with the lowest byte first, `usize` and `isize`
//! and every length in eight bytes, a truth value in one byte, a character
//! and a text in UTF-8. None of it is proved here.

use vstd::prelude::*;
use vstd::string::*;
use vstd::utf8::*;
use crate::model::{le_bytes, le_value, signed_of, unsigned_of};

verus! {

/// `bincode::ErrorKind`: why `bincode` could not write or read a value.
/// Nothing is known of its values; they are only turned into text.
#[verifier::external_type_specification]
#[verifier::external_body]
pub struct ExErrorKind(bincode::ErrorKind);

/// `format!("{:?}", ..)` on an error of `bincode`: the error as text.
/// Nothing is claimed of the text.
#[verifier::external_body]
pub(crate) fn error_text(err: &bincode::ErrorKind) -> (text: String) {
    format!("{:?}", err)
}

/// The number in the first `width` bytes, where there are that many.
pub open spec fn fixed_value(bytes: Seq<u8>, width: nat) -> Option<nat> {
    if bytes.len() >= width {
        Some(le_value(bytes.take(width as int)))
    } else {
        None
    }
}

/// The bytes of a text: its length in bytes, in eight bytes, and its UTF-8 encoding.
pub open spec fn text_bytes(text: Seq<char>) -> Seq<u8> {
    le_bytes(encode_utf8(text).len(), 8) + encode_utf8(text)
}

/// The text at the front of `bytes` and the number of bytes that it takes.
pub open spec fn text_value(bytes: Seq<u8>) -> Option<(Seq<char>, nat)> {
    if bytes.len() >= 8 && le_value(bytes.take(8)) <= bytes.len() - 8 && valid_utf8(
        bytes.subrange(8, 8 + le_value(bytes.take(8)) as int),
    ) {
        Some(
            (
                decode_utf8(bytes.subrange(8, 8 + le_value(bytes.take(8)) as int)),
                8 + le_value(bytes.take(8)),
            ),
        )
    } else {
        None
    }
}

/// `bincode::serialize_into` on a `u8`: appends the byte itself.
#[verifier::external_body]
pub(crate) fn write_u8(out: &mut Vec<u8>, value: u8) -> (r: Result<(), Box<bincode::ErrorKind>>)
    ensures
        r is Ok,
        final(out)@ == old(out)@ + le_bytes(value as nat, 1),
{
    bincode::serialize_into(out, &value)
}

/// `bincode::serialize_into` on a `u16`: appends its two bytes, the lowest first.
#[verifier::external_body]
pub(crate) fn write_u16(out: &mut Vec<u8>, value: u16) -> (r: Result<(), Box<bincode::ErrorKind>>)
    ensures
        r is Ok,
        final(out)@ == old(out)@ + le_bytes(value as nat, 2),
{
    bincode::serialize_into(out, &value)
}

/// `bincode::serialize_into` on a `u32`: appends its four bytes, the lowest first.
#[verifier::external_body]
pub(crate) fn write_u32(out: &mut Vec<u8>, value: u32) -> (r: Result<(), Box<bincode::ErrorKind>>)
    ensures
        r is Ok,
        final(out)@ == old(out)@ + le_bytes(value as nat, 4),
{
    bincode::serialize_into(out, &value)
}

/// `bincode::serialize_into` on a `u64`: appends its eight bytes, the lowest first.
#[verifier::external_body]
pub(crate) fn write_u64(out: &mut Vec<u8>, value: u64) -> (r: Result<(), Box<bincode::ErrorKind>>)
    ensures
        r is Ok,
        final(out)@ == old(out)@ + le_bytes(value as nat, 8),
{
    bincode::serialize_into(out, &value)
}

/// `bincode::deserialize` to a `u8`: the first byte, or an error where there is none.
#[verifier::external_body]
pub(crate) fn read_u8(input: &[u8]) -> (r: Result<u8, Box<bincode::ErrorKind>>)
    ensures
        r is Ok <==> fixed_value(input@, 1) is Some,
        r is Ok ==> fixed_value(input@, 1) == Some(r.unwrap() as nat),
{
    bincode::deserialize(input)
}

/// `bincode::deserialize` to a `u16`: the number in the first two bytes, the
/// lowest first, or an error where there are fewer.
#[verifier::external_body]
pub(crate) fn read_u16(input: &[u8]) -> (r: Result<u16, Box<bincode::ErrorKind>>)
    ensures
        r is Ok <==> fixed_value(input@, 2) is Some,
        r is Ok ==> fixed_value(input@, 2) == Some(r.unwrap() as nat),
{
    bincode::deserialize(input)
}

/// `bincode::deserialize` to a `u32`: the number in the first four bytes, the
/// lowest first, or an error where there are fewer.
#[verifier::external_body]
pub(crate) fn read_u32(input: &[u8]) -> (r: Result<u32, Box<bincode::ErrorKind>>)
    ensures
        r is Ok <==> fixed_value(input@, 4) is Some,
        r is Ok ==> fixed_value(input@, 4) == Some(r.unwrap() as nat),
{
    bincode::deserialize(input)
}

/// `bincode::deserialize` to a `u64`: the number in the first eight bytes,
/// the lowest first, or an error where there are fewer.
#[verifier::external_body]
pub(crate) fn read_u64(input: &[u8]) -> (r: Result<u64, Box<bincode::ErrorKind>>)
    ensures
        r is Ok <==> fixed_value(input@, 8) is Some,
        r is Ok ==> fixed_value(input@, 8) == Some(r.unwrap() as nat),
{
    bincode::deserialize(input)
}

/// The signed number in the first `width` bytes, where there are that many.
pub open spec fn fixed_signed(bytes: Seq<u8>, width: nat) -> Option<int> {
    match fixed_value(bytes, width) {
        Some(value) => Some(signed_of(value, width)),
        None => None,
    }
}

/// `bincode::serialize_into` on an `i8`: appends its byte.
#[verifier::external_body]
pub(crate) fn write_i8(out: &mut Vec<u8>, value: i8) -> (r: Result<(), Box<bincode::ErrorKind>>)
    ensures
        r is Ok,
        final(out)@ == old(out)@ + le_bytes(unsigned_of(value as int, 1), 1),
{
    bincode::serialize_into(out, &value)
}

/// `bincode::deserialize` to an `i8`: the number in the first one byte, in
/// two's complement, or an error where there are fewer.
#[verifier::external_body]
pub(crate) fn read_i8(input: &[u8]) -> (r: Result<i8, Box<bincode::ErrorKind>>)
    ensures
        r is Ok <==> fixed_signed(input@, 1) is Some,
        r is Ok ==> fixed_signed(input@, 1) == Some(r.unwrap() as int),
{
    bincode::deserialize(input)
}

/// `bincode::serialize_into` on an `i16`: appends its two bytes in two's complement, the lowest first.
#[verifier::external_body]
pub(crate) fn write_i16(out: &mut Vec<u8>, value: i16) -> (r: Result<(), Box<bincode::ErrorKind>>)
    ensures
        r is Ok,
        final(out)@ == old(out)@ + le_bytes(unsigned_of(value as int, 2), 2),
{
    bincode::serialize_into(out, &value)
}

/// `bincode::deserialize` to an `i16`: the number in the first two bytes, in
/// two's complement, or an error where there are fewer.
#[verifier::external_body]
pub(crate) fn read_i16(input: &[u8]) -> (r: Result<i16, Box<bincode::ErrorKind>>)
    ensures
        r is Ok <==> fixed_signed(input@, 2) is Some,
        r is Ok ==> fixed_signed(input@, 2) == Some(r.unwrap() as int),
{
    bincode::deserialize(input)
}

/// `bincode::serialize_into` on an `i32`: appends its four bytes in two's complement, the lowest first.
#[verifier::external_body]
pub(crate) fn write_i32(out: &mut Vec<u8>, value: i32) -> (r: Result<(), Box<bincode::ErrorKind>>)
    ensures
        r is Ok,
        final(out)@ == old(out)@ + le_bytes(unsigned_of(value as int, 4), 4),
{
    bincode::serialize_into(out, &value)
}

/// `bincode::deserialize` to an `i32`: the number in the first four bytes, in
/// two's complement, or an error where there are fewer.
#[verifier::external_body]
pub(crate) fn read_i32(input: &[u8]) -> (r: Result<i32, Box<bincode::ErrorKind>>)
    ensures
        r is Ok <==> fixed_signed(input@, 4) is Some,
        r is Ok ==> fixed_signed(input@, 4) == Some(r.unwrap() as int),
{
    bincode::deserialize(input)
}

/// `bincode::serialize_into` on an `i64`: appends its eight bytes in two's complement, the lowest first.
#[verifier::external_body]
pub(crate) fn write_i64(out: &mut Vec<u8>, value: i64) -> (r: Result<(), Box<bincode::ErrorKind>>)
    ensures
        r is Ok,
        final(out)@ == old(out)@ + le_bytes(unsigned_of(value as int, 8), 8),
{
    bincode::serialize_into(out, &value)
}

/// `bincode::deserialize` to an `i64`: the number in the first eight bytes, in
/// two's complement, or an error where there are fewer.
#[verifier::external_body]
pub(crate) fn read_i64(input: &[u8]) -> (r: Result<i64, Box<bincode::ErrorKind>>)
    ensures
        r is Ok <==> fixed_signed(input@, 8) is Some,
        r is Ok ==> fixed_signed(input@, 8) == Some(r.unwrap() as int),
{
    bincode::deserialize(input)
}

/// `bincode::serialize_into` on a `usize`: appends it as a number of eight
/// bytes, the lowest first.
#[verifier::external_body]
pub(crate) fn write_usize(out: &mut Vec<u8>, value: usize) -> (r: Result<(), Box<bincode::ErrorKind>>)
    ensures
        r is Ok,
        final(out)@ == old(out)@ + le_bytes(value as nat, 8),
{
    bincode::serialize_into(out, &value)
}

/// `bincode::deserialize` to a `usize`: the number in the first eight bytes,
/// the lowest first, or an error where there are fewer or the number is too
/// large for a `usize`.
#[verifier::external_body]
pub(crate) fn read_usize(input: &[u8]) -> (r: Result<usize, Box<bincode::ErrorKind>>)
    ensures
        r is Ok <==> (fixed_value(input@, 8) matches Some(value) && value <= usize::MAX),
        r is Ok ==> fixed_value(input@, 8) == Some(r.unwrap() as nat),
{
    bincode::deserialize(input)
}

/// `bincode::serialize_into` on an `isize`: appends it as a number of eight
/// bytes in two's complement, the lowest first.
#[verifier::external_body]
pub(crate) fn write_isize(out: &mut Vec<u8>, value: isize) -> (r: Result<(), Box<bincode::ErrorKind>>)
    ensures
        r is Ok,
        final(out)@ == old(out)@ + le_bytes(unsigned_of(value as int, 8), 8),
{
    bincode::serialize_into(out, &value)
}

/// `bincode::deserialize` to an `isize`: the number in the first eight bytes,
/// in two's complement, or an error where there are fewer or the number is
/// out of the range of an `isize`.
#[verifier::external_body]
pub(crate) fn read_isize(input: &[u8]) -> (r: Result<isize, Box<bincode::ErrorKind>>)
    ensures
        r is Ok <==> (fixed_signed(input@, 8) matches Some(value) && isize::MIN <= value
            <= isize::MAX),
        r is Ok ==> fixed_signed(input@, 8) == Some(r.unwrap() as int),
{
    bincode::deserialize(input)
}

/// The byte of a truth value: 1 for `true`, 0 for `false`.
pub open spec fn bool_byte(value: bool) -> u8 {
    if value {
        1
    } else {
        0
    }
}

/// `bincode::serialize_into` on a `bool`: appends one byte, 1 for `true` and
/// 0 for `false`.
#[verifier::external_body]
pub(crate) fn write_bool(out: &mut Vec<u8>, value: bool) -> (r: Result<(), Box<bincode::ErrorKind>>)
    ensures
        r is Ok,
        final(out)@ == old(out)@ + seq![bool_byte(value)],
{
    bincode::serialize_into(out, &value)
}

/// `bincode::deserialize` to a `bool`: `false` for a first byte of 0, `true`
/// for 1, and an error for any other byte or none.
#[verifier::external_body]
pub(crate) fn read_bool(input: &[u8]) -> (r: Result<bool, Box<bincode::ErrorKind>>)
    ensures
        r is Ok <==> (input@.len() >= 1 && input@[0] <= 1),
        r is Ok ==> r.unwrap() == (input@[0] == 1),
{
    bincode::deserialize(input)
}

/// `bincode::serialize_into` on a `char`: appends the UTF-8 encoding of the character.
#[verifier::external_body]
pub(crate) fn write_char(out: &mut Vec<u8>, value: char) -> (r: Result<(), Box<bincode::ErrorKind>>)
    ensures
        r is Ok,
        final(out)@ == old(out)@ + encode_utf8(seq![value]),
{
    bincode::serialize_into(out, &value)
}

/// `bincode::deserialize` to a `char`: the character whose UTF-8 encoding
/// stands at the front, or an error where none does.
#[verifier::external_body]
pub(crate) fn read_char(input: &[u8]) -> (r: Result<char, Box<bincode::ErrorKind>>)
    ensures
        r is Ok <==> valid_first_scalar(input@),
        r is Ok ==> r.unwrap() == decode_first_scalar(input@) as char,
{
    bincode::deserialize(input)
}

/// `bincode::serialize_into` on a `str`: appends the length of the text in
/// bytes, as a number of eight bytes, and the UTF-8 encoding of the text.
#[verifier::external_body]
pub(crate) fn write_str(out: &mut Vec<u8>, value: &str) -> (r: Result<(), Box<bincode::ErrorKind>>)
    ensures
        r is Ok,
        final(out)@ == old(out)@ + text_bytes(value@),
{
    bincode::serialize_into(out, value)
}

/// `bincode::deserialize` to a `String`: reads a length from the first eight
/// bytes and then that many bytes as UTF-8; an error where bytes are missing
/// or are not UTF-8.
#[verifier::external_body]
pub(crate) fn read_string(input: &[u8]) -> (r: Result<String, Box<bincode::ErrorKind>>)
    ensures
        r is Ok <==> text_value(input@) is Some,
        r is Ok ==> (text_value(input@) matches Some((text, _)) && r.unwrap()@ == text),
{
    bincode::deserialize(input)
}

} // verus!
