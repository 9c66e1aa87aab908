//! The leaf values: integers, truth values, characters and texts. Their
//! encoding is the same at every version.

use vstd::prelude::*;
use crate::backend;
use vstd::string::*;
use vstd::utf8::*;
use crate::backend::{bool_byte, fixed_signed, fixed_value, text_bytes, text_value};
use crate::error::Error;
use crate::model::{
    le_bytes, le_value, lemma_char_then_rest, lemma_le_bytes_len, lemma_le_value_of_bytes,
    lemma_pow256_values, lemma_signed_of_unsigned, pow256, unsigned_of, Model,
};
use crate::stream::{Reader, Writer};
use crate::versionize::{round_trips, Versionize};

verus! {

/// The bytes of an unsigned integer of `width` bytes.
pub open spec fn encode_unsigned(m: Model, width: nat) -> Seq<u8> {
    match m {
        Model::Int(i) => le_bytes(i as nat, width),
        _ => Seq::empty(),
    }
}

/// The unsigned integer in the first `width` bytes.
pub open spec fn decode_unsigned(bytes: Seq<u8>, width: nat) -> Option<(Model, nat)> {
    match fixed_value(bytes, width) {
        Some(value) => Some((Model::Int(value as int), width)),
        None => None,
    }
}

/// An unsigned integer that `width` bytes can hold is read back as it was written.
pub proof fn lemma_unsigned_round_trip(value: nat, width: nat, rest: Seq<u8>)
    requires
        value < pow256(width),
    ensures
        decode_unsigned(encode_unsigned(Model::Int(value as int), width) + rest, width) == Some(
            (Model::Int(value as int), width),
        ),
        encode_unsigned(Model::Int(value as int), width).len() == width,
{
    let bytes = le_bytes(value, width);
    lemma_le_bytes_len(value, width);
    lemma_le_value_of_bytes(value, width);
    assert((bytes + rest).take(width as int) =~= bytes);
}

impl Versionize for u8 {
    open spec fn model(&self) -> Model {
        Model::Int(*self as int)
    }

    open spec fn serializable(m: Model, version: u16) -> bool {
        true
    }

    open spec fn encode(m: Model, version: u16) -> Seq<u8> {
        encode_unsigned(m, 1)
    }

    open spec fn decode(bytes: Seq<u8>, version: u16) -> Option<(Model, nat)> {
        decode_unsigned(bytes, 1)
    }

    proof fn lemma_decode_bound(bytes: Seq<u8>, version: u16) {
    }

    fn serialize(&self, writer: &mut Writer, version: u16) -> (r: Result<(), Error>) {
        let mut scratch: Vec<u8> = Vec::new();
        proof {
            lemma_le_bytes_len(*self as nat, 1);
        }
        match backend::write_u8(&mut scratch, *self) {
            Ok(()) => writer.write_all(scratch.as_slice()),
            Err(err) => Err(Error::Serialize(backend::error_text(&err))),
        }
    }

    fn deserialize(reader: &mut Reader, version: u16) -> (r: Result<Self, Error>) {
        match backend::read_u8(reader.remaining()) {
            Ok(value) => {
                reader.advance(1);
                Ok(value)
            },
            Err(err) => Err(Error::Deserialize(backend::error_text(&err))),
        }
    }

    open spec fn spec_version() -> u16 {
        1
    }

    fn version() -> (r: u16) {
        1
    }
}

/// A `u8` is read back as it was written, at any version.
pub proof fn law_round_trip_u8(value: u8, version: u16)
    ensures
        round_trips::<u8>(value.model(), version),
{
    lemma_pow256_values();
    assert forall|rest: Seq<u8>|
        u8::decode(#[trigger] (u8::encode(value.model(), version) + rest), version) == Some(
            (value.model(), u8::encode(value.model(), version).len()),
        ) by {
        lemma_unsigned_round_trip(value as nat, 1, rest);
    }
}

/// The bytes of a signed integer of `width` bytes.
pub open spec fn encode_signed(m: Model, width: nat) -> Seq<u8> {
    match m {
        Model::Int(i) => le_bytes(unsigned_of(i, width), width),
        _ => Seq::empty(),
    }
}

/// The signed integer in the first `width` bytes.
pub open spec fn decode_signed(bytes: Seq<u8>, width: nat) -> Option<(Model, nat)> {
    match fixed_signed(bytes, width) {
        Some(value) => Some((Model::Int(value), width)),
        None => None,
    }
}

/// The `usize` in the first eight bytes: none where the number is too large for the machine.
pub open spec fn decode_usize(bytes: Seq<u8>) -> Option<(Model, nat)> {
    match fixed_value(bytes, 8) {
        Some(value) => if value <= usize::MAX {
            Some((Model::Int(value as int), 8))
        } else {
            None
        },
        None => None,
    }
}

/// The `isize` in the first eight bytes: none where the number is out of the
/// machine's range.
pub open spec fn decode_isize(bytes: Seq<u8>) -> Option<(Model, nat)> {
    match fixed_signed(bytes, 8) {
        Some(value) => if isize::MIN <= value <= isize::MAX {
            Some((Model::Int(value), 8))
        } else {
            None
        },
        None => None,
    }
}

/// A signed integer that `width` bytes can hold is read back as it was written.
pub proof fn lemma_signed_round_trip(value: int, width: nat, rest: Seq<u8>)
    requires
        -(pow256(width) as int) <= 2 * value < pow256(width),
    ensures
        decode_signed(encode_signed(Model::Int(value), width) + rest, width) == Some(
            (Model::Int(value), width),
        ),
        encode_signed(Model::Int(value), width).len() == width,
{
    let raw = unsigned_of(value, width);
    lemma_signed_of_unsigned(value, width);
    let bytes = le_bytes(raw, width);
    lemma_le_bytes_len(raw, width);
    lemma_le_value_of_bytes(raw, width);
    assert((bytes + rest).take(width as int) =~= bytes);
}

impl Versionize for u16 {
    open spec fn model(&self) -> Model {
        Model::Int(*self as int)
    }

    open spec fn serializable(m: Model, version: u16) -> bool {
        true
    }

    open spec fn encode(m: Model, version: u16) -> Seq<u8> {
        encode_unsigned(m, 2)
    }

    open spec fn decode(bytes: Seq<u8>, version: u16) -> Option<(Model, nat)> {
        decode_unsigned(bytes, 2)
    }

    proof fn lemma_decode_bound(bytes: Seq<u8>, version: u16) {
    }

    fn serialize(&self, writer: &mut Writer, version: u16) -> (r: Result<(), Error>) {
        let mut scratch: Vec<u8> = Vec::new();
        proof {
            lemma_le_bytes_len(*self as nat, 2);
        }
        match backend::write_u16(&mut scratch, *self) {
            Ok(()) => writer.write_all(scratch.as_slice()),
            Err(err) => Err(Error::Serialize(backend::error_text(&err))),
        }
    }

    fn deserialize(reader: &mut Reader, version: u16) -> (r: Result<Self, Error>) {
        match backend::read_u16(reader.remaining()) {
            Ok(value) => {
                reader.advance(2);
                Ok(value)
            },
            Err(err) => Err(Error::Deserialize(backend::error_text(&err))),
        }
    }

    open spec fn spec_version() -> u16 {
        1
    }

    fn version() -> (r: u16) {
        1
    }
}

/// A `u16` is read back as it was written, at any version.
pub proof fn law_round_trip_u16(value: u16, version: u16)
    ensures
        round_trips::<u16>(value.model(), version),
{
    lemma_pow256_values();
    assert forall|rest: Seq<u8>|
        u16::decode(#[trigger] (u16::encode(value.model(), version) + rest), version) == Some(
            (value.model(), u16::encode(value.model(), version).len()),
        ) by {
        lemma_unsigned_round_trip(value as nat, 2, rest);
    }
}

impl Versionize for u32 {
    open spec fn model(&self) -> Model {
        Model::Int(*self as int)
    }

    open spec fn serializable(m: Model, version: u16) -> bool {
        true
    }

    open spec fn encode(m: Model, version: u16) -> Seq<u8> {
        encode_unsigned(m, 4)
    }

    open spec fn decode(bytes: Seq<u8>, version: u16) -> Option<(Model, nat)> {
        decode_unsigned(bytes, 4)
    }

    proof fn lemma_decode_bound(bytes: Seq<u8>, version: u16) {
    }

    fn serialize(&self, writer: &mut Writer, version: u16) -> (r: Result<(), Error>) {
        let mut scratch: Vec<u8> = Vec::new();
        proof {
            lemma_le_bytes_len(*self as nat, 4);
        }
        match backend::write_u32(&mut scratch, *self) {
            Ok(()) => writer.write_all(scratch.as_slice()),
            Err(err) => Err(Error::Serialize(backend::error_text(&err))),
        }
    }

    fn deserialize(reader: &mut Reader, version: u16) -> (r: Result<Self, Error>) {
        match backend::read_u32(reader.remaining()) {
            Ok(value) => {
                reader.advance(4);
                Ok(value)
            },
            Err(err) => Err(Error::Deserialize(backend::error_text(&err))),
        }
    }

    open spec fn spec_version() -> u16 {
        1
    }

    fn version() -> (r: u16) {
        1
    }
}

/// A `u32` is read back as it was written, at any version.
pub proof fn law_round_trip_u32(value: u32, version: u16)
    ensures
        round_trips::<u32>(value.model(), version),
{
    lemma_pow256_values();
    assert forall|rest: Seq<u8>|
        u32::decode(#[trigger] (u32::encode(value.model(), version) + rest), version) == Some(
            (value.model(), u32::encode(value.model(), version).len()),
        ) by {
        lemma_unsigned_round_trip(value as nat, 4, rest);
    }
}

impl Versionize for u64 {
    open spec fn model(&self) -> Model {
        Model::Int(*self as int)
    }

    open spec fn serializable(m: Model, version: u16) -> bool {
        true
    }

    open spec fn encode(m: Model, version: u16) -> Seq<u8> {
        encode_unsigned(m, 8)
    }

    open spec fn decode(bytes: Seq<u8>, version: u16) -> Option<(Model, nat)> {
        decode_unsigned(bytes, 8)
    }

    proof fn lemma_decode_bound(bytes: Seq<u8>, version: u16) {
    }

    fn serialize(&self, writer: &mut Writer, version: u16) -> (r: Result<(), Error>) {
        let mut scratch: Vec<u8> = Vec::new();
        proof {
            lemma_le_bytes_len(*self as nat, 8);
        }
        match backend::write_u64(&mut scratch, *self) {
            Ok(()) => writer.write_all(scratch.as_slice()),
            Err(err) => Err(Error::Serialize(backend::error_text(&err))),
        }
    }

    fn deserialize(reader: &mut Reader, version: u16) -> (r: Result<Self, Error>) {
        match backend::read_u64(reader.remaining()) {
            Ok(value) => {
                reader.advance(8);
                Ok(value)
            },
            Err(err) => Err(Error::Deserialize(backend::error_text(&err))),
        }
    }

    open spec fn spec_version() -> u16 {
        1
    }

    fn version() -> (r: u16) {
        1
    }
}

/// A `u64` is read back as it was written, at any version.
pub proof fn law_round_trip_u64(value: u64, version: u16)
    ensures
        round_trips::<u64>(value.model(), version),
{
    lemma_pow256_values();
    assert forall|rest: Seq<u8>|
        u64::decode(#[trigger] (u64::encode(value.model(), version) + rest), version) == Some(
            (value.model(), u64::encode(value.model(), version).len()),
        ) by {
        lemma_unsigned_round_trip(value as nat, 8, rest);
    }
}

impl Versionize for usize {
    open spec fn model(&self) -> Model {
        Model::Int(*self as int)
    }

    open spec fn serializable(m: Model, version: u16) -> bool {
        true
    }

    open spec fn encode(m: Model, version: u16) -> Seq<u8> {
        encode_unsigned(m, 8)
    }

    open spec fn decode(bytes: Seq<u8>, version: u16) -> Option<(Model, nat)> {
        decode_usize(bytes)
    }

    proof fn lemma_decode_bound(bytes: Seq<u8>, version: u16) {
    }

    fn serialize(&self, writer: &mut Writer, version: u16) -> (r: Result<(), Error>) {
        let mut scratch: Vec<u8> = Vec::new();
        proof {
            lemma_le_bytes_len(*self as nat, 8);
        }
        match backend::write_usize(&mut scratch, *self) {
            Ok(()) => writer.write_all(scratch.as_slice()),
            Err(err) => Err(Error::Serialize(backend::error_text(&err))),
        }
    }

    fn deserialize(reader: &mut Reader, version: u16) -> (r: Result<Self, Error>) {
        match backend::read_usize(reader.remaining()) {
            Ok(value) => {
                reader.advance(8);
                Ok(value)
            },
            Err(err) => Err(Error::Deserialize(backend::error_text(&err))),
        }
    }

    open spec fn spec_version() -> u16 {
        1
    }

    fn version() -> (r: u16) {
        1
    }
}

/// A `usize` is read back as it was written, at any version.
pub proof fn law_round_trip_usize(value: usize, version: u16)
    ensures
        round_trips::<usize>(value.model(), version),
{
    lemma_pow256_values();
    assert forall|rest: Seq<u8>|
        usize::decode(#[trigger] (usize::encode(value.model(), version) + rest), version) == Some(
            (value.model(), usize::encode(value.model(), version).len()),
        ) by {
        lemma_unsigned_round_trip(value as nat, 8, rest);
    }
}

impl Versionize for i8 {
    open spec fn model(&self) -> Model {
        Model::Int(*self as int)
    }

    open spec fn serializable(m: Model, version: u16) -> bool {
        true
    }

    open spec fn encode(m: Model, version: u16) -> Seq<u8> {
        encode_signed(m, 1)
    }

    open spec fn decode(bytes: Seq<u8>, version: u16) -> Option<(Model, nat)> {
        decode_signed(bytes, 1)
    }

    proof fn lemma_decode_bound(bytes: Seq<u8>, version: u16) {
    }

    fn serialize(&self, writer: &mut Writer, version: u16) -> (r: Result<(), Error>) {
        let mut scratch: Vec<u8> = Vec::new();
        proof {
            lemma_le_bytes_len(unsigned_of(*self as int, 1), 1);
        }
        match backend::write_i8(&mut scratch, *self) {
            Ok(()) => writer.write_all(scratch.as_slice()),
            Err(err) => Err(Error::Serialize(backend::error_text(&err))),
        }
    }

    fn deserialize(reader: &mut Reader, version: u16) -> (r: Result<Self, Error>) {
        match backend::read_i8(reader.remaining()) {
            Ok(value) => {
                reader.advance(1);
                Ok(value)
            },
            Err(err) => Err(Error::Deserialize(backend::error_text(&err))),
        }
    }

    open spec fn spec_version() -> u16 {
        1
    }

    fn version() -> (r: u16) {
        1
    }
}

/// An `i8` is read back as it was written, at any version.
pub proof fn law_round_trip_i8(value: i8, version: u16)
    ensures
        round_trips::<i8>(value.model(), version),
{
    lemma_pow256_values();
    assert forall|rest: Seq<u8>|
        i8::decode(#[trigger] (i8::encode(value.model(), version) + rest), version) == Some(
            (value.model(), i8::encode(value.model(), version).len()),
        ) by {
        lemma_signed_round_trip(value as int, 1, rest);
    }
}

impl Versionize for i16 {
    open spec fn model(&self) -> Model {
        Model::Int(*self as int)
    }

    open spec fn serializable(m: Model, version: u16) -> bool {
        true
    }

    open spec fn encode(m: Model, version: u16) -> Seq<u8> {
        encode_signed(m, 2)
    }

    open spec fn decode(bytes: Seq<u8>, version: u16) -> Option<(Model, nat)> {
        decode_signed(bytes, 2)
    }

    proof fn lemma_decode_bound(bytes: Seq<u8>, version: u16) {
    }

    fn serialize(&self, writer: &mut Writer, version: u16) -> (r: Result<(), Error>) {
        let mut scratch: Vec<u8> = Vec::new();
        proof {
            lemma_le_bytes_len(unsigned_of(*self as int, 2), 2);
        }
        match backend::write_i16(&mut scratch, *self) {
            Ok(()) => writer.write_all(scratch.as_slice()),
            Err(err) => Err(Error::Serialize(backend::error_text(&err))),
        }
    }

    fn deserialize(reader: &mut Reader, version: u16) -> (r: Result<Self, Error>) {
        match backend::read_i16(reader.remaining()) {
            Ok(value) => {
                reader.advance(2);
                Ok(value)
            },
            Err(err) => Err(Error::Deserialize(backend::error_text(&err))),
        }
    }

    open spec fn spec_version() -> u16 {
        1
    }

    fn version() -> (r: u16) {
        1
    }
}

/// An `i16` is read back as it was written, at any version.
pub proof fn law_round_trip_i16(value: i16, version: u16)
    ensures
        round_trips::<i16>(value.model(), version),
{
    lemma_pow256_values();
    assert forall|rest: Seq<u8>|
        i16::decode(#[trigger] (i16::encode(value.model(), version) + rest), version) == Some(
            (value.model(), i16::encode(value.model(), version).len()),
        ) by {
        lemma_signed_round_trip(value as int, 2, rest);
    }
}

impl Versionize for i32 {
    open spec fn model(&self) -> Model {
        Model::Int(*self as int)
    }

    open spec fn serializable(m: Model, version: u16) -> bool {
        true
    }

    open spec fn encode(m: Model, version: u16) -> Seq<u8> {
        encode_signed(m, 4)
    }

    open spec fn decode(bytes: Seq<u8>, version: u16) -> Option<(Model, nat)> {
        decode_signed(bytes, 4)
    }

    proof fn lemma_decode_bound(bytes: Seq<u8>, version: u16) {
    }

    fn serialize(&self, writer: &mut Writer, version: u16) -> (r: Result<(), Error>) {
        let mut scratch: Vec<u8> = Vec::new();
        proof {
            lemma_le_bytes_len(unsigned_of(*self as int, 4), 4);
        }
        match backend::write_i32(&mut scratch, *self) {
            Ok(()) => writer.write_all(scratch.as_slice()),
            Err(err) => Err(Error::Serialize(backend::error_text(&err))),
        }
    }

    fn deserialize(reader: &mut Reader, version: u16) -> (r: Result<Self, Error>) {
        match backend::read_i32(reader.remaining()) {
            Ok(value) => {
                reader.advance(4);
                Ok(value)
            },
            Err(err) => Err(Error::Deserialize(backend::error_text(&err))),
        }
    }

    open spec fn spec_version() -> u16 {
        1
    }

    fn version() -> (r: u16) {
        1
    }
}

/// An `i32` is read back as it was written, at any version.
pub proof fn law_round_trip_i32(value: i32, version: u16)
    ensures
        round_trips::<i32>(value.model(), version),
{
    lemma_pow256_values();
    assert forall|rest: Seq<u8>|
        i32::decode(#[trigger] (i32::encode(value.model(), version) + rest), version) == Some(
            (value.model(), i32::encode(value.model(), version).len()),
        ) by {
        lemma_signed_round_trip(value as int, 4, rest);
    }
}

impl Versionize for i64 {
    open spec fn model(&self) -> Model {
        Model::Int(*self as int)
    }

    open spec fn serializable(m: Model, version: u16) -> bool {
        true
    }

    open spec fn encode(m: Model, version: u16) -> Seq<u8> {
        encode_signed(m, 8)
    }

    open spec fn decode(bytes: Seq<u8>, version: u16) -> Option<(Model, nat)> {
        decode_signed(bytes, 8)
    }

    proof fn lemma_decode_bound(bytes: Seq<u8>, version: u16) {
    }

    fn serialize(&self, writer: &mut Writer, version: u16) -> (r: Result<(), Error>) {
        let mut scratch: Vec<u8> = Vec::new();
        proof {
            lemma_le_bytes_len(unsigned_of(*self as int, 8), 8);
        }
        match backend::write_i64(&mut scratch, *self) {
            Ok(()) => writer.write_all(scratch.as_slice()),
            Err(err) => Err(Error::Serialize(backend::error_text(&err))),
        }
    }

    fn deserialize(reader: &mut Reader, version: u16) -> (r: Result<Self, Error>) {
        match backend::read_i64(reader.remaining()) {
            Ok(value) => {
                reader.advance(8);
                Ok(value)
            },
            Err(err) => Err(Error::Deserialize(backend::error_text(&err))),
        }
    }

    open spec fn spec_version() -> u16 {
        1
    }

    fn version() -> (r: u16) {
        1
    }
}

/// An `i64` is read back as it was written, at any version.
pub proof fn law_round_trip_i64(value: i64, version: u16)
    ensures
        round_trips::<i64>(value.model(), version),
{
    lemma_pow256_values();
    assert forall|rest: Seq<u8>|
        i64::decode(#[trigger] (i64::encode(value.model(), version) + rest), version) == Some(
            (value.model(), i64::encode(value.model(), version).len()),
        ) by {
        lemma_signed_round_trip(value as int, 8, rest);
    }
}

impl Versionize for isize {
    open spec fn model(&self) -> Model {
        Model::Int(*self as int)
    }

    open spec fn serializable(m: Model, version: u16) -> bool {
        true
    }

    open spec fn encode(m: Model, version: u16) -> Seq<u8> {
        encode_signed(m, 8)
    }

    open spec fn decode(bytes: Seq<u8>, version: u16) -> Option<(Model, nat)> {
        decode_isize(bytes)
    }

    proof fn lemma_decode_bound(bytes: Seq<u8>, version: u16) {
    }

    fn serialize(&self, writer: &mut Writer, version: u16) -> (r: Result<(), Error>) {
        let mut scratch: Vec<u8> = Vec::new();
        proof {
            lemma_le_bytes_len(unsigned_of(*self as int, 8), 8);
        }
        match backend::write_isize(&mut scratch, *self) {
            Ok(()) => writer.write_all(scratch.as_slice()),
            Err(err) => Err(Error::Serialize(backend::error_text(&err))),
        }
    }

    fn deserialize(reader: &mut Reader, version: u16) -> (r: Result<Self, Error>) {
        match backend::read_isize(reader.remaining()) {
            Ok(value) => {
                reader.advance(8);
                Ok(value)
            },
            Err(err) => Err(Error::Deserialize(backend::error_text(&err))),
        }
    }

    open spec fn spec_version() -> u16 {
        1
    }

    fn version() -> (r: u16) {
        1
    }
}

/// An `isize` is read back as it was written, at any version.
pub proof fn law_round_trip_isize(value: isize, version: u16)
    ensures
        round_trips::<isize>(value.model(), version),
{
    lemma_pow256_values();
    assert forall|rest: Seq<u8>|
        isize::decode(#[trigger] (isize::encode(value.model(), version) + rest), version) == Some(
            (value.model(), isize::encode(value.model(), version).len()),
        ) by {
        lemma_signed_round_trip(value as int, 8, rest);
    }
}

impl Versionize for bool {
    open spec fn model(&self) -> Model {
        Model::Bool(*self)
    }

    open spec fn serializable(m: Model, version: u16) -> bool {
        true
    }

    open spec fn encode(m: Model, version: u16) -> Seq<u8> {
        match m {
            Model::Bool(b) => seq![bool_byte(b)],
            _ => Seq::empty(),
        }
    }

    open spec fn decode(bytes: Seq<u8>, version: u16) -> Option<(Model, nat)> {
        if bytes.len() >= 1 && bytes[0] <= 1 {
            Some((Model::Bool(bytes[0] == 1), 1))
        } else {
            None
        }
    }

    proof fn lemma_decode_bound(bytes: Seq<u8>, version: u16) {
    }

    fn serialize(&self, writer: &mut Writer, version: u16) -> (r: Result<(), Error>) {
        let mut scratch: Vec<u8> = Vec::new();
        match backend::write_bool(&mut scratch, *self) {
            Ok(()) => writer.write_all(scratch.as_slice()),
            Err(err) => Err(Error::Serialize(backend::error_text(&err))),
        }
    }

    fn deserialize(reader: &mut Reader, version: u16) -> (r: Result<Self, Error>) {
        match backend::read_bool(reader.remaining()) {
            Ok(value) => {
                reader.advance(1);
                Ok(value)
            },
            Err(err) => Err(Error::Deserialize(backend::error_text(&err))),
        }
    }

    open spec fn spec_version() -> u16 {
        1
    }

    fn version() -> (r: u16) {
        1
    }
}

/// A `bool` is read back as it was written, at any version.
pub proof fn law_round_trip_bool(value: bool, version: u16)
    ensures
        round_trips::<bool>(value.model(), version),
{
    assert forall|rest: Seq<u8>|
        bool::decode(#[trigger] (bool::encode(value.model(), version) + rest), version) == Some(
            (value.model(), bool::encode(value.model(), version).len()),
        ) by {
        assert((seq![bool_byte(value)] + rest)[0] == bool_byte(value));
    }
}

impl Versionize for char {
    open spec fn model(&self) -> Model {
        Model::Char(*self)
    }

    open spec fn serializable(m: Model, version: u16) -> bool {
        true
    }

    open spec fn encode(m: Model, version: u16) -> Seq<u8> {
        match m {
            Model::Char(c) => encode_utf8(seq![c]),
            _ => Seq::empty(),
        }
    }

    open spec fn decode(bytes: Seq<u8>, version: u16) -> Option<(Model, nat)> {
        if valid_first_scalar(bytes) {
            Some((Model::Char(decode_first_scalar(bytes) as char), length_of_first_scalar(bytes) as nat))
        } else {
            None
        }
    }

    proof fn lemma_decode_bound(bytes: Seq<u8>, version: u16) {
    }

    fn serialize(&self, writer: &mut Writer, version: u16) -> (r: Result<(), Error>) {
        let mut scratch: Vec<u8> = Vec::new();
        match backend::write_char(&mut scratch, *self) {
            Ok(()) => writer.write_all(scratch.as_slice()),
            Err(err) => Err(Error::Serialize(backend::error_text(&err))),
        }
    }

    fn deserialize(reader: &mut Reader, version: u16) -> (r: Result<Self, Error>) {
        let input = reader.remaining();
        match backend::read_char(input) {
            Ok(value) => {
                let first: u8 = input[0];
                let width: usize = if first < 0x80 {
                    1
                } else if first < 0xe0 {
                    2
                } else if first < 0xf0 {
                    3
                } else {
                    4
                };
                reader.advance(width);
                Ok(value)
            },
            Err(err) => Err(Error::Deserialize(backend::error_text(&err))),
        }
    }

    open spec fn spec_version() -> u16 {
        1
    }

    fn version() -> (r: u16) {
        1
    }
}

/// A `char` is read back as it was written, at any version.
pub proof fn law_round_trip_char(value: char, version: u16)
    ensures
        round_trips::<char>(value.model(), version),
{
    assert forall|rest: Seq<u8>|
        char::decode(#[trigger] (char::encode(value.model(), version) + rest), version) == Some(
            (value.model(), char::encode(value.model(), version).len()),
        ) by {
        lemma_char_then_rest(value, rest);
    }
}

/// The text at the front of `bytes`, as a value.
pub open spec fn decode_text(bytes: Seq<u8>) -> Option<(Model, nat)> {
    match text_value(bytes) {
        Some((text, n)) => Some((Model::Text(text), n)),
        None => None,
    }
}

/// A text whose length eight bytes can hold is read back as it was written.
pub proof fn lemma_text_round_trip(text: Seq<char>, rest: Seq<u8>)
    requires
        encode_utf8(text).len() < pow256(8),
    ensures
        text_value(text_bytes(text) + rest) == Some((text, text_bytes(text).len())),
        text_bytes(text).len() == 8 + encode_utf8(text).len(),
{
    let payload = encode_utf8(text);
    let head = le_bytes(payload.len(), 8);
    let all = text_bytes(text) + rest;
    lemma_le_bytes_len(payload.len(), 8);
    lemma_le_value_of_bytes(payload.len(), 8);
    assert(all.take(8) =~= head);
    assert(all.subrange(8, 8 + payload.len() as int) =~= payload);
    encode_utf8_valid_utf8(text);
    encode_utf8_decode_utf8(text);
}

impl Versionize for String {
    open spec fn model(&self) -> Model {
        Model::Text(self@)
    }

    open spec fn serializable(m: Model, version: u16) -> bool {
        true
    }

    open spec fn encode(m: Model, version: u16) -> Seq<u8> {
        match m {
            Model::Text(text) => text_bytes(text),
            _ => Seq::empty(),
        }
    }

    open spec fn decode(bytes: Seq<u8>, version: u16) -> Option<(Model, nat)> {
        decode_text(bytes)
    }

    proof fn lemma_decode_bound(bytes: Seq<u8>, version: u16) {
    }

    fn serialize(&self, writer: &mut Writer, version: u16) -> (r: Result<(), Error>) {
        let mut scratch: Vec<u8> = Vec::new();
        match backend::write_str(&mut scratch, self.as_str()) {
            Ok(()) => writer.write_all(scratch.as_slice()),
            Err(err) => Err(Error::Serialize(backend::error_text(&err))),
        }
    }

    fn deserialize(reader: &mut Reader, version: u16) -> (r: Result<Self, Error>) {
        let input = reader.remaining();
        match backend::read_string(input) {
            Ok(value) => {
                let text = value.as_str();
                proof {
                    let declared = le_value(input@.take(8));
                    let payload = input@.subrange(8, 8 + declared as int);
                    assert(text_value(input@) is Some);
                    assert(valid_utf8(payload));
                    decode_utf8_encode_utf8(payload);
                    assert(text@ == decode_utf8(payload));
                    assert(text.spec_bytes() == payload);
                    assert(payload.len() == declared);
                }
                let available: usize = input.len();
                let taken: usize = text.len();
                assert(taken == le_value(input@.take(8)) && taken <= available - 8);
                reader.advance(8 + taken);
                Ok(value)
            },
            Err(err) => Err(Error::Deserialize(backend::error_text(&err))),
        }
    }

    open spec fn spec_version() -> u16 {
        1
    }

    fn version() -> (r: u16) {
        1
    }
}

/// A text is read back as it was written, at any version. The length of its
/// UTF-8 encoding has to fit into the eight bytes that hold it.
pub proof fn law_round_trip_string(text: Seq<char>, version: u16)
    requires
        encode_utf8(text).len() < pow256(8),
    ensures
        round_trips::<String>(Model::Text(text), version),
{
    assert forall|rest: Seq<u8>|
        String::decode(#[trigger] (String::encode(Model::Text(text), version) + rest), version)
            == Some((Model::Text(text), String::encode(Model::Text(text), version).len())) by {
        lemma_text_round_trip(text, rest);
    }
}

} // verus!
