//! A versioned type made of two other versioned types, one of this module
//! and one of another.

use vstd::prelude::*;
use vstd::string::*;
use crate::a2::A2;
use crate::aggregate::{
    aggregate_serializable, decode_aggregate, deserialize_aggregate, encode_aggregate,
    lemma_decode_members_bound, plain_field, plain_shape, serialize_aggregate, shapes_of,
    Aggregate, FieldShape,
};
use crate::descriptors::{lemma_no_faults, StructDescriptor};
use crate::error::Error;
use crate::fields::StructField;
use crate::model::Model;
use crate::stream::{Reader, Writer};
use crate::versionize::Versionize;

verus! {

/// An aggregate of one number.
#[derive(Clone, Debug, Default, PartialEq)]
struct OneLocalStruct {
    _x: u32,
}

impl Aggregate for OneLocalStruct {
    open spec fn shapes() -> Seq<FieldShape> {
        seq![plain_shape()]
    }

    open spec fn resolve(root: u16) -> Option<u16> {
        Some(root)
    }

    closed spec fn members(&self) -> Seq<Model> {
        seq![Model::Int(self._x as int)]
    }

    open spec fn blank_members() -> Seq<Model> {
        seq![Model::Int(0)]
    }

    open spec fn member_serializable(index: int, m: Model, root: u16) -> bool {
        u32::serializable(m, root)
    }

    open spec fn member_encode(index: int, m: Model, root: u16) -> Seq<u8> {
        u32::encode(m, root)
    }

    open spec fn member_decode(index: int, bytes: Seq<u8>, root: u16) -> Option<(Model, nat)> {
        u32::decode(bytes, root)
    }

    open spec fn member_default(index: int, local: u16) -> Model {
        Model::Int(0)
    }

    open spec fn hook_serialize(index: int, members: Seq<Model>, local: u16) -> Option<Seq<Model>> {
        Some(members)
    }

    open spec fn hook_deserialize(index: int, members: Seq<Model>, local: u16) -> Option<
        Seq<Model>,
    > {
        Some(members)
    }

    proof fn lemma_member_count(&self) {
    }

    proof fn lemma_member_decode_bound(index: int, bytes: Seq<u8>, root: u16) {
    }

    fn descriptor() -> (r: StructDescriptor) {
        let mut fields: Vec<StructField> = Vec::new();
        fields.push(plain_field("_x"));
        proof {
            lemma_no_faults(fields@);
            assert(shapes_of(fields@) =~= Self::shapes());
        }
        StructDescriptor::new(fields, String::from_str("OneLocalStruct")).unwrap()
    }

    fn local_version(root: u16) -> (r: Option<u16>) {
        Some(root)
    }

    fn blank() -> (r: Self) {
        OneLocalStruct { _x: 0 }
    }

    fn working_copy(&self) -> (r: Self) {
        OneLocalStruct { _x: self._x }
    }

    fn serialize_member(&self, index: usize, writer: &mut Writer, root: u16) -> (r: Result<
        (),
        Error,
    >) {
        self._x.serialize(writer, root)
    }

    fn deserialize_member(&mut self, index: usize, reader: &mut Reader, root: u16) -> (r: Result<
        (),
        Error,
    >) {
        match u32::deserialize(reader, root) {
            Ok(x) => {
                self._x = x;
                assert(self.members() =~= old(self).members().update(
                    index as int,
                    Model::Int(x as int),
                ));
                Ok(())
            },
            Err(err) => Err(err),
        }
    }

    fn default_member(&mut self, index: usize, local: u16) {
    }

    fn semantic_serialize(&mut self, index: usize, local: u16) -> (r: Result<(), Error>) {
        Ok(())
    }

    fn semantic_deserialize(&mut self, index: usize, local: u16) -> (r: Result<(), Error>) {
        Ok(())
    }
}

impl Versionize for OneLocalStruct {
    open spec fn model(&self) -> Model {
        Model::Record(self.members())
    }

    open spec fn serializable(m: Model, version: u16) -> bool {
        aggregate_serializable::<OneLocalStruct>(m, version)
    }

    open spec fn encode(m: Model, version: u16) -> Seq<u8> {
        encode_aggregate::<OneLocalStruct>(m, version)
    }

    open spec fn decode(bytes: Seq<u8>, version: u16) -> Option<(Model, nat)> {
        decode_aggregate::<OneLocalStruct>(bytes, version)
    }

    proof fn lemma_decode_bound(bytes: Seq<u8>, version: u16) {
        lemma_decode_members_bound::<OneLocalStruct>(bytes, version, version, 1);
    }

    fn serialize(&self, writer: &mut Writer, version: u16) -> (r: Result<(), Error>) {
        serialize_aggregate(self, writer, version)
    }

    fn deserialize(reader: &mut Reader, version: u16) -> (r: Result<Self, Error>) {
        deserialize_aggregate(reader, version)
    }

    open spec fn spec_version() -> u16 {
        1
    }

    fn version() -> (r: u16) {
        1
    }
}

/// An aggregate of two aggregates.
#[derive(Clone, Debug, Default, PartialEq)]
pub struct A {
    _local: OneLocalStruct,
    _a2: A2,
}

impl A {
    /// The aggregate that holds the number `x` and the text `s`.
    pub fn new(x: u32, s: String) -> (r: Self)
        ensures
            r.members() == seq![
                Model::Record(seq![Model::Int(x as int)]),
                Model::Record(seq![Model::Text(s@)]),
            ],
    {
        A { _local: OneLocalStruct { _x: x }, _a2: A2::new(s) }
    }
}

impl Aggregate for A {
    open spec fn shapes() -> Seq<FieldShape> {
        seq![plain_shape(), plain_shape()]
    }

    open spec fn resolve(root: u16) -> Option<u16> {
        Some(root)
    }

    closed spec fn members(&self) -> Seq<Model> {
        seq![self._local.model(), self._a2.model()]
    }

    open spec fn blank_members() -> Seq<Model> {
        seq![
            Model::Record(OneLocalStruct::blank_members()),
            Model::Record(A2::blank_members()),
        ]
    }

    open spec fn member_serializable(index: int, m: Model, root: u16) -> bool {
        if index == 0 {
            OneLocalStruct::serializable(m, root)
        } else {
            A2::serializable(m, root)
        }
    }

    open spec fn member_encode(index: int, m: Model, root: u16) -> Seq<u8> {
        if index == 0 {
            OneLocalStruct::encode(m, root)
        } else {
            A2::encode(m, root)
        }
    }

    open spec fn member_decode(index: int, bytes: Seq<u8>, root: u16) -> Option<(Model, nat)> {
        if index == 0 {
            OneLocalStruct::decode(bytes, root)
        } else {
            A2::decode(bytes, root)
        }
    }

    open spec fn member_default(index: int, local: u16) -> Model {
        Self::blank_members()[index]
    }

    open spec fn hook_serialize(index: int, members: Seq<Model>, local: u16) -> Option<Seq<Model>> {
        Some(members)
    }

    open spec fn hook_deserialize(index: int, members: Seq<Model>, local: u16) -> Option<
        Seq<Model>,
    > {
        Some(members)
    }

    proof fn lemma_member_count(&self) {
    }

    proof fn lemma_member_decode_bound(index: int, bytes: Seq<u8>, root: u16) {
        OneLocalStruct::lemma_decode_bound(bytes, root);
        A2::lemma_decode_bound(bytes, root);
    }

    fn descriptor() -> (r: StructDescriptor) {
        let mut fields: Vec<StructField> = Vec::new();
        fields.push(plain_field("_local"));
        fields.push(plain_field("_a2"));
        proof {
            lemma_no_faults(fields@);
            assert(shapes_of(fields@) =~= Self::shapes());
        }
        StructDescriptor::new(fields, String::from_str("A")).unwrap()
    }

    fn local_version(root: u16) -> (r: Option<u16>) {
        Some(root)
    }

    fn blank() -> (r: Self) {
        A { _local: OneLocalStruct::blank(), _a2: A2::blank() }
    }

    fn working_copy(&self) -> (r: Self) {
        A { _local: self._local.working_copy(), _a2: self._a2.working_copy() }
    }

    fn serialize_member(&self, index: usize, writer: &mut Writer, root: u16) -> (r: Result<
        (),
        Error,
    >) {
        if index == 0 {
            self._local.serialize(writer, root)
        } else {
            self._a2.serialize(writer, root)
        }
    }

    fn deserialize_member(&mut self, index: usize, reader: &mut Reader, root: u16) -> (r: Result<
        (),
        Error,
    >) {
        if index == 0 {
            match OneLocalStruct::deserialize(reader, root) {
                Ok(local) => {
                    self._local = local;
                    assert(self.members() =~= old(self).members().update(0, local.model()));
                    Ok(())
                },
                Err(err) => Err(err),
            }
        } else {
            match A2::deserialize(reader, root) {
                Ok(a2) => {
                    self._a2 = a2;
                    assert(self.members() =~= old(self).members().update(1, a2.model()));
                    Ok(())
                },
                Err(err) => Err(err),
            }
        }
    }

    fn default_member(&mut self, index: usize, local: u16) {
    }

    fn semantic_serialize(&mut self, index: usize, local: u16) -> (r: Result<(), Error>) {
        Ok(())
    }

    fn semantic_deserialize(&mut self, index: usize, local: u16) -> (r: Result<(), Error>) {
        Ok(())
    }
}

impl Versionize for A {
    open spec fn model(&self) -> Model {
        Model::Record(self.members())
    }

    open spec fn serializable(m: Model, version: u16) -> bool {
        aggregate_serializable::<A>(m, version)
    }

    open spec fn encode(m: Model, version: u16) -> Seq<u8> {
        encode_aggregate::<A>(m, version)
    }

    open spec fn decode(bytes: Seq<u8>, version: u16) -> Option<(Model, nat)> {
        decode_aggregate::<A>(bytes, version)
    }

    proof fn lemma_decode_bound(bytes: Seq<u8>, version: u16) {
        lemma_decode_members_bound::<A>(bytes, version, version, 2);
    }

    fn serialize(&self, writer: &mut Writer, version: u16) -> (r: Result<(), Error>) {
        serialize_aggregate(self, writer, version)
    }

    fn deserialize(reader: &mut Reader, version: u16) -> (r: Result<Self, Error>) {
        deserialize_aggregate(reader, version)
    }

    open spec fn spec_version() -> u16 {
        1
    }

    fn version() -> (r: u16) {
        1
    }
}

} // verus!
