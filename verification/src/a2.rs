//! A versioned type with one member, for use by other types.

use vstd::prelude::*;
use vstd::string::*;
use crate::aggregate::{
    aggregate_serializable, decode_aggregate, deserialize_aggregate, encode_aggregate,
    lemma_decode_members_bound, plain_field, plain_shape, serialize_aggregate, shapes_of,
    Aggregate, FieldShape,
};
use crate::descriptors::{lemma_no_faults, StructDescriptor};
use crate::error::Error;
use crate::fields::StructField;
use crate::model::Model;
use crate::stream::{Reader, Writer};
use crate::versionize::Versionize;

verus! {

/// An aggregate of one text.
#[derive(Clone, Debug, Default, PartialEq)]
pub struct A2 {
    _s: String,
}

impl A2 {
    /// The aggregate that holds `s`.
    pub fn new(s: String) -> (r: Self)
        ensures
            r.members() == seq![Model::Text(s@)],
    {
        A2 { _s: s }
    }

    /// The text that the aggregate holds.
    pub fn text(&self) -> (r: &String)
        ensures
            self.members() == seq![Model::Text(r@)],
    {
        &self._s
    }
}

impl Aggregate for A2 {
    open spec fn shapes() -> Seq<FieldShape> {
        seq![plain_shape()]
    }

    open spec fn resolve(root: u16) -> Option<u16> {
        Some(root)
    }

    closed spec fn members(&self) -> Seq<Model> {
        seq![Model::Text(self._s@)]
    }

    open spec fn blank_members() -> Seq<Model> {
        seq![Model::Text(Seq::empty())]
    }

    open spec fn member_serializable(index: int, m: Model, root: u16) -> bool {
        String::serializable(m, root)
    }

    open spec fn member_encode(index: int, m: Model, root: u16) -> Seq<u8> {
        String::encode(m, root)
    }

    open spec fn member_decode(index: int, bytes: Seq<u8>, root: u16) -> Option<(Model, nat)> {
        String::decode(bytes, root)
    }

    open spec fn member_default(index: int, local: u16) -> Model {
        Model::Text(Seq::empty())
    }

    open spec fn hook_serialize(index: int, members: Seq<Model>, local: u16) -> Option<Seq<Model>> {
        Some(members)
    }

    open spec fn hook_deserialize(index: int, members: Seq<Model>, local: u16) -> Option<
        Seq<Model>,
    > {
        Some(members)
    }

    proof fn lemma_member_count(&self) {
    }

    proof fn lemma_member_decode_bound(index: int, bytes: Seq<u8>, root: u16) {
        String::lemma_decode_bound(bytes, root);
    }

    fn descriptor() -> (r: StructDescriptor) {
        let mut fields: Vec<StructField> = Vec::new();
        fields.push(plain_field("_s"));
        proof {
            lemma_no_faults(fields@);
            assert(shapes_of(fields@) =~= Self::shapes());
        }
        StructDescriptor::new(fields, String::from_str("A2")).unwrap()
    }

    fn local_version(root: u16) -> (r: Option<u16>) {
        Some(root)
    }

    fn blank() -> (r: Self) {
        A2 { _s: String::new() }
    }

    fn working_copy(&self) -> (r: Self) {
        A2 { _s: self._s.clone() }
    }

    fn serialize_member(&self, index: usize, writer: &mut Writer, root: u16) -> (r: Result<
        (),
        Error,
    >) {
        self._s.serialize(writer, root)
    }

    fn deserialize_member(&mut self, index: usize, reader: &mut Reader, root: u16) -> (r: Result<
        (),
        Error,
    >) {
        match String::deserialize(reader, root) {
            Ok(s) => {
                self._s = s;
                assert(self.members() =~= old(self).members().update(index as int, Model::Text(s@)));
                Ok(())
            },
            Err(err) => Err(err),
        }
    }

    fn default_member(&mut self, index: usize, local: u16) {
    }

    fn semantic_serialize(&mut self, index: usize, local: u16) -> (r: Result<(), Error>) {
        Ok(())
    }

    fn semantic_deserialize(&mut self, index: usize, local: u16) -> (r: Result<(), Error>) {
        Ok(())
    }
}

impl Versionize for A2 {
    open spec fn model(&self) -> Model {
        Model::Record(self.members())
    }

    open spec fn serializable(m: Model, version: u16) -> bool {
        aggregate_serializable::<A2>(m, version)
    }

    open spec fn encode(m: Model, version: u16) -> Seq<u8> {
        encode_aggregate::<A2>(m, version)
    }

    open spec fn decode(bytes: Seq<u8>, version: u16) -> Option<(Model, nat)> {
        decode_aggregate::<A2>(bytes, version)
    }

    proof fn lemma_decode_bound(bytes: Seq<u8>, version: u16) {
        lemma_decode_members_bound::<A2>(bytes, version, version, 1);
    }

    fn serialize(&self, writer: &mut Writer, version: u16) -> (r: Result<(), Error>) {
        serialize_aggregate(self, writer, version)
    }

    fn deserialize(reader: &mut Reader, version: u16) -> (r: Result<Self, Error>) {
        deserialize_aggregate(reader, version)
    }

    open spec fn spec_version() -> u16 {
        1
    }

    fn version() -> (r: u16) {
        1
    }
}

} // verus!
