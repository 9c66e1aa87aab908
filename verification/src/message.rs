//! A header with a flexible array member of numbers, whose schema changed
//! once: the member `extra_value` came with version 2.

use vstd::prelude::*;
use vstd::string::*;
use crate::aggregate::{
    aggregate_serializable, decode_aggregate, deserialize_aggregate, encode_aggregate,
    lemma_decode_members_bound, plain_field, plain_shape, serialize_aggregate, shapes_of, Aggregate, FieldShape,
};
use crate::descriptors::{lemma_no_faults, StructDescriptor};
use crate::error::Error;
use crate::fam::{FamStruct, FamStructWrapper};
use crate::fields::{FieldAttributes, FieldType, StructField};
use crate::model::Model;
use crate::stream::{Reader, Writer};
use crate::versionize::Versionize;

verus! {

/// The value of `extra_value` in a message that was written before the
/// member existed.
pub const DEFAULT_EXTRA_VALUE: u16 = 321;

/// The greatest number of entries that a message may have.
pub const MAX_ENTRIES: usize = 100;

/// The header of a message. Its entries follow it.
#[derive(Default, Debug, Clone, PartialEq)]
pub struct Message {
    /// The number of entries.
    pub len: u32,
    /// Room for later use.
    pub padding: u32,
    /// The value of the message.
    pub value: u32,
    /// A value that exists from version 2 on.
    pub extra_value: u16,
}

/// A message with its entries.
pub type MessageFamStructWrapper = FamStructWrapper<Message, u32>;

impl Message {
    /// The value of `extra_value` in a message that was written for
    /// `source_version`, at which the member did not exist.
    pub fn default_extra_value(source_version: u16) -> (r: u16)
        ensures
            r == DEFAULT_EXTRA_VALUE,
    {
        DEFAULT_EXTRA_VALUE
    }
}

impl Aggregate for Message {
    open spec fn shapes() -> Seq<FieldShape> {
        seq![
            plain_shape(),
            plain_shape(),
            plain_shape(),
            FieldShape {
                start_version: 2,
                end_version: 0,
                has_default_fn: true,
                has_semantic_ser_fn: false,
                has_semantic_de_fn: false,
            },
        ]
    }

    open spec fn resolve(root: u16) -> Option<u16> {
        Some(root)
    }

    open spec fn members(&self) -> Seq<Model> {
        seq![
            Model::Int(self.len as int),
            Model::Int(self.padding as int),
            Model::Int(self.value as int),
            Model::Int(self.extra_value as int),
        ]
    }

    open spec fn blank_members() -> Seq<Model> {
        seq![Model::Int(0), Model::Int(0), Model::Int(0), Model::Int(0)]
    }

    open spec fn member_serializable(index: int, m: Model, root: u16) -> bool {
        true
    }

    open spec fn member_encode(index: int, m: Model, root: u16) -> Seq<u8> {
        if index == 3 {
            u16::encode(m, root)
        } else {
            u32::encode(m, root)
        }
    }

    open spec fn member_decode(index: int, bytes: Seq<u8>, root: u16) -> Option<(Model, nat)> {
        if index == 3 {
            u16::decode(bytes, root)
        } else {
            u32::decode(bytes, root)
        }
    }

    open spec fn member_default(index: int, local: u16) -> Model {
        Model::Int(DEFAULT_EXTRA_VALUE as int)
    }

    open spec fn hook_serialize(index: int, members: Seq<Model>, local: u16) -> Option<Seq<Model>> {
        Some(members)
    }

    open spec fn hook_deserialize(index: int, members: Seq<Model>, local: u16) -> Option<
        Seq<Model>,
    > {
        Some(members)
    }

    proof fn lemma_member_count(&self) {
    }

    proof fn lemma_member_decode_bound(index: int, bytes: Seq<u8>, root: u16) {
    }

    fn descriptor() -> (r: StructDescriptor) {
        let attrs = FieldAttributes {
            start: Some(2),
            end: None,
            default_fn: Some(String::from_str("default_extra_value")),
            semantic_ser_fn: None,
            semantic_de_fn: None,
        };
        let mut fields: Vec<StructField> = Vec::new();
        fields.push(plain_field("len"));
        fields.push(plain_field("padding"));
        fields.push(plain_field("value"));
        fields.push(StructField::new(1, String::from_str("extra_value"), FieldType::Path, attrs));
        proof {
            lemma_no_faults(fields@);
            assert(shapes_of(fields@) =~= Self::shapes());
        }
        StructDescriptor::new(fields, String::from_str("Message")).unwrap()
    }

    fn local_version(root: u16) -> (r: Option<u16>) {
        Some(root)
    }

    fn blank() -> (r: Self) {
        Message { len: 0, padding: 0, value: 0, extra_value: 0 }
    }

    fn working_copy(&self) -> (r: Self) {
        Message {
            len: self.len,
            padding: self.padding,
            value: self.value,
            extra_value: self.extra_value,
        }
    }

    fn serialize_member(&self, index: usize, writer: &mut Writer, root: u16) -> (r: Result<
        (),
        Error,
    >) {
        if index == 0 {
            self.len.serialize(writer, root)
        } else if index == 1 {
            self.padding.serialize(writer, root)
        } else if index == 2 {
            self.value.serialize(writer, root)
        } else {
            self.extra_value.serialize(writer, root)
        }
    }

    fn deserialize_member(&mut self, index: usize, reader: &mut Reader, root: u16) -> (r: Result<
        (),
        Error,
    >) {
        if index == 3 {
            match u16::deserialize(reader, root) {
                Ok(extra_value) => {
                    self.extra_value = extra_value;
                    assert(self.members() =~= old(self).members().update(
                        3,
                        Model::Int(extra_value as int),
                    ));
                    Ok(())
                },
                Err(err) => Err(err),
            }
        } else {
            match u32::deserialize(reader, root) {
                Ok(number) => {
                    if index == 0 {
                        self.len = number;
                    } else if index == 1 {
                        self.padding = number;
                    } else {
                        self.value = number;
                    }
                    assert(self.members() =~= old(self).members().update(
                        index as int,
                        Model::Int(number as int),
                    ));
                    Ok(())
                },
                Err(err) => Err(err),
            }
        }
    }

    fn default_member(&mut self, index: usize, local: u16) {
        if index == 3 {
            self.extra_value = Message::default_extra_value(local);
            assert(self.members() =~= old(self).members().update(
                3,
                Model::Int(DEFAULT_EXTRA_VALUE as int),
            ));
        }
    }

    fn semantic_serialize(&mut self, index: usize, local: u16) -> (r: Result<(), Error>) {
        Ok(())
    }

    fn semantic_deserialize(&mut self, index: usize, local: u16) -> (r: Result<(), Error>) {
        Ok(())
    }
}

impl Versionize for Message {
    open spec fn model(&self) -> Model {
        Model::Record(self.members())
    }

    open spec fn serializable(m: Model, version: u16) -> bool {
        aggregate_serializable::<Message>(m, version)
    }

    open spec fn encode(m: Model, version: u16) -> Seq<u8> {
        encode_aggregate::<Message>(m, version)
    }

    open spec fn decode(bytes: Seq<u8>, version: u16) -> Option<(Model, nat)> {
        decode_aggregate::<Message>(bytes, version)
    }

    proof fn lemma_decode_bound(bytes: Seq<u8>, version: u16) {
        lemma_decode_members_bound::<Message>(bytes, version, version, 4);
    }

    fn serialize(&self, writer: &mut Writer, version: u16) -> (r: Result<(), Error>) {
        serialize_aggregate(self, writer, version)
    }

    fn deserialize(reader: &mut Reader, version: u16) -> (r: Result<Self, Error>) {
        deserialize_aggregate(reader, version)
    }

    open spec fn spec_version() -> u16 {
        2
    }

    fn version() -> (r: u16) {
        2
    }
}

impl FamStruct for Message {
    open spec fn spec_len(&self) -> nat {
        self.len as nat
    }

    open spec fn spec_max_len() -> nat {
        MAX_ENTRIES as nat
    }

    fn len(&self) -> (r: usize) {
        self.len as usize
    }

    fn set_len(&mut self, len: usize) {
        self.len = len as u32;
    }

    fn max_len() -> (r: usize) {
        MAX_ENTRIES
    }

    fn empty_header() -> (r: Self) {
        Message { len: 0, padding: 0, value: 0, extra_value: 0 }
    }
}

} // verus!
