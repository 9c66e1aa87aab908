//! The members of versioned types: the fields of an aggregate and the
//! variants of a variant type, each with the range of schema versions at
//! which it exists, and what is to be done with it at a given version.

use vstd::prelude::*;

verus! {

/// Whether a member that starts at `start_version` and ends at `end_version`
/// exists at `version`. An end of 0 means that the member was never removed;
/// any other end is the first version without the member.
pub open spec fn spec_exists_at(start_version: u16, end_version: u16, version: u16) -> bool {
    start_version <= version && (end_version == 0 || version < end_version)
}

/// Whether a range of versions is one that a member can have.
pub open spec fn spec_valid_range(start_version: u16, end_version: u16) -> bool {
    start_version >= 1 && (end_version == 0 || end_version > start_version)
}

/// See `spec_exists_at`.
pub fn exists_at(start_version: u16, end_version: u16, version: u16) -> (r: bool)
    ensures
        r == spec_exists_at(start_version, end_version, version),
{
    start_version <= version && (end_version == 0 || version < end_version)
}

/// Why a schema was turned down. A schema is judged when it is defined,
/// before any value is written with it.
#[derive(Debug, Clone, Copy, PartialEq, Eq, Structural)]
pub enum SchemaError {
    /// A variant has no integer literal as its tag.
    DiscriminantRequired,
    /// The tag of a variant does not fit into 16 bits.
    DiscriminantOutOfRange(u64),
    /// A variant does not exist at the given version and names no function
    /// that gives a variant in its place.
    MissingDefault(u16),
    /// A member starts at version 0, or ends at or before the version at which it starts.
    InvalidRange,
    /// The type of a field is neither an array, a path nor a reference.
    UnsupportedFieldType,
    /// The items of an array are not of a type given by a path.
    UnsupportedArrayType,
    /// The length of an array is not an integer literal.
    UnsupportedArrayLen,
}

/// What the declaration of a member says about its versions.
#[derive(Debug, Clone, PartialEq, Eq)]
pub struct FieldAttributes {
    /// The first version at which the member exists, if the declaration gives one.
    pub start: Option<u16>,
    /// The first version at which the member does not exist any more, if the
    /// declaration gives one.
    pub end: Option<u16>,
    /// The function that gives the value of the member where it does not exist.
    pub default_fn: Option<String>,
    /// The function to call, before a value is written, for a field that does
    /// not exist at the version written for.
    pub semantic_ser_fn: Option<String>,
    /// The function to call, after a value was read, for a field that did not
    /// exist at the version read from.
    pub semantic_de_fn: Option<String>,
}

impl FieldAttributes {
    /// A declaration that says nothing about versions.
    pub fn none() -> (r: Self)
        ensures
            r.start is None,
            r.end is None,
            r.default_fn is None,
            r.semantic_ser_fn is None,
            r.semantic_de_fn is None,
    {
        FieldAttributes {
            start: None,
            end: None,
            default_fn: None,
            semantic_ser_fn: None,
            semantic_de_fn: None,
        }
    }
}

/// The first version of a member: what its declaration says, or the base
/// version of the type that holds it.
pub fn get_start_version(attrs: &FieldAttributes, base_version: u16) -> (r: u16)
    ensures
        r == match attrs.start {
            Some(start) => start,
            None => base_version,
        },
{
    match attrs.start {
        Some(start) => start,
        None => base_version,
    }
}

/// The end of a member: what its declaration says, or 0 for a member that was
/// never removed.
pub fn get_end_version(attrs: &FieldAttributes) -> (r: u16)
    ensures
        r == match attrs.end {
            Some(end) => end,
            None => 0u16,
        },
{
    match attrs.end {
        Some(end) => end,
        None => 0,
    }
}

/// The shape of the type of a field, as far as writing and reading depend on it.
#[derive(Debug, Clone, Copy, PartialEq, Eq, Structural)]
pub enum FieldType {
    /// An array. Its items are of a type given by a path or not, and its
    /// length is an integer literal or something else.
    Array { element_is_path: bool, len: Option<usize> },
    /// A type given by a path.
    Path,
    /// A reference.
    Reference,
    /// Any other type.
    Other,
}

/// What is done with a field when a value is written for a version.
#[derive(Debug, Clone, Copy, PartialEq, Eq, Structural)]
pub enum FieldSerializer {
    /// The field does not exist at that version: nothing is written for it.
    Omitted,
    /// The field is an array: it is written as a sequence.
    AsSequence,
    /// The field is written as its type writes it.
    Direct,
}

/// What is done for a field when a value is read from a version.
#[derive(Debug, Clone, Copy, PartialEq, Eq, Structural)]
pub enum FieldDeserializer {
    /// The field did not exist at that version: the function that the
    /// declaration names gives its value.
    DefaultFn,
    /// The field did not exist at that version and its declaration names no
    /// function: it gets the default value of its type.
    DefaultValue,
    /// The field is an array of the given length: a sequence is read and its
    /// items are put into the array.
    FromSequence { len: usize },
    /// The field is of a type given by a path: it is read as its type reads
    /// it, at the version that its type has at the root version.
    Resolved,
    /// The field is read as its type reads it.
    Direct,
}

/// What is done with a variant when a value is written for a version.
#[derive(Debug, Clone, Copy, PartialEq, Eq, Structural)]
pub enum VariantSerializer {
    /// The variant exists at that version: the value is written as it is.
    Direct,
    /// The variant does not exist at that version: the function that the
    /// declaration names gives the value that is written in its place.
    Substitute,
}

/// A field of an aggregate.
#[derive(Debug, Clone, PartialEq, Eq)]
pub struct StructField {
    /// The shape of its type.
    pub ty: FieldType,
    /// Its name.
    pub name: String,
    /// The first version at which it exists.
    pub start_version: u16,
    /// The first version at which it does not exist any more, or 0.
    pub end_version: u16,
    /// What its declaration says about versions.
    pub attrs: FieldAttributes,
}

impl StructField {
    /// The field `name` of a type with base version `base_version`: it starts
    /// at the base version and never ends, unless `attrs` says otherwise.
    pub fn new(base_version: u16, name: String, ty: FieldType, attrs: FieldAttributes) -> (r: Self)
        ensures
            r.ty == ty,
            r.name == name,
            r.attrs == attrs,
            r.start_version == match attrs.start {
                Some(start) => start,
                None => base_version,
            },
            r.end_version == match attrs.end {
                Some(end) => end,
                None => 0u16,
            },
    {
        let start_version = get_start_version(&attrs, base_version);
        let end_version = get_end_version(&attrs);
        StructField { ty, name, start_version, end_version, attrs }
    }

    /// The first version at which the field exists.
    pub fn start_version(&self) -> (r: u16)
        ensures
            r == self.start_version,
    {
        self.start_version
    }

    /// The first version at which the field does not exist any more, or 0.
    pub fn end_version(&self) -> (r: u16)
        ensures
            r == self.end_version,
    {
        self.end_version
    }

    /// The shape of the type of the field.
    pub fn ty(&self) -> (r: FieldType)
        ensures
            r == self.ty,
    {
        self.ty
    }

    /// Whether the field exists at `version`.
    pub open spec fn spec_exists_at(&self, version: u16) -> bool {
        spec_exists_at(self.start_version, self.end_version, version)
    }

    /// Whether the field exists at `version`.
    pub fn exists_at(&self, version: u16) -> (r: bool)
        ensures
            r == self.spec_exists_at(version),
    {
        exists_at(self.start_version, self.end_version, version)
    }

    /// Whether the range of versions of the field is one that a member can have.
    pub open spec fn spec_valid(&self) -> bool {
        spec_valid_range(self.start_version, self.end_version)
    }

    /// Whether a function is called for the field before a value is written
    /// for `target_version`.
    pub open spec fn calls_semantic_serializer(&self, target_version: u16) -> bool {
        !self.spec_exists_at(target_version) && self.attrs.semantic_ser_fn is Some
    }

    /// Whether a function is called for the field after a value was read from
    /// `source_version`.
    pub open spec fn calls_semantic_deserializer(&self, source_version: u16) -> bool {
        !self.spec_exists_at(source_version) && self.attrs.semantic_de_fn is Some
    }

    /// The function to call on the working copy of a value before it is
    /// written for `target_version`: the one that the declaration names, if
    /// the field does not exist at that version.
    pub fn generate_semantic_serializer(&self, target_version: u16) -> (r: Option<&String>)
        ensures
            r is Some <==> self.calls_semantic_serializer(target_version),
            r is Some ==> self.attrs.semantic_ser_fn == Some(*r.unwrap()),
    {
        if !self.exists_at(target_version) {
            match &self.attrs.semantic_ser_fn {
                Some(semantic_ser_fn) => {
                    return Some(semantic_ser_fn);
                },
                None => {},
            }
        }
        None
    }

    /// The function to call on a value after it was read from
    /// `source_version`: the one that the declaration names, if the field did
    /// not exist at that version.
    pub fn generate_semantic_deserializer(&self, source_version: u16) -> (r: Option<&String>)
        ensures
            r is Some <==> self.calls_semantic_deserializer(source_version),
            r is Some ==> self.attrs.semantic_de_fn == Some(*r.unwrap()),
    {
        if !self.exists_at(source_version) {
            match &self.attrs.semantic_de_fn {
                Some(semantic_de_fn) => {
                    return Some(semantic_de_fn);
                },
                None => {},
            }
        }
        None
    }

    /// What `generate_serializer` decides.
    pub open spec fn spec_serializer(&self, target_version: u16) -> Result<
        FieldSerializer,
        SchemaError,
    > {
        if !self.spec_exists_at(target_version) {
            Ok(FieldSerializer::Omitted)
        } else {
            match self.ty {
                FieldType::Array { element_is_path, len } => Ok(FieldSerializer::AsSequence),
                FieldType::Path => Ok(FieldSerializer::Direct),
                FieldType::Reference => Ok(FieldSerializer::Direct),
                FieldType::Other => Err(SchemaError::UnsupportedFieldType),
            }
        }
    }

    /// What is done with the field when a value is written for
    /// `target_version`. A field that does not exist at that version is left
    /// out, whatever its type; a field of an unsupported type that does exist
    /// is an error of the schema.
    pub fn generate_serializer(&self, target_version: u16) -> (r: Result<
        FieldSerializer,
        SchemaError,
    >)
        ensures
            r == self.spec_serializer(target_version),
    {
        if !self.exists_at(target_version) {
            return Ok(FieldSerializer::Omitted);
        }
        match self.ty {
            FieldType::Array { element_is_path, len } => Ok(FieldSerializer::AsSequence),
            FieldType::Path => Ok(FieldSerializer::Direct),
            FieldType::Reference => Ok(FieldSerializer::Direct),
            FieldType::Other => Err(SchemaError::UnsupportedFieldType),
        }
    }

    /// What `generate_deserializer` decides.
    pub open spec fn spec_deserializer(&self, source_version: u16) -> Result<
        FieldDeserializer,
        SchemaError,
    > {
        if !self.spec_exists_at(source_version) {
            if self.attrs.default_fn is Some {
                Ok(FieldDeserializer::DefaultFn)
            } else {
                Ok(FieldDeserializer::DefaultValue)
            }
        } else {
            match self.ty {
                FieldType::Array { element_is_path, len } => if !element_is_path {
                    Err(SchemaError::UnsupportedArrayType)
                } else {
                    match len {
                        Some(len) => Ok(FieldDeserializer::FromSequence { len }),
                        None => Err(SchemaError::UnsupportedArrayLen),
                    }
                },
                FieldType::Path => Ok(FieldDeserializer::Resolved),
                FieldType::Reference => Ok(FieldDeserializer::Direct),
                FieldType::Other => Err(SchemaError::UnsupportedFieldType),
            }
        }
    }

    /// What is done for the field when a value is read from `source_version`.
    ///
    /// A field that did not exist at that version gets the value of the
    /// function that its declaration names, or the default value of its type.
    /// A field that did exist is read according to the shape of its type.
    pub fn generate_deserializer(&self, source_version: u16) -> (r: Result<
        FieldDeserializer,
        SchemaError,
    >)
        ensures
            r == self.spec_deserializer(source_version),
    {
        if !self.exists_at(source_version) {
            match &self.attrs.default_fn {
                Some(default_fn) => {
                    return Ok(FieldDeserializer::DefaultFn);
                },
                None => {
                    return Ok(FieldDeserializer::DefaultValue);
                },
            }
        }
        match self.ty {
            FieldType::Array { element_is_path, len } => {
                if !element_is_path {
                    return Err(SchemaError::UnsupportedArrayType);
                }
                match len {
                    Some(len) => Ok(FieldDeserializer::FromSequence { len }),
                    None => Err(SchemaError::UnsupportedArrayLen),
                }
            },
            FieldType::Path => Ok(FieldDeserializer::Resolved),
            FieldType::Reference => Ok(FieldDeserializer::Direct),
            FieldType::Other => Err(SchemaError::UnsupportedFieldType),
        }
    }
}

/// What the declaration of a variant gives as its tag.
#[derive(Debug, Clone, Copy, PartialEq, Eq, Structural)]
pub enum Discriminant {
    /// No tag.
    Missing,
    /// An integer literal.
    Literal(u64),
    /// An expression that is no integer literal.
    Expression,
}

/// A variant of a variant type.
#[derive(Debug, Clone, PartialEq, Eq)]
pub struct EnumVariant {
    /// Its name.
    pub ident: String,
    /// Its tag.
    pub discriminant: u16,
    /// The first version at which it exists.
    pub start_version: u16,
    /// The first version at which it does not exist any more, or 0.
    pub end_version: u16,
    /// What its declaration says about versions.
    pub attrs: FieldAttributes,
}

impl EnumVariant {
    /// What `new` decides on a tag.
    pub open spec fn spec_discriminant(discriminant: Discriminant) -> Result<u16, SchemaError> {
        match discriminant {
            Discriminant::Literal(value) => if value <= u16::MAX {
                Ok(value as u16)
            } else {
                Err(SchemaError::DiscriminantOutOfRange(value))
            },
            _ => Err(SchemaError::DiscriminantRequired),
        }
    }

    /// The variant `ident` of a type with base version `base_version`.
    ///
    /// Every variant needs a tag of 16 bits, given as an integer literal; a
    /// declaration without one is turned down. The variant starts at the base
    /// version and never ends, unless `attrs` says otherwise.
    pub fn new(
        base_version: u16,
        ident: String,
        discriminant: Discriminant,
        attrs: FieldAttributes,
    ) -> (r: Result<Self, SchemaError>)
        ensures
            match Self::spec_discriminant(discriminant) {
                Ok(tag) => r is Ok && r.unwrap().discriminant == tag && r.unwrap().ident == ident
                    && r.unwrap().attrs == attrs && r.unwrap().start_version == (match attrs.start {
                    Some(start) => start,
                    None => base_version,
                }) && r.unwrap().end_version == (match attrs.end {
                    Some(end) => end,
                    None => 0u16,
                }),
                Err(e) => r == Err::<Self, SchemaError>(e),
            },
    {
        let tag: u16 = match discriminant {
            Discriminant::Literal(value) => {
                if value > 0xffff {
                    return Err(SchemaError::DiscriminantOutOfRange(value));
                }
                value as u16
            },
            _ => {
                return Err(SchemaError::DiscriminantRequired);
            },
        };
        let start_version = get_start_version(&attrs, base_version);
        let end_version = get_end_version(&attrs);
        Ok(EnumVariant { ident, discriminant: tag, start_version, end_version, attrs })
    }

    /// The first version at which the variant exists.
    pub fn start_version(&self) -> (r: u16)
        ensures
            r == self.start_version,
    {
        self.start_version
    }

    /// The first version at which the variant does not exist any more, or 0.
    pub fn end_version(&self) -> (r: u16)
        ensures
            r == self.end_version,
    {
        self.end_version
    }

    /// Whether the variant exists at `version`.
    pub open spec fn spec_exists_at(&self, version: u16) -> bool {
        spec_exists_at(self.start_version, self.end_version, version)
    }

    /// Whether the variant exists at `version`.
    pub fn exists_at(&self, version: u16) -> (r: bool)
        ensures
            r == self.spec_exists_at(version),
    {
        exists_at(self.start_version, self.end_version, version)
    }

    /// Whether the range of versions of the variant is one that a member can have.
    pub open spec fn spec_valid(&self) -> bool {
        spec_valid_range(self.start_version, self.end_version)
    }

    /// What `generate_serializer` decides.
    pub open spec fn spec_serializer(&self, target_version: u16) -> Result<
        VariantSerializer,
        SchemaError,
    > {
        if self.spec_exists_at(target_version) {
            Ok(VariantSerializer::Direct)
        } else if self.attrs.default_fn is Some {
            Ok(VariantSerializer::Substitute)
        } else {
            Err(SchemaError::MissingDefault(target_version))
        }
    }

    /// What is done with a value of this variant when it is written for
    /// `target_version`. A variant that does not exist at that version needs
    /// a function that gives a variant in its place; without one the schema
    /// is turned down.
    pub fn generate_serializer(&self, target_version: u16) -> (r: Result<
        VariantSerializer,
        SchemaError,
    >)
        ensures
            r == self.spec_serializer(target_version),
    {
        if !self.exists_at(target_version) {
            match &self.attrs.default_fn {
                Some(default_fn) => {
                    return Ok(VariantSerializer::Substitute);
                },
                None => {
                    return Err(SchemaError::MissingDefault(target_version));
                },
            }
        }
        Ok(VariantSerializer::Direct)
    }
}

} // verus!
