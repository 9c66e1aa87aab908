//! Variant types: values that are one of several variants, each with a tag
//! and a range of schema versions at which it exists.
//!
//! A value is written as it is where its variant exists at the schema
//! version written for. Where it does not, the function that the declaration
//! of the variant names gives the value that is written in its place. A
//! value is always read as the variant that was written: nothing is done
//! across variants when reading, whatever the version.

use vstd::prelude::*;
use vstd::string::*;
use crate::descriptors::EnumDescriptor;
use crate::error::Error;
use crate::fields::{spec_exists_at, EnumVariant, VariantSerializer};
use crate::model::Model;
use crate::stream::{Reader, Writer};

verus! {

/// What the algorithm reads of a variant.
pub struct VariantShape {
    /// The tag of the variant.
    pub discriminant: u16,
    /// The first version at which the variant exists.
    pub start_version: u16,
    /// The first version at which the variant does not exist any more, or 0.
    pub end_version: u16,
    /// Whether the declaration names a function that gives a value in the
    /// place of one of this variant.
    pub has_default_fn: bool,
}

impl VariantShape {
    /// Whether the variant exists at `version`.
    pub open spec fn exists_at(self, version: u16) -> bool {
        spec_exists_at(self.start_version, self.end_version, version)
    }
}

/// What the algorithm reads of `variant`.
pub open spec fn variant_shape_of(variant: EnumVariant) -> VariantShape {
    VariantShape {
        discriminant: variant.discriminant,
        start_version: variant.start_version,
        end_version: variant.end_version,
        has_default_fn: variant.attrs.default_fn is Some,
    }
}

/// What the algorithm reads of `variants`.
pub open spec fn variant_shapes_of(variants: Seq<EnumVariant>) -> Seq<VariantShape> {
    Seq::new(variants.len(), |i: int| variant_shape_of(variants[i]))
}

/// Whether a value of every variant can be written for every version from 1
/// on: each variant exists there or names a function that stands in for it.
pub open spec fn always_representable(shapes: Seq<VariantShape>) -> bool {
    forall|k: int, version: u16|
        0 <= k < shapes.len() && version >= 1 ==> (#[trigger] shapes[k].exists_at(version))
            || shapes[k].has_default_fn
}

/// The first of the first `upto` variants that has the tag `tag`.
pub open spec fn variant_index(shapes: Seq<VariantShape>, tag: int, upto: int) -> Option<int>
    decreases upto,
{
    if upto <= 0 {
        None
    } else {
        match variant_index(shapes, tag, upto - 1) {
            Some(k) => Some(k),
            None => if shapes[upto - 1].discriminant == tag {
                Some(upto - 1)
            } else {
                None
            },
        }
    }
}

/// The tag of a value of a variant type.
pub open spec fn tag_of(m: Model) -> int {
    match m {
        Model::Variant(tag, _) => tag,
        _ => -1,
    }
}

/// A type whose values are one of several variants.
pub trait Variants: Sized {
    /// The variants of the type, in the order of their declaration.
    spec fn shapes() -> Seq<VariantShape>;

    /// The schema version of the type at root version `root`; `None` for a
    /// root version that is not known.
    spec fn resolve(root: u16) -> Option<u16>;

    /// What the value is.
    spec fn model(&self) -> Model;

    /// What the function that the variant of `m` names gives in its place
    /// for schema version `local`.
    spec fn substitute(m: Model, local: u16) -> Model;

    /// The bytes of a value, which do not depend on the version.
    spec fn fixed_encode(m: Model) -> Seq<u8>;

    /// The value at the front of `bytes` and the number of bytes that it takes.
    spec fn fixed_decode(bytes: Seq<u8>) -> Option<(Model, nat)>;

    /// A value of every variant can be written for every version from 1 on.
    proof fn lemma_representable()
        ensures
            always_representable(Self::shapes()),
    ;

    /// What stands in for a value whose variant does not exist at a version
    /// is of a variant that does exist at that version.
    proof fn lemma_substitute_exists(m: Model, local: u16)
        requires
            local >= 1,
            variant_index(Self::shapes(), tag_of(m), Self::shapes().len() as int) matches Some(k)
                && !Self::shapes()[k].exists_at(local),
        ensures
            variant_index(
                Self::shapes(),
                tag_of(Self::substitute(m, local)),
                Self::shapes().len() as int,
            ) matches Some(j) && Self::shapes()[j].exists_at(local),
    ;

    /// The description of the type.
    fn descriptor() -> (r: EnumDescriptor)
        ensures
            variant_shapes_of(r.fields@) == Self::shapes(),
    ;

    /// The schema version of the type at root version `root`; `None` for a
    /// root version that is not known.
    fn local_version(root: u16) -> (r: Option<u16>)
        ensures
            r == Self::resolve(root),
    ;

    /// The tag of the variant that the value is.
    fn discriminant(&self) -> (r: u16)
        ensures
            r == tag_of(self.model()),
    ;

    /// The value that the function named by the variant of this value gives
    /// in its place for schema version `local`.
    fn default_variant(&self, local: u16) -> (r: Self)
        ensures
            r.model() == Self::substitute(self.model(), local),
    ;

    /// Writes the value as it is.
    fn write(&self, writer: &mut Writer) -> (r: Result<(), Error>)
        ensures
            final(writer).limit() == old(writer).limit(),
            old(writer)@.is_prefix_of(final(writer)@),
            r is Ok <==> old(writer).fits(Self::fixed_encode(self.model()).len()),
            r is Ok ==> final(writer)@ == old(writer)@ + Self::fixed_encode(self.model()),
            r is Err ==> r matches Err(Error::Serialize(_)),
    ;

    /// Reads a value.
    fn read(reader: &mut Reader) -> (r: Result<Self, Error>)
        ensures
            match Self::fixed_decode(old(reader)@) {
                Some((m, n)) => r is Ok && r.unwrap().model() == m && final(reader)@ == old(
                    reader,
                )@.skip(n as int),
                None => r matches Err(Error::Deserialize(_)),
            },
    ;
}

/// Whether a value of a variant type can be written for root version
/// `root`: the root version is known, the schema version is not 0, and the
/// tag of the value is that of one of the variants.
pub open spec fn variant_serializable<T: Variants>(m: Model, root: u16) -> bool {
    match T::resolve(root) {
        Some(local) => local >= 1 && variant_index(
            T::shapes(),
            tag_of(m),
            T::shapes().len() as int,
        ) is Some,
        None => false,
    }
}

/// What is written for a value at schema version `local`: the value itself
/// where its variant exists at that version, and else what the function
/// named by its variant gives in its place.
pub open spec fn written_variant<T: Variants>(m: Model, local: u16) -> Model {
    match variant_index(T::shapes(), tag_of(m), T::shapes().len() as int) {
        Some(k) => if T::shapes()[k].exists_at(local) {
            m
        } else {
            T::substitute(m, local)
        },
        None => m,
    }
}

/// The bytes of a value of a variant type for root version `root`.
pub open spec fn encode_variant<T: Variants>(m: Model, root: u16) -> Seq<u8> {
    match T::resolve(root) {
        Some(local) => T::fixed_encode(written_variant::<T>(m, local)),
        None => Seq::empty(),
    }
}

/// What is written for a value of a known variant, for any version from 1
/// on, is of a variant that exists at that version.
pub proof fn law_written_variant_exists<T: Variants>(m: Model, local: u16)
    requires
        local >= 1,
        variant_index(T::shapes(), tag_of(m), T::shapes().len() as int) is Some,
    ensures
        variant_index(
            T::shapes(),
            tag_of(written_variant::<T>(m, local)),
            T::shapes().len() as int,
        ) matches Some(j) && T::shapes()[j].exists_at(local),
{
    let k = variant_index(T::shapes(), tag_of(m), T::shapes().len() as int).unwrap();
    if !T::shapes()[k].exists_at(local) {
        T::lemma_substitute_exists(m, local);
    }
}

/// A variant found among the first variants is the variant found among all.
pub proof fn lemma_variant_index_stays(shapes: Seq<VariantShape>, tag: int, k: int, upto: int)
    requires
        0 <= k <= upto,
        variant_index(shapes, tag, k) is Some,
    ensures
        variant_index(shapes, tag, upto) == variant_index(shapes, tag, k),
    decreases upto,
{
    if k < upto {
        lemma_variant_index_stays(shapes, tag, k, upto - 1);
    }
}

/// Writes a value of a variant type for root version `root`.
///
/// This succeeds exactly if the value can be written for that root version
/// and the bytes fit into `writer`.
pub fn serialize_variant<T: Variants>(value: &T, writer: &mut Writer, root: u16) -> (r: Result<
    (),
    Error,
>)
    ensures
        final(writer).limit() == old(writer).limit(),
        old(writer)@.is_prefix_of(final(writer)@),
        r is Ok <==> variant_serializable::<T>(value.model(), root) && old(writer).fits(
            encode_variant::<T>(value.model(), root).len(),
        ),
        r is Ok ==> final(writer)@ == old(writer)@ + encode_variant::<T>(value.model(), root),
        r is Err ==> r matches Err(Error::Serialize(_)),
{
    let descriptor = T::descriptor();
    let local: u16 = match T::local_version(root) {
        Some(local) => local,
        None => {
            return Err(Error::Serialize(String::from_str("unknown root version")));
        },
    };
    if local == 0 {
        return Err(Error::Serialize(String::from_str("version 0 is no version")));
    }
    let tag = value.discriminant();
    let count: usize = descriptor.fields.len();
    let mut k: usize = 0;
    while k < count
        invariant
            k <= count,
            count == descriptor.fields@.len(),
            variant_shapes_of(descriptor.fields@) == T::shapes(),
            tag == tag_of(value.model()),
            variant_index(T::shapes(), tag as int, k as int) is None,
            T::resolve(root) == Some(local),
            local >= 1,
            writer.limit() == old(writer).limit(),
            writer@ == old(writer)@,
        decreases count - k,
    {
        assert(T::shapes()[k as int] == variant_shape_of(descriptor.fields@[k as int]));
        if descriptor.fields[k].discriminant == tag {
            proof {
                lemma_variant_index_stays(T::shapes(), tag as int, k + 1, count as int);
                T::lemma_representable();
                assert(T::shapes()[k as int].exists_at(local) || T::shapes()[k as int].has_default_fn);
            }
            return match descriptor.fields[k].generate_serializer(local) {
                Ok(VariantSerializer::Direct) => value.write(writer),
                Ok(VariantSerializer::Substitute) => {
                    let variant = value.default_variant(local);
                    variant.write(writer)
                },
                Err(_) => {
                    assert(false);
                    Err(Error::Serialize(String::from_str("missing default")))
                },
            };
        }
        k += 1;
    }
    Err(Error::Serialize(String::from_str("unknown variant")))
}

/// Reads a value of a variant type. The root version plays no part: the
/// value is read as the variant that was written.
pub fn deserialize_variant<T: Variants>(reader: &mut Reader, root: u16) -> (r: Result<T, Error>)
    ensures
        match T::fixed_decode(old(reader)@) {
            Some((m, n)) => r is Ok && r.unwrap().model() == m && final(reader)@ == old(
                reader,
            )@.skip(n as int),
            None => r matches Err(Error::Deserialize(_)),
        },
{
    T::read(reader)
}

} // verus!
