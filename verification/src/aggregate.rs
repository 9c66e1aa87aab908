//! Aggregates: values made of members, each with a range of schema versions
//! at which it exists.
//!
//! An aggregate is written for a root version in three steps. The root
//! version is resolved to the schema version of the type. On a working copy
//! of the value, each member that does not exist at that schema version and
//! names a function for this case has that function called, in the order of
//! declaration. Then the members that exist at that schema version are
//! written, in the order of declaration; nothing stands for the others.
//!
//! Reading goes the other way: the members that existed are read in the
//! order of declaration, the others get the value of the function that their
//! declaration names or keep the default value of their type; then each
//! member that did not exist and names a function for this case has that
//! function called on the value.

use vstd::prelude::*;
use vstd::string::*;
use crate::descriptors::{field_fault, lemma_no_fault, StructDescriptor};
use crate::error::Error;
use crate::fields::{
    spec_exists_at, FieldAttributes, FieldDeserializer, FieldSerializer, FieldType, StructField,
};
use crate::model::Model;
use crate::stream::{Reader, Writer};

verus! {

/// What the algorithm reads of a field.
pub struct FieldShape {
    /// The first version at which the field exists.
    pub start_version: u16,
    /// The first version at which the field does not exist any more, or 0.
    pub end_version: u16,
    /// Whether the declaration names a function that gives the value of the
    /// field where it does not exist.
    pub has_default_fn: bool,
    /// Whether the declaration names a function to call before writing.
    pub has_semantic_ser_fn: bool,
    /// Whether the declaration names a function to call after reading.
    pub has_semantic_de_fn: bool,
}

impl FieldShape {
    /// Whether the field exists at `version`.
    pub open spec fn exists_at(self, version: u16) -> bool {
        spec_exists_at(self.start_version, self.end_version, version)
    }

    /// Whether a function is called for the field before a value is written for `version`.
    pub open spec fn calls_semantic_serializer(self, version: u16) -> bool {
        !self.exists_at(version) && self.has_semantic_ser_fn
    }

    /// Whether a function is called for the field after a value was read from `version`.
    pub open spec fn calls_semantic_deserializer(self, version: u16) -> bool {
        !self.exists_at(version) && self.has_semantic_de_fn
    }
}

/// What the algorithm reads of `field`.
pub open spec fn shape_of(field: StructField) -> FieldShape {
    FieldShape {
        start_version: field.start_version,
        end_version: field.end_version,
        has_default_fn: field.attrs.default_fn is Some,
        has_semantic_ser_fn: field.attrs.semantic_ser_fn is Some,
        has_semantic_de_fn: field.attrs.semantic_de_fn is Some,
    }
}

/// What the algorithm reads of `fields`.
pub open spec fn shapes_of(fields: Seq<StructField>) -> Seq<FieldShape> {
    Seq::new(fields.len(), |i: int| shape_of(fields[i]))
}

/// The shape of a field that exists at every version and names no function.
pub open spec fn plain_shape() -> FieldShape {
    FieldShape {
        start_version: 1,
        end_version: 0,
        has_default_fn: false,
        has_semantic_ser_fn: false,
        has_semantic_de_fn: false,
    }
}

/// A field of a type given by a path, which exists at every version and
/// names no function.
pub fn plain_field(name: &str) -> (r: StructField)
    ensures
        r.name@ == name@,
        r.ty == FieldType::Path,
        shape_of(r) == plain_shape(),
        field_fault(r) is None,
{
    StructField::new(1, String::from_str(name), FieldType::Path, FieldAttributes::none())
}

/// A type made of members that are written and read one by one.
///
/// The type describes its members (`descriptor`), resolves a root version to
/// its own schema version (`local_version`), and does for the member at a
/// given index what the algorithm asks for.
pub trait Aggregate: Sized {
    /// The members of the type, in the order of their declaration.
    spec fn shapes() -> Seq<FieldShape>;

    /// The schema version of the type at root version `root`; `None` for a
    /// root version that is not known.
    spec fn resolve(root: u16) -> Option<u16>;

    /// What the members of the value are.
    spec fn members(&self) -> Seq<Model>;

    /// What the members of a value are that was made with nothing read yet.
    spec fn blank_members() -> Seq<Model>;

    /// Whether the member at `index` can be written for root version `root`.
    spec fn member_serializable(index: int, m: Model, root: u16) -> bool;

    /// The bytes of the member at `index` for root version `root`.
    spec fn member_encode(index: int, m: Model, root: u16) -> Seq<u8>;

    /// The member at `index` at the front of `bytes`, as written for root
    /// version `root`, and the number of bytes that it takes.
    spec fn member_decode(index: int, bytes: Seq<u8>, root: u16) -> Option<(Model, nat)>;

    /// The value that the member at `index` gets where it did not exist at
    /// schema version `local`, if its declaration names a function for that.
    spec fn member_default(index: int, local: u16) -> Model;

    /// What the function that the member at `index` names for writing makes
    /// of the members; `None` where it fails.
    spec fn hook_serialize(index: int, members: Seq<Model>, local: u16) -> Option<Seq<Model>>;

    /// What the function that the member at `index` names for reading makes
    /// of the members; `None` where it fails.
    spec fn hook_deserialize(index: int, members: Seq<Model>, local: u16) -> Option<Seq<Model>>;

    /// A value has as many members as the type declares, and so has a blank one.
    proof fn lemma_member_count(&self)
        ensures
            self.members().len() == Self::shapes().len(),
            Self::blank_members().len() == Self::shapes().len(),
    ;

    /// A member takes no more bytes than there are.
    proof fn lemma_member_decode_bound(index: int, bytes: Seq<u8>, root: u16)
        ensures
            Self::member_decode(index, bytes, root) matches Some((_, n)) ==> n <= bytes.len(),
    ;

    /// The description of the type: one that no field of has a fault.
    fn descriptor() -> (r: StructDescriptor)
        ensures
            r.wf(),
            shapes_of(r.fields@) == Self::shapes(),
    ;

    /// The schema version of the type at root version `root`; `None` for a
    /// root version that is not known.
    fn local_version(root: u16) -> (r: Option<u16>)
        ensures
            r == Self::resolve(root),
    ;

    /// A value with nothing read yet: every member has the default value of its type.
    fn blank() -> (r: Self)
        ensures
            r.members() == Self::blank_members(),
    ;

    /// A copy of the value, which the functions named for writing may change.
    fn working_copy(&self) -> (r: Self)
        ensures
            r.members() == self.members(),
    ;

    /// Writes the member at `index` for root version `root`.
    fn serialize_member(&self, index: usize, writer: &mut Writer, root: u16) -> (r: Result<
        (),
        Error,
    >)
        requires
            index < Self::shapes().len(),
        ensures
            final(writer).limit() == old(writer).limit(),
            old(writer)@.is_prefix_of(final(writer)@),
            r is Ok <==> Self::member_serializable(
                index as int,
                self.members()[index as int],
                root,
            ) && old(writer).fits(
                Self::member_encode(index as int, self.members()[index as int], root).len(),
            ),
            r is Ok ==> final(writer)@ == old(writer)@ + Self::member_encode(
                index as int,
                self.members()[index as int],
                root,
            ),
            r is Err ==> r matches Err(Error::Serialize(_)),
    ;

    /// Reads the member at `index`, as written for root version `root`, into the value.
    fn deserialize_member(&mut self, index: usize, reader: &mut Reader, root: u16) -> (r: Result<
        (),
        Error,
    >)
        requires
            index < Self::shapes().len(),
        ensures
            match Self::member_decode(index as int, old(reader)@, root) {
                Some((m, n)) => r is Ok && final(self).members() == old(self).members().update(
                    index as int,
                    m,
                ) && final(reader)@ == old(reader)@.skip(n as int),
                None => r matches Err(Error::Deserialize(_)),
            },
    ;

    /// Gives the member at `index` the value that the function named in its
    /// declaration has for schema version `local`.
    fn default_member(&mut self, index: usize, local: u16)
        requires
            index < Self::shapes().len(),
        ensures
            Self::shapes()[index as int].has_default_fn ==> final(self).members() == old(self).members().update(index as int, Self::member_default(index as int, local)),
    ;

    /// Calls the function that the member at `index` names for writing.
    /// For a member that names none, nothing is done: the call succeeds and
    /// the members are as they were.
    fn semantic_serialize(&mut self, index: usize, local: u16) -> (r: Result<(), Error>)
        requires
            index < Self::shapes().len(),
        ensures
            Self::shapes()[index as int].has_semantic_ser_fn ==> match Self::hook_serialize(
                index as int,
                old(self).members(),
                local,
            ) {
                Some(members) => r is Ok && final(self).members() == members,
                None => r matches Err(Error::Serialize(_)),
            },
            !Self::shapes()[index as int].has_semantic_ser_fn ==> r is Ok && final(self).members()
                == old(self).members(),
    ;

    /// Calls the function that the member at `index` names for reading.
    /// For a member that names none, nothing is done: the call succeeds and
    /// the members are as they were.
    fn semantic_deserialize(&mut self, index: usize, local: u16) -> (r: Result<(), Error>)
        requires
            index < Self::shapes().len(),
        ensures
            Self::shapes()[index as int].has_semantic_de_fn ==> match Self::hook_deserialize(
                index as int,
                old(self).members(),
                local,
            ) {
                Some(members) => r is Ok && final(self).members() == members,
                None => r matches Err(Error::Deserialize(_)),
            },
            !Self::shapes()[index as int].has_semantic_de_fn ==> r is Ok && final(self).members()
                == old(self).members(),
    ;
}

/// The members after the functions for writing of the first `upto` members
/// were called, in the order of declaration; `None` where one of them fails.
pub open spec fn serialize_hooks<T: Aggregate>(members: Seq<Model>, local: u16, upto: int) -> Option<
    Seq<Model>,
>
    decreases upto,
{
    if upto <= 0 {
        Some(members)
    } else {
        match serialize_hooks::<T>(members, local, upto - 1) {
            Some(before) => if T::shapes()[upto - 1].calls_semantic_serializer(local) {
                T::hook_serialize(upto - 1, before, local)
            } else {
                Some(before)
            },
            None => None,
        }
    }
}

/// The bytes of those of the first `upto` members that exist at schema
/// version `local`, in the order of declaration.
pub open spec fn encode_members<T: Aggregate>(
    members: Seq<Model>,
    local: u16,
    root: u16,
    upto: int,
) -> Seq<u8>
    decreases upto,
{
    if upto <= 0 {
        Seq::empty()
    } else if T::shapes()[upto - 1].exists_at(local) {
        encode_members::<T>(members, local, root, upto - 1) + T::member_encode(
            upto - 1,
            members[upto - 1],
            root,
        )
    } else {
        encode_members::<T>(members, local, root, upto - 1)
    }
}

/// Whether each of the first `upto` members that exists at schema version
/// `local` can be written.
pub open spec fn members_serializable<T: Aggregate>(
    members: Seq<Model>,
    local: u16,
    root: u16,
    upto: int,
) -> bool {
    forall|i: int|
        0 <= i < upto && (#[trigger] T::shapes()[i]).exists_at(local) ==> T::member_serializable(
            i,
            members[i],
            root,
        )
}

/// Whether an aggregate can be written for schema version `local`: the
/// functions for writing succeed, and then every member that exists can be
/// written.
pub open spec fn aggregate_serializable_at<T: Aggregate>(m: Model, local: u16, root: u16) -> bool {
    match m {
        Model::Record(members) => match serialize_hooks::<T>(
            members,
            local,
            T::shapes().len() as int,
        ) {
            Some(changed) => members_serializable::<T>(changed, local, root, T::shapes().len() as int),
            None => false,
        },
        _ => true,
    }
}

/// Whether an aggregate can be written for root version `root`: the root
/// version is known, and the aggregate can be written for the schema version
/// of its type at that root version.
pub open spec fn aggregate_serializable<T: Aggregate>(m: Model, root: u16) -> bool {
    match T::resolve(root) {
        Some(local) => aggregate_serializable_at::<T>(m, local, root),
        None => false,
    }
}

/// The bytes of an aggregate for schema version `local`.
pub open spec fn encode_aggregate_at<T: Aggregate>(m: Model, local: u16, root: u16) -> Seq<u8> {
    match m {
        Model::Record(members) => match serialize_hooks::<T>(
            members,
            local,
            T::shapes().len() as int,
        ) {
            Some(changed) => encode_members::<T>(changed, local, root, T::shapes().len() as int),
            None => Seq::empty(),
        },
        _ => Seq::empty(),
    }
}

/// The bytes of an aggregate for root version `root`.
pub open spec fn encode_aggregate<T: Aggregate>(m: Model, root: u16) -> Seq<u8> {
    match T::resolve(root) {
        Some(local) => encode_aggregate_at::<T>(m, local, root),
        None => Seq::empty(),
    }
}

/// The members of a value after the first `upto` members were read or given
/// their value, and the number of bytes read; `None` where a member that
/// existed cannot be read.
pub open spec fn decode_members<T: Aggregate>(
    bytes: Seq<u8>,
    local: u16,
    root: u16,
    upto: int,
) -> Option<(Seq<Model>, nat)>
    decreases upto,
{
    if upto <= 0 {
        Some((T::blank_members(), 0))
    } else {
        match decode_members::<T>(bytes, local, root, upto - 1) {
            Some((members, taken)) => if T::shapes()[upto - 1].exists_at(local) {
                match T::member_decode(upto - 1, bytes.skip(taken as int), root) {
                    Some((m, width)) => Some((members.update(upto - 1, m), taken + width)),
                    None => None,
                }
            } else if T::shapes()[upto - 1].has_default_fn {
                Some((members.update(upto - 1, T::member_default(upto - 1, local)), taken))
            } else {
                Some((members, taken))
            },
            None => None,
        }
    }
}

/// The members after the functions for reading of the first `upto` members
/// were called, in the order of declaration; `None` where one of them fails.
pub open spec fn deserialize_hooks<T: Aggregate>(members: Seq<Model>, local: u16, upto: int) -> Option<
    Seq<Model>,
>
    decreases upto,
{
    if upto <= 0 {
        Some(members)
    } else {
        match deserialize_hooks::<T>(members, local, upto - 1) {
            Some(before) => if T::shapes()[upto - 1].calls_semantic_deserializer(local) {
                T::hook_deserialize(upto - 1, before, local)
            } else {
                Some(before)
            },
            None => None,
        }
    }
}

/// The aggregate at the front of `bytes`, as written for schema version `local`.
pub open spec fn decode_aggregate_at<T: Aggregate>(bytes: Seq<u8>, local: u16, root: u16) -> Option<
    (Model, nat),
> {
    match decode_members::<T>(bytes, local, root, T::shapes().len() as int) {
        Some((members, taken)) => match deserialize_hooks::<T>(
            members,
            local,
            T::shapes().len() as int,
        ) {
            Some(changed) => Some((Model::Record(changed), taken)),
            None => None,
        },
        None => None,
    }
}

/// The aggregate at the front of `bytes`, as written for root version
/// `root`; `None` where the root version is not known.
pub open spec fn decode_aggregate<T: Aggregate>(bytes: Seq<u8>, root: u16) -> Option<(Model, nat)> {
    match T::resolve(root) {
        Some(local) => decode_aggregate_at::<T>(bytes, local, root),
        None => None,
    }
}

/// Where a function for writing fails among the first members, the functions fail as a whole.
pub proof fn lemma_serialize_hooks_fail<T: Aggregate>(
    members: Seq<Model>,
    local: u16,
    k: int,
    upto: int,
)
    requires
        0 <= k <= upto,
        serialize_hooks::<T>(members, local, k) is None,
    ensures
        serialize_hooks::<T>(members, local, upto) is None,
    decreases upto,
{
    if k < upto {
        lemma_serialize_hooks_fail::<T>(members, local, k, upto - 1);
    }
}

/// Where a function for reading fails among the first members, the functions fail as a whole.
pub proof fn lemma_deserialize_hooks_fail<T: Aggregate>(
    members: Seq<Model>,
    local: u16,
    k: int,
    upto: int,
)
    requires
        0 <= k <= upto,
        deserialize_hooks::<T>(members, local, k) is None,
    ensures
        deserialize_hooks::<T>(members, local, upto) is None,
    decreases upto,
{
    if k < upto {
        lemma_deserialize_hooks_fail::<T>(members, local, k, upto - 1);
    }
}

/// Where one of the first members cannot be read, the members cannot be read as a whole.
pub proof fn lemma_decode_members_fail<T: Aggregate>(
    bytes: Seq<u8>,
    local: u16,
    root: u16,
    k: int,
    upto: int,
)
    requires
        0 <= k <= upto,
        decode_members::<T>(bytes, local, root, k) is None,
    ensures
        decode_members::<T>(bytes, local, root, upto) is None,
    decreases upto,
{
    if k < upto {
        lemma_decode_members_fail::<T>(bytes, local, root, k, upto - 1);
    }
}

/// The members read take no more bytes than there are, and their number stays.
pub proof fn lemma_decode_members_bound<T: Aggregate>(
    bytes: Seq<u8>,
    local: u16,
    root: u16,
    upto: int,
)
    requires
        upto <= T::shapes().len(),
        T::blank_members().len() == T::shapes().len(),
    ensures
        decode_members::<T>(bytes, local, root, upto) matches Some((members, taken)) ==> taken
            <= bytes.len() && members.len() == T::shapes().len(),
    decreases upto,
{
    if upto > 0 {
        lemma_decode_members_bound::<T>(bytes, local, root, upto - 1);
        match decode_members::<T>(bytes, local, root, upto - 1) {
            Some((members, taken)) => {
                T::lemma_member_decode_bound(upto - 1, bytes.skip(taken as int), root);
            },
            None => {},
        }
    }
}

/// The bytes of the first members are no more than the bytes of all members.
pub proof fn lemma_encode_members_grows<T: Aggregate>(
    members: Seq<Model>,
    local: u16,
    root: u16,
    k: int,
    upto: int,
)
    requires
        0 <= k <= upto,
    ensures
        encode_members::<T>(members, local, root, k).len() <= encode_members::<T>(
            members,
            local,
            root,
            upto,
        ).len(),
    decreases upto,
{
    if k < upto {
        lemma_encode_members_grows::<T>(members, local, root, k, upto - 1);
    }
}

/// Writes an aggregate for root version `root`.
pub fn serialize_aggregate<T: Aggregate>(value: &T, writer: &mut Writer, root: u16) -> (r: Result<
    (),
    Error,
>)
    ensures
        final(writer).limit() == old(writer).limit(),
        old(writer)@.is_prefix_of(final(writer)@),
        r is Ok <==> aggregate_serializable::<T>(Model::Record(value.members()), root) && old(
            writer,
        ).fits(encode_aggregate::<T>(Model::Record(value.members()), root).len()),
        r is Ok ==> final(writer)@ == old(writer)@ + encode_aggregate::<T>(
            Model::Record(value.members()),
            root,
        ),
        r is Err ==> r matches Err(Error::Serialize(_)),
{
    let descriptor = T::descriptor();
    let local: u16 = match T::local_version(root) {
        Some(local) => local,
        None => {
            return Err(Error::Serialize(String::from_str("unknown root version")));
        },
    };
    let count: usize = descriptor.fields.len();
    let ghost given = value.members();
    let mut copy_of_self = value.working_copy();
    let mut i: usize = 0;
    while i < count
        invariant
            i <= count,
            count == descriptor.fields@.len(),
            shapes_of(descriptor.fields@) == T::shapes(),
            T::resolve(root) == Some(local),
            given == value.members(),
            serialize_hooks::<T>(given, local, i as int) == Some(copy_of_self.members()),
        decreases count - i,
    {
        assert(T::shapes()[i as int] == shape_of(descriptor.fields@[i as int]));
        match descriptor.fields[i].generate_semantic_serializer(local) {
            Some(semantic_ser_fn) => {
                match copy_of_self.semantic_serialize(i, local) {
                    Ok(()) => {},
                    Err(err) => {
                        proof {
                            lemma_serialize_hooks_fail::<T>(
                                given,
                                local,
                                i + 1,
                                count as int,
                            );
                        }
                        return Err(err);
                    },
                }
            },
            None => {},
        }
        i += 1;
    }
    let ghost changed = copy_of_self.members();
    proof {
        writer.lemma_within_limit();
    }
    i = 0;
    assert(writer@ =~= old(writer)@ + encode_members::<T>(changed, local, root, 0));
    while i < count
        invariant
            i <= count,
            count == descriptor.fields@.len(),
            descriptor.wf(),
            shapes_of(descriptor.fields@) == T::shapes(),
            changed == copy_of_self.members(),
            T::resolve(root) == Some(local),
            given == value.members(),
            serialize_hooks::<T>(given, local, count as int) == Some(changed),
            writer.limit() == old(writer).limit(),
            writer@ == old(writer)@ + encode_members::<T>(changed, local, root, i as int),
            old(writer).fits(encode_members::<T>(changed, local, root, i as int).len()),
            members_serializable::<T>(changed, local, root, i as int),
        decreases count - i,
    {
        assert(T::shapes()[i as int] == shape_of(descriptor.fields@[i as int]));
        proof {
            lemma_no_fault(descriptor.fields@, i as int);
            lemma_encode_members_grows::<T>(changed, local, root, i + 1, count as int);
        }
        match descriptor.fields[i].generate_serializer(local) {
            Ok(FieldSerializer::Omitted) => {},
            Ok(_) => {
                match copy_of_self.serialize_member(i, writer, root) {
                    Ok(()) => {
                        assert(writer@ =~= old(writer)@ + encode_members::<T>(
                            changed,
                            local,
                            root,
                            i + 1,
                        ));
                    },
                    Err(err) => {
                        proof {
                            if members_serializable::<T>(changed, local, root, count as int) {
                                assert(T::shapes()[i as int].exists_at(local));
                            }
                        }
                        return Err(err);
                    },
                }
            },
            Err(_) => {
                assert(false);
                return Err(Error::Serialize(String::from_str("unsupported field type")));
            },
        }
        i += 1;
    }
    Ok(())
}

/// Reads an aggregate that was written for root version `root`.
pub fn deserialize_aggregate<T: Aggregate>(reader: &mut Reader, root: u16) -> (r: Result<T, Error>)
    ensures
        match decode_aggregate::<T>(old(reader)@, root) {
            Some((m, n)) => r is Ok && Model::Record(r.unwrap().members()) == m && final(reader)@
                == old(reader)@.skip(n as int),
            None => r matches Err(Error::Deserialize(_)),
        },
{
    let descriptor = T::descriptor();
    let local: u16 = match T::local_version(root) {
        Some(local) => local,
        None => {
            return Err(Error::Deserialize(String::from_str("unknown root version")));
        },
    };
    let count: usize = descriptor.fields.len();
    let ghost start = reader@;
    let ghost taken: nat = 0;
    let mut object = T::blank();
    let mut i: usize = 0;
    assert(start.skip(0) =~= start);
    proof {
        object.lemma_member_count();
    }
    while i < count
        invariant
            i <= count,
            count == descriptor.fields@.len(),
            descriptor.wf(),
            shapes_of(descriptor.fields@) == T::shapes(),
            T::blank_members().len() == T::shapes().len(),
            T::resolve(root) == Some(local),
            start == old(reader)@,
            decode_members::<T>(start, local, root, i as int) == Some((object.members(), taken)),
            reader@ == start.skip(taken as int),
            taken <= start.len(),
        decreases count - i,
    {
        assert(T::shapes()[i as int] == shape_of(descriptor.fields@[i as int]));
        proof {
            lemma_no_fault(descriptor.fields@, i as int);
            T::lemma_member_decode_bound(i as int, start.skip(taken as int), root);
        }
        match descriptor.fields[i].generate_deserializer(local) {
            Ok(FieldDeserializer::DefaultFn) => {
                object.default_member(i, local);
            },
            Ok(FieldDeserializer::DefaultValue) => {},
            Ok(_) => {
                match object.deserialize_member(i, reader, root) {
                    Ok(()) => {
                        proof {
                            let width = T::member_decode(
                                i as int,
                                start.skip(taken as int),
                                root,
                            ).unwrap().1;
                            assert(start.skip(taken as int).skip(width as int) =~= start.skip(
                                (taken + width) as int,
                            ));
                            taken = taken + width;
                        }
                    },
                    Err(err) => {
                        proof {
                            lemma_decode_members_fail::<T>(
                                start,
                                local,
                                root,
                                i + 1,
                                count as int,
                            );
                        }
                        return Err(err);
                    },
                }
            },
            Err(_) => {
                assert(false);
                return Err(Error::Deserialize(String::from_str("unsupported field type")));
            },
        }
        i += 1;
    }
    let ghost read = object.members();
    i = 0;
    while i < count
        invariant
            i <= count,
            count == descriptor.fields@.len(),
            shapes_of(descriptor.fields@) == T::shapes(),
            T::resolve(root) == Some(local),
            start == old(reader)@,
            decode_members::<T>(start, local, root, count as int) == Some((read, taken)),
            reader@ == start.skip(taken as int),
            deserialize_hooks::<T>(read, local, i as int) == Some(object.members()),
        decreases count - i,
    {
        assert(T::shapes()[i as int] == shape_of(descriptor.fields@[i as int]));
        match descriptor.fields[i].generate_semantic_deserializer(local) {
            Some(semantic_de_fn) => {
                match object.semantic_deserialize(i, local) {
                    Ok(()) => {},
                    Err(err) => {
                        proof {
                            lemma_deserialize_hooks_fail::<T>(read, local, i + 1, count as int);
                        }
                        return Err(err);
                    },
                }
            },
            None => {},
        }
        i += 1;
    }
    Ok(object)
}

/// Whether the member at `index` is read back as it was written, whatever follows its bytes.
pub open spec fn member_round_trips<T: Aggregate>(index: int, m: Model, root: u16) -> bool {
    forall|rest: Seq<u8>|
        T::member_decode(index, #[trigger] (T::member_encode(index, m, root) + rest), root) == Some(
            (m, T::member_encode(index, m, root).len()),
        )
}

/// What is read back of members that were written for schema version
/// `local`, as far as the first `upto` members go: a member that exists at
/// that version is as it was written; one that does not has the value of the
/// function that its declaration names, or the default value of its type.
/// The members from `upto` on have the default values of their types.
pub open spec fn projected<T: Aggregate>(members: Seq<Model>, local: u16, upto: int) -> Seq<Model> {
    Seq::new(
        T::shapes().len(),
        |i: int|
            if i >= upto {
                T::blank_members()[i]
            } else if T::shapes()[i].exists_at(local) {
                members[i]
            } else if T::shapes()[i].has_default_fn {
                T::member_default(i, local)
            } else {
                T::blank_members()[i]
            },
    )
}

/// The bytes of an aggregate do not depend on the members that do not exist
/// at the schema version written for: nothing is written for them.
pub proof fn law_absent_members_not_written<T: Aggregate>(
    a: Seq<Model>,
    b: Seq<Model>,
    local: u16,
    root: u16,
    upto: int,
)
    requires
        forall|i: int| 0 <= i < upto && (#[trigger] T::shapes()[i]).exists_at(local) ==> a[i] == b[i],
    ensures
        encode_members::<T>(a, local, root, upto) == encode_members::<T>(b, local, root, upto),
    decreases upto,
{
    if upto > 0 {
        law_absent_members_not_written::<T>(a, b, local, root, upto - 1);
        if T::shapes()[upto - 1].exists_at(local) {
            assert(a[upto - 1] == b[upto - 1]);
        }
    }
}

/// Members that are written for a schema version and read from it come back
/// as `projected` says, and reading takes exactly the bytes that were
/// written, whatever follows them.
pub proof fn lemma_members_round_trip<T: Aggregate>(
    members: Seq<Model>,
    local: u16,
    root: u16,
    upto: int,
    rest: Seq<u8>,
)
    requires
        0 <= upto <= T::shapes().len(),
        T::blank_members().len() == T::shapes().len(),
        forall|i: int|
            0 <= i < upto && (#[trigger] T::shapes()[i]).exists_at(local) ==> member_round_trips::<T>(
                i,
                members[i],
                root,
            ),
    ensures
        decode_members::<T>(encode_members::<T>(members, local, root, upto) + rest, local, root, upto)
            == Some(
            (projected::<T>(members, local, upto), encode_members::<T>(members, local, root, upto).len()),
        ),
    decreases upto,
{
    if upto == 0 {
        assert(projected::<T>(members, local, 0) =~= T::blank_members());
    } else {
        let i = upto - 1;
        let front = encode_members::<T>(members, local, root, i);
        let before = projected::<T>(members, local, i);
        if T::shapes()[i].exists_at(local) {
            let own = T::member_encode(i, members[i], root);
            lemma_members_round_trip::<T>(members, local, root, i, own + rest);
            let all = encode_members::<T>(members, local, root, upto) + rest;
            assert(all =~= front + (own + rest));
            assert(all.skip(front.len() as int) =~= own + rest);
            assert(member_round_trips::<T>(i, members[i], root));
            assert(before.update(i, members[i]) =~= projected::<T>(members, local, upto));
        } else {
            lemma_members_round_trip::<T>(members, local, root, i, rest);
            if T::shapes()[i].has_default_fn {
                assert(before.update(i, T::member_default(i, local)) =~= projected::<T>(
                    members,
                    local,
                    upto,
                ));
            } else {
                assert(before =~= projected::<T>(members, local, upto));
            }
        }
    }
}

/// An aggregate that is written for a root version and read from it comes
/// back as follows. The functions for writing are applied to its members;
/// of what they leave, the members that exist at the schema version come
/// back as they were, and the others come back with the value of the
/// function that their declaration names, or with the default value of their
/// type; to that, the functions for reading are applied. Reading takes
/// exactly the bytes that were written, whatever follows them.
///
/// This holds where the root version is known, the functions for writing
/// succeed and each member that exists at the schema version is read back as
/// written.
pub proof fn law_aggregate_round_trip<T: Aggregate>(
    members: Seq<Model>,
    root: u16,
    local: u16,
    rest: Seq<u8>,
)
    requires
        T::resolve(root) == Some(local),
        T::blank_members().len() == T::shapes().len(),
        serialize_hooks::<T>(members, local, T::shapes().len() as int) is Some,
        forall|i: int|
            0 <= i < T::shapes().len() && (#[trigger] T::shapes()[i]).exists_at(local)
                ==> member_round_trips::<T>(
                i,
                serialize_hooks::<T>(members, local, T::shapes().len() as int).unwrap()[i],
                root,
            ),
    ensures
        decode_aggregate::<T>(encode_aggregate::<T>(Model::Record(members), root) + rest, root)
            == match deserialize_hooks::<T>(
            projected::<T>(
                serialize_hooks::<T>(members, local, T::shapes().len() as int).unwrap(),
                local,
                T::shapes().len() as int,
            ),
            local,
            T::shapes().len() as int,
        ) {
            Some(changed) => Some(
                (
                    Model::Record(changed),
                    encode_aggregate::<T>(Model::Record(members), root).len(),
                ),
            ),
            None => None,
        },
{
    let count = T::shapes().len() as int;
    let written = serialize_hooks::<T>(members, local, count).unwrap();
    lemma_members_round_trip::<T>(written, local, root, count, rest);
}

/// A member that did not exist at the schema version that was read from has
/// the value of the function that its declaration names, or the default
/// value of its type where it names none, before the functions for reading
/// are applied.
pub proof fn law_absent_member_gets_default<T: Aggregate>(
    bytes: Seq<u8>,
    local: u16,
    root: u16,
    upto: int,
    index: int,
)
    requires
        0 <= index < upto <= T::shapes().len(),
        T::blank_members().len() == T::shapes().len(),
        !T::shapes()[index].exists_at(local),
        decode_members::<T>(bytes, local, root, upto) is Some,
    ensures
        decode_members::<T>(bytes, local, root, upto).unwrap().0[index] == (if T::shapes()[index].has_default_fn {
            T::member_default(index, local)
        } else {
            T::blank_members()[index]
        }),
    decreases upto,
{
    lemma_decode_members_bound::<T>(bytes, local, root, upto - 1);
    if index < upto - 1 {
        law_absent_member_gets_default::<T>(bytes, local, root, upto - 1, index);
    } else {
        lemma_decode_members_untouched::<T>(bytes, local, root, upto - 1, index);
    }
}

/// The members that were not reached yet have the default values of their types.
pub proof fn lemma_decode_members_untouched<T: Aggregate>(
    bytes: Seq<u8>,
    local: u16,
    root: u16,
    upto: int,
    index: int,
)
    requires
        0 <= upto <= index < T::shapes().len(),
        T::blank_members().len() == T::shapes().len(),
        decode_members::<T>(bytes, local, root, upto) is Some,
    ensures
        decode_members::<T>(bytes, local, root, upto).unwrap().0[index] == T::blank_members()[index],
    decreases upto,
{
    if upto > 0 {
        lemma_decode_members_bound::<T>(bytes, local, root, upto - 1);
        lemma_decode_members_untouched::<T>(bytes, local, root, upto - 1, index);
    }
}

} // verus!
