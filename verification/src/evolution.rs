//! Small types whose schema changed over time: an aggregate that gained a
//! member, an aggregate that lost a member and keeps what it held in
//! another, and a variant type that lost a variant.

use vstd::prelude::*;
use vstd::string::*;
use crate::aggregate::{
    aggregate_serializable, decode_aggregate, deserialize_aggregate, encode_aggregate,
    encode_members, law_aggregate_round_trip, lemma_decode_members_bound, member_round_trips, plain_field,
    plain_shape, projected, serialize_aggregate, serialize_hooks, deserialize_hooks, shapes_of,
    Aggregate, FieldShape,
};
use crate::descriptors::{
    lemma_no_faults, lemma_none_rejected, EnumDescriptor, StructDescriptor, VariantDeclaration,
};
use crate::error::Error;
use crate::fields::{Discriminant, FieldAttributes, FieldType, StructField};
use crate::model::{lemma_pow256_values, Model};
use crate::primitives::{lemma_unsigned_round_trip};
use crate::stream::{Reader, Writer};
use crate::variants::{
    deserialize_variant, encode_variant, serialize_variant, tag_of, variant_index,
    variant_serializable, variant_shapes_of, VariantShape, Variants,
};
use crate::version_map::{resolve, VersionMap};
use crate::versionize::Versionize;

verus! {

/// The value of `y` in a pair that was written before the member existed.
pub const DEFAULT_Y: u16 = 321;

/// A pair of numbers. The member `y` came with schema version 2; the type
/// has schema version 1 at root version 1 and schema version 2 at root
/// version 2.
#[derive(Default, Debug, Clone, PartialEq)]
pub struct Pair {
    /// A number that every version has.
    pub x: u32,
    /// A number that exists from version 2 on.
    pub y: u16,
}

/// What the ledger of schema versions records for `Pair`.
pub open spec fn pair_ledger() -> Seq<Map<Seq<char>, u16>> {
    seq![
        Map::<Seq<char>, u16>::empty().insert("Pair"@, 1u16),
        Map::<Seq<char>, u16>::empty().insert("Pair"@, 2u16),
    ]
}

impl Pair {
    /// The ledger of schema versions for `Pair`: schema version 1 at root
    /// version 1, schema version 2 at root version 2.
    pub fn version_map() -> (r: VersionMap)
        ensures
            r.wf(),
            r@ == pair_ledger(),
    {
        let mut vm = VersionMap::new();
        vm.set_type_version("Pair", 1);
        vm.new_version();
        vm.set_type_version("Pair", 2);
        assert(vm@ =~= pair_ledger());
        vm
    }
}

impl Aggregate for Pair {
    open spec fn shapes() -> Seq<FieldShape> {
        seq![
            plain_shape(),
            FieldShape {
                start_version: 2,
                end_version: 0,
                has_default_fn: true,
                has_semantic_ser_fn: false,
                has_semantic_de_fn: false,
            },
        ]
    }

    open spec fn resolve(root: u16) -> Option<u16> {
        if 1 <= root <= 2 {
            Some(resolve(pair_ledger(), root as int, "Pair"@))
        } else {
            None
        }
    }

    open spec fn members(&self) -> Seq<Model> {
        seq![Model::Int(self.x as int), Model::Int(self.y as int)]
    }

    open spec fn blank_members() -> Seq<Model> {
        seq![Model::Int(0), Model::Int(0)]
    }

    open spec fn member_serializable(index: int, m: Model, root: u16) -> bool {
        true
    }

    open spec fn member_encode(index: int, m: Model, root: u16) -> Seq<u8> {
        if index == 0 {
            u32::encode(m, root)
        } else {
            u16::encode(m, root)
        }
    }

    open spec fn member_decode(index: int, bytes: Seq<u8>, root: u16) -> Option<(Model, nat)> {
        if index == 0 {
            u32::decode(bytes, root)
        } else {
            u16::decode(bytes, root)
        }
    }

    open spec fn member_default(index: int, local: u16) -> Model {
        Model::Int(DEFAULT_Y as int)
    }

    open spec fn hook_serialize(index: int, members: Seq<Model>, local: u16) -> Option<Seq<Model>> {
        Some(members)
    }

    open spec fn hook_deserialize(index: int, members: Seq<Model>, local: u16) -> Option<
        Seq<Model>,
    > {
        Some(members)
    }

    proof fn lemma_member_count(&self) {
    }

    proof fn lemma_member_decode_bound(index: int, bytes: Seq<u8>, root: u16) {
    }

    fn descriptor() -> (r: StructDescriptor) {
        let attrs = FieldAttributes {
            start: Some(2),
            end: None,
            default_fn: Some(String::from_str("default_y")),
            semantic_ser_fn: None,
            semantic_de_fn: None,
        };
        let mut fields: Vec<StructField> = Vec::new();
        fields.push(plain_field("x"));
        fields.push(StructField::new(1, String::from_str("y"), FieldType::Path, attrs));
        proof {
            lemma_no_faults(fields@);
            assert(shapes_of(fields@) =~= Self::shapes());
        }
        StructDescriptor::new(fields, String::from_str("Pair")).unwrap()
    }

    fn local_version(root: u16) -> (r: Option<u16>) {
        let vm = Pair::version_map();
        match vm.get_type_version(root, "Pair") {
            Ok(version) => Some(version),
            Err(_) => None,
        }
    }

    fn blank() -> (r: Self) {
        Pair { x: 0, y: 0 }
    }

    fn working_copy(&self) -> (r: Self) {
        Pair { x: self.x, y: self.y }
    }

    fn serialize_member(&self, index: usize, writer: &mut Writer, root: u16) -> (r: Result<
        (),
        Error,
    >) {
        if index == 0 {
            self.x.serialize(writer, root)
        } else {
            self.y.serialize(writer, root)
        }
    }

    fn deserialize_member(&mut self, index: usize, reader: &mut Reader, root: u16) -> (r: Result<
        (),
        Error,
    >) {
        if index == 0 {
            match u32::deserialize(reader, root) {
                Ok(x) => {
                    self.x = x;
                    assert(self.members() =~= old(self).members().update(0, Model::Int(x as int)));
                    Ok(())
                },
                Err(err) => Err(err),
            }
        } else {
            match u16::deserialize(reader, root) {
                Ok(y) => {
                    self.y = y;
                    assert(self.members() =~= old(self).members().update(1, Model::Int(y as int)));
                    Ok(())
                },
                Err(err) => Err(err),
            }
        }
    }

    fn default_member(&mut self, index: usize, local: u16) {
        if index == 1 {
            self.y = DEFAULT_Y;
            assert(self.members() =~= old(self).members().update(1, Model::Int(DEFAULT_Y as int)));
        }
    }

    fn semantic_serialize(&mut self, index: usize, local: u16) -> (r: Result<(), Error>) {
        Ok(())
    }

    fn semantic_deserialize(&mut self, index: usize, local: u16) -> (r: Result<(), Error>) {
        Ok(())
    }
}

impl Versionize for Pair {
    open spec fn model(&self) -> Model {
        Model::Record(self.members())
    }

    open spec fn serializable(m: Model, version: u16) -> bool {
        aggregate_serializable::<Pair>(m, version)
    }

    open spec fn encode(m: Model, version: u16) -> Seq<u8> {
        encode_aggregate::<Pair>(m, version)
    }

    open spec fn decode(bytes: Seq<u8>, version: u16) -> Option<(Model, nat)> {
        decode_aggregate::<Pair>(bytes, version)
    }

    proof fn lemma_decode_bound(bytes: Seq<u8>, version: u16) {
        match Pair::resolve(version) {
            Some(local) => {
                lemma_decode_members_bound::<Pair>(bytes, local, version, 2);
            },
            None => {},
        }
    }

    fn serialize(&self, writer: &mut Writer, version: u16) -> (r: Result<(), Error>) {
        serialize_aggregate(self, writer, version)
    }

    fn deserialize(reader: &mut Reader, version: u16) -> (r: Result<Self, Error>) {
        deserialize_aggregate(reader, version)
    }

    open spec fn spec_version() -> u16 {
        2
    }

    fn version() -> (r: u16) {
        2
    }
}

/// The functions for writing and for reading leave the members of a pair as
/// they are: no member names one.
pub proof fn lemma_pair_has_no_hooks(members: Seq<Model>, local: u16, upto: int)
    requires
        0 <= upto <= 2,
    ensures
        serialize_hooks::<Pair>(members, local, upto) == Some(members),
        deserialize_hooks::<Pair>(members, local, upto) == Some(members),
    decreases upto,
{
    if upto > 0 {
        lemma_pair_has_no_hooks(members, local, upto - 1);
    }
}

/// A pair that is written for root version 1 and read from it comes back
/// with its `x` and with the default value of `y`: at that root version the
/// type has schema version 1, at which `y` does not exist, so that `y` is
/// not written. Only the four bytes of `x` are written.
pub proof fn law_pair_at_first_version(x: u32, y: u16, rest: Seq<u8>)
    ensures
        Pair::encode(Model::Record(seq![Model::Int(x as int), Model::Int(y as int)]), 1)
            == u32::encode(Model::Int(x as int), 1),
        Pair::decode(
            Pair::encode(Model::Record(seq![Model::Int(x as int), Model::Int(y as int)]), 1) + rest,
            1,
        ) == Some((Model::Record(seq![Model::Int(x as int), Model::Int(DEFAULT_Y as int)]), 4nat)),
{
    let members = seq![Model::Int(x as int), Model::Int(y as int)];
    assert(Pair::resolve(1) == Some(1u16));
    lemma_pair_has_no_hooks(members, 1, 2);
    lemma_pow256_values();
    assert forall|i: int|
        0 <= i < Pair::shapes().len() && (#[trigger] Pair::shapes()[i]).exists_at(1)
            implies member_round_trips::<Pair>(i, members[i], 1) by {
        assert(i == 0);
        assert forall|tail: Seq<u8>|
            Pair::member_decode(0, #[trigger] (Pair::member_encode(0, members[0], 1) + tail), 1)
                == Some((members[0], Pair::member_encode(0, members[0], 1).len())) by {
            lemma_unsigned_round_trip(x as nat, 4, tail);
        }
    }
    law_aggregate_round_trip::<Pair>(members, 1, 1, rest);
    let back = projected::<Pair>(members, 1, 2);
    assert(back =~= seq![Model::Int(x as int), Model::Int(DEFAULT_Y as int)]);
    lemma_pair_has_no_hooks(back, 1, 2);
    lemma_unsigned_round_trip(x as nat, 4, rest);
    assert(encode_members::<Pair>(members, 1, 1, 0) =~= Seq::<u8>::empty());
    assert(encode_members::<Pair>(members, 1, 1, 1) =~= u32::encode(Model::Int(x as int), 1));
    assert(encode_members::<Pair>(members, 1, 1, 2) =~= u32::encode(Model::Int(x as int), 1));
    assert(Pair::encode(Model::Record(members), 1) =~= u32::encode(Model::Int(x as int), 1));
}

/// A pair that is written for root version 2 and read from it comes back as
/// it was: both members exist.
pub proof fn law_pair_at_second_version(x: u32, y: u16, rest: Seq<u8>)
    ensures
        Pair::decode(
            Pair::encode(Model::Record(seq![Model::Int(x as int), Model::Int(y as int)]), 2) + rest,
            2,
        ) == Some((Model::Record(seq![Model::Int(x as int), Model::Int(y as int)]), 6nat)),
{
    let members = seq![Model::Int(x as int), Model::Int(y as int)];
    assert(Pair::resolve(2) == Some(2u16));
    lemma_pair_has_no_hooks(members, 2, 2);
    lemma_pow256_values();
    assert forall|i: int|
        0 <= i < Pair::shapes().len() && (#[trigger] Pair::shapes()[i]).exists_at(2)
            implies member_round_trips::<Pair>(i, members[i], 2) by {
        if i == 0 {
            assert forall|tail: Seq<u8>|
                Pair::member_decode(0, #[trigger] (Pair::member_encode(0, members[0], 2) + tail), 2)
                    == Some((members[0], Pair::member_encode(0, members[0], 2).len())) by {
                lemma_unsigned_round_trip(x as nat, 4, tail);
            }
        } else {
            assert forall|tail: Seq<u8>|
                Pair::member_decode(1, #[trigger] (Pair::member_encode(1, members[1], 2) + tail), 2)
                    == Some((members[1], Pair::member_encode(1, members[1], 2).len())) by {
                lemma_unsigned_round_trip(y as nat, 2, tail);
            }
        }
    }
    law_aggregate_round_trip::<Pair>(members, 2, 2, rest);
    let back = projected::<Pair>(members, 2, 2);
    assert(back =~= members);
    lemma_pair_has_no_hooks(back, 2, 2);
    lemma_unsigned_round_trip(x as nat, 4, rest);
    lemma_unsigned_round_trip(y as nat, 2, rest);
    assert(encode_members::<Pair>(members, 2, 2, 0) =~= Seq::<u8>::empty());
    assert(encode_members::<Pair>(members, 2, 2, 1) =~= u32::encode(Model::Int(x as int), 2));
    assert(encode_members::<Pair>(members, 2, 2, 2) =~= u32::encode(Model::Int(x as int), 2)
        + u16::encode(Model::Int(y as int), 2));
}

/// A count and a bonus. The bonus existed at schema version 1 only; from
/// version 2 on it is part of the count. When a tally is written for a
/// version without the bonus, the bonus is added to the count of the working
/// copy, so that what the two stood for together is kept.
#[derive(Default, Debug, Clone, PartialEq)]
pub struct Tally {
    /// The count.
    pub count: u32,
    /// What is to be added to the count. It exists at version 1 only.
    pub bonus: u32,
}

/// What adding the bonus to the count makes of the members of a tally:
/// nothing where the count cannot hold the sum.
pub open spec fn fold_bonus(members: Seq<Model>) -> Option<Seq<Model>> {
    match (members[0], members[1]) {
        (Model::Int(count), Model::Int(bonus)) => if count + bonus <= u32::MAX {
            Some(seq![Model::Int(count + bonus), Model::Int(bonus)])
        } else {
            None
        },
        _ => None,
    }
}

impl Aggregate for Tally {
    open spec fn shapes() -> Seq<FieldShape> {
        seq![
            plain_shape(),
            FieldShape {
                start_version: 1,
                end_version: 2,
                has_default_fn: false,
                has_semantic_ser_fn: true,
                has_semantic_de_fn: false,
            },
        ]
    }

    open spec fn resolve(root: u16) -> Option<u16> {
        Some(root)
    }

    open spec fn members(&self) -> Seq<Model> {
        seq![Model::Int(self.count as int), Model::Int(self.bonus as int)]
    }

    open spec fn blank_members() -> Seq<Model> {
        seq![Model::Int(0), Model::Int(0)]
    }

    open spec fn member_serializable(index: int, m: Model, root: u16) -> bool {
        true
    }

    open spec fn member_encode(index: int, m: Model, root: u16) -> Seq<u8> {
        u32::encode(m, root)
    }

    open spec fn member_decode(index: int, bytes: Seq<u8>, root: u16) -> Option<(Model, nat)> {
        u32::decode(bytes, root)
    }

    open spec fn member_default(index: int, local: u16) -> Model {
        Model::Int(0)
    }

    open spec fn hook_serialize(index: int, members: Seq<Model>, local: u16) -> Option<Seq<Model>> {
        fold_bonus(members)
    }

    open spec fn hook_deserialize(index: int, members: Seq<Model>, local: u16) -> Option<
        Seq<Model>,
    > {
        Some(members)
    }

    proof fn lemma_member_count(&self) {
    }

    proof fn lemma_member_decode_bound(index: int, bytes: Seq<u8>, root: u16) {
    }

    fn descriptor() -> (r: StructDescriptor) {
        let attrs = FieldAttributes {
            start: None,
            end: Some(2),
            default_fn: None,
            semantic_ser_fn: Some(String::from_str("fold_bonus")),
            semantic_de_fn: None,
        };
        let mut fields: Vec<StructField> = Vec::new();
        fields.push(plain_field("count"));
        fields.push(StructField::new(1, String::from_str("bonus"), FieldType::Path, attrs));
        proof {
            lemma_no_faults(fields@);
            assert(shapes_of(fields@) =~= Self::shapes());
        }
        StructDescriptor::new(fields, String::from_str("Tally")).unwrap()
    }

    fn local_version(root: u16) -> (r: Option<u16>) {
        Some(root)
    }

    fn blank() -> (r: Self) {
        Tally { count: 0, bonus: 0 }
    }

    fn working_copy(&self) -> (r: Self) {
        Tally { count: self.count, bonus: self.bonus }
    }

    fn serialize_member(&self, index: usize, writer: &mut Writer, root: u16) -> (r: Result<
        (),
        Error,
    >) {
        if index == 0 {
            self.count.serialize(writer, root)
        } else {
            self.bonus.serialize(writer, root)
        }
    }

    fn deserialize_member(&mut self, index: usize, reader: &mut Reader, root: u16) -> (r: Result<
        (),
        Error,
    >) {
        match u32::deserialize(reader, root) {
            Ok(number) => {
                if index == 0 {
                    self.count = number;
                } else {
                    self.bonus = number;
                }
                assert(self.members() =~= old(self).members().update(
                    index as int,
                    Model::Int(number as int),
                ));
                Ok(())
            },
            Err(err) => Err(err),
        }
    }

    fn default_member(&mut self, index: usize, local: u16) {
    }

    fn semantic_serialize(&mut self, index: usize, local: u16) -> (r: Result<(), Error>) {
        if index == 1 {
            match self.count.checked_add(self.bonus) {
                Some(total) => {
                    self.count = total;
                    assert(self.members() =~= fold_bonus(old(self).members()).unwrap());
                    Ok(())
                },
                None => Err(Error::Serialize(String::from_str("the count cannot hold the bonus"))),
            }
        } else {
            Ok(())
        }
    }

    fn semantic_deserialize(&mut self, index: usize, local: u16) -> (r: Result<(), Error>) {
        Ok(())
    }
}

impl Versionize for Tally {
    open spec fn model(&self) -> Model {
        Model::Record(self.members())
    }

    open spec fn serializable(m: Model, version: u16) -> bool {
        aggregate_serializable::<Tally>(m, version)
    }

    open spec fn encode(m: Model, version: u16) -> Seq<u8> {
        encode_aggregate::<Tally>(m, version)
    }

    open spec fn decode(bytes: Seq<u8>, version: u16) -> Option<(Model, nat)> {
        decode_aggregate::<Tally>(bytes, version)
    }

    proof fn lemma_decode_bound(bytes: Seq<u8>, version: u16) {
        lemma_decode_members_bound::<Tally>(bytes, version, version, 2);
    }

    fn serialize(&self, writer: &mut Writer, version: u16) -> (r: Result<(), Error>) {
        serialize_aggregate(self, writer, version)
    }

    fn deserialize(reader: &mut Reader, version: u16) -> (r: Result<Self, Error>) {
        deserialize_aggregate(reader, version)
    }

    open spec fn spec_version() -> u16 {
        2
    }

    fn version() -> (r: u16) {
        2
    }
}

/// A tally that is written for a version at which the bonus does not exist
/// any more comes back with the bonus in its count: the bytes of the bonus
/// are not written, yet what count and bonus stood for together is read
/// back. The count has to be able to hold the sum.
pub proof fn law_tally_keeps_total(count: u32, bonus: u32, version: u16, rest: Seq<u8>)
    requires
        version >= 2,
        count + bonus <= u32::MAX,
    ensures
        Tally::serializable(
            Model::Record(seq![Model::Int(count as int), Model::Int(bonus as int)]),
            version,
        ),
        Tally::encode(
            Model::Record(seq![Model::Int(count as int), Model::Int(bonus as int)]),
            version,
        ) == u32::encode(Model::Int(count + bonus), version),
        Tally::decode(
            Tally::encode(
                Model::Record(seq![Model::Int(count as int), Model::Int(bonus as int)]),
                version,
            ) + rest,
            version,
        ) == Some((Model::Record(seq![Model::Int(count + bonus), Model::Int(0)]), 4nat)),
{
    let members = seq![Model::Int(count as int), Model::Int(bonus as int)];
    let folded = seq![Model::Int(count + bonus), Model::Int(bonus as int)];
    assert(serialize_hooks::<Tally>(members, version, 0) == Some(members));
    assert(serialize_hooks::<Tally>(members, version, 1) == Some(members));
    assert(fold_bonus(members) == Some(folded));
    assert(serialize_hooks::<Tally>(members, version, 2) == Some(folded));
    lemma_pow256_values();
    assert forall|i: int|
        0 <= i < Tally::shapes().len() && (#[trigger] Tally::shapes()[i]).exists_at(version)
            implies member_round_trips::<Tally>(i, folded[i], version) by {
        assert(i == 0);
        assert forall|tail: Seq<u8>|
            Tally::member_decode(
                0,
                #[trigger] (Tally::member_encode(0, folded[0], version) + tail),
                version,
            ) == Some((folded[0], Tally::member_encode(0, folded[0], version).len())) by {
            lemma_unsigned_round_trip((count + bonus) as nat, 4, tail);
        }
    }
    law_aggregate_round_trip::<Tally>(members, version, version, rest);
    let back = projected::<Tally>(folded, version, 2);
    assert(back =~= seq![Model::Int(count + bonus), Model::Int(0)]);
    assert(deserialize_hooks::<Tally>(back, version, 0) == Some(back));
    assert(deserialize_hooks::<Tally>(back, version, 1) == Some(back));
    assert(deserialize_hooks::<Tally>(back, version, 2) == Some(back));
    lemma_unsigned_round_trip((count + bonus) as nat, 4, rest);
    assert(encode_members::<Tally>(folded, version, version, 0) =~= Seq::<u8>::empty());
    assert(encode_members::<Tally>(folded, version, version, 1) =~= u32::encode(
        Model::Int(count + bonus),
        version,
    ));
    assert(encode_members::<Tally>(folded, version, version, 2) =~= u32::encode(
        Model::Int(count + bonus),
        version,
    ));
}

/// How fast something goes. The variant `Slow` existed at schema version 1
/// only; where it does not exist, `Fast` is written in its place.
#[derive(Debug, Clone, Copy, PartialEq, Eq, Structural)]
pub enum Speed {
    /// Not moving. Its tag is 0.
    Stopped,
    /// Moving slowly. Its tag is 1. It exists at version 1 only.
    Slow,
    /// Moving fast. Its tag is 2.
    Fast,
}

impl Speed {
    /// The tag of the variant.
    pub open spec fn spec_tag(self) -> u16 {
        match self {
            Speed::Stopped => 0,
            Speed::Slow => 1,
            Speed::Fast => 2,
        }
    }

    /// What stands in for `Slow` where it does not exist: `Fast`. Every other
    /// variant stands for itself.
    pub fn as_fast(&self, version: u16) -> (r: Speed)
        ensures
            r == (if *self == Speed::Slow {
                Speed::Fast
            } else {
                *self
            }),
    {
        match self {
            Speed::Slow => Speed::Fast,
            Speed::Stopped => Speed::Stopped,
            Speed::Fast => Speed::Fast,
        }
    }
}

impl Variants for Speed {
    open spec fn shapes() -> Seq<VariantShape> {
        seq![
            VariantShape { discriminant: 0, start_version: 1, end_version: 0, has_default_fn: false },
            VariantShape { discriminant: 1, start_version: 1, end_version: 2, has_default_fn: true },
            VariantShape { discriminant: 2, start_version: 1, end_version: 0, has_default_fn: false },
        ]
    }

    open spec fn resolve(root: u16) -> Option<u16> {
        Some(root)
    }

    open spec fn model(&self) -> Model {
        Model::Variant(self.spec_tag() as int, Seq::empty())
    }

    open spec fn substitute(m: Model, local: u16) -> Model {
        if tag_of(m) == 1 {
            Model::Variant(2, Seq::empty())
        } else {
            m
        }
    }

    open spec fn fixed_encode(m: Model) -> Seq<u8> {
        u32::encode(Model::Int(tag_of(m)), 1)
    }

    open spec fn fixed_decode(bytes: Seq<u8>) -> Option<(Model, nat)> {
        match u32::decode(bytes, 1) {
            Some((Model::Int(index), n)) => if index <= 2 {
                Some((Model::Variant(index, Seq::empty()), n))
            } else {
                None
            },
            _ => None,
        }
    }

    proof fn lemma_representable() {
    }

    proof fn lemma_substitute_exists(m: Model, local: u16) {
        let shapes = Self::shapes();
        assert(variant_index(shapes, 2, 0) is None);
        assert(variant_index(shapes, 2, 1) is None);
        assert(variant_index(shapes, 2, 2) is None);
        assert(variant_index(shapes, 2, 3) == Some(2int));
        let tag = tag_of(m);
        assert(variant_index(shapes, tag, 0) is None);
        assert(variant_index(shapes, tag, 1) == (if tag == 0 {
            Some(0int)
        } else {
            None
        }));
        assert(variant_index(shapes, tag, 2) == (if tag == 0 {
            Some(0int)
        } else if tag == 1 {
            Some(1int)
        } else {
            None
        }));
    }

    fn descriptor() -> (r: EnumDescriptor) {
        let mut declarations: Vec<VariantDeclaration> = Vec::new();
        declarations.push(
            VariantDeclaration {
                ident: String::from_str("Stopped"),
                discriminant: Discriminant::Literal(0),
                attrs: FieldAttributes::none(),
            },
        );
        declarations.push(
            VariantDeclaration {
                ident: String::from_str("Slow"),
                discriminant: Discriminant::Literal(1),
                attrs: FieldAttributes {
                    start: None,
                    end: Some(2),
                    default_fn: Some(String::from_str("as_fast")),
                    semantic_ser_fn: None,
                    semantic_de_fn: None,
                },
            },
        );
        declarations.push(
            VariantDeclaration {
                ident: String::from_str("Fast"),
                discriminant: Discriminant::Literal(2),
                attrs: FieldAttributes::none(),
            },
        );
        proof {
            lemma_none_rejected(declarations@);
        }
        let descriptor = EnumDescriptor::new(declarations, String::from_str("Speed")).unwrap();
        assert(variant_shapes_of(descriptor.fields@) =~= Self::shapes());
        descriptor
    }

    fn local_version(root: u16) -> (r: Option<u16>) {
        Some(root)
    }

    fn discriminant(&self) -> (r: u16) {
        match self {
            Speed::Stopped => 0,
            Speed::Slow => 1,
            Speed::Fast => 2,
        }
    }

    fn default_variant(&self, local: u16) -> (r: Self) {
        self.as_fast(local)
    }

    fn write(&self, writer: &mut Writer) -> (r: Result<(), Error>) {
        let index: u32 = match self {
            Speed::Stopped => 0,
            Speed::Slow => 1,
            Speed::Fast => 2,
        };
        index.serialize(writer, 1)
    }

    fn read(reader: &mut Reader) -> (r: Result<Self, Error>) {
        let ghost start = reader@;
        match u32::deserialize(reader, 1) {
            Ok(index) => {
                if index == 0 {
                    Ok(Speed::Stopped)
                } else if index == 1 {
                    Ok(Speed::Slow)
                } else if index == 2 {
                    Ok(Speed::Fast)
                } else {
                    Err(Error::Deserialize(String::from_str("unknown variant")))
                }
            },
            Err(err) => Err(err),
        }
    }
}

impl Versionize for Speed {
    open spec fn model(&self) -> Model {
        Model::Variant(self.spec_tag() as int, Seq::empty())
    }

    open spec fn serializable(m: Model, version: u16) -> bool {
        variant_serializable::<Speed>(m, version)
    }

    open spec fn encode(m: Model, version: u16) -> Seq<u8> {
        encode_variant::<Speed>(m, version)
    }

    open spec fn decode(bytes: Seq<u8>, version: u16) -> Option<(Model, nat)> {
        <Speed as Variants>::fixed_decode(bytes)
    }

    proof fn lemma_decode_bound(bytes: Seq<u8>, version: u16) {
    }

    fn serialize(&self, writer: &mut Writer, version: u16) -> (r: Result<(), Error>) {
        serialize_variant(self, writer, version)
    }

    fn deserialize(reader: &mut Reader, version: u16) -> (r: Result<Self, Error>) {
        deserialize_variant(reader, version)
    }

    open spec fn spec_version() -> u16 {
        2
    }

    fn version() -> (r: u16) {
        2
    }
}

} // verus!
