//! Versioned types as a whole: the members of a type, and the schema version
//! of the type that follows from them.

use vstd::prelude::*;
use crate::fields::{
    Discriminant, EnumVariant, FieldAttributes, FieldDeserializer, FieldType,
    SchemaError, StructField, VariantSerializer,
};

verus! {

/// A member with a range of versions.
pub trait Exists {
    /// The first version at which the member exists.
    spec fn spec_start_version(&self) -> u16;

    /// The first version at which the member does not exist any more, or 0.
    spec fn spec_end_version(&self) -> u16;

    /// The first version at which the member exists.
    fn start_version(&self) -> (r: u16)
        ensures
            r == self.spec_start_version(),
    ;

    /// The first version at which the member does not exist any more, or 0.
    fn end_version(&self) -> (r: u16)
        ensures
            r == self.spec_end_version(),
    ;
}

impl Exists for StructField {
    open spec fn spec_start_version(&self) -> u16 {
        self.start_version
    }

    open spec fn spec_end_version(&self) -> u16 {
        self.end_version
    }

    fn start_version(&self) -> (r: u16) {
        self.start_version
    }

    fn end_version(&self) -> (r: u16) {
        self.end_version
    }
}

impl Exists for EnumVariant {
    open spec fn spec_start_version(&self) -> u16 {
        self.start_version
    }

    open spec fn spec_end_version(&self) -> u16 {
        self.end_version
    }

    fn start_version(&self) -> (r: u16) {
        self.start_version
    }

    fn end_version(&self) -> (r: u16) {
        self.end_version
    }
}

/// The larger of two versions.
pub open spec fn later(a: u16, b: u16) -> u16 {
    if a >= b {
        a
    } else {
        b
    }
}

/// The schema version of a type with the given members: the highest version
/// at which a member starts or ends, and the base version 1 where there is
/// no member.
pub open spec fn spec_compute_version<T: Exists>(members: Seq<T>) -> u16
    decreases members.len(),
{
    if members.len() == 0 {
        1
    } else {
        later(
            spec_compute_version(members.drop_last()),
            later(members.last().spec_start_version(), members.last().spec_end_version()),
        )
    }
}

/// The schema version is an upper bound of every boundary, is at least 1, and
/// is 1 or one of the boundaries.
pub proof fn law_schema_version_is_highest_boundary<T: Exists>(members: Seq<T>)
    ensures
        spec_compute_version(members) >= 1,
        forall|i: int|
            0 <= i < members.len() ==> (#[trigger] members[i]).spec_start_version()
                <= spec_compute_version(members) && members[i].spec_end_version()
                <= spec_compute_version(members),
        spec_compute_version(members) == 1 || exists|i: int|
            0 <= i < members.len() && ((#[trigger] members[i]).spec_start_version()
                == spec_compute_version(members) || members[i].spec_end_version()
                == spec_compute_version(members)),
    decreases members.len(),
{
    if members.len() > 0 {
        let front = members.drop_last();
        law_schema_version_is_highest_boundary(front);
        let v = spec_compute_version(members);
        assert forall|i: int| 0 <= i < members.len() implies (#[trigger] members[i]).spec_start_version()
            <= v && members[i].spec_end_version() <= v by {
            if i < front.len() {
                assert(front[i] == members[i]);
            }
        }
        if v != 1 {
            if v == spec_compute_version(front) {
                let i = choose|i: int|
                    0 <= i < front.len() && ((#[trigger] front[i]).spec_start_version()
                        == spec_compute_version(front) || front[i].spec_end_version()
                        == spec_compute_version(front));
                assert(members[i] == front[i]);
            } else {
                let i = members.len() - 1;
                assert(members[i].spec_start_version() == v || members[i].spec_end_version() == v);
            }
        }
    }
}

/// The schema version of a type with the given members.
pub fn compute_version<T: Exists>(members: &Vec<T>) -> (r: u16)
    ensures
        r == spec_compute_version(members@),
{
    let mut version: u16 = 1;
    let mut i: usize = 0;
    assert(members@.take(0).len() == 0);
    while i < members.len()
        invariant
            i <= members@.len(),
            version == spec_compute_version(members@.take(i as int)),
        decreases members@.len() - i,
    {
        assert(members@.take(i + 1).drop_last() =~= members@.take(i as int));
        let start = members[i].start_version();
        let end = members[i].end_version();
        let boundary: u16 = if start >= end {
            start
        } else {
            end
        };
        if boundary > version {
            version = boundary;
        }
        i += 1;
    }
    assert(members@.take(i as int) =~= members@);
    version
}

/// What the declaration of a variant gives.
#[derive(Debug, Clone, PartialEq, Eq)]
pub struct VariantDeclaration {
    /// The name of the variant.
    pub ident: String,
    /// Its tag.
    pub discriminant: Discriminant,
    /// What the declaration says about versions.
    pub attrs: FieldAttributes,
}

/// A variant type: its name, its schema version and its variants.
#[derive(Debug, Clone, PartialEq, Eq)]
pub struct EnumDescriptor {
    /// The name of the type.
    pub ty: String,
    /// The schema version of the type.
    pub version: u16,
    /// The variants, in the order of their declaration.
    pub fields: Vec<EnumVariant>,
}

/// The first of the declarations that `EnumVariant::new` turns down, if any.
pub open spec fn first_rejected(declarations: Seq<VariantDeclaration>) -> Option<SchemaError>
    decreases declarations.len(),
{
    if declarations.len() == 0 {
        None
    } else {
        match first_rejected(declarations.drop_last()) {
            Some(e) => Some(e),
            None => match EnumVariant::spec_discriminant(declarations.last().discriminant) {
                Ok(_) => None,
                Err(e) => Some(e),
            },
        }
    }
}

/// Whether `variant` is what `EnumVariant::new` makes of `declaration` at base version 1.
pub open spec fn variant_of(variant: EnumVariant, declaration: VariantDeclaration) -> bool {
    &&& variant.ident == declaration.ident
    &&& variant.attrs == declaration.attrs
    &&& Ok::<u16, SchemaError>(variant.discriminant) == EnumVariant::spec_discriminant(
        declaration.discriminant,
    )
    &&& variant.start_version == (match declaration.attrs.start {
        Some(start) => start,
        None => 1u16,
    })
    &&& variant.end_version == (match declaration.attrs.end {
        Some(end) => end,
        None => 0u16,
    })
}

/// What the variants do at the versions up to `upto`: the versions in rising
/// order, and at each version the variants in the order of their declaration.
/// The first variant that can do nothing gives the error.
pub open spec fn spec_variant_plans(variants: Seq<EnumVariant>, upto: u16) -> Result<
    Seq<Seq<VariantSerializer>>,
    SchemaError,
>
    decreases upto,
{
    if upto == 0 {
        Ok(Seq::empty())
    } else {
        match spec_variant_plans(variants, (upto - 1) as u16) {
            Ok(plans) => match spec_variant_plans_at(variants, upto, variants.len()) {
                Ok(row) => Ok(plans.push(row)),
                Err(e) => Err(e),
            },
            Err(e) => Err(e),
        }
    }
}

/// What the first `count` variants do at `version`.
pub open spec fn spec_variant_plans_at(variants: Seq<EnumVariant>, version: u16, count: nat) -> Result<
    Seq<VariantSerializer>,
    SchemaError,
>
    decreases count,
{
    if count == 0 {
        Ok(Seq::empty())
    } else {
        match spec_variant_plans_at(variants, version, (count - 1) as nat) {
            Ok(row) => match variants[count - 1].spec_serializer(version) {
                Ok(plan) => Ok(row.push(plan)),
                Err(e) => Err(e),
            },
            Err(e) => Err(e),
        }
    }
}

/// The rows of a table of decisions.
pub open spec fn rows_of(table: Seq<Vec<VariantSerializer>>) -> Seq<Seq<VariantSerializer>> {
    Seq::new(table.len(), |i: int| table[i]@)
}

impl EnumDescriptor {
    /// The variant type `ident` with the variants that `declarations` give.
    ///
    /// Every variant has base version 1. The first declaration without a tag
    /// of 16 bits has the type turned down.
    pub fn new(declarations: Vec<VariantDeclaration>, ident: String) -> (r: Result<
        Self,
        SchemaError,
    >)
        ensures
            match first_rejected(declarations@) {
                Some(e) => r == Err::<Self, SchemaError>(e),
                None => r is Ok && r.unwrap().ty == ident && r.unwrap().fields@.len()
                    == declarations@.len() && (forall|i: int|
                    0 <= i < declarations@.len() ==> variant_of(
                        #[trigger] r.unwrap().fields@[i],
                        declarations@[i],
                    )) && r.unwrap().version == spec_compute_version(r.unwrap().fields@),
            },
    {
        let mut descriptor = EnumDescriptor { ty: ident, version: 1, fields: Vec::new() };
        match descriptor.parse_enum_variants(declarations) {
            Ok(()) => {},
            Err(e) => {
                return Err(e);
            },
        }
        descriptor.version = compute_version(&descriptor.fields);
        Ok(descriptor)
    }

    fn parse_enum_variants(&mut self, declarations: Vec<VariantDeclaration>) -> (r: Result<
        (),
        SchemaError,
    >)
        requires
            old(self).fields@.len() == 0,
            old(self).version == 1,
        ensures
            final(self).ty == old(self).ty,
            final(self).version == old(self).version,
            match first_rejected(declarations@) {
                Some(e) => r == Err::<(), SchemaError>(e),
                None => r is Ok && final(self).fields@.len() == declarations@.len() && (forall|
                    i: int,
                |
                    0 <= i < declarations@.len() ==> variant_of(
                        #[trigger] final(self).fields@[i],
                        declarations@[i],
                    )),
            },
    {
        let ghost all = declarations@;
        let mut remaining = declarations;
        let mut pending: Vec<VariantDeclaration> = Vec::new();
        // The declarations are taken from the back; `pending` holds them in reverse.
        while remaining.len() > 0
            invariant
                remaining@.len() + pending@.len() == all.len(),
                forall|i: int| 0 <= i < remaining@.len() ==> remaining@[i] == all[i],
                forall|i: int|
                    0 <= i < pending@.len() ==> pending@[i] == all[all.len() - 1 - i],
            decreases remaining@.len(),
        {
            let last = remaining.pop().unwrap();
            pending.push(last);
        }
        assert(all.take(0).len() == 0);
        while pending.len() > 0
            invariant
                all == declarations@,
                self.ty == old(self).ty,
                self.version == old(self).version,
                self.version == 1,
                self.fields@.len() + pending@.len() == all.len(),
                forall|i: int|
                    0 <= i < pending@.len() ==> pending@[i] == all[all.len() - 1 - i],
                first_rejected(all.take(self.fields@.len() as int)) is None,
                forall|i: int|
                    0 <= i < self.fields@.len() ==> variant_of(#[trigger] self.fields@[i], all[i]),
            decreases pending@.len(),
        {
            let ghost done = self.fields@.len() as int;
            let ghost before = self.fields@;
            let declaration = pending.pop().unwrap();
            assert(declaration == all[done]);
            assert(all.take(done + 1).drop_last() =~= all.take(done));
            assert(all.take(done + 1).last() == all[done]);
            match EnumVariant::new(
                self.version,
                declaration.ident,
                declaration.discriminant,
                declaration.attrs,
            ) {
                Ok(variant) => {
                    self.fields.push(variant);
                    assert forall|i: int| 0 <= i < self.fields@.len() implies variant_of(
                        #[trigger] self.fields@[i],
                        all[i],
                    ) by {
                        if i < done {
                            assert(self.fields@[i] == before[i]);
                        }
                    }
                },
                Err(e) => {
                    proof {
                        lemma_first_rejected_stays(all, done + 1);
                    }
                    return Err(e);
                },
            }
        }
        assert(all.take(self.fields@.len() as int) =~= all);
        Ok(())
    }

    /// What is done with a value of each variant when it is written for each
    /// version of the type: the entry at index `v - 1` is for version `v` and
    /// holds one decision for each variant, in the order of their
    /// declaration.
    ///
    /// A variant that does not exist at one of the versions and names no
    /// function to stand in for it has the schema turned down.
    pub fn generate_serializer(&self) -> (r: Result<Vec<Vec<VariantSerializer>>, SchemaError>)
        ensures
            match spec_variant_plans(self.fields@, self.version) {
                Ok(plans) => r is Ok && rows_of(r.unwrap()@) == plans,
                Err(e) => r == Err::<Vec<Vec<VariantSerializer>>, SchemaError>(e),
            },
    {
        let mut versioned_serializers: Vec<Vec<VariantSerializer>> = Vec::new();
        let mut i: u16 = 0;
        assert(rows_of(versioned_serializers@) =~= Seq::<Seq<VariantSerializer>>::empty());
        while i < self.version
            invariant
                i <= self.version,
                spec_variant_plans(self.fields@, i) == Ok::<
                    Seq<Seq<VariantSerializer>>,
                    SchemaError,
                >(rows_of(versioned_serializers@)),
            decreases self.version - i,
        {
            let version: u16 = i + 1;
            let ghost before = rows_of(versioned_serializers@);
            let mut versioned_serializer: Vec<VariantSerializer> = Vec::new();
            let mut k: usize = 0;
            while k < self.fields.len()
                invariant
                    k <= self.fields@.len(),
                    version == i + 1,
                    i < self.version,
                    spec_variant_plans(self.fields@, i) is Ok,
                    spec_variant_plans_at(self.fields@, version, k as nat) == Ok::<
                        Seq<VariantSerializer>,
                        SchemaError,
                    >(versioned_serializer@),
                decreases self.fields@.len() - k,
            {
                match self.fields[k].generate_serializer(version) {
                    Ok(plan) => {
                        versioned_serializer.push(plan);
                    },
                    Err(e) => {
                        proof {
                            lemma_variant_plans_at_fails(
                                self.fields@,
                                version,
                                (k + 1) as nat,
                                self.fields@.len(),
                            );
                            lemma_variant_plans_fails(self.fields@, version, self.version);
                        }
                        return Err(e);
                    },
                }
                k += 1;
            }
            versioned_serializers.push(versioned_serializer);
            assert(rows_of(versioned_serializers@) =~= before.push(versioned_serializer@));
            i += 1;
        }
        Ok(versioned_serializers)
    }

    /// How a value of the type is read: always as the variant that was
    /// written, whatever the version. Nothing is done across variants.
    pub fn generate_deserializer(&self) -> (r: FieldDeserializer)
        ensures
            r == FieldDeserializer::Direct,
    {
        FieldDeserializer::Direct
    }

    /// The schema version of the type.
    pub fn version(&self) -> (r: u16)
        ensures
            r == self.version,
    {
        self.version
    }

    /// The name of the type.
    pub fn ty(&self) -> (r: &String)
        ensures
            *r == self.ty,
    {
        &self.ty
    }
}

/// Where every declaration has a tag of 16 bits, none is turned down.
pub proof fn lemma_none_rejected(declarations: Seq<VariantDeclaration>)
    requires
        forall|i: int|
            0 <= i < declarations.len() ==> EnumVariant::spec_discriminant(
                (#[trigger] declarations[i]).discriminant,
            ) is Ok,
    ensures
        first_rejected(declarations) is None,
    decreases declarations.len(),
{
    if declarations.len() > 0 {
        let front = declarations.drop_last();
        assert forall|i: int| 0 <= i < front.len() implies EnumVariant::spec_discriminant(
            (#[trigger] front[i]).discriminant,
        ) is Ok by {
            assert(front[i] == declarations[i]);
        }
        lemma_none_rejected(front);
        assert(declarations.last() == declarations[declarations.len() - 1]);
    }
}

/// A declaration that is turned down among the first stays the first one turned down.
pub proof fn lemma_first_rejected_stays(declarations: Seq<VariantDeclaration>, k: int)
    requires
        0 <= k <= declarations.len(),
        first_rejected(declarations.take(k)) is Some,
    ensures
        first_rejected(declarations) == first_rejected(declarations.take(k)),
    decreases declarations.len() - k,
{
    if k < declarations.len() {
        assert(declarations.take(k + 1).drop_last() =~= declarations.take(k));
        lemma_first_rejected_stays(declarations, k + 1);
    } else {
        assert(declarations.take(k) =~= declarations);
    }
}

/// An error among the first variants at a version is the error of all of them.
pub proof fn lemma_variant_plans_at_fails(
    variants: Seq<EnumVariant>,
    version: u16,
    k: nat,
    count: nat,
)
    requires
        k <= count,
        spec_variant_plans_at(variants, version, k) is Err,
    ensures
        spec_variant_plans_at(variants, version, count) == spec_variant_plans_at(
            variants,
            version,
            k,
        ),
    decreases count,
{
    if k < count {
        lemma_variant_plans_at_fails(variants, version, k, (count - 1) as nat);
    }
}

/// An error at a version, with none before it, is the error of all versions.
pub proof fn lemma_variant_plans_fails(variants: Seq<EnumVariant>, version: u16, upto: u16)
    requires
        1 <= version <= upto,
        spec_variant_plans(variants, (version - 1) as u16) is Ok,
        spec_variant_plans_at(variants, version, variants.len()) is Err,
    ensures
        spec_variant_plans(variants, upto) matches Err(e) && spec_variant_plans_at(
            variants,
            version,
            variants.len(),
        ) == Err::<Seq<VariantSerializer>, SchemaError>(e),
    decreases upto,
{
    if version < upto {
        lemma_variant_plans_fails(variants, version, (upto - 1) as u16);
    }
}

/// An aggregate: its name, its schema version and its fields.
#[derive(Debug, Clone, PartialEq, Eq)]
pub struct StructDescriptor {
    /// The name of the type.
    pub ty: String,
    /// The schema version of the type.
    pub version: u16,
    /// The fields, in the order of their declaration.
    pub fields: Vec<StructField>,
}

/// Why a field cannot be part of an aggregate, if it cannot.
pub open spec fn field_fault(field: StructField) -> Option<SchemaError> {
    if !field.spec_valid() {
        Some(SchemaError::InvalidRange)
    } else {
        match field.ty {
            FieldType::Array { element_is_path, len } => if !element_is_path {
                Some(SchemaError::UnsupportedArrayType)
            } else if len is None {
                Some(SchemaError::UnsupportedArrayLen)
            } else {
                None
            },
            FieldType::Path => None,
            FieldType::Reference => None,
            FieldType::Other => Some(SchemaError::UnsupportedFieldType),
        }
    }
}

/// The fault of the first field that has one.
pub open spec fn first_fault(fields: Seq<StructField>) -> Option<SchemaError>
    decreases fields.len(),
{
    if fields.len() == 0 {
        None
    } else {
        match first_fault(fields.drop_last()) {
            Some(e) => Some(e),
            None => field_fault(fields.last()),
        }
    }
}

/// A fault among the first fields is the first fault of all fields.
pub proof fn lemma_first_fault_stays(fields: Seq<StructField>, k: int)
    requires
        0 <= k <= fields.len(),
        first_fault(fields.take(k)) is Some,
    ensures
        first_fault(fields) == first_fault(fields.take(k)),
    decreases fields.len() - k,
{
    if k < fields.len() {
        assert(fields.take(k + 1).drop_last() =~= fields.take(k));
        lemma_first_fault_stays(fields, k + 1);
    } else {
        assert(fields.take(k) =~= fields);
    }
}

/// Where no field has a fault there is no first fault.
pub proof fn lemma_no_faults(fields: Seq<StructField>)
    requires
        forall|i: int| 0 <= i < fields.len() ==> field_fault(#[trigger] fields[i]) is None,
    ensures
        first_fault(fields) is None,
    decreases fields.len(),
{
    if fields.len() > 0 {
        let front = fields.drop_last();
        assert forall|i: int| 0 <= i < front.len() implies field_fault(#[trigger] front[i])
            is None by {
            assert(front[i] == fields[i]);
        }
        lemma_no_faults(front);
        assert(fields.last() == fields[fields.len() - 1]);
    }
}

/// Without a first fault no field has a fault.
pub proof fn lemma_no_fault(fields: Seq<StructField>, i: int)
    requires
        first_fault(fields) is None,
        0 <= i < fields.len(),
    ensures
        field_fault(fields[i]) is None,
    decreases fields.len(),
{
    if i < fields.len() - 1 {
        lemma_no_fault(fields.drop_last(), i);
    }
}

fn check_field(field: &StructField) -> (r: Option<SchemaError>)
    ensures
        r == field_fault(*field),
{
    if field.start_version < 1 || !(field.end_version == 0 || field.end_version
        > field.start_version) {
        return Some(SchemaError::InvalidRange);
    }
    match field.ty {
        FieldType::Array { element_is_path, len } => {
            if !element_is_path {
                Some(SchemaError::UnsupportedArrayType)
            } else if len.is_none() {
                Some(SchemaError::UnsupportedArrayLen)
            } else {
                None
            }
        },
        FieldType::Path => None,
        FieldType::Reference => None,
        FieldType::Other => Some(SchemaError::UnsupportedFieldType),
    }
}

impl StructDescriptor {
    /// Whether every field can be part of an aggregate, and the schema
    /// version is the one that follows from the fields.
    pub open spec fn wf(&self) -> bool {
        &&& first_fault(self.fields@) is None
        &&& self.version == spec_compute_version(self.fields@)
    }

    /// The aggregate `ident` with the given fields. The first field with a
    /// fault has the type turned down.
    pub fn new(fields: Vec<StructField>, ident: String) -> (r: Result<Self, SchemaError>)
        ensures
            match first_fault(fields@) {
                Some(e) => r == Err::<Self, SchemaError>(e),
                None => r is Ok && r.unwrap().wf() && r.unwrap().ty == ident && r.unwrap().fields
                    == fields,
            },
    {
        let mut i: usize = 0;
        assert(fields@.take(0).len() == 0);
        while i < fields.len()
            invariant
                i <= fields@.len(),
                first_fault(fields@.take(i as int)) is None,
            decreases fields@.len() - i,
        {
            assert(fields@.take(i + 1).drop_last() =~= fields@.take(i as int));
            match check_field(&fields[i]) {
                Some(e) => {
                    proof {
                        lemma_first_fault_stays(fields@, i + 1);
                    }
                    return Err(e);
                },
                None => {},
            }
            i += 1;
        }
        assert(fields@.take(i as int) =~= fields@);
        let version = compute_version(&fields);
        Ok(StructDescriptor { ty: ident, version, fields })
    }

    /// The schema version of the type.
    pub fn version(&self) -> (r: u16)
        ensures
            r == self.version,
    {
        self.version
    }

    /// The name of the type.
    pub fn ty(&self) -> (r: &String)
        ensures
            *r == self.ty,
    {
        &self.ty
    }
}

} // verus!
