//! The memory layout of plain structures, as the C language lays them out:
//! each field at the first offset after the field before it that its
//! alignment allows, and the size rounded up to the alignment of the whole.
//!
//! Two structures can stand for each other byte by byte only if their
//! layouts agree; this module computes layouts so that this can be checked,
//! in place of a reinterpretation of memory that nothing checks.

use vstd::prelude::*;
use crate::text::str_eq;

verus! {

/// The size and the alignment of a type, in bytes.
#[derive(Debug, Clone, Copy, PartialEq, Eq, Structural)]
pub struct Shape {
    /// The number of bytes that a value takes.
    pub size: usize,
    /// The number of which every address of a value is a multiple.
    pub align: usize,
}

/// A field: its name and the shape of its type.
#[derive(Debug, Clone, Copy)]
pub struct Field {
    /// The name of the field.
    pub name: &'static str,
    /// The shape of its type.
    pub shape: Shape,
}

/// The first multiple of `align` that is not below `offset`.
pub open spec fn spec_align_up(offset: nat, align: nat) -> nat
    recommends
        align >= 1,
{
    if offset % align == 0 {
        offset
    } else {
        (offset + align - offset % align) as nat
    }
}

/// The offset of the field at index `i` of a structure.
pub open spec fn spec_offset(fields: Seq<Field>, i: int) -> nat
    decreases i,
{
    if i <= 0 {
        0
    } else {
        spec_align_up(
            (spec_offset(fields, i - 1) + fields[i - 1].shape.size) as nat,
            fields[i].shape.align as nat,
        )
    }
}

/// The offset of the first byte after the first `count` fields of a structure.
pub open spec fn spec_end(fields: Seq<Field>, count: int) -> nat {
    if count <= 0 {
        0
    } else {
        (spec_offset(fields, count - 1) + fields[count - 1].shape.size) as nat
    }
}

/// The greatest alignment among the first `count` fields, and 1 where there is none.
pub open spec fn spec_alignment(fields: Seq<Field>, count: int) -> nat
    decreases count,
{
    if count <= 0 {
        1
    } else if fields[count - 1].shape.align >= spec_alignment(fields, count - 1) {
        fields[count - 1].shape.align as nat
    } else {
        spec_alignment(fields, count - 1)
    }
}

/// The greatest size among the first `count` fields.
pub open spec fn spec_greatest_size(fields: Seq<Field>, count: int) -> nat
    decreases count,
{
    if count <= 0 {
        0
    } else if fields[count - 1].shape.size >= spec_greatest_size(fields, count - 1) {
        fields[count - 1].shape.size as nat
    } else {
        spec_greatest_size(fields, count - 1)
    }
}

/// The size of a structure with the given fields.
pub open spec fn spec_struct_size(fields: Seq<Field>) -> nat {
    spec_align_up(spec_end(fields, fields.len() as int), spec_alignment(fields, fields.len() as int))
}

/// The size of a union with the given fields.
pub open spec fn spec_union_size(fields: Seq<Field>) -> nat {
    spec_align_up(
        spec_greatest_size(fields, fields.len() as int),
        spec_alignment(fields, fields.len() as int),
    )
}

/// Whether every field has an alignment of at least 1.
pub open spec fn aligned_fields(fields: Seq<Field>) -> bool {
    forall|i: int| 0 <= i < fields.len() ==> (#[trigger] fields[i]).shape.align >= 1
}

/// Rounding up gives a multiple of the alignment, which is not below the
/// offset and less than one alignment above it.
pub proof fn lemma_align_up(offset: nat, align: nat)
    requires
        align >= 1,
    ensures
        spec_align_up(offset, align) % align == 0,
        offset <= spec_align_up(offset, align) < offset + align,
{
    let rem = offset % align;
    if rem != 0 {
        let up = offset + align - rem;
        assert(offset == align * (offset / align) + rem) by (nonlinear_arith)
            requires
                align >= 1,
                rem == offset % align,
        ;
        assert((align * (offset / align + 1)) % align == 0) by (nonlinear_arith)
            requires
                align >= 1,
        ;
        assert(up == align * (offset / align + 1)) by (nonlinear_arith)
            requires
                up == offset + align - rem,
                offset == align * (offset / align) + rem,
        ;
    }
}

/// The alignment of the whole is at least 1.
pub proof fn lemma_alignment_positive(fields: Seq<Field>, count: int)
    ensures
        spec_alignment(fields, count) >= 1,
    decreases count,
{
    if count > 0 {
        lemma_alignment_positive(fields, count - 1);
    }
}

/// The fields of a structure stand in the order of their declaration without
/// overlap, each at a multiple of its alignment, with less than one
/// alignment of padding before it.
pub proof fn law_struct_fields_placed(fields: Seq<Field>, i: int)
    requires
        aligned_fields(fields),
        0 <= i < fields.len(),
    ensures
        spec_offset(fields, i) % (fields[i].shape.align as nat) == 0,
        spec_end(fields, i) <= spec_offset(fields, i) < spec_end(fields, i) + fields[i].shape.align,
        spec_end(fields, i + 1) <= spec_struct_size(fields),
{
    if i > 0 {
        lemma_align_up(spec_end(fields, i), fields[i].shape.align as nat);
    }
    lemma_end_grows(fields, i + 1, fields.len() as int);
    lemma_alignment_positive(fields, fields.len() as int);
    lemma_align_up(spec_end(fields, fields.len() as int), spec_alignment(fields, fields.len() as int));
}

/// The size of a structure is a multiple of its alignment.
pub proof fn law_struct_size_aligned(fields: Seq<Field>)
    ensures
        spec_struct_size(fields) % spec_alignment(fields, fields.len() as int) == 0,
{
    lemma_alignment_positive(fields, fields.len() as int);
    lemma_align_up(spec_end(fields, fields.len() as int), spec_alignment(fields, fields.len() as int));
}

/// The end of the first fields is not beyond the end of more fields.
pub proof fn lemma_end_grows(fields: Seq<Field>, k: int, count: int)
    requires
        aligned_fields(fields),
        0 <= k <= count <= fields.len(),
    ensures
        spec_end(fields, k) <= spec_end(fields, count),
    decreases count - k,
{
    if k < count {
        lemma_end_grows(fields, k + 1, count);
        if k > 0 {
            lemma_align_up(spec_end(fields, k), fields[k].shape.align as nat);
        }
    }
}

/// A structure or a union, laid out.
#[derive(Debug)]
pub struct Layout {
    name: &'static str,
    fields: Vec<Field>,
    offsets: Vec<usize>,
    shape: Shape,
}

/// `offset` rounded up to a multiple of `align`, where that can be addressed.
pub fn align_up(offset: usize, align: usize) -> (r: Option<usize>)
    requires
        align >= 1,
    ensures
        r is Some <==> spec_align_up(offset as nat, align as nat) <= usize::MAX,
        r is Some ==> r.unwrap() == spec_align_up(offset as nat, align as nat),
{
    let rem: usize = offset % align;
    if rem == 0 {
        Some(offset)
    } else {
        offset.checked_add(align - rem)
    }
}

/// The shape of an integer of `size` bytes: aligned to its size.
pub fn scalar(size: usize) -> (r: Shape)
    ensures
        r == (Shape { size, align: size }),
{
    Shape { size, align: size }
}

/// The shape of an array of `len` items of shape `element`, where its size
/// can be addressed.
pub fn array(element: Shape, len: usize) -> (r: Option<Shape>)
    ensures
        r is Some <==> element.size * len <= usize::MAX,
        r is Some ==> r.unwrap() == (Shape {
            size: (element.size * len) as usize,
            align: element.align,
        }),
{
    match element.size.checked_mul(len) {
        Some(size) => Some(Shape { size, align: element.align }),
        None => None,
    }
}

impl Layout {
    /// Every field has its offset.
    #[verifier::type_invariant]
    spec fn every_field_placed(&self) -> bool {
        self.offsets@.len() == self.fields@.len()
    }

    /// The name of the structure.
    pub closed spec fn spec_name(&self) -> &'static str {
        self.name
    }

    /// The fields, in the order of their declaration.
    pub closed spec fn spec_fields(&self) -> Seq<Field> {
        self.fields@
    }

    /// The offset of each field.
    pub closed spec fn spec_offsets(&self) -> Seq<usize> {
        self.offsets@
    }

    /// The shape of the whole.
    pub closed spec fn spec_shape(&self) -> Shape {
        self.shape
    }

    /// The layout of the structure `name` with the given fields.
    ///
    /// There is none where a field has alignment 0 or the size of the
    /// structure cannot be addressed.
    pub fn structure(name: &'static str, fields: Vec<Field>) -> (r: Option<Self>)
        ensures
            r is Some <==> aligned_fields(fields@) && spec_struct_size(fields@) <= usize::MAX,
            r is Some ==> {
                &&& r.unwrap().spec_name() == name
                &&& r.unwrap().spec_fields() == fields@
                &&& r.unwrap().spec_offsets().len() == fields@.len()
                &&& forall|i: int|
                    0 <= i < fields@.len() ==> #[trigger] r.unwrap().spec_offsets()[i]
                        == spec_offset(fields@, i)
                &&& r.unwrap().spec_shape().size == spec_struct_size(fields@)
                &&& r.unwrap().spec_shape().align == spec_alignment(fields@, fields@.len() as int)
            },
    {
        let mut offsets: Vec<usize> = Vec::new();
        let mut end: usize = 0;
        let mut align: usize = 1;
        let mut i: usize = 0;
        while i < fields.len()
            invariant
                i <= fields@.len(),
                aligned_fields(fields@.take(i as int)),
                offsets@.len() == i,
                forall|k: int| 0 <= k < i ==> #[trigger] offsets@[k] == spec_offset(fields@, k),
                end == spec_end(fields@, i as int),
                align == spec_alignment(fields@, i as int),
                align >= 1,
            decreases fields@.len() - i,
        {
            let shape = fields[i].shape;
            if shape.align == 0 {
                assert(!(fields@[i as int].shape.align >= 1));
                return None;
            }
            let offset: usize = if i == 0 {
                0
            } else {
                match align_up(end, shape.align) {
                    Some(offset) => offset,
                    None => {
                        proof {
                            lemma_size_bounds(fields@, i as int);
                        }
                        return None;
                    },
                }
            };
            end = match offset.checked_add(shape.size) {
                Some(end) => end,
                None => {
                    proof {
                        lemma_size_bounds(fields@, i as int);
                    }
                    return None;
                },
            };
            if shape.align > align {
                align = shape.align;
            }
            offsets.push(offset);
            assert forall|k: int| 0 <= k < i + 1 implies (#[trigger] fields@.take(i + 1)[k]).shape.align
                >= 1 by {
                if k < i {
                    assert(fields@.take(i as int)[k] == fields@[k]);
                }
            }
            i += 1;
        }
        assert(fields@.take(i as int) =~= fields@);
        match align_up(end, align) {
            Some(size) => Some(Layout { name, fields, offsets, shape: Shape { size, align } }),
            None => None,
        }
    }

    /// The layout of the union `name` with the given fields: every field at
    /// offset 0.
    ///
    /// There is none where a field has alignment 0 or the size of the union
    /// cannot be addressed.
    pub fn union(name: &'static str, fields: Vec<Field>) -> (r: Option<Self>)
        ensures
            r is Some <==> aligned_fields(fields@) && spec_union_size(fields@) <= usize::MAX,
            r is Some ==> {
                &&& r.unwrap().spec_name() == name
                &&& r.unwrap().spec_fields() == fields@
                &&& r.unwrap().spec_offsets().len() == fields@.len()
                &&& forall|i: int|
                    0 <= i < fields@.len() ==> #[trigger] r.unwrap().spec_offsets()[i] == 0
                &&& r.unwrap().spec_shape().size == spec_union_size(fields@)
                &&& r.unwrap().spec_shape().align == spec_alignment(fields@, fields@.len() as int)
            },
    {
        let mut offsets: Vec<usize> = Vec::new();
        let mut greatest: usize = 0;
        let mut align: usize = 1;
        let mut i: usize = 0;
        while i < fields.len()
            invariant
                i <= fields@.len(),
                aligned_fields(fields@.take(i as int)),
                offsets@.len() == i,
                forall|k: int| 0 <= k < i ==> #[trigger] offsets@[k] == 0,
                greatest == spec_greatest_size(fields@, i as int),
                align == spec_alignment(fields@, i as int),
                align >= 1,
            decreases fields@.len() - i,
        {
            let shape = fields[i].shape;
            if shape.align == 0 {
                assert(!(fields@[i as int].shape.align >= 1));
                return None;
            }
            if shape.size > greatest {
                greatest = shape.size;
            }
            if shape.align > align {
                align = shape.align;
            }
            offsets.push(0);
            assert forall|k: int| 0 <= k < i + 1 implies (#[trigger] fields@.take(i + 1)[k]).shape.align
                >= 1 by {
                if k < i {
                    assert(fields@.take(i as int)[k] == fields@[k]);
                }
            }
            i += 1;
        }
        assert(fields@.take(i as int) =~= fields@);
        match align_up(greatest, align) {
            Some(size) => Some(Layout { name, fields, offsets, shape: Shape { size, align } }),
            None => None,
        }
    }

    /// The name of the structure.
    pub fn name(&self) -> (r: &'static str)
        ensures
            r == self.spec_name(),
    {
        self.name
    }

    /// The number of bytes that a value takes.
    pub fn size(&self) -> (r: usize)
        ensures
            r == self.spec_shape().size,
    {
        self.shape.size
    }

    /// The alignment of a value.
    pub fn align(&self) -> (r: usize)
        ensures
            r == self.spec_shape().align,
    {
        self.shape.align
    }

    /// The shape of the whole, for use as the type of a field.
    pub fn shape(&self) -> (r: Shape)
        ensures
            r == self.spec_shape(),
    {
        self.shape
    }

    /// The index of the first field of the given name.
    pub open spec fn spec_index_of(fields: Seq<Field>, name: Seq<char>) -> Option<int>
        decreases fields.len(),
    {
        if fields.len() == 0 {
            None
        } else {
            match Self::spec_index_of(fields.drop_last(), name) {
                Some(i) => Some(i),
                None => if fields.last().name@ == name {
                    Some(fields.len() - 1)
                } else {
                    None
                },
            }
        }
    }

    /// The offset of the first field of the given name, if there is one.
    pub fn offset_of(&self, name: &str) -> (r: Option<usize>)
        ensures
            match Self::spec_index_of(self.spec_fields(), name@) {
                Some(i) => 0 <= i < self.spec_offsets().len() && r == Some(self.spec_offsets()[i]),
                None => r is None,
            },
    {
        let mut i: usize = 0;
        proof {
            use_type_invariant(self);
        }
        assert(self.fields@.take(0).len() == 0);
        while i < self.fields.len()
            invariant
                i <= self.fields@.len(),
                self.offsets@.len() == self.fields@.len(),
                Self::spec_index_of(self.fields@.take(i as int), name@) is None,
            decreases self.fields@.len() - i,
        {
            assert(self.fields@.take(i + 1).drop_last() =~= self.fields@.take(i as int));
            if str_eq(self.fields[i].name, name) {
                proof {
                    Self::lemma_index_stays(self.fields@, name@, i + 1);
                }
                return Some(self.offsets[i]);
            }
            i += 1;
        }
        assert(self.fields@.take(i as int) =~= self.fields@);
        None
    }

    /// A field found among the first fields is the field found among all.
    pub proof fn lemma_index_stays(fields: Seq<Field>, name: Seq<char>, k: int)
        requires
            0 <= k <= fields.len(),
            Self::spec_index_of(fields.take(k), name) is Some,
        ensures
            Self::spec_index_of(fields, name) == Self::spec_index_of(fields.take(k), name),
        decreases fields.len() - k,
    {
        if k < fields.len() {
            assert(fields.take(k + 1).drop_last() =~= fields.take(k));
            Self::lemma_index_stays(fields, name, k + 1);
        } else {
            assert(fields.take(k) =~= fields);
        }
    }

    /// Whether values of the two structures take the same number of bytes at
    /// the same alignment: the least that is needed for one to stand for the
    /// other byte by byte.
    pub fn same_shape(&self, other: &Layout) -> (r: bool)
        ensures
            r == (self.spec_shape() == other.spec_shape()),
    {
        self.shape.size == other.shape.size && self.shape.align == other.shape.align
    }
}

/// The size of a structure is not below the end of its first fields, nor
/// below the offset of any of them.
pub proof fn lemma_size_bounds(fields: Seq<Field>, i: int)
    requires
        0 <= i < fields.len(),
        aligned_fields(fields.take(i)),
        fields[i].shape.align >= 1,
    ensures
        aligned_fields(fields) ==> spec_offset(fields, i) + fields[i].shape.size
            <= spec_struct_size(fields),
{
    if aligned_fields(fields) {
        lemma_end_grows(fields, i + 1, fields.len() as int);
        lemma_alignment_positive(fields, fields.len() as int);
        lemma_align_up(
            spec_end(fields, fields.len() as int),
            spec_alignment(fields, fields.len() as int),
        );
    }
}

/// A member of a declaration: its name and the shape of its type, where the
/// type has one.
#[derive(Debug, Clone, Copy)]
pub struct Member {
    /// The name of the member.
    pub name: &'static str,
    /// The shape of its type, if its type could be laid out.
    pub shape: Option<Shape>,
}

/// The shape of an integer of `size` bytes.
pub open spec fn spec_integer(size: usize) -> Option<Shape> {
    Some(Shape { size, align: size })
}

/// The shape of an array of `len` items.
pub open spec fn spec_array_of(element: Option<Shape>, len: usize) -> Option<Shape> {
    match element {
        Some(element) => if element.size * len <= usize::MAX {
            Some(Shape { size: (element.size * len) as usize, align: element.align })
        } else {
            None
        },
        None => None,
    }
}

/// The shape of an array of unknown length at the end of a structure: it
/// takes no room, and is aligned as its items are.
pub open spec fn spec_flexible(element: Option<Shape>) -> Option<Shape> {
    match element {
        Some(element) => Some(Shape { size: 0, align: element.align }),
        None => None,
    }
}

/// The fields that the members are, where the type of each has a shape.
pub open spec fn resolved(members: Seq<Member>) -> Option<Seq<Field>> {
    if forall|i: int| 0 <= i < members.len() ==> (#[trigger] members[i]).shape is Some {
        Some(
            Seq::new(
                members.len(),
                |i: int| Field { name: members[i].name, shape: members[i].shape.unwrap() },
            ),
        )
    } else {
        None
    }
}

/// The shape of a structure or a union with the given members, where there is one.
pub open spec fn spec_declared_shape(is_union: bool, members: Seq<Member>) -> Option<Shape> {
    match resolved(members) {
        Some(fields) => {
            let size = if is_union {
                spec_union_size(fields)
            } else {
                spec_struct_size(fields)
            };
            if aligned_fields(fields) && size <= usize::MAX {
                Some(
                    Shape {
                        size: size as usize,
                        align: spec_alignment(fields, fields.len() as int) as usize,
                    },
                )
            } else {
                None
            }
        },
        None => None,
    }
}

/// Whether `layout` is the layout of the declaration: there is none where
/// the declaration has no shape; otherwise it has the name, the fields and
/// the shape of the declaration, and each field at its offset.
pub open spec fn declared_as(
    layout: Option<Layout>,
    name: &'static str,
    is_union: bool,
    members: Seq<Member>,
) -> bool {
    match spec_declared_shape(is_union, members) {
        Some(shape) => {
            &&& layout is Some
            &&& layout.unwrap().spec_name() == name
            &&& layout.unwrap().spec_fields() == resolved(members).unwrap()
            &&& layout.unwrap().spec_shape() == shape
            &&& layout.unwrap().spec_offsets().len() == members.len()
            &&& forall|i: int|
                0 <= i < members.len() ==> #[trigger] layout.unwrap().spec_offsets()[i] == (if is_union {
                    0
                } else {
                    spec_offset(resolved(members).unwrap(), i)
                })
        },
        None => layout is None,
    }
}

/// The shape of an integer of `size` bytes.
pub fn integer(size: usize) -> (r: Option<Shape>)
    ensures
        r == spec_integer(size),
{
    Some(scalar(size))
}

/// The shape of an array of `len` items.
pub fn array_of(element: Option<Shape>, len: usize) -> (r: Option<Shape>)
    ensures
        r == spec_array_of(element, len),
{
    match element {
        Some(element) => array(element, len),
        None => None,
    }
}

/// The shape of an array of unknown length at the end of a structure.
pub fn flexible(element: Option<Shape>) -> (r: Option<Shape>)
    ensures
        r == spec_flexible(element),
{
    match element {
        Some(element) => Some(Shape { size: 0, align: element.align }),
        None => None,
    }
}

/// The shape of a structure that was laid out, for use as the type of a member.
pub fn shape_of(layout: &Option<Layout>) -> (r: Option<Shape>)
    ensures
        r == match *layout {
            Some(layout) => Some(layout.spec_shape()),
            None => None,
        },
{
    match layout {
        Some(layout) => Some(layout.shape()),
        None => None,
    }
}

/// Lays out the structure or the union `name` with the given members.
pub fn declare(name: &'static str, is_union: bool, members: Vec<Member>) -> (r: Option<Layout>)
    ensures
        declared_as(r, name, is_union, members@),
{
    let mut fields: Vec<Field> = Vec::new();
    let mut i: usize = 0;
    while i < members.len()
        invariant
            i <= members@.len(),
            fields@.len() == i,
            forall|k: int|
                0 <= k < i ==> (#[trigger] members@[k]).shape is Some && fields@[k] == (Field {
                    name: members@[k].name,
                    shape: members@[k].shape.unwrap(),
                }),
        decreases members@.len() - i,
    {
        match members[i].shape {
            Some(shape) => {
                fields.push(Field { name: members[i].name, shape });
            },
            None => {
                assert(!(members@[i as int].shape is Some));
                return None;
            },
        }
        i += 1;
    }
    assert(fields@ =~= resolved(members@).unwrap());
    if is_union {
        Layout::union(name, fields)
    } else {
        Layout::structure(name, fields)
    }
}

} // verus!
