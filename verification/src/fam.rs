//! Values with a flexible array member: a fixed header followed by a number
//! of entries. The header is written as its type writes it, the entries as a
//! sequence; the number of entries on the wire is that of the sequence,
//! whatever the header says.

use vstd::prelude::*;
use vstd::string::*;
use crate::error::Error;
use crate::model::{pow256, Model};
use crate::sequences::{
    decode_list, encode_list, items_serializable, law_round_trip_sequence,
    models_of,
};
use crate::stream::{Reader, Writer};
use crate::versionize::{round_trips, Versionize};

verus! {

/// The header of a value with a flexible array member: it counts the entries
/// that follow it, up to a maximum.
pub trait FamStruct: Sized {
    /// The number of entries that the header says there are.
    spec fn spec_len(&self) -> nat;

    /// The greatest number of entries that a value may have.
    spec fn spec_max_len() -> nat;

    /// The number of entries that the header says there are.
    fn len(&self) -> (r: usize)
        ensures
            r == self.spec_len(),
    ;

    /// Makes the header say that there are `len` entries.
    fn set_len(&mut self, len: usize)
        requires
            len <= Self::spec_max_len(),
        ensures
            final(self).spec_len() == len,
    ;

    /// The greatest number of entries that a value may have.
    fn max_len() -> (r: usize)
        ensures
            r == Self::spec_max_len(),
    ;

    /// A header that says that there are no entries.
    fn empty_header() -> (r: Self)
        ensures
            r.spec_len() == 0,
    ;
}

/// Why an entry could not be added.
#[derive(Debug, Clone, Copy, PartialEq, Eq, Structural)]
pub enum FamError {
    /// The value has as many entries as it may have.
    SizeLimitExceeded,
}

/// A header and the entries that follow it.
#[derive(Debug, Clone, PartialEq)]
pub struct FamStructWrapper<H, E> {
    header: H,
    entries: Vec<E>,
}

impl<H: FamStruct, E> FamStructWrapper<H, E> {
    /// The header.
    pub closed spec fn spec_header(&self) -> H {
        self.header
    }

    /// The entries.
    pub closed spec fn spec_entries(&self) -> Seq<E> {
        self.entries@
    }

    /// A value with the entries `entries`, and a header that counts them.
    /// There is none where the entries are more than a value may have.
    pub fn from_entries(entries: Vec<E>) -> (r: Result<Self, FamError>)
        ensures
            r is Ok <==> entries@.len() <= H::spec_max_len(),
            r is Ok ==> r.unwrap().spec_entries() == entries@ && r.unwrap().spec_header().spec_len()
                == entries@.len(),
            r is Err ==> r == Err::<Self, FamError>(FamError::SizeLimitExceeded),
    {
        if entries.len() > H::max_len() {
            return Err(FamError::SizeLimitExceeded);
        }
        let mut header = H::empty_header();
        header.set_len(entries.len());
        Ok(FamStructWrapper { header, entries })
    }

    /// A value with `num_elements` entries, each the default value of its
    /// type, and a header that counts them. There is none where that is more
    /// entries than a value may have.
    pub fn new(num_elements: usize) -> (r: Result<Self, FamError>) where E: Default
        ensures
            r is Ok <==> num_elements <= H::spec_max_len(),
            r is Ok ==> r.unwrap().spec_entries().len() == num_elements && r.unwrap().spec_header().spec_len()
                == num_elements,
            r is Err ==> r == Err::<Self, FamError>(FamError::SizeLimitExceeded),
    {
        if num_elements > H::max_len() {
            return Err(FamError::SizeLimitExceeded);
        }
        let mut entries: Vec<E> = Vec::new();
        let mut i: usize = 0;
        while i < num_elements
            invariant
                i <= num_elements,
                entries@.len() == i,
            decreases num_elements - i,
        {
            entries.push(E::default());
            i += 1;
        }
        let mut header = H::empty_header();
        header.set_len(num_elements);
        Ok(FamStructWrapper { header, entries })
    }

    /// The header.
    pub fn as_fam_struct_ref(&self) -> (r: &H)
        ensures
            *r == self.spec_header(),
    {
        &self.header
    }

    /// The header, to be changed in place.
    pub fn as_mut_fam_struct(&mut self) -> (r: &mut H)
        ensures
            *r == old(self).spec_header(),
            final(self).spec_header() == *final(r),
            final(self).spec_entries() == old(self).spec_entries(),
    {
        &mut self.header
    }

    /// The entries.
    pub fn as_slice(&self) -> (r: &[E])
        ensures
            r@ == self.spec_entries(),
    {
        self.entries.as_slice()
    }

    /// Adds an entry at the end and has the header count it, or fails where
    /// the value has as many entries as it may have.
    pub fn push(&mut self, entry: E) -> (r: Result<(), FamError>)
        ensures
            r is Ok <==> old(self).spec_entries().len() < H::spec_max_len(),
            r is Ok ==> final(self).spec_entries() == old(self).spec_entries().push(entry)
                && final(self).spec_header().spec_len() == old(self).spec_entries().len() + 1,
            r is Err ==> r == Err::<(), FamError>(FamError::SizeLimitExceeded),
            r is Err ==> final(self).spec_entries() == old(self).spec_entries(),
            r is Err ==> final(self).spec_header() == old(self).spec_header(),
    {
        if self.entries.len() >= H::max_len() {
            return Err(FamError::SizeLimitExceeded);
        }
        self.entries.push(entry);
        self.header.set_len(self.entries.len());
        Ok(())
    }
}

/// The bytes of a header and its entries.
pub open spec fn encode_fam<H: Versionize, E: Versionize>(m: Model, version: u16) -> Seq<u8> {
    match m {
        Model::Fam(header, entries) => H::encode(*header, version) + encode_list::<E>(
            Model::List(entries),
            version,
        ),
        _ => Seq::empty(),
    }
}

/// The header and the entries at the front of `bytes`.
pub open spec fn decode_fam<H: FamStruct + Versionize, E: Versionize>(
    bytes: Seq<u8>,
    version: u16,
) -> Option<(Model, nat)> {
    match H::decode(bytes, version) {
        Some((header, taken)) => match decode_list::<E>(bytes.skip(taken as int), version) {
            Some((Model::List(entries), width)) => if entries.len() <= H::spec_max_len() {
                Some((Model::Fam(Box::new(header), entries), taken + width))
            } else {
                None
            },
            _ => None,
        },
        None => None,
    }
}

impl<H: FamStruct + Versionize, E: Versionize> Versionize for FamStructWrapper<H, E> {
    open spec fn model(&self) -> Model {
        Model::Fam(Box::new(self.spec_header().model()), models_of(self.spec_entries()))
    }

    open spec fn serializable(m: Model, version: u16) -> bool {
        match m {
            Model::Fam(header, entries) => H::serializable(*header, version)
                && items_serializable::<E>(entries, version),
            _ => true,
        }
    }

    open spec fn encode(m: Model, version: u16) -> Seq<u8> {
        encode_fam::<H, E>(m, version)
    }

    open spec fn decode(bytes: Seq<u8>, version: u16) -> Option<(Model, nat)> {
        decode_fam::<H, E>(bytes, version)
    }

    proof fn lemma_decode_bound(bytes: Seq<u8>, version: u16) {
        H::lemma_decode_bound(bytes, version);
        match H::decode(bytes, version) {
            Some((header, taken)) => {
                Vec::<E>::lemma_decode_bound(bytes.skip(taken as int), version);
            },
            None => {},
        }
    }

    fn serialize(&self, writer: &mut Writer, version: u16) -> (r: Result<(), Error>) {
        let ghost head = H::encode(self.header.model(), version);
        let ghost tail = encode_list::<E>(Model::List(models_of(self.entries@)), version);
        match self.header.serialize(writer, version) {
            Ok(()) => {},
            Err(err) => {
                return Err(err);
            },
        }
        match self.entries.serialize(writer, version) {
            Ok(()) => {
                assert(writer@ =~= old(writer)@ + (head + tail));
                Ok(())
            },
            Err(err) => Err(err),
        }
    }

    fn deserialize(reader: &mut Reader, version: u16) -> (r: Result<Self, Error>) {
        let ghost start = reader@;
        proof {
            H::lemma_decode_bound(start, version);
        }
        let header = match H::deserialize(reader, version) {
            Ok(header) => header,
            Err(err) => {
                return Err(err);
            },
        };
        let ghost taken = H::decode(start, version).unwrap().1;
        proof {
            Vec::<E>::lemma_decode_bound(start.skip(taken as int), version);
        }
        let entries: Vec<E> = match Vec::<E>::deserialize(reader, version) {
            Ok(entries) => entries,
            Err(err) => {
                return Err(err);
            },
        };
        proof {
            let width = decode_list::<E>(start.skip(taken as int), version).unwrap().1;
            assert(start.skip(taken as int).skip(width as int) =~= start.skip(
                (taken + width) as int,
            ));
        }
        // The value is made from the entries; then the header that was read
        // takes the place of the one that came with them.
        match FamStructWrapper::<H, E>::from_entries(entries) {
            Ok(made) => {
                let mut object = made;
                object.header = header;
                Ok(object)
            },
            Err(_) => Err(Error::Deserialize(String::from_str("the max size has been exceeded"))),
        }
    }

    open spec fn spec_version() -> u16 {
        1
    }

    fn version() -> (r: u16) {
        1
    }
}

/// A header with entries is read back as it was written, at any version at
/// which the header and each entry are read back as written. The number of
/// entries may be 0; it has to fit into the eight bytes that hold it and must
/// not be above the greatest number that a value may have.
pub proof fn law_round_trip_fam<H: FamStruct + Versionize, E: Versionize>(
    header: Model,
    entries: Seq<Model>,
    version: u16,
)
    requires
        round_trips::<H>(header, version),
        forall|i: int| 0 <= i < entries.len() ==> round_trips::<E>(#[trigger] entries[i], version),
        entries.len() < pow256(8),
        entries.len() <= H::spec_max_len(),
    ensures
        round_trips::<FamStructWrapper<H, E>>(Model::Fam(Box::new(header), entries), version),
{
    let m = Model::Fam(Box::new(header), entries);
    law_round_trip_sequence::<E>(entries, version);
    assert forall|rest: Seq<u8>|
        FamStructWrapper::<H, E>::decode(
            #[trigger] (FamStructWrapper::<H, E>::encode(m, version) + rest),
            version,
        ) == Some((m, FamStructWrapper::<H, E>::encode(m, version).len())) by {
        let head = H::encode(header, version);
        let tail = Vec::<E>::encode(Model::List(entries), version);
        let all = head + tail + rest;
        assert(all =~= head + (tail + rest));
        assert(all.skip(head.len() as int) =~= tail + rest);
    }
}

/// Makes a value of one kind from a value of another kind: the header is
/// what `convert_header` makes of the header, and each entry is what
/// `convert_entry` makes of the entry in its place. There is none where the
/// entries are more than a value of the new kind may have.
///
/// The two functions have to take any header and any entry.
pub fn convert_fam_struct_wrapper<H1: FamStruct, E1, H2: FamStruct, E2, FH, FE>(
    src: &FamStructWrapper<H1, E1>,
    convert_header: FH,
    convert_entry: FE,
) -> (r: Result<FamStructWrapper<H2, E2>, FamError>) where
    FH: Fn(&H1) -> H2,
    FE: Fn(&E1) -> E2,

    requires
        forall|header: &H1| call_requires(convert_header, (header,)),
        forall|entry: &E1| call_requires(convert_entry, (entry,)),
    ensures
        r is Ok <==> src.spec_entries().len() <= H2::spec_max_len(),
        r is Ok ==> {
            &&& call_ensures(convert_header, (&src.spec_header(),), r.unwrap().spec_header())
            &&& r.unwrap().spec_entries().len() == src.spec_entries().len()
            &&& forall|i: int|
                0 <= i < src.spec_entries().len() ==> call_ensures(
                    convert_entry,
                    (&src.spec_entries()[i],),
                    #[trigger] r.unwrap().spec_entries()[i],
                )
        },
        r is Err ==> r == Err::<FamStructWrapper<H2, E2>, FamError>(FamError::SizeLimitExceeded),
{
    if src.entries.len() > H2::max_len() {
        return Err(FamError::SizeLimitExceeded);
    }
    let mut entries: Vec<E2> = Vec::new();
    let mut index: usize = 0;
    while index < src.entries.len()
        invariant
            index <= src.entries@.len(),
            entries@.len() == index,
            forall|entry: &E1| call_requires(convert_entry, (entry,)),
            forall|i: int|
                0 <= i < index ==> call_ensures(
                    convert_entry,
                    (&src.entries@[i],),
                    #[trigger] entries@[i],
                ),
        decreases src.entries@.len() - index,
    {
        let entry = convert_entry(&src.entries[index]);
        entries.push(entry);
        index += 1;
    }
    let header = convert_header(&src.header);
    Ok(FamStructWrapper { header, entries })
}

} // verus!
