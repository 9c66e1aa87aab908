//! The snapshot container: a root version and a list of named sections,
//! each of which holds the bytes of one value written for that root version.
//!
//! On the wire a container is its root version in two bytes, then its
//! sections as a sequence; a section is its name as a text and its bytes as a
//! sequence of bytes. Where a name occurs twice, the later section counts.

use vstd::prelude::*;
use vstd::string::*;
use vstd::utf8::*;
use crate::error::Error;
use crate::model::{pow256, Model};
use crate::primitives::{law_round_trip_string, law_round_trip_u16, law_round_trip_u8};
use crate::sequences::{law_round_trip_sequence, models_of};
use crate::stream::{Reader, Writer};
use crate::text::str_eq;
use crate::version_map::VersionMap;
use crate::versionize::{round_trips, Versionize};

verus! {

/// A named section: the bytes of one value.
#[derive(Debug, Clone, PartialEq, Eq)]
pub struct Section {
    name: String,
    data: Vec<u8>,
}

impl View for Section {
    type V = (Seq<char>, Seq<u8>);

    /// The name of the section and its bytes.
    closed spec fn view(&self) -> (Seq<char>, Seq<u8>) {
        (self.name@, self.data@)
    }
}

/// What a section is as a value: its name and its bytes.
pub open spec fn section_model(section: (Seq<char>, Seq<u8>)) -> Model {
    Model::Record(seq![Model::Text(section.0), Model::List(models_of::<u8>(section.1))])
}

/// What sections are as values.
pub open spec fn section_models(sections: Seq<(Seq<char>, Seq<u8>)>) -> Seq<Model> {
    Seq::new(sections.len(), |i: int| section_model(sections[i]))
}

/// Bytes are the same where they are the same as values.
pub proof fn lemma_bytes_of_model(a: Seq<u8>, b: Seq<u8>)
    requires
        models_of::<u8>(a) == models_of::<u8>(b),
    ensures
        a == b,
{
    assert(models_of::<u8>(a).len() == a.len());
    assert(models_of::<u8>(b).len() == b.len());
    assert forall|i: int| 0 <= i < a.len() implies a[i] == b[i] by {
        assert(models_of::<u8>(a)[i] == Model::Int(a[i] as int));
        assert(models_of::<u8>(b)[i] == Model::Int(b[i] as int));
    }
    assert(a =~= b);
}

/// Sections are the same where they are the same as values.
pub proof fn lemma_sections_of_models(
    a: Seq<(Seq<char>, Seq<u8>)>,
    b: Seq<(Seq<char>, Seq<u8>)>,
)
    requires
        section_models(a) == section_models(b),
    ensures
        a == b,
{
    assert(section_models(a).len() == a.len());
    assert(section_models(b).len() == b.len());
    assert forall|i: int| 0 <= i < a.len() implies a[i] == b[i] by {
        assert(section_models(a)[i] == section_model(a[i]));
        assert(section_models(b)[i] == section_model(b[i]));
        let ma = seq![Model::Text(a[i].0), Model::List(models_of::<u8>(a[i].1))];
        let mb = seq![Model::Text(b[i].0), Model::List(models_of::<u8>(b[i].1))];
        assert(ma == mb);
        assert(ma[0] == mb[0]);
        assert(ma[1] == mb[1]);
        lemma_bytes_of_model(a[i].1, b[i].1);
    }
    assert(a =~= b);
}

impl Versionize for Section {
    open spec fn model(&self) -> Model {
        section_model(self@)
    }

    open spec fn serializable(m: Model, version: u16) -> bool {
        true
    }

    open spec fn encode(m: Model, version: u16) -> Seq<u8> {
        match m {
            Model::Record(members) => if members.len() == 2 {
                String::encode(members[0], version) + Vec::<u8>::encode(members[1], version)
            } else {
                Seq::empty()
            },
            _ => Seq::empty(),
        }
    }

    open spec fn decode(bytes: Seq<u8>, version: u16) -> Option<(Model, nat)> {
        match String::decode(bytes, version) {
            Some((name, taken)) => match Vec::<u8>::decode(bytes.skip(taken as int), version) {
                Some((data, width)) => Some((Model::Record(seq![name, data]), taken + width)),
                None => None,
            },
            None => None,
        }
    }

    proof fn lemma_decode_bound(bytes: Seq<u8>, version: u16) {
        String::lemma_decode_bound(bytes, version);
        match String::decode(bytes, version) {
            Some((name, taken)) => {
                Vec::<u8>::lemma_decode_bound(bytes.skip(taken as int), version);
            },
            None => {},
        }
    }

    fn serialize(&self, writer: &mut Writer, version: u16) -> (r: Result<(), Error>) {
        let ghost head = String::encode(Model::Text(self.name@), version);
        let ghost tail = Vec::<u8>::encode(Model::List(models_of::<u8>(self.data@)), version);
        match self.name.serialize(writer, version) {
            Ok(()) => {},
            Err(err) => {
                return Err(err);
            },
        }
        match self.data.serialize(writer, version) {
            Ok(()) => {
                assert(writer@ =~= old(writer)@ + (head + tail));
                Ok(())
            },
            Err(err) => Err(err),
        }
    }

    fn deserialize(reader: &mut Reader, version: u16) -> (r: Result<Self, Error>) {
        let ghost start = reader@;
        proof {
            String::lemma_decode_bound(start, version);
        }
        let name = match String::deserialize(reader, version) {
            Ok(name) => name,
            Err(err) => {
                return Err(err);
            },
        };
        let ghost taken = String::decode(start, version).unwrap().1;
        proof {
            Vec::<u8>::lemma_decode_bound(start.skip(taken as int), version);
        }
        let data: Vec<u8> = match Vec::<u8>::deserialize(reader, version) {
            Ok(data) => data,
            Err(err) => {
                return Err(err);
            },
        };
        proof {
            let width = Vec::<u8>::decode(start.skip(taken as int), version).unwrap().1;
            assert(start.skip(taken as int).skip(width as int) =~= start.skip(
                (taken + width) as int,
            ));
        }
        Ok(Section { name, data })
    }

    open spec fn spec_version() -> u16 {
        1
    }

    fn version() -> (r: u16) {
        1
    }
}

/// Whether the lengths of the name and of the bytes of a section fit into
/// the eight bytes that hold each of them.
pub open spec fn section_fits(section: (Seq<char>, Seq<u8>)) -> bool {
    encode_utf8(section.0).len() < pow256(8) && section.1.len() < pow256(8)
}

/// A section is read back as it was written.
pub proof fn lemma_section_round_trip(section: (Seq<char>, Seq<u8>), version: u16)
    requires
        section_fits(section),
    ensures
        round_trips::<Section>(section_model(section), version),
{
    let name = Model::Text(section.0);
    let items = models_of::<u8>(section.1);
    let data = Model::List(items);
    let m = section_model(section);
    law_round_trip_string(section.0, version);
    assert forall|i: int| 0 <= i < items.len() implies round_trips::<u8>(
        #[trigger] items[i],
        version,
    ) by {
        law_round_trip_u8(section.1[i], version);
    }
    law_round_trip_sequence::<u8>(items, version);
    assert forall|rest: Seq<u8>|
        Section::decode(#[trigger] (Section::encode(m, version) + rest), version) == Some(
            (m, Section::encode(m, version).len()),
        ) by {
        let head = String::encode(name, version);
        let tail = Vec::<u8>::encode(data, version);
        let all = head + tail + rest;
        assert(all =~= head + (tail + rest));
        assert(all.skip(head.len() as int) =~= tail + rest);
        assert(seq![name, data] =~= seq![Model::Text(section.0), Model::List(items)]);
    }
}

/// What a container holds.
pub struct SnapshotView {
    /// The root version for which every section was written.
    pub root_version: u16,
    /// The sections.
    pub sections: Seq<(Seq<char>, Seq<u8>)>,
}

/// The place of the section `name`: the last one of that name.
pub open spec fn position(sections: Seq<(Seq<char>, Seq<u8>)>, name: Seq<char>) -> Option<int>
    decreases sections.len(),
{
    if sections.len() == 0 {
        None
    } else if sections.last().0 == name {
        Some(sections.len() - 1)
    } else {
        position(sections.drop_last(), name)
    }
}

/// The bytes of the section `name`, if there is one.
pub open spec fn section_bytes(sections: Seq<(Seq<char>, Seq<u8>)>, name: Seq<char>) -> Option<
    Seq<u8>,
> {
    match position(sections, name) {
        Some(i) => Some(sections[i].1),
        None => None,
    }
}

/// The sections with `data` as the section `name`: in the place of the
/// section of that name, or at the end where there is none.
pub open spec fn with_section(
    sections: Seq<(Seq<char>, Seq<u8>)>,
    name: Seq<char>,
    data: Seq<u8>,
) -> Seq<(Seq<char>, Seq<u8>)> {
    match position(sections, name) {
        Some(i) => sections.update(i, (name, data)),
        None => sections.push((name, data)),
    }
}

/// The place of a section is a place among the sections, that of a section
/// of that name, and no section after it has that name.
pub proof fn lemma_position(sections: Seq<(Seq<char>, Seq<u8>)>, name: Seq<char>)
    ensures
        match position(sections, name) {
            Some(i) => 0 <= i < sections.len() && sections[i].0 == name && forall|j: int|
                i < j < sections.len() ==> (#[trigger] sections[j]).0 != name,
            None => forall|j: int| 0 <= j < sections.len() ==> (#[trigger] sections[j]).0 != name,
        },
    decreases sections.len(),
{
    if sections.len() > 0 && sections.last().0 != name {
        let front = sections.drop_last();
        lemma_position(front, name);
        match position(front, name) {
            Some(i) => {
                assert forall|j: int| i < j < sections.len() implies (#[trigger] sections[j]).0
                    != name by {
                    if j < front.len() {
                        assert(front[j] == sections[j]);
                    }
                }
            },
            None => {
                assert forall|j: int| 0 <= j < sections.len() implies (#[trigger] sections[j]).0
                    != name by {
                    if j < front.len() {
                        assert(front[j] == sections[j]);
                    }
                }
            },
        }
    }
}

/// The last section of a name is where `position` says.
pub proof fn lemma_position_is(sections: Seq<(Seq<char>, Seq<u8>)>, name: Seq<char>, i: int)
    requires
        0 <= i < sections.len(),
        sections[i].0 == name,
        forall|j: int| i < j < sections.len() ==> (#[trigger] sections[j]).0 != name,
    ensures
        position(sections, name) == Some(i),
    decreases sections.len(),
{
    if i < sections.len() - 1 {
        let front = sections.drop_last();
        assert(sections.last() == sections[sections.len() - 1]);
        assert forall|j: int| i < j < front.len() implies (#[trigger] front[j]).0 != name by {
            assert(front[j] == sections[j]);
        }
        lemma_position_is(front, name, i);
    }
}

/// Without a section of a name, `position` finds none.
pub proof fn lemma_position_none(sections: Seq<(Seq<char>, Seq<u8>)>, name: Seq<char>)
    requires
        forall|j: int| 0 <= j < sections.len() ==> (#[trigger] sections[j]).0 != name,
    ensures
        position(sections, name) is None,
    decreases sections.len(),
{
    if sections.len() > 0 {
        let front = sections.drop_last();
        assert(sections.last() == sections[sections.len() - 1]);
        assert forall|j: int| 0 <= j < front.len() implies (#[trigger] front[j]).0 != name by {
            assert(front[j] == sections[j]);
        }
        lemma_position_none(front, name);
    }
}

/// After a section was written, its name gives its bytes, and every other
/// name gives what it gave before.
pub proof fn law_written_section_is_read(
    sections: Seq<(Seq<char>, Seq<u8>)>,
    name: Seq<char>,
    data: Seq<u8>,
    other: Seq<char>,
)
    ensures
        section_bytes(with_section(sections, name, data), name) == Some(data),
        other != name ==> section_bytes(with_section(sections, name, data), other)
            == section_bytes(sections, other),
{
    let after = with_section(sections, name, data);
    lemma_position(sections, name);
    lemma_position(sections, other);
    match position(sections, name) {
        Some(i) => {
            assert forall|j: int| i < j < after.len() implies (#[trigger] after[j]).0 != name by {
                assert(after[j] == sections[j]);
            }
            lemma_position_is(after, name, i);
            if other != name {
                match position(sections, other) {
                    Some(k) => {
                        assert forall|j: int| k < j < after.len() implies (#[trigger] after[j]).0
                            != other by {
                            if j != i {
                                assert(after[j] == sections[j]);
                            }
                        }
                        lemma_position_is(after, other, k);
                    },
                    None => {
                        assert forall|j: int| 0 <= j < after.len() implies (#[trigger] after[j]).0
                            != other by {
                            if j != i {
                                assert(after[j] == sections[j]);
                            }
                        }
                        lemma_position_none(after, other);
                    },
                }
            }
        },
        None => {
            assert(after.drop_last() =~= sections);
        },
    }
}

/// The bytes of a container.
pub open spec fn encode_container(view: SnapshotView) -> Seq<u8> {
    u16::encode(Model::Int(view.root_version as int), 1) + Vec::<Section>::encode(
        Model::List(section_models(view.sections)),
        1,
    )
}

/// The container at the front of `bytes`: its root version, its sections as
/// values, and the number of bytes that it takes.
pub open spec fn decode_container(bytes: Seq<u8>) -> Option<(Model, Model, nat)> {
    match u16::decode(bytes, 1) {
        Some((root_version, taken)) => match Vec::<Section>::decode(bytes.skip(taken as int), 1) {
            Some((sections, width)) => Some((root_version, sections, taken + width)),
            None => None,
        },
        None => None,
    }
}

/// A container is read back as it was written: the same root version and
/// the same sections in the same order, whatever follows its bytes. The
/// number of sections, and the lengths of each name and of the bytes of each
/// section, have to fit into the eight bytes that hold each of them.
pub proof fn law_container_round_trip(view: SnapshotView, rest: Seq<u8>)
    requires
        view.sections.len() < pow256(8),
        forall|i: int| 0 <= i < view.sections.len() ==> section_fits(#[trigger] view.sections[i]),
    ensures
        decode_container(encode_container(view) + rest) == Some(
            (
                Model::Int(view.root_version as int),
                Model::List(section_models(view.sections)),
                encode_container(view).len(),
            ),
        ),
{
    let models = section_models(view.sections);
    let head = u16::encode(Model::Int(view.root_version as int), 1);
    let tail = Vec::<Section>::encode(Model::List(models), 1);
    law_round_trip_u16(view.root_version, 1);
    assert forall|i: int| 0 <= i < models.len() implies round_trips::<Section>(
        #[trigger] models[i],
        1,
    ) by {
        lemma_section_round_trip(view.sections[i], 1);
    }
    law_round_trip_sequence::<Section>(models, 1);
    let all = head + tail + rest;
    assert(all =~= head + (tail + rest));
    assert(all.skip(head.len() as int) =~= tail + rest);
}

/// A container that is loaded from the bytes of a saved one, whatever follows
/// them, holds what the saved one held: the same root version and the same
/// sections, by name and bytes, in the same order.
pub proof fn law_loaded_container_is_the_saved(
    saved: SnapshotView,
    loaded: SnapshotView,
    rest: Seq<u8>,
)
    requires
        saved.sections.len() < pow256(8),
        forall|i: int| 0 <= i < saved.sections.len() ==> section_fits(#[trigger] saved.sections[i]),
        decode_container(encode_container(saved) + rest) matches Some((root_version, sections, _))
            && Model::Int(loaded.root_version as int) == root_version && Model::List(
            section_models(loaded.sections),
        ) == sections,
    ensures
        loaded == saved,
{
    law_container_round_trip(saved, rest);
    lemma_sections_of_models(loaded.sections, saved.sections);
}

/// A container of named sections for one root version.
#[derive(Debug, Clone)]
pub struct Snapshot {
    version_map: VersionMap,
    target_version: u16,
    sections: Vec<Section>,
}

impl View for Snapshot {
    type V = SnapshotView;

    closed spec fn view(&self) -> SnapshotView {
        SnapshotView {
            root_version: self.target_version,
            sections: Seq::new(self.sections@.len(), |i: int| self.sections@[i]@),
        }
    }
}

impl Snapshot {
    /// The ledger of schema versions that the container carries.
    pub closed spec fn spec_version_map(&self) -> VersionMap {
        self.version_map
    }

    /// An empty container for root version `target_version`.
    pub fn new(version_map: VersionMap, target_version: u16) -> (r: Self)
        ensures
            r@.root_version == target_version,
            r@.sections == Seq::<(Seq<char>, Seq<u8>)>::empty(),
            r.spec_version_map() == version_map,
    {
        let r = Snapshot { version_map, target_version, sections: Vec::new() };
        assert(r@.sections =~= Seq::<(Seq<char>, Seq<u8>)>::empty());
        r
    }

    /// The root version for which the sections are written.
    pub fn root_version(&self) -> (r: u16)
        ensures
            r == self@.root_version,
    {
        self.target_version
    }

    /// The ledger of schema versions that the container carries.
    pub fn version_map(&self) -> (r: &VersionMap)
        ensures
            *r == self.spec_version_map(),
    {
        &self.version_map
    }

    /// The place of the section `name`.
    fn find(&self, name: &str) -> (r: Option<usize>)
        ensures
            match r {
                Some(i) => position(self@.sections, name@) == Some(i as int) && i
                    < self.sections@.len(),
                None => position(self@.sections, name@) is None,
            },
    {
        let ghost sections = self@.sections;
        let mut i: usize = self.sections.len();
        assert(sections.take(i as int) =~= sections);
        while i > 0
            invariant
                i <= sections.len(),
                sections == self@.sections,
                sections.len() == self.sections@.len(),
                position(sections, name@) == position(sections.take(i as int), name@),
            decreases i,
        {
            let ghost front = sections.take(i as int);
            assert(front.last() == self.sections@[i - 1]@);
            assert(front.drop_last() =~= sections.take(i - 1));
            if str_eq(self.sections[i - 1].name.as_str(), name) {
                return Some(i - 1);
            }
            i -= 1;
        }
        assert(sections.take(0).len() == 0);
        None
    }

    /// Writes `object` for the root version of the container and keeps the
    /// bytes as the section `name`, in the place of an earlier section of
    /// that name if there is one. Gives the number of bytes.
    ///
    /// This fails, and leaves the container as it was, exactly if the value
    /// cannot be written.
    pub fn write_section<T: Versionize>(&mut self, name: &str, object: &T) -> (r: Result<
        usize,
        Error,
    >)
        ensures
            r is Ok <==> T::serializable(object.model(), old(self)@.root_version) && T::encode(
                object.model(),
                old(self)@.root_version,
            ).len() <= usize::MAX,
            r is Ok ==> r.unwrap() == T::encode(object.model(), old(self)@.root_version).len(),
            r is Ok ==> final(self)@.root_version == old(self)@.root_version,
            r is Ok ==> final(self)@.sections == with_section(
                old(self)@.sections,
                name@,
                T::encode(object.model(), old(self)@.root_version),
            ),
            r is Err ==> final(self)@ == old(self)@ && r matches Err(Error::Serialize(_)),
            final(self).spec_version_map() == old(self).spec_version_map(),
    {
        let mut writer = Writer::unbounded();
        match object.serialize(&mut writer, self.target_version) {
            Ok(()) => {},
            Err(err) => {
                return Err(err);
            },
        }
        let data = writer.into_bytes();
        let serialized_len: usize = data.len();
        let new_section = Section { name: String::from_str(name), data };
        let ghost before = self@.sections;
        match self.find(name) {
            Some(i) => {
                self.sections.set(i, new_section);
                assert(self@.sections =~= before.update(i as int, new_section@));
            },
            None => {
                self.sections.push(new_section);
                assert(self@.sections =~= before.push(new_section@));
            },
        }
        Ok(serialized_len)
    }

    /// Reads the section `name` as a value of type `T`, written for the root
    /// version of the container.
    ///
    /// Where there is no section of that name the answer is `None`, which is
    /// no error. Where there is one, its bytes have to begin with a value of
    /// type `T`.
    pub fn read_section<T: Versionize>(&self, name: &str) -> (r: Result<Option<T>, Error>)
        ensures
            match section_bytes(self@.sections, name@) {
                None => r matches Ok(None),
                Some(data) => match T::decode(data, self@.root_version) {
                    Some((m, _)) => r matches Ok(Some(value)) && value.model() == m,
                    None => r matches Err(Error::Deserialize(_)),
                },
            },
    {
        match self.find(name) {
            Some(i) => {
                let mut reader = Reader::new(self.sections[i].data.as_slice());
                match T::deserialize(&mut reader, self.target_version) {
                    Ok(value) => Ok(Some(value)),
                    Err(err) => Err(err),
                }
            },
            None => Ok(None),
        }
    }

    /// Writes the container to `writer`.
    ///
    /// This fails exactly if the bytes of the container do not fit into
    /// `writer`.
    pub fn save(&self, writer: &mut Writer) -> (r: Result<(), Error>)
        ensures
            final(writer).limit() == old(writer).limit(),
            old(writer)@.is_prefix_of(final(writer)@),
            r is Ok <==> old(writer).fits(encode_container(self@).len()),
            r is Ok ==> final(writer)@ == old(writer)@ + encode_container(self@),
            r is Err ==> r matches Err(Error::Serialize(_)),
    {
        let ghost head = u16::encode(Model::Int(self.target_version as int), 1);
        let ghost tail = Vec::<Section>::encode(Model::List(section_models(self@.sections)), 1);
        assert(models_of::<Section>(self.sections@) =~= section_models(self@.sections));
        match self.target_version.serialize(writer, 1) {
            Ok(()) => {},
            Err(err) => {
                return Err(err);
            },
        }
        match self.sections.serialize(writer, 1) {
            Ok(()) => {
                assert(writer@ =~= old(writer)@ + (head + tail));
                Ok(())
            },
            Err(err) => Err(err),
        }
    }

    /// Reads a container from `reader`. The sections are kept as bytes;
    /// nothing is read from them yet.
    ///
    /// This succeeds exactly if a container stands at the front of what
    /// `reader` holds.
    pub fn load(reader: &mut Reader, version_map: VersionMap) -> (r: Result<Self, Error>)
        ensures
            match decode_container(old(reader)@) {
                Some((root_version, sections, n)) => r is Ok && Model::Int(
                    r.unwrap()@.root_version as int,
                ) == root_version && Model::List(section_models(r.unwrap()@.sections))
                    == sections && r.unwrap().spec_version_map() == version_map && final(reader)@
                    == old(reader)@.skip(n as int),
                None => r matches Err(Error::Deserialize(_)),
            },
    {
        let ghost start = reader@;
        let target_version = match u16::deserialize(reader, 1) {
            Ok(target_version) => target_version,
            Err(err) => {
                return Err(err);
            },
        };
        let ghost taken = u16::decode(start, 1).unwrap().1;
        proof {
            Vec::<Section>::lemma_decode_bound(start.skip(taken as int), 1);
        }
        let sections: Vec<Section> = match Vec::<Section>::deserialize(reader, 1) {
            Ok(sections) => sections,
            Err(err) => {
                return Err(err);
            },
        };
        proof {
            let width = Vec::<Section>::decode(start.skip(taken as int), 1).unwrap().1;
            assert(start.skip(taken as int).skip(width as int) =~= start.skip(
                (taken + width) as int,
            ));
        }
        let r = Snapshot { version_map, target_version, sections };
        assert(models_of::<Section>(r.sections@) =~= section_models(r@.sections));
        Ok(r)
    }
}

} // verus!
