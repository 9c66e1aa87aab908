//! Maps the schema version of each type to a sequence of root versions.
//!
//! A snapshot is taken at one root version; every type that takes part in it
//! has a schema version of its own. The ledger records, for each root
//! version, which types changed their schema version there.

use vstd::prelude::*;
use vstd::string::*;
use crate::text::{decimal, decimal_list, is_listed, listed, push_decimal, push_decimal_list, str_eq};

verus! {

/// The schema version of a type that was never recorded.
pub const BASE_VERSION: u16 = 1;

/// What one root version records for `name`: the entry made last is the one that counts.
pub open spec fn recorded(entries: Seq<(&'static str, u16)>, name: Seq<char>) -> Option<u16>
    decreases entries.len(),
{
    if entries.len() == 0 {
        None
    } else if entries.last().0@ == name {
        Some(entries.last().1)
    } else {
        recorded(entries.drop_last(), name)
    }
}

/// The entries of one root version as a map from type name to schema version.
pub open spec fn entries_map(entries: Seq<(&'static str, u16)>) -> Map<Seq<char>, u16> {
    Map::new(
        |name: Seq<char>| recorded(entries, name) is Some,
        |name: Seq<char>| recorded(entries, name).unwrap(),
    )
}

/// The schema version of `name` at root version `root`: the value recorded at
/// the latest root version at or before `root`, or the base version.
pub open spec fn resolve(versions: Seq<Map<Seq<char>, u16>>, root: int, name: Seq<char>) -> u16
    recommends
        0 <= root <= versions.len(),
    decreases root,
{
    if root <= 0 {
        BASE_VERSION
    } else if versions[root - 1].contains_key(name) {
        versions[root - 1][name]
    } else {
        resolve(versions, root - 1, name)
    }
}

/// The names recorded at the first `k` root versions.
pub open spec fn names_upto(versions: Seq<Map<Seq<char>, u16>>, k: int) -> Set<Seq<char>>
    decreases k,
{
    if k <= 0 {
        Set::empty()
    } else {
        names_upto(versions, k - 1).union(versions[k - 1].dom())
    }
}

/// The set of names that a list holds.
pub open spec fn names_of(names: Seq<&'static str>) -> Set<Seq<char>>
    decreases names.len(),
{
    if names.len() == 0 {
        Set::empty()
    } else {
        names_of(names.drop_last()).insert(names.last()@)
    }
}

/// `names_upto` holds a name exactly if one of the first `k` root versions records it.
pub proof fn lemma_names_upto(versions: Seq<Map<Seq<char>, u16>>, k: int, name: Seq<char>)
    requires
        0 <= k <= versions.len(),
    ensures
        names_upto(versions, k).contains(name) <==> exists|i: int|
            0 <= i < k && (#[trigger] versions[i]).contains_key(name),
    decreases k,
{
    if k > 0 {
        lemma_names_upto(versions, k - 1, name);
        if versions[k - 1].contains_key(name) {
            assert(versions[k - 1].dom().contains(name));
        }
        if exists|i: int| 0 <= i < k && (#[trigger] versions[i]).contains_key(name) {
            let i = choose|i: int| 0 <= i < k && (#[trigger] versions[i]).contains_key(name);
            if i < k - 1 {
                assert(names_upto(versions, k - 1).contains(name));
            }
        }
    }
}

/// `names_of` holds a name exactly if it stands somewhere in the list.
pub proof fn lemma_names_of(names: Seq<&'static str>, name: Seq<char>)
    ensures
        names_of(names).contains(name) <==> exists|i: int|
            0 <= i < names.len() && (#[trigger] names[i])@ == name,
    decreases names.len(),
{
    if names.len() > 0 {
        let rest = names.drop_last();
        lemma_names_of(rest, name);
        if names.last()@ == name {
            assert(names[names.len() - 1]@ == name);
        }
        if names_of(rest).contains(name) {
            let i = choose|i: int| 0 <= i < rest.len() && (#[trigger] rest[i])@ == name;
            assert(names[i] == rest[i]);
        }
        if exists|i: int| 0 <= i < names.len() && (#[trigger] names[i])@ == name {
            let i = choose|i: int| 0 <= i < names.len() && (#[trigger] names[i])@ == name;
            if i < names.len() - 1 {
                assert(rest[i] == names[i]);
            }
        }
    }
}

/// Why a lookup in the ledger was turned down.
#[derive(Debug, PartialEq, Eq, Clone, Copy, Structural)]
pub enum VersionMapError {
    /// The root version is 0 or lies beyond the latest root version.
    UnknownRootVersion(u16),
}

/// The ledger of schema versions.
///
/// Root versions are numbered from 1; the entry at index `i` belongs to root
/// version `i + 1`. A type that is not recorded at a root version keeps the
/// schema version it had at the root version before, and the base version if
/// it was never recorded.
#[derive(Clone, Debug)]
pub struct VersionMap {
    versions: Vec<Vec<(&'static str, u16)>>,
}

impl View for VersionMap {
    type V = Seq<Map<Seq<char>, u16>>;

    closed spec fn view(&self) -> Seq<Map<Seq<char>, u16>> {
        Seq::new(self.versions@.len(), |i: int| entries_map(self.versions@[i]@))
    }
}

/// The value recorded for `name` among `entries`, if any.
fn find_recorded(entries: &Vec<(&'static str, u16)>, name: &str) -> (r: Option<u16>)
    ensures
        r == recorded(entries@, name@),
{
    let mut i: usize = entries.len();
    assert(entries@.subrange(0, i as int) =~= entries@);
    while i > 0
        invariant
            i <= entries@.len(),
            recorded(entries@, name@) == recorded(entries@.subrange(0, i as int), name@),
        decreases i,
    {
        let ghost prefix = entries@.subrange(0, i as int);
        if str_eq(entries[i - 1].0, name) {
            assert(prefix.last() == entries@[i - 1]);
            return Some(entries[i - 1].1);
        }
        assert(prefix.last() == entries@[i - 1]);
        assert(prefix.drop_last() =~= entries@.subrange(0, i - 1));
        i -= 1;
    }
    assert(entries@.subrange(0, 0).len() == 0);
    None
}

/// Whether the list holds `name`.
fn contains_name(names: &Vec<&'static str>, name: &str) -> (r: bool)
    ensures
        r == names_of(names@).contains(name@),
{
    let mut i: usize = 0;
    assert(names@.subrange(0, 0).len() == 0);
    while i < names.len()
        invariant
            i <= names@.len(),
            !names_of(names@.subrange(0, i as int)).contains(name@),
        decreases names@.len() - i,
    {
        let ghost next = names@.subrange(0, i + 1);
        assert(next.drop_last() =~= names@.subrange(0, i as int));
        assert(next.last() == names@[i as int]);
        if str_eq(names[i], name) {
            proof {
                lemma_names_of(next, name@);
                let j = choose|j: int| 0 <= j < next.len() && (#[trigger] next[j])@ == name@;
                assert(names@[j] == next[j]);
                lemma_names_of(names@, name@);
            }
            return true;
        }
        i += 1;
    }
    assert(names@.subrange(0, i as int) =~= names@);
    false
}

impl VersionMap {
    /// The ledger holds at least the base root version, and no more root
    /// versions than a version number can count.
    pub open spec fn wf(&self) -> bool {
        1 <= self@.len() <= u16::MAX
    }

    /// The schema version of `name` at root version `root`.
    pub open spec fn spec_type_version(&self, root: int, name: Seq<char>) -> u16 {
        resolve(self@, root, name)
    }

    /// A ledger with root version 1, at which nothing is recorded.
    pub fn new() -> (r: Self)
        ensures
            r.wf(),
            r@ == seq![Map::<Seq<char>, u16>::empty()],
    {
        let mut versions: Vec<Vec<(&'static str, u16)>> = Vec::new();
        versions.push(Vec::new());
        let r = VersionMap { versions };
        proof {
            assert(entries_map(Seq::<(&'static str, u16)>::empty()) =~= Map::<Seq<char>, u16>::empty());
            assert(r@ =~= seq![Map::<Seq<char>, u16>::empty()]);
        }
        r
    }

    /// Opens a new root version, one above the latest, with nothing recorded at it.
    pub fn new_version(&mut self) -> (ret: &mut Self)
        requires
            old(self).wf(),
            old(self)@.len() < u16::MAX,
        ensures
            ret@ == old(self)@.push(Map::<Seq<char>, u16>::empty()),
            ret.wf(),
            *final(self) == *final(ret),
    {
        self.versions.push(Vec::new());
        proof {
            assert(entries_map(Seq::<(&'static str, u16)>::empty()) =~= Map::<Seq<char>, u16>::empty());
            assert(self@ =~= old(self)@.push(Map::<Seq<char>, u16>::empty()));
        }
        self
    }

    /// Records at the latest root version that `name` has schema version
    /// `type_version` from there on. An earlier record for the same name at
    /// that root version is replaced.
    pub fn set_type_version(&mut self, name: &'static str, type_version: u16) -> (ret: &mut Self)
        requires
            old(self).wf(),
        ensures
            ret@ == old(self)@.update(
                old(self)@.len() - 1,
                old(self)@.last().insert(name@, type_version),
            ),
            ret.wf(),
            *final(self) == *final(ret),
    {
        let last: usize = self.versions.len() - 1;
        let ghost before = self.versions@[last as int]@;
        self.versions[last].push((name, type_version));
        proof {
            let after = self.versions@[last as int]@;
            assert(after == before.push((name, type_version)));
            assert(after.drop_last() =~= before);
            assert(entries_map(after) =~= entries_map(before).insert(name@, type_version));
            assert(self@ =~= old(self)@.update(
                old(self)@.len() - 1,
                old(self)@.last().insert(name@, type_version),
            ));
        }
        self
    }

    /// The latest root version.
    pub fn latest_version(&self) -> (r: u16)
        requires
            self.wf(),
        ensures
            r == self@.len(),
    {
        self.versions.len() as u16
    }

    /// The schema version of `name` at `root_version`.
    ///
    /// A root version that the ledger does not hold is turned down.
    pub fn get_type_version(&self, root_version: u16, name: &'static str) -> (r: Result<u16, VersionMapError>)
        requires
            self.wf(),
        ensures
            1 <= root_version <= self@.len() ==> r == Ok::<u16, VersionMapError>(
                self.spec_type_version(root_version as int, name@),
            ),
            !(1 <= root_version <= self@.len()) ==> r == Err::<u16, VersionMapError>(
                VersionMapError::UnknownRootVersion(root_version),
            ),
    {
        if root_version == 0 || root_version as usize > self.versions.len() {
            return Err(VersionMapError::UnknownRootVersion(root_version));
        }
        let mut i: usize = root_version as usize;
        while i > 0
            invariant
                i <= root_version <= self@.len(),
                self@.len() == self.versions@.len(),
                forall|k: int| 0 <= k < self@.len() ==> self@[k] == entries_map(#[trigger] self.versions@[k]@),
                resolve(self@, root_version as int, name@) == resolve(self@, i as int, name@),
            decreases i,
        {
            match find_recorded(&self.versions[i - 1], name) {
                Some(version) => {
                    return Ok(version);
                },
                None => {},
            }
            i -= 1;
        }
        Ok(BASE_VERSION)
    }

    /// The schema version of `name` at each root version, from root version 1
    /// to the latest: the entry at index `i` is the schema version at root
    /// version `i + 1`.
    pub fn type_history(&self, name: &'static str) -> (r: Vec<u16>)
        requires
            self.wf(),
        ensures
            r@.len() == self@.len(),
            forall|i: int| 0 <= i < r@.len() ==> r@[i] == self.spec_type_version(i + 1, name@),
    {
        let mut current: u16 = BASE_VERSION;
        let mut history: Vec<u16> = Vec::new();
        let mut i: usize = 0;
        while i < self.versions.len()
            invariant
                i <= self@.len(),
                self@.len() == self.versions@.len(),
                forall|k: int| 0 <= k < self@.len() ==> self@[k] == entries_map(#[trigger] self.versions@[k]@),
                current == resolve(self@, i as int, name@),
                history@.len() == i,
                forall|k: int| 0 <= k < i ==> history@[k] == resolve(self@, k + 1, name@),
            decreases self@.len() - i,
        {
            match find_recorded(&self.versions[i], name) {
                Some(version) => {
                    current = version;
                },
                None => {},
            }
            history.push(current);
            i += 1;
        }
        history
    }

    /// The names recorded at any root version.
    pub open spec fn known_names(&self) -> Set<Seq<char>> {
        names_upto(self@, self@.len() as int)
    }

    /// Every name that was ever recorded, each once, in no particular order.
    pub fn type_names(&self) -> (r: Vec<&'static str>)
        requires
            self.wf(),
        ensures
            names_of(r@) == self.known_names(),
            forall|i: int, j: int| 0 <= i < j < r@.len() ==> r@[i]@ != r@[j]@,
    {
        let mut names: Vec<&'static str> = Vec::new();
        let mut k: usize = 0;
        while k < self.versions.len()
            invariant
                k <= self@.len(),
                self@.len() == self.versions@.len(),
                forall|a: int| 0 <= a < self@.len() ==> self@[a] == entries_map(#[trigger] self.versions@[a]@),
                names_of(names@) == names_upto(self@, k as int),
                forall|i: int, j: int| 0 <= i < j < names@.len() ==> names@[i]@ != names@[j]@,
            decreases self@.len() - k,
        {
            let entries = &self.versions[k];
            let mut j: usize = 0;
            assert(entries@.subrange(0, 0).len() == 0);
            assert(names_of(names@).union(entries_map(entries@.subrange(0, 0)).dom()) =~= names_of(names@));
            while j < entries.len()
                invariant
                    j <= entries@.len(),
                    k < self@.len(),
                    names_of(names@) == names_upto(self@, k as int).union(
                        entries_map(entries@.subrange(0, j as int)).dom(),
                    ),
                    forall|i: int, j: int| 0 <= i < j < names@.len() ==> names@[i]@ != names@[j]@,
                decreases entries@.len() - j,
            {
                let candidate: &'static str = entries[j].0;
                let ghost prefix = entries@.subrange(0, j as int);
                let ghost next = entries@.subrange(0, j + 1);
                let ghost before = names@;
                assert(next.drop_last() =~= prefix);
                assert(next.last() == entries@[j as int]);
                assert(entries_map(next).dom() =~= entries_map(prefix).dom().insert(candidate@));
                if !contains_name(&names, candidate) {
                    names.push(candidate);
                    proof {
                        assert(names@.drop_last() =~= before);
                        assert forall|a: int, b: int| 0 <= a < b < names@.len() implies names@[a]@
                            != names@[b]@ by {
                            if b == names@.len() - 1 {
                                lemma_names_of(before, candidate@);
                                assert(before[a] == names@[a]);
                            }
                        }
                    }
                }
                assert(names_of(names@) =~= names_upto(self@, k as int).union(
                    entries_map(next).dom(),
                ));
                j += 1;
            }
            assert(entries@.subrange(0, j as int) =~= entries@);
            k += 1;
        }
        names
    }
}

impl Default for VersionMap {
    /// The same ledger as `VersionMap::new` gives.
    fn default() -> (r: Self)
        ensures
            r.wf(),
            r@ == seq![Map::<Seq<char>, u16>::empty()],
    {
        VersionMap::new()
    }
}

/// Whether, wherever `name` is recorded, the recorded schema version is no
/// lower than the one it had at the root version before.
pub open spec fn never_lowered(versions: Seq<Map<Seq<char>, u16>>, name: Seq<char>) -> bool {
    forall|r: int|
        1 <= r <= versions.len() && (#[trigger] versions[r - 1]).contains_key(name)
            ==> versions[r - 1][name] >= resolve(versions, r - 1, name)
}

/// The schema version of a type does not go down from one root version to a
/// later one, as long as no record lowers it.
pub proof fn law_type_version_monotonic(
    versions: Seq<Map<Seq<char>, u16>>,
    name: Seq<char>,
    earlier: int,
    later: int,
)
    requires
        never_lowered(versions, name),
        0 <= earlier <= later <= versions.len(),
    ensures
        resolve(versions, earlier, name) <= resolve(versions, later, name),
    decreases later - earlier,
{
    if earlier < later {
        law_type_version_monotonic(versions, name, earlier, later - 1);
        if versions[later - 1].contains_key(name) {
            assert(versions[later - 1][name] >= resolve(versions, later - 1, name));
        }
    }
}

/// A type that no root version records has the base version at every root version.
pub proof fn law_unset_type_has_base_version(
    versions: Seq<Map<Seq<char>, u16>>,
    name: Seq<char>,
    root: int,
)
    requires
        root <= versions.len(),
        forall|k: int| 0 <= k < versions.len() ==> !(#[trigger] versions[k]).contains_key(name),
    ensures
        resolve(versions, root, name) == BASE_VERSION,
    decreases root,
{
    if root > 0 {
        law_unset_type_has_base_version(versions, name, root - 1);
    }
}

/// The marker that keeps a clause out of builds that are not test builds.
pub open spec fn test_marker(marked: bool) -> Seq<char> {
    if marked {
        "#[cfg(test)]"@
    } else {
        Seq::empty()
    }
}

/// The clause of the membership function for one type.
pub open spec fn foreign_clause(name: Seq<char>, marked: bool) -> Seq<char> {
    test_marker(marked) + "{\n                if _tid == std::any::TypeId::of::<"@ + name
        + ">() {\n                    return true;\n                }\n            }\n        "@
}

/// The clauses of the membership function, one for each name, in the order of `names`.
pub open spec fn foreign_clauses(test_types: Seq<&str>, names: Seq<&str>) -> Seq<char>
    decreases names.len(),
{
    if names.len() == 0 {
        Seq::empty()
    } else {
        foreign_clauses(test_types, names.drop_last()) + foreign_clause(
            names.last()@,
            listed(test_types, names.last()@),
        )
    }
}

/// The source text of the membership function for foreign types: a function
/// that answers `true` for each of `names` and `false` for any other type.
/// The clause of a name that stands in `test_types` carries the test marker.
pub open spec fn foreign_type_fn_text(test_types: Seq<&str>, names: Seq<&str>) -> Seq<char> {
    "\n        pub(crate) fn is_foreign_type(_tid: std::any::TypeId) -> bool {\n    "@
        + foreign_clauses(test_types, names) + "\n            false\n        }"@
}

/// Writes the source text of the membership function for foreign types.
pub fn generate_foreign_type_fn(test_types: &[&str], names: &[&str]) -> (s: String)
    ensures
        s@ == foreign_type_fn_text(test_types@, names@),
{
    let mut s = String::from_str(
        "\n        pub(crate) fn is_foreign_type(_tid: std::any::TypeId) -> bool {\n    ",
    );
    let ghost header = s@;
    let mut i: usize = 0;
    assert(names@.subrange(0, 0).len() == 0);
    assert(s@ =~= header + foreign_clauses(test_types@, names@.subrange(0, 0)));
    while i < names.len()
        invariant
            i <= names@.len(),
            s@ == header + foreign_clauses(test_types@, names@.subrange(0, i as int)),
        decreases names@.len() - i,
    {
        let name: &str = names[i];
        let ghost done = names@.subrange(0, i as int);
        let ghost next = names@.subrange(0, i + 1);
        let ghost before = s@;
        assert(next.drop_last() =~= done);
        assert(next.last() == names@[i as int]);
        let marked = is_listed(test_types, name);
        if marked {
            s.append("#[cfg(test)]");
        }
        assert(s@ =~= before + test_marker(marked));
        s.append("{\n                if _tid == std::any::TypeId::of::<");
        s.append(name);
        s.append(">() {\n                    return true;\n                }\n            }\n        ");
        assert(s@ =~= before + foreign_clause(name@, marked));
        assert(s@ =~= header + foreign_clauses(test_types@, next));
        i += 1;
    }
    assert(names@.subrange(0, i as int) =~= names@);
    s.append("\n            false\n        }");
    assert(s@ =~= foreign_type_fn_text(test_types@, names@));
    s
}

/// The schema versions of `name` at the root versions 1, 2, and so on.
pub open spec fn history_of(versions: Seq<Map<Seq<char>, u16>>, name: Seq<char>) -> Seq<u16> {
    Seq::new(versions.len(), |i: int| resolve(versions, i + 1, name))
}

/// The clause of the resolution function for one type: a table with the
/// schema version at each root version, indexed by the root version less one.
pub open spec fn type_version_clause(name: Seq<char>, marked: bool, history: Seq<u16>) -> Seq<char> {
    test_marker(marked) + "{\n            if _tid == std::any::TypeId::of::<"@ + name
        + ">() {\n                let mapping = &"@ + decimal_list(history)
        + ";\n                return mapping[(_app_version - 1) as usize];\n            }\n        }\n        "@
}

/// The clauses of the resolution function, one for each name, in the order of `names`.
pub open spec fn type_version_clauses(
    test_types: Seq<&str>,
    names: Seq<&'static str>,
    versions: Seq<Map<Seq<char>, u16>>,
) -> Seq<char>
    decreases names.len(),
{
    if names.len() == 0 {
        Seq::empty()
    } else {
        type_version_clauses(test_types, names.drop_last(), versions) + type_version_clause(
            names.last()@,
            listed(test_types, names.last()@),
            history_of(versions, names.last()@),
        )
    }
}

/// The source text of the resolution function: a function from a type and a
/// root version to the schema version of that type, which is the base
/// version for a type that is not among `names`.
pub open spec fn type_version_fn_text(
    test_types: Seq<&str>,
    names: Seq<&'static str>,
    versions: Seq<Map<Seq<char>, u16>>,
) -> Seq<char> {
    "\n        pub(crate) fn type_version(_tid: std::any::TypeId, _app_version: u16) -> u16 {\n    "@
        + type_version_clauses(test_types, names, versions) + " return "@ + decimal(
        BASE_VERSION as nat,
    ) + "; }"@
}

/// Writes the source text of the resolution function for the types `names`,
/// with their histories taken from `m`.
pub fn type_version_fn_for(test_types: &[&str], names: &Vec<&'static str>, m: &VersionMap) -> (s:
    String)
    requires
        m.wf(),
    ensures
        s@ == type_version_fn_text(test_types@, names@, m@),
{
    let mut s = String::from_str(
        "\n        pub(crate) fn type_version(_tid: std::any::TypeId, _app_version: u16) -> u16 {\n    ",
    );
    let ghost header = s@;
    let mut i: usize = 0;
    assert(names@.subrange(0, 0).len() == 0);
    assert(s@ =~= header + type_version_clauses(test_types@, names@.subrange(0, 0), m@));
    while i < names.len()
        invariant
            m.wf(),
            i <= names@.len(),
            s@ == header + type_version_clauses(test_types@, names@.subrange(0, i as int), m@),
        decreases names@.len() - i,
    {
        let name: &'static str = names[i];
        let ghost done = names@.subrange(0, i as int);
        let ghost next = names@.subrange(0, i + 1);
        let ghost before = s@;
        assert(next.drop_last() =~= done);
        assert(next.last() == names@[i as int]);
        let marked = is_listed(test_types, name);
        if marked {
            s.append("#[cfg(test)]");
        }
        assert(s@ =~= before + test_marker(marked));
        s.append("{\n            if _tid == std::any::TypeId::of::<");
        s.append(name);
        s.append(">() {\n                let mapping = &");
        let history = m.type_history(name);
        assert(history@ =~= history_of(m@, name@));
        push_decimal_list(&mut s, &history);
        s.append(
            ";\n                return mapping[(_app_version - 1) as usize];\n            }\n        }\n        ",
        );
        assert(s@ =~= before + type_version_clause(name@, marked, history_of(m@, name@)));
        assert(s@ =~= header + type_version_clauses(test_types@, next, m@));
        i += 1;
    }
    assert(names@.subrange(0, i as int) =~= names@);
    s.append(" return ");
    push_decimal(&mut s, BASE_VERSION);
    s.append("; }");
    assert(s@ =~= type_version_fn_text(test_types@, names@, m@));
    s
}

/// Writes the source text of the resolution function for every type that `m`
/// records. The clauses come in the order in which `type_names` gives the
/// names, each name once.
pub fn generate_type_version_fn(test_types: &[&str], m: &VersionMap) -> (s: String)
    requires
        m.wf(),
    ensures
        exists|names: Seq<&'static str>|
            {
                &&& names_of(names) == m.known_names()
                &&& forall|i: int, j: int| 0 <= i < j < names.len() ==> names[i]@ != names[j]@
                &&& s@ == #[trigger] type_version_fn_text(test_types@, names, m@)
            },
{
    let names = m.type_names();
    type_version_fn_for(test_types, &names, m)
}

/// What a versioning domain needs at run time, made once from a ledger that
/// does not change any more: for every recorded type the table of its schema
/// versions, and the list of the types that are foreign to the domain.
///
/// This is what the source text of `generate_type_version_fn` and of
/// `generate_foreign_type_fn` computes, as a value.
#[derive(Debug)]
pub struct VersionSupport {
    map: VersionMap,
    names: Vec<&'static str>,
    histories: Vec<Vec<u16>>,
    foreign_types: Vec<&'static str>,
}

impl VersionSupport {
    #[verifier::type_invariant]
    spec fn tables_match_ledger(&self) -> bool {
        &&& self.map.wf()
        &&& self.names@.len() == self.histories@.len()
        &&& names_of(self.names@) == self.map.known_names()
        &&& forall|i: int|
            0 <= i < self.histories@.len() ==> (#[trigger] self.histories@[i])@ == history_of(
                self.map@,
                self.names@[i]@,
            )
    }

    /// The ledger that the tables were made from.
    pub closed spec fn spec_versions(&self) -> Seq<Map<Seq<char>, u16>> {
        self.map@
    }

    /// The types that are foreign to the domain.
    pub closed spec fn spec_foreign_types(&self) -> Seq<&'static str> {
        self.foreign_types@
    }

    /// The tables for the ledger `map`, with `foreign_types` as the types
    /// that are foreign to the domain.
    pub fn new(map: VersionMap, foreign_types: Vec<&'static str>) -> (r: Self)
        requires
            map.wf(),
        ensures
            r.spec_versions() == map@,
            r.spec_foreign_types() == foreign_types@,
    {
        let names = map.type_names();
        let mut histories: Vec<Vec<u16>> = Vec::new();
        let mut i: usize = 0;
        while i < names.len()
            invariant
                map.wf(),
                i <= names@.len(),
                histories@.len() == i,
                forall|k: int|
                    0 <= k < i ==> (#[trigger] histories@[k])@ == history_of(map@, names@[k]@),
            decreases names@.len() - i,
        {
            let history = map.type_history(names[i]);
            assert(history@ =~= history_of(map@, names@[i as int]@));
            histories.push(history);
            i += 1;
        }
        VersionSupport { map, names, histories, foreign_types }
    }

    /// The latest root version of the ledger.
    pub fn latest_version(&self) -> (r: u16)
        ensures
            r == self.spec_versions().len(),
    {
        proof {
            use_type_invariant(self);
        }
        self.map.latest_version()
    }

    /// The schema version of the type `name` at root version `app_version`,
    /// read from the table of the type: the same as the ledger gives. A root
    /// version that the ledger does not hold is turned down.
    pub fn type_version(&self, name: &str, app_version: u16) -> (r: Result<u16, VersionMapError>)
        ensures
            1 <= app_version <= self.spec_versions().len() ==> r == Ok::<u16, VersionMapError>(
                resolve(self.spec_versions(), app_version as int, name@),
            ),
            !(1 <= app_version <= self.spec_versions().len()) ==> r == Err::<
                u16,
                VersionMapError,
            >(VersionMapError::UnknownRootVersion(app_version)),
    {
        proof {
            use_type_invariant(self);
        }
        if app_version == 0 || app_version > self.map.latest_version() {
            return Err(VersionMapError::UnknownRootVersion(app_version));
        }
        let mut i: usize = 0;
        while i < self.names.len()
            invariant
                i <= self.names@.len(),
                self.names@.len() == self.histories@.len(),
                1 <= app_version <= self.map@.len(),
                forall|k: int|
                    0 <= k < self.histories@.len() ==> (#[trigger] self.histories@[k])@
                        == history_of(self.map@, self.names@[k]@),
                forall|k: int| 0 <= k < i ==> (#[trigger] self.names@[k])@ != name@,
            decreases self.names@.len() - i,
        {
            if str_eq(self.names[i], name) {
                assert(self.histories@[i as int]@ == history_of(self.map@, self.names@[i as int]@));
                let mapping = &self.histories[i];
                return Ok(mapping[(app_version - 1) as usize]);
            }
            i += 1;
        }
        proof {
            lemma_names_of(self.names@, name@);
            assert(!self.map.known_names().contains(name@));
            assert forall|k: int| 0 <= k < self.map@.len() implies !(#[trigger] self.map@[k]).contains_key(
                name@,
            ) by {
                lemma_names_upto(self.map@, self.map@.len() as int, name@);
            }
            law_unset_type_has_base_version(self.map@, name@, app_version as int);
        }
        Ok(BASE_VERSION)
    }

    /// Whether the type `name` is foreign to the domain.
    pub fn is_foreign_type(&self, name: &str) -> (r: bool)
        ensures
            r == listed(self.spec_foreign_types(), name@),
    {
        is_listed(self.foreign_types.as_slice(), name)
    }

    /// The schema version at which the type `name` is written for root
    /// version `root_version`: the root version itself for a type of the
    /// domain, and the schema version that the ledger gives for a type that is
    /// foreign to it.
    pub fn local_version(&self, name: &str, root_version: u16) -> (r: Result<u16, VersionMapError>)
        ensures
            !listed(self.spec_foreign_types(), name@) ==> r == Ok::<u16, VersionMapError>(
                root_version,
            ),
            listed(self.spec_foreign_types(), name@) && 1 <= root_version
                <= self.spec_versions().len() ==> r == Ok::<u16, VersionMapError>(
                resolve(self.spec_versions(), root_version as int, name@),
            ),
            listed(self.spec_foreign_types(), name@) && !(1 <= root_version
                <= self.spec_versions().len()) ==> r == Err::<u16, VersionMapError>(
                VersionMapError::UnknownRootVersion(root_version),
            ),
    {
        if self.is_foreign_type(name) {
            self.type_version(name, root_version)
        } else {
            Ok(root_version)
        }
    }
}

} // verus!
