//! The capability of a type to be written for a root version and read back.

use vstd::prelude::*;
use crate::error::Error;
use crate::model::Model;
use crate::stream::{Reader, Writer};

verus! {

/// A type whose values are written and read with regard to a root version.
///
/// An implementation says what its values are (`model`), which bytes stand
/// for a value at a root version (`encode`), and which value, of how many
/// bytes, stands at the front of a byte sequence (`decode`).
pub trait Versionize: Sized {
    /// What the value is.
    spec fn model(&self) -> Model;

    /// Whether a value can be written for `version` at all, however much room there is.
    spec fn serializable(m: Model, version: u16) -> bool;

    /// The bytes that stand for a value at `version`.
    spec fn encode(m: Model, version: u16) -> Seq<u8>;

    /// The value at the front of `bytes`, as written for `version`, and the
    /// number of bytes that it takes; `None` where there is no such value.
    spec fn decode(bytes: Seq<u8>, version: u16) -> Option<(Model, nat)>;

    /// A value takes no more bytes than there are.
    proof fn lemma_decode_bound(bytes: Seq<u8>, version: u16)
        ensures
            Self::decode(bytes, version) matches Some((_, n)) ==> n <= bytes.len(),
    ;

    /// Writes the value for root version `version`.
    ///
    /// This succeeds exactly if the value can be written for that version and
    /// its bytes fit into `writer`. Whether it succeeds or not, what `writer`
    /// held before stays at its front: bytes are only added at the end.
    fn serialize(&self, writer: &mut Writer, version: u16) -> (r: Result<(), Error>)
        ensures
            final(writer).limit() == old(writer).limit(),
            old(writer)@.is_prefix_of(final(writer)@),
            r is Ok <==> Self::serializable(self.model(), version) && old(writer).fits(
                Self::encode(self.model(), version).len(),
            ),
            r is Ok ==> final(writer)@ == old(writer)@ + Self::encode(self.model(), version),
            r is Err ==> r matches Err(Error::Serialize(_)),
    ;

    /// Reads a value that was written for root version `version`.
    ///
    /// This succeeds exactly if such a value stands at the front of what
    /// `reader` holds, and then takes the bytes of that value from `reader`.
    fn deserialize(reader: &mut Reader, version: u16) -> (r: Result<Self, Error>)
        ensures
            match Self::decode(old(reader)@, version) {
                Some((m, n)) => r is Ok && r.unwrap().model() == m && final(reader)@ == old(
                    reader,
                )@.skip(n as int),
                None => r matches Err(Error::Deserialize(_)),
            },
    ;

    /// The schema version of the type: 1 for a type whose bytes never changed.
    spec fn spec_version() -> u16;

    /// The schema version of the type, which is the version used when a value
    /// is written on its own.
    fn version() -> (r: u16)
        ensures
            r == Self::spec_version(),
    ;
}

/// Whether a value, written for `version` and followed by anything, is read back as it was.
pub open spec fn round_trips<T: Versionize>(m: Model, version: u16) -> bool {
    forall|rest: Seq<u8>|
        T::decode(#[trigger] (T::encode(m, version) + rest), version) == Some(
            (m, T::encode(m, version).len()),
        )
}

} // verus!
