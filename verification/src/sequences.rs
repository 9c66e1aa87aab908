//! Sequences: the number of items, then the items one after the other, each
//! written as its own type writes it.

use vstd::prelude::*;
use crate::backend;
use crate::backend::fixed_value;
use crate::error::Error;
use crate::model::{le_bytes, lemma_le_bytes_len, lemma_le_value_of_bytes, pow256, Model};
use crate::stream::{Reader, Writer};
use crate::versionize::{round_trips, Versionize};

verus! {

/// What the items of a sequence are.
pub open spec fn models_of<T: Versionize>(items: Seq<T>) -> Seq<Model> {
    Seq::new(items.len(), |i: int| items[i].model())
}

/// Whether every item can be written for `version`.
pub open spec fn items_serializable<T: Versionize>(items: Seq<Model>, version: u16) -> bool {
    forall|i: int| 0 <= i < items.len() ==> T::serializable(#[trigger] items[i], version)
}

/// The bytes of the items, one after the other.
pub open spec fn encode_items<T: Versionize>(items: Seq<Model>, version: u16) -> Seq<u8>
    decreases items.len(),
{
    if items.len() == 0 {
        Seq::empty()
    } else {
        encode_items::<T>(items.drop_last(), version) + T::encode(items.last(), version)
    }
}

/// The first `count` items at the front of `bytes` and the number of bytes
/// that they take together.
pub open spec fn decode_items<T: Versionize>(bytes: Seq<u8>, count: nat, version: u16) -> Option<
    (Seq<Model>, nat),
>
    decreases count,
{
    if count == 0 {
        Some((Seq::empty(), 0))
    } else {
        match decode_items::<T>(bytes, (count - 1) as nat, version) {
            Some((items, taken)) => match T::decode(bytes.skip(taken as int), version) {
                Some((item, width)) => Some((items.push(item), taken + width)),
                None => None,
            },
            None => None,
        }
    }
}

/// The bytes of a sequence: the number of items in eight bytes, then the items.
pub open spec fn encode_list<T: Versionize>(m: Model, version: u16) -> Seq<u8> {
    match m {
        Model::List(items) => le_bytes(items.len(), 8) + encode_items::<T>(items, version),
        _ => Seq::empty(),
    }
}

/// The sequence at the front of `bytes`.
pub open spec fn decode_list<T: Versionize>(bytes: Seq<u8>, version: u16) -> Option<(Model, nat)> {
    match fixed_value(bytes, 8) {
        Some(count) => match decode_items::<T>(bytes.skip(8), count, version) {
            Some((items, taken)) => Some((Model::List(items), 8 + taken)),
            None => None,
        },
        None => None,
    }
}

/// The bytes of the first items are the first bytes of all items.
pub proof fn lemma_encode_items_grows<T: Versionize>(items: Seq<Model>, k: int, version: u16)
    requires
        0 <= k <= items.len(),
    ensures
        encode_items::<T>(items.take(k), version).len() <= encode_items::<T>(items, version).len(),
    decreases items.len() - k,
{
    if k < items.len() {
        lemma_encode_items_grows::<T>(items, k + 1, version);
        assert(items.take(k + 1).drop_last() =~= items.take(k));
    } else {
        assert(items.take(k) =~= items);
    }
}

/// Where the first items cannot be read, more of them cannot be read either.
pub proof fn lemma_decode_items_fails<T: Versionize>(
    bytes: Seq<u8>,
    k: nat,
    count: nat,
    version: u16,
)
    requires
        k <= count,
        decode_items::<T>(bytes, k, version) is None,
    ensures
        decode_items::<T>(bytes, count, version) is None,
    decreases count,
{
    if k < count {
        lemma_decode_items_fails::<T>(bytes, k, (count - 1) as nat, version);
    }
}

/// Items take no more bytes than there are, and as many items are read as were asked for.
pub proof fn lemma_decode_items_bound<T: Versionize>(bytes: Seq<u8>, count: nat, version: u16)
    ensures
        decode_items::<T>(bytes, count, version) matches Some((items, taken)) ==> taken
            <= bytes.len() && items.len() == count,
    decreases count,
{
    if count > 0 {
        lemma_decode_items_bound::<T>(bytes, (count - 1) as nat, version);
        match decode_items::<T>(bytes, (count - 1) as nat, version) {
            Some((items, taken)) => {
                T::lemma_decode_bound(bytes.skip(taken as int), version);
            },
            None => {},
        }
    }
}

impl<T: Versionize> Versionize for Vec<T> {
    open spec fn model(&self) -> Model {
        Model::List(models_of(self@))
    }

    open spec fn serializable(m: Model, version: u16) -> bool {
        match m {
            Model::List(items) => items_serializable::<T>(items, version),
            _ => true,
        }
    }

    open spec fn encode(m: Model, version: u16) -> Seq<u8> {
        encode_list::<T>(m, version)
    }

    open spec fn decode(bytes: Seq<u8>, version: u16) -> Option<(Model, nat)> {
        decode_list::<T>(bytes, version)
    }

    proof fn lemma_decode_bound(bytes: Seq<u8>, version: u16) {
        match fixed_value(bytes, 8) {
            Some(count) => {
                lemma_decode_items_bound::<T>(bytes.skip(8), count, version);
            },
            None => {},
        }
    }

    fn serialize(&self, writer: &mut Writer, version: u16) -> (r: Result<(), Error>) {
        let ghost items = models_of(self@);
        let mut scratch: Vec<u8> = Vec::new();
        proof {
            lemma_le_bytes_len(items.len(), 8);
        }
        match backend::write_usize(&mut scratch, self.len()) {
            Ok(()) => {},
            Err(err) => {
                return Err(Error::Serialize(backend::error_text(&err)));
            },
        }
        match writer.write_all(scratch.as_slice()) {
            Ok(()) => {},
            Err(err) => {
                return Err(err);
            },
        }
        let mut i: usize = 0;
        assert(items.take(0).len() == 0);
        while i < self.len()
            invariant
                i <= self@.len(),
                items == models_of(self@),
                writer.limit() == old(writer).limit(),
                writer@ == old(writer)@ + le_bytes(items.len(), 8) + encode_items::<T>(
                    items.take(i as int),
                    version,
                ),
                old(writer).fits(8 + encode_items::<T>(items.take(i as int), version).len()),
                items_serializable::<T>(items.take(i as int), version),
                le_bytes(items.len(), 8).len() == 8,
            decreases self@.len() - i,
        {
            let ghost next = items.take(i + 1);
            proof {
                assert(next.drop_last() =~= items.take(i as int));
                assert(next.last() == self@[i as int].model());
                lemma_encode_items_grows::<T>(items, i + 1, version);
            }
            match self[i].serialize(writer, version) {
                Ok(()) => {
                    assert forall|k: int| 0 <= k < next.len() implies T::serializable(
                        #[trigger] next[k],
                        version,
                    ) by {
                        if k < i {
                            assert(next[k] == items.take(i as int)[k]);
                        }
                    }
                    assert(writer@ =~= old(writer)@ + le_bytes(items.len(), 8) + encode_items::<T>(
                        next,
                        version,
                    ));
                },
                Err(err) => {
                    proof {
                        if items_serializable::<T>(items, version) {
                            assert(T::serializable(items[i as int], version));
                        }
                    }
                    return Err(err);
                },
            }
            i += 1;
        }
        assert(items.take(i as int) =~= items);
        assert(writer@ =~= old(writer)@ + (le_bytes(items.len(), 8) + encode_items::<T>(
            items,
            version,
        )));
        Ok(())
    }

    fn deserialize(reader: &mut Reader, version: u16) -> (r: Result<Self, Error>) {
        let ghost start = reader@;
        let count: u64 = match backend::read_u64(reader.remaining()) {
            Ok(count) => count,
            Err(err) => {
                return Err(Error::Deserialize(backend::error_text(&err)));
            },
        };
        reader.advance(8);
        let ghost body = start.skip(8);
        let mut items: Vec<T> = Vec::new();
        let mut i: u64 = 0;
        let ghost taken: nat = 0;
        assert(models_of(items@) =~= Seq::<Model>::empty());
        assert(body.skip(0) =~= body);
        while i < count
            invariant
                i <= count,
                start == old(reader)@,
                body == start.skip(8),
                fixed_value(start, 8) == Some(count as nat),
                decode_items::<T>(body, i as nat, version) == Some((models_of(items@), taken)),
                reader@ == body.skip(taken as int),
                taken <= body.len(),
            decreases count - i,
        {
            let ghost before = models_of(items@);
            proof {
                T::lemma_decode_bound(body.skip(taken as int), version);
            }
            match T::deserialize(reader, version) {
                Ok(item) => {
                    proof {
                        let width = T::decode(body.skip(taken as int), version).unwrap().1;
                        assert(body.skip(taken as int).skip(width as int) =~= body.skip(
                            (taken + width) as int,
                        ));
                        taken = taken + width;
                    }
                    items.push(item);
                    assert(models_of(items@) =~= before.push(item.model()));
                },
                Err(err) => {
                    proof {
                        assert(decode_items::<T>(body, (i + 1) as nat, version) is None);
                        lemma_decode_items_fails::<T>(body, (i + 1) as nat, count as nat, version);
                    }
                    return Err(err);
                },
            }
            i += 1;
        }
        assert(start.skip(8).skip(taken as int) =~= start.skip((8 + taken) as int));
        Ok(items)
    }

    open spec fn spec_version() -> u16 {
        1
    }

    fn version() -> (r: u16) {
        1
    }
}

/// Items that are each read back as written are read back together as written.
pub proof fn lemma_items_round_trip<T: Versionize>(items: Seq<Model>, version: u16, rest: Seq<u8>)
    requires
        forall|i: int| 0 <= i < items.len() ==> round_trips::<T>(#[trigger] items[i], version),
    ensures
        decode_items::<T>(encode_items::<T>(items, version) + rest, items.len(), version) == Some(
            (items, encode_items::<T>(items, version).len()),
        ),
    decreases items.len(),
{
    if items.len() > 0 {
        let front = items.drop_last();
        let last = T::encode(items.last(), version);
        let all = encode_items::<T>(items, version) + rest;
        lemma_items_round_trip::<T>(front, version, last + rest);
        assert(all =~= encode_items::<T>(front, version) + (last + rest));
        assert(all.skip(encode_items::<T>(front, version).len() as int) =~= last + rest);
        assert(round_trips::<T>(items[items.len() - 1], version));
        assert(front.push(items.last()) =~= items);
    }
}

/// A sequence is read back as it was written, at any version at which each
/// of its items is read back as written. The number of items has to fit into
/// the eight bytes that hold it.
pub proof fn law_round_trip_sequence<T: Versionize>(items: Seq<Model>, version: u16)
    requires
        forall|i: int| 0 <= i < items.len() ==> round_trips::<T>(#[trigger] items[i], version),
        items.len() < pow256(8),
    ensures
        round_trips::<Vec<T>>(Model::List(items), version),
{
    assert forall|rest: Seq<u8>|
        Vec::<T>::decode(
            #[trigger] (Vec::<T>::encode(Model::List(items), version) + rest),
            version,
        ) == Some((Model::List(items), Vec::<T>::encode(Model::List(items), version).len())) by {
        let head = le_bytes(items.len(), 8);
        let body = encode_items::<T>(items, version);
        let all = head + body + rest;
        lemma_le_bytes_len(items.len(), 8);
        lemma_le_value_of_bytes(items.len(), 8);
        assert(all.take(8) =~= head);
        assert(all.skip(8) =~= body + rest);
        lemma_items_round_trip::<T>(items, version, rest);
    }
}

} // verus!
