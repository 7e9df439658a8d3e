//! Conversions for scalars, optional values, lists and maps.

use std::collections::HashMap;
use std::hash::Hash;
use vstd::prelude::*;
use vstd::std_specs::hash::obeys_key_model;

use crate::result::MappingError;
use crate::{ProtoPack, ProtoUnpack};

verus! {

// Values whose model and message forms are the same: both directions hand the value back.

impl ProtoPack<i64> for i64 {
    open spec fn packs_to(self, r: Result<i64, MappingError>) -> bool {
        r == Ok::<i64, MappingError>(self)
    }

    fn pack(self) -> (r: Result<i64, MappingError>) {
        Ok(self)
    }
}

impl ProtoUnpack<i64> for i64 {
    open spec fn unpackable(value: i64) -> bool {
        true
    }

    open spec fn unpacks_to(value: i64, r: Result<i64, MappingError>) -> bool {
        r == Ok::<i64, MappingError>(value)
    }

    fn unpack(value: i64) -> (r: Result<i64, MappingError>) {
        Ok(value)
    }
}

impl ProtoPack<u64> for u64 {
    open spec fn packs_to(self, r: Result<u64, MappingError>) -> bool {
        r == Ok::<u64, MappingError>(self)
    }

    fn pack(self) -> (r: Result<u64, MappingError>) {
        Ok(self)
    }
}

impl ProtoUnpack<u64> for u64 {
    open spec fn unpackable(value: u64) -> bool {
        true
    }

    open spec fn unpacks_to(value: u64, r: Result<u64, MappingError>) -> bool {
        r == Ok::<u64, MappingError>(value)
    }

    fn unpack(value: u64) -> (r: Result<u64, MappingError>) {
        Ok(value)
    }
}

impl ProtoPack<i32> for i32 {
    open spec fn packs_to(self, r: Result<i32, MappingError>) -> bool {
        r == Ok::<i32, MappingError>(self)
    }

    fn pack(self) -> (r: Result<i32, MappingError>) {
        Ok(self)
    }
}

impl ProtoUnpack<i32> for i32 {
    open spec fn unpackable(value: i32) -> bool {
        true
    }

    open spec fn unpacks_to(value: i32, r: Result<i32, MappingError>) -> bool {
        r == Ok::<i32, MappingError>(value)
    }

    fn unpack(value: i32) -> (r: Result<i32, MappingError>) {
        Ok(value)
    }
}

impl ProtoPack<u32> for u32 {
    open spec fn packs_to(self, r: Result<u32, MappingError>) -> bool {
        r == Ok::<u32, MappingError>(self)
    }

    fn pack(self) -> (r: Result<u32, MappingError>) {
        Ok(self)
    }
}

impl ProtoUnpack<u32> for u32 {
    open spec fn unpackable(value: u32) -> bool {
        true
    }

    open spec fn unpacks_to(value: u32, r: Result<u32, MappingError>) -> bool {
        r == Ok::<u32, MappingError>(value)
    }

    fn unpack(value: u32) -> (r: Result<u32, MappingError>) {
        Ok(value)
    }
}

impl ProtoPack<bool> for bool {
    open spec fn packs_to(self, r: Result<bool, MappingError>) -> bool {
        r == Ok::<bool, MappingError>(self)
    }

    fn pack(self) -> (r: Result<bool, MappingError>) {
        Ok(self)
    }
}

impl ProtoUnpack<bool> for bool {
    open spec fn unpackable(value: bool) -> bool {
        true
    }

    open spec fn unpacks_to(value: bool, r: Result<bool, MappingError>) -> bool {
        r == Ok::<bool, MappingError>(value)
    }

    fn unpack(value: bool) -> (r: Result<bool, MappingError>) {
        Ok(value)
    }
}

impl ProtoPack<String> for String {
    open spec fn packs_to(self, r: Result<String, MappingError>) -> bool {
        r == Ok::<String, MappingError>(self)
    }

    fn pack(self) -> (r: Result<String, MappingError>) {
        Ok(self)
    }
}

impl ProtoUnpack<String> for String {
    open spec fn unpackable(value: String) -> bool {
        true
    }

    open spec fn unpacks_to(value: String, r: Result<String, MappingError>) -> bool {
        r == Ok::<String, MappingError>(value)
    }

    fn unpack(value: String) -> (r: Result<String, MappingError>) {
        Ok(value)
    }
}

impl ProtoPack<Vec<u8>> for Vec<u8> {
    open spec fn packs_to(self, r: Result<Vec<u8>, MappingError>) -> bool {
        r == Ok::<Vec<u8>, MappingError>(self)
    }

    fn pack(self) -> (r: Result<Vec<u8>, MappingError>) {
        Ok(self)
    }
}

impl ProtoUnpack<Vec<u8>> for Vec<u8> {
    open spec fn unpackable(value: Vec<u8>) -> bool {
        true
    }

    open spec fn unpacks_to(value: Vec<u8>, r: Result<Vec<u8>, MappingError>) -> bool {
        r == Ok::<Vec<u8>, MappingError>(value)
    }

    fn unpack(value: Vec<u8>) -> (r: Result<Vec<u8>, MappingError>) {
        Ok(value)
    }
}

// Values that the message holds in an optional field

/// What packing `value` into an optional field may give: the field is always filled, with
/// what `value` packs to.
pub open spec fn packs_to_some<W, D: ProtoPack<W>>(
    value: D,
    r: Result<Option<W>, MappingError>,
) -> bool {
    match r {
        Ok(Some(packed)) => value.packs_to(Ok(packed)),
        Ok(None) => false,
        Err(e) => value.packs_to(Err(e)),
    }
}

/// The optional fields that unpacking into a required value accepts.
pub open spec fn unpackable_some<W, D: ProtoUnpack<W>>(value: Option<W>) -> bool {
    value matches Some(inner) ==> D::unpackable(inner)
}

/// What unpacking the optional field `value` into a required value may give: an empty
/// field is an absent value, a filled one unpacks as what it holds.
pub open spec fn unpacks_from_option<W, D: ProtoUnpack<W>>(
    value: Option<W>,
    r: Result<D, MappingError>,
) -> bool {
    match value {
        None => r == Err::<D, MappingError>(MappingError::ValueNotPresent),
        Some(inner) => D::unpacks_to(inner, r),
    }
}

/// Packs a required value into an optional field of the message.
pub fn pack_option<W, D: ProtoPack<W>>(value: D) -> (r: Result<Option<W>, MappingError>)
    ensures
        packs_to_some(value, r),
{
    match value.pack() {
        Ok(packed) => Ok(Some(packed)),
        Err(e) => Err(e),
    }
}

/// Unpacks an optional field of the message into a required value.
pub fn unpack_option<W, D: ProtoUnpack<W>>(value: Option<W>) -> (r: Result<D, MappingError>)
    requires
        unpackable_some::<W, D>(value),
    ensures
        unpacks_from_option(value, r),
{
    match value {
        Some(inner) => D::unpack(inner),
        None => Err(MappingError::ValueNotPresent),
    }
}

/// What unpacking the value of the field `field_name` may give: what the value unpacks
/// to, with the field's name added to an error that reports a bare absence.
pub open spec fn field_unpacks_to<W, D: ProtoUnpack<W>>(
    value: W,
    field_name: &'static str,
    r: Result<D, MappingError>,
) -> bool {
    match r {
        Ok(unpacked) => D::unpacks_to(value, Ok(unpacked)),
        Err(e) => exists|inner: MappingError| #[trigger]
            D::unpacks_to(value, Err(inner)) && e == inner.in_field_spec(field_name),
    }
}

/// Unpacks the value of a field of the message, and names the field where the value is
/// absent.
pub fn unpack_field<W, D: ProtoUnpack<W>>(value: W, field_name: &'static str) -> (r: Result<
    D,
    MappingError,
>)
    requires
        D::unpackable(value),
    ensures
        field_unpacks_to(value, field_name, r),
{
    match D::unpack(value) {
        Ok(unpacked) => Ok(unpacked),
        Err(e) => Err(e.in_field(field_name)),
    }
}

// Repeated values

/// Some result of packing `item` is a success.
pub open spec fn may_pack<T, T2: ProtoPack<T>>(item: T2) -> bool {
    exists|w: T| #[trigger] item.packs_to(Ok(w))
}

/// Some result of unpacking `item` is a success.
pub open spec fn may_unpack<T, T2: ProtoUnpack<T>>(item: T) -> bool {
    exists|w: T2| #[trigger] T2::unpacks_to(item, Ok(w))
}

/// Every element of `items` may pack to the element of `packed` at the same place.
pub open spec fn packs_each<T, T2: ProtoPack<T>>(items: Seq<T2>, packed: Seq<T>) -> bool {
    &&& packed.len() == items.len()
    &&& forall|i: int| 0 <= i < items.len() ==> items[i].packs_to(Ok(#[trigger] packed[i]))
}

/// `e` reports the first element of `items` that failed to pack: it carries that element's
/// index and error, and every element before it may pack.
pub open spec fn pack_fails_in<T, T2: ProtoPack<T>>(items: Seq<T2>, e: MappingError) -> bool {
    &&& e matches MappingError::ListElement { source, index }
    &&& index < items.len()
    &&& items[index as int].packs_to(Err(*source))
    &&& forall|j: int| 0 <= j < index ==> may_pack::<T, T2>(#[trigger] items[j])
}

/// Every element of `items` is accepted by `unpack`.
pub open spec fn unpackable_each<T, T2: ProtoUnpack<T>>(items: Seq<T>) -> bool {
    forall|i: int| 0 <= i < items.len() ==> T2::unpackable(#[trigger] items[i])
}

/// Every element of `items` may unpack to the element of `unpacked` at the same place.
pub open spec fn unpacks_each<T, T2: ProtoUnpack<T>>(items: Seq<T>, unpacked: Seq<T2>) -> bool {
    &&& unpacked.len() == items.len()
    &&& forall|i: int| 0 <= i < items.len() ==> T2::unpacks_to(items[i], Ok(#[trigger] unpacked[i]))
}

/// `e` reports the first element of `items` that failed to unpack: it carries that element's
/// index and error, and every element before it may unpack.
pub open spec fn unpack_fails_in<T, T2: ProtoUnpack<T>>(items: Seq<T>, e: MappingError) -> bool {
    &&& e matches MappingError::ListElement { source, index }
    &&& index < items.len()
    &&& T2::unpacks_to(items[index as int], Err(*source))
    &&& forall|j: int| 0 <= j < index ==> may_unpack::<T, T2>(#[trigger] items[j])
}

impl<T, T2: ProtoPack<T>> ProtoPack<Vec<T>> for Vec<T2> {
    open spec fn packs_to(self, r: Result<Vec<T>, MappingError>) -> bool {
        match r {
            Ok(packed) => packs_each(self@, packed@),
            Err(e) => pack_fails_in::<T, T2>(self@, e),
        }
    }

    fn pack(self) -> (r: Result<Vec<T>, MappingError>) {
        let ghost items = self@;
        let mut packed: Vec<T> = Vec::new();
        for elem in it: self.into_iter()
            invariant
                items == self@,
                it.seq() == items,
                packed@.len() == it.index(),
                forall|j: int| 0 <= j < packed@.len() ==> #[trigger] items[j].packs_to(Ok(packed@[j])),
        {
            match elem.pack() {
                Ok(item) => {
                    packed.push(item);
                },
                Err(e) => {
                    assert forall|j: int| 0 <= j < packed@.len() implies may_pack::<T, T2>(
                        #[trigger] items[j],
                    ) by {
                        assert(items[j].packs_to(Ok(packed@[j])));
                    }
                    return Err(
                        MappingError::ListElement { source: Box::new(e), index: packed.len() },
                    );
                },
            }
        }
        Ok(packed)
    }
}

impl<T, T2: ProtoUnpack<T>> ProtoUnpack<Vec<T>> for Vec<T2> {
    open spec fn unpackable(value: Vec<T>) -> bool {
        unpackable_each::<T, T2>(value@)
    }

    open spec fn unpacks_to(value: Vec<T>, r: Result<Vec<T2>, MappingError>) -> bool {
        match r {
            Ok(unpacked) => unpacks_each(value@, unpacked@),
            Err(e) => unpack_fails_in::<T, T2>(value@, e),
        }
    }

    fn unpack(value: Vec<T>) -> (r: Result<Vec<T2>, MappingError>) {
        let ghost items = value@;
        let mut unpacked: Vec<T2> = Vec::new();
        for elem in it: value.into_iter()
            invariant
                items == value@,
                it.seq() == items,
                unpackable_each::<T, T2>(items),
                unpacked@.len() == it.index(),
                forall|j: int|
                    0 <= j < unpacked@.len() ==> T2::unpacks_to(items[j], Ok(#[trigger] unpacked@[j])),
        {
            match T2::unpack(elem) {
                Ok(item) => {
                    unpacked.push(item);
                },
                Err(e) => {
                    assert forall|j: int| 0 <= j < unpacked@.len() implies may_unpack::<T, T2>(
                        #[trigger] items[j],
                    ) by {
                        assert(T2::unpacks_to(items[j], Ok(unpacked@[j])));
                    }
                    return Err(
                        MappingError::ListElement { source: Box::new(e), index: unpacked.len() },
                    );
                },
            }
        }
        Ok(unpacked)
    }
}

// Maps

/// The entries of a map in a list: each entry once, and nothing else.
pub open spec fn lists_entries<K, V>(entries: Seq<(K, V)>, m: Map<K, V>) -> bool {
    &&& forall|i: int, j: int| 0 <= i < j < entries.len() ==> entries[i].0 != entries[j].0
    &&& forall|i: int|
        0 <= i < entries.len() ==> m.contains_key((#[trigger] entries[i]).0) && m[entries[i].0]
            == entries[i].1
    &&& forall|k: K| #[trigger]
        m.contains_key(k) ==> exists|i: int| 0 <= i < entries.len() && (#[trigger] entries[i]).0 == k
}

/// Hands out the entries of a `HashMap` with `Vec::from_iter`, in the order in which the
/// map yields them. The contract claims, for keys that hash and compare as the
/// map expects, that each entry of the map comes out once and nothing else does; it
/// claims nothing of the order.
#[verifier::external_body]
fn map_into_entries<K, V>(m: HashMap<K, V>) -> (r: Vec<(K, V)>)
    ensures
        obeys_key_model::<K>() ==> lists_entries(r@, m@),
{
    Vec::from_iter(m)
}

/// The entry `entry` may pack to the entry `packed`, key to key and value to value.
pub open spec fn entry_packs_to<K, V, K2: ProtoPack<K>, V2: ProtoPack<V>>(
    entry: (K2, V2),
    packed: (K, V),
) -> bool {
    entry.0.packs_to(Ok(packed.0)) && entry.1.packs_to(Ok(packed.1))
}

/// Packing the entry `entry` may fail with `e`: in its key, or in its value after the key
/// has been packed.
pub open spec fn entry_pack_fails<K, V, K2: ProtoPack<K>, V2: ProtoPack<V>>(
    entry: (K2, V2),
    e: MappingError,
) -> bool {
    entry.0.packs_to(Err(e)) || (may_pack::<K, K2>(entry.0) && entry.1.packs_to(Err(e)))
}

/// Some entry of `entries` may pack to the entry with the key `k` and the value `v`.
#[verifier::opaque]
pub open spec fn packed_from<K, V, K2: ProtoPack<K>, V2: ProtoPack<V>>(
    entries: Map<K2, V2>,
    k: K,
    v: V,
) -> bool {
    exists|k2: K2| #[trigger] entries.contains_key(k2) && entry_packs_to((k2, entries[k2]), (k, v))
}

/// Some key of `packed` is what the key `k2` may pack to.
#[verifier::opaque]
pub open spec fn packed_into<K, V, K2: ProtoPack<K>>(k2: K2, packed: Map<K, V>) -> bool {
    exists|k: K| #[trigger] packed.contains_key(k) && k2.packs_to(Ok(k))
}

/// The map `packed` is made of the packed entries of `entries`: each of its entries is
/// what some entry of `entries` may pack to, and the key of every entry of `entries` has
/// been packed into it.
pub open spec fn packs_entries<K, V, K2: ProtoPack<K>, V2: ProtoPack<V>>(
    entries: Map<K2, V2>,
    packed: Map<K, V>,
) -> bool {
    &&& forall|k: K| #[trigger] packed.contains_key(k) ==> packed_from(entries, k, packed[k])
    &&& forall|k2: K2| #[trigger] entries.contains_key(k2) ==> packed_into(k2, packed)
}

/// `e` reports that an entry of `entries` failed to pack, and carries that entry's error.
pub open spec fn pack_fails_in_entries<K, V, K2: ProtoPack<K>, V2: ProtoPack<V>>(
    entries: Map<K2, V2>,
    e: MappingError,
) -> bool {
    &&& e matches MappingError::MapEntry { source }
    &&& exists|k2: K2| #[trigger]
        entries.contains_key(k2) && entry_pack_fails::<K, V, K2, V2>((k2, entries[k2]), *source)
}

/// The entry `entry` may unpack to the entry `unpacked`, key to key and value to value.
pub open spec fn entry_unpacks_to<K, V, K2: ProtoUnpack<K>, V2: ProtoUnpack<V>>(
    entry: (K, V),
    unpacked: (K2, V2),
) -> bool {
    K2::unpacks_to(entry.0, Ok(unpacked.0)) && V2::unpacks_to(entry.1, Ok(unpacked.1))
}

/// Unpacking the entry `entry` may fail with `e`: in its key, or in its value after the
/// key has been unpacked.
pub open spec fn entry_unpack_fails<K, V, K2: ProtoUnpack<K>, V2: ProtoUnpack<V>>(
    entry: (K, V),
    e: MappingError,
) -> bool {
    K2::unpacks_to(entry.0, Err(e)) || (may_unpack::<K, K2>(entry.0) && V2::unpacks_to(
        entry.1,
        Err(e),
    ))
}

/// Some entry of `entries` may unpack to the entry with the key `k2` and the value `v2`.
#[verifier::opaque]
pub open spec fn unpacked_from<K, V, K2: ProtoUnpack<K>, V2: ProtoUnpack<V>>(
    entries: Map<K, V>,
    k2: K2,
    v2: V2,
) -> bool {
    exists|k: K| #[trigger] entries.contains_key(k) && entry_unpacks_to((k, entries[k]), (k2, v2))
}

/// Some key of `unpacked` is what the key `k` may unpack to.
#[verifier::opaque]
pub open spec fn unpacked_into<K, K2: ProtoUnpack<K>, V2>(k: K, unpacked: Map<K2, V2>) -> bool {
    exists|k2: K2| #[trigger] unpacked.contains_key(k2) && K2::unpacks_to(k, Ok(k2))
}

/// The map `unpacked` is made of the unpacked entries of `entries`: each of its entries
/// is what some entry of `entries` may unpack to, and the key of every entry of `entries`
/// has been unpacked into it.
pub open spec fn unpacks_entries<K, V, K2: ProtoUnpack<K>, V2: ProtoUnpack<V>>(
    entries: Map<K, V>,
    unpacked: Map<K2, V2>,
) -> bool {
    &&& forall|k2: K2| #[trigger]
        unpacked.contains_key(k2) ==> unpacked_from(entries, k2, unpacked[k2])
    &&& forall|k: K| #[trigger] entries.contains_key(k) ==> unpacked_into(k, unpacked)
}

/// `e` reports that an entry of `entries` failed to unpack, and carries that entry's error.
pub open spec fn unpack_fails_in_entries<K, V, K2: ProtoUnpack<K>, V2: ProtoUnpack<V>>(
    entries: Map<K, V>,
    e: MappingError,
) -> bool {
    &&& e matches MappingError::MapEntry { source }
    &&& exists|k: K| #[trigger]
        entries.contains_key(k) && entry_unpack_fails::<K, V, K2, V2>((k, entries[k]), *source)
}

/// Collects a list of entries into a map. Where a key occurs twice, the later entry stays.
fn collect_entries<K: Eq + Hash, V>(pairs: Vec<(K, V)>) -> (m: HashMap<K, V>)
    ensures
        obeys_key_model::<K>() ==> {
            &&& forall|k: K| #[trigger]
                m@.contains_key(k) ==> exists|j: int|
                    0 <= j < pairs@.len() && #[trigger] pairs@[j] == (k, m@[k])
            &&& forall|j: int| 0 <= j < pairs@.len() ==> m@.contains_key((#[trigger] pairs@[j]).0)
        },
{
    broadcast use vstd::std_specs::hash::axiom_random_state_builds_valid_hashers;

    let ghost all = pairs@;
    let mut m: HashMap<K, V> = HashMap::new();
    for pair in it: pairs.into_iter()
        invariant
            all == pairs@,
            it.seq() == all,
            obeys_key_model::<K>() ==> {
                &&& forall|k: K| #[trigger]
                    m@.contains_key(k) ==> exists|j: int|
                        0 <= j < it.index() && #[trigger] all[j] == (k, m@[k])
                &&& forall|j: int| 0 <= j < it.index() ==> m@.contains_key((#[trigger] all[j]).0)
            },
    {
        let ghost before = m@;
        let ghost at = it.index();
        let (k, v) = pair;
        m.insert(k, v);
        proof {
            if obeys_key_model::<K>() {
                assert(m@ == before.insert(k, v));
                assert forall|key: K| #[trigger] m@.contains_key(key) implies exists|j: int|
                    0 <= j < at + 1 && #[trigger] all[j] == (key, m@[key]) by {
                    if key == k {
                        assert(all[at] == (key, m@[key]));
                    } else {
                        assert(before.contains_key(key));
                        let j = choose|j: int| 0 <= j < at && #[trigger] all[j] == (key, before[key]);
                        assert(all[j] == (key, m@[key]));
                    }
                }
                assert forall|j: int| 0 <= j < at + 1 implies m@.contains_key(
                    (#[trigger] all[j]).0,
                ) by {
                    if j < at {
                        assert(before.contains_key(all[j].0));
                    }
                }
            }
        }
    }
    m
}

impl<K, V, K2, V2> ProtoPack<HashMap<K, V>> for HashMap<K2, V2> where
    K: Eq + Hash,
    K2: ProtoPack<K> + Eq + Hash,
    V2: ProtoPack<V>,
 {
    /// Stated for keys that hash and compare as a `HashMap` expects.
    open spec fn packs_to(self, r: Result<HashMap<K, V>, MappingError>) -> bool {
        obeys_key_model::<K>() && obeys_key_model::<K2>() ==> match r {
            Ok(packed) => packs_entries(self@, packed@),
            Err(e) => pack_fails_in_entries::<K, V, K2, V2>(self@, e),
        }
    }

    fn pack(self) -> (r: Result<HashMap<K, V>, MappingError>) {
        let ghost source = self@;
        let entries = map_into_entries(self);
        let ghost all = entries@;
        let mut pairs: Vec<(K, V)> = Vec::new();
        for entry in it: entries.into_iter()
            invariant
                all == entries@,
                it.seq() == all,
                source == self@,
                obeys_key_model::<K2>() ==> lists_entries(all, source),
                pairs@.len() == it.index(),
                forall|j: int|
                    0 <= j < pairs@.len() ==> entry_packs_to(all[j], #[trigger] pairs@[j]),
        {
            let ghost at = it.index();
            let (k, v) = entry;
            let packed_key = match k.pack() {
                Ok(packed_key) => packed_key,
                Err(e) => {
                    proof {
                        if obeys_key_model::<K2>() {
                            assert(source.contains_key(all[at].0));
                            assert(entry_pack_fails::<K, V, K2, V2>((k, source[k]), e));
                        }
                    }
                    return Err(MappingError::MapEntry { source: Box::new(e) });
                },
            };
            let packed_value = match v.pack() {
                Ok(packed_value) => packed_value,
                Err(e) => {
                    proof {
                        if obeys_key_model::<K2>() {
                            assert(source.contains_key(all[at].0));
                            assert(k.packs_to(Ok(packed_key)));
                            assert(entry_pack_fails::<K, V, K2, V2>((k, source[k]), e));
                        }
                    }
                    return Err(MappingError::MapEntry { source: Box::new(e) });
                },
            };
            pairs.push((packed_key, packed_value));
        }
        let ghost packed_pairs = pairs@;
        let packed = collect_entries(pairs);
        proof {
            if obeys_key_model::<K>() && obeys_key_model::<K2>() {
                assert forall|k: K| #[trigger] packed@.contains_key(k) implies packed_from(
                    source,
                    k,
                    packed@[k],
                ) by {
                    reveal(packed_from);
                    let j = choose|j: int|
                        0 <= j < packed_pairs.len() && #[trigger] packed_pairs[j] == (k, packed@[k]);
                    assert(entry_packs_to(all[j], packed_pairs[j]));
                    assert(source.contains_key(all[j].0));
                }
                assert forall|k2: K2| #[trigger] source.contains_key(k2) implies packed_into(
                    k2,
                    packed@,
                ) by {
                    reveal(packed_into);
                    let j = choose|j: int| 0 <= j < all.len() && (#[trigger] all[j]).0 == k2;
                    assert(entry_packs_to(all[j], packed_pairs[j]));
                    assert(packed@.contains_key(packed_pairs[j].0));
                }
            }
        }
        Ok(packed)
    }
}

impl<K, V, K2, V2> ProtoUnpack<HashMap<K, V>> for HashMap<K2, V2> where
    K: Eq + Hash,
    K2: ProtoUnpack<K> + Eq + Hash,
    V2: ProtoUnpack<V>,
 {
    /// The keys must hash and compare as a `HashMap` expects, and every key and every
    /// value must be accepted by its own `unpack`.
    open spec fn unpackable(value: HashMap<K, V>) -> bool {
        &&& obeys_key_model::<K>()
        &&& forall|k: K| #[trigger]
            value@.contains_key(k) ==> K2::unpackable(k) && V2::unpackable(value@[k])
    }

    /// Stated for keys that hash and compare as a `HashMap` expects.
    open spec fn unpacks_to(value: HashMap<K, V>, r: Result<HashMap<K2, V2>, MappingError>) -> bool {
        obeys_key_model::<K>() && obeys_key_model::<K2>() ==> match r {
            Ok(unpacked) => unpacks_entries(value@, unpacked@),
            Err(e) => unpack_fails_in_entries::<K, V, K2, V2>(value@, e),
        }
    }

    fn unpack(value: HashMap<K, V>) -> (r: Result<HashMap<K2, V2>, MappingError>) {
        let ghost source = value@;
        let entries = map_into_entries(value);
        let ghost all = entries@;
        let mut pairs: Vec<(K2, V2)> = Vec::new();
        for entry in it: entries.into_iter()
            invariant
                all == entries@,
                it.seq() == all,
                source == value@,
                lists_entries(all, source),
                forall|k: K| #[trigger]
                    source.contains_key(k) ==> K2::unpackable(k) && V2::unpackable(source[k]),
                pairs@.len() == it.index(),
                forall|j: int|
                    0 <= j < pairs@.len() ==> entry_unpacks_to(all[j], #[trigger] pairs@[j]),
        {
            let ghost at = it.index();
            let (k, v) = entry;
            assert(source.contains_key(all[at].0));
            let unpacked_key = match K2::unpack(k) {
                Ok(unpacked_key) => unpacked_key,
                Err(e) => {
                    assert(entry_unpack_fails::<K, V, K2, V2>((k, source[k]), e));
                    return Err(MappingError::MapEntry { source: Box::new(e) });
                },
            };
            let unpacked_value = match V2::unpack(v) {
                Ok(unpacked_value) => unpacked_value,
                Err(e) => {
                    assert(K2::unpacks_to(k, Ok(unpacked_key)));
                    assert(entry_unpack_fails::<K, V, K2, V2>((k, source[k]), e));
                    return Err(MappingError::MapEntry { source: Box::new(e) });
                },
            };
            pairs.push((unpacked_key, unpacked_value));
        }
        let ghost unpacked_pairs = pairs@;
        let unpacked = collect_entries(pairs);
        proof {
            if obeys_key_model::<K2>() {
                assert forall|k2: K2| #[trigger] unpacked@.contains_key(k2) implies unpacked_from(
                    source,
                    k2,
                    unpacked@[k2],
                ) by {
                    reveal(unpacked_from);
                    let j = choose|j: int|
                        0 <= j < unpacked_pairs.len() && #[trigger] unpacked_pairs[j] == (
                            k2,
                            unpacked@[k2],
                        );
                    assert(entry_unpacks_to(all[j], unpacked_pairs[j]));
                    assert(source.contains_key(all[j].0));
                }
                assert forall|k: K| #[trigger] source.contains_key(k) implies unpacked_into(
                    k,
                    unpacked@,
                ) by {
                    reveal(unpacked_into);
                    let j = choose|j: int| 0 <= j < all.len() && (#[trigger] all[j]).0 == k;
                    assert(entry_unpacks_to(all[j], unpacked_pairs[j]));
                    assert(unpacked@.contains_key(unpacked_pairs[j].0));
                }
            }
        }
        Ok(unpacked)
    }
}

} // verus!
