//! What holds of packing and unpacking together: a value that packs unpacks to itself.

use std::collections::HashMap;
use std::hash::Hash;
use vstd::prelude::*;
use vstd::std_specs::hash::obeys_key_model;

use crate::convert::{entry_packs_to, entry_unpack_fails, entry_unpacks_to, packs_entries};
use crate::convert::{packs_each, packs_to_some, unpackable_each, unpackable_some};
use crate::convert::{packed_from, packed_into, unpacked_from, unpacked_into, unpacks_entries};
use crate::convert::{unpacks_each, unpacks_from_option};
use crate::json::{json_fits, json_model, json_number, json_to_wire, wire_fits, wire_model};
use crate::json::{is_finite_double, is_float_tree, numbers_packed, numbers_read};
use crate::json::{wire_number, wire_to_json};
use crate::json::{JsonModel, WireModel};
use crate::result::MappingError;
use crate::time::{datetime_nanos, datetime_seconds, delta_nanos, keeps_its_second};
use crate::time::{wire_nanos, UtcDateTime};
use crate::{ProtoPack, ProtoUnpack};

verus! {

/// The message value `w` unpacks, and only to values that are the same as `d`.
pub open spec fn unpacks_only_to<W, D: ProtoUnpack<W>>(
    w: W,
    d: D,
    same: spec_fn(D, D) -> bool,
) -> bool {
    &&& D::unpackable(w)
    &&& forall|r: Result<D, MappingError>| #[trigger]
        D::unpacks_to(w, r) ==> (r matches Ok(u) && same(d, u))
}

/// Whatever the value `d` packs to unpacks again, and only to values that are the same
/// as `d`.
pub open spec fn round_trips_as<W, D: ProtoPack<W> + ProtoUnpack<W>>(
    d: D,
    same: spec_fn(D, D) -> bool,
) -> bool {
    forall|w: W| #[trigger] d.packs_to(Ok(w)) ==> unpacks_only_to(w, d, same)
}

/// Whatever the value `d` packs to unpacks again, and only to `d`.
pub open spec fn round_trips<W, D: ProtoPack<W> + ProtoUnpack<W>>(d: D) -> bool {
    round_trips_as::<W, D>(d, |a: D, b: D| a == b)
}

/// Two lists are the same element by element.
pub open spec fn same_elements<D>(same: spec_fn(D, D) -> bool) -> spec_fn(Vec<D>, Vec<D>) -> bool {
    |a: Vec<D>, b: Vec<D>|
        a@.len() == b@.len() && forall|i: int| 0 <= i < a@.len() ==> same(a@[i], b@[i])
}

/// Two optional values are both absent, or both present and the same.
pub open spec fn same_option<D>(same: spec_fn(D, D) -> bool) -> spec_fn(
    Option<D>,
    Option<D>,
) -> bool {
    |a: Option<D>, b: Option<D>|
        match (a, b) {
            (Some(x), Some(y)) => same(x, y),
            (None, None) => true,
            _ => false,
        }
}

/// A value whose model and message forms are the same round-trips.
pub proof fn lemma_scalars_round_trip()
    ensures
        forall|d: i64| #[trigger] round_trips::<i64, i64>(d),
        forall|d: u64| #[trigger] round_trips::<u64, u64>(d),
        forall|d: i32| #[trigger] round_trips::<i32, i32>(d),
        forall|d: u32| #[trigger] round_trips::<u32, u32>(d),
        forall|d: bool| #[trigger] round_trips::<bool, bool>(d),
        forall|d: String| #[trigger] round_trips::<String, String>(d),
        forall|d: Vec<u8>| #[trigger] round_trips::<Vec<u8>, Vec<u8>>(d),
{
}

/// An optional value round-trips where the value it holds does: an absent value stays
/// absent, and a present one stays present.
pub proof fn lemma_option_round_trips<W, D: ProtoPack<W> + ProtoUnpack<W>>(
    d: Option<D>,
    same: spec_fn(D, D) -> bool,
)
    requires
        d matches Some(value) ==> round_trips_as::<W, D>(value, same),
    ensures
        round_trips_as::<Option<W>, Option<D>>(d, same_option(same)),
{
    assert forall|w: Option<W>| #[trigger] d.packs_to(Ok(w)) implies unpacks_only_to(
        w,
        d,
        same_option(same),
    ) by {
        match d {
            Some(value) => {
                let packed = w->0;
                assert(value.packs_to(Ok(packed)));
                assert(unpacks_only_to(packed, value, same));
                assert forall|r: Result<Option<D>, MappingError>| #[trigger]
                    Option::<D>::unpacks_to(w, r) implies (r matches Ok(u) && same_option(same)(
                    d,
                    u,
                )) by {
                    match r {
                        Ok(Some(unpacked)) => {
                            assert(D::unpacks_to(packed, Ok(unpacked)));
                        },
                        Ok(None) => {},
                        Err(e) => {
                            assert(D::unpacks_to(packed, Err(e)));
                        },
                    }
                }
            },
            None => {},
        }
    }
}

/// A required value that the message holds in an optional field round-trips where the
/// value itself does: the field is filled, and unpacks to the value.
pub proof fn lemma_required_round_trips<W, D: ProtoPack<W> + ProtoUnpack<W>>(
    d: D,
    same: spec_fn(D, D) -> bool,
    w: Option<W>,
    r: Result<D, MappingError>,
)
    requires
        round_trips_as::<W, D>(d, same),
        packs_to_some(d, Ok(w)),
    ensures
        unpackable_some::<W, D>(w),
        unpacks_from_option(w, r) ==> (r matches Ok(u) && same(d, u)),
{
    let packed = w->0;
    assert(d.packs_to(Ok(packed)));
    assert(unpacks_only_to(packed, d, same));
}

/// A list round-trips where each of its elements does: it unpacks to a list of the same
/// length with the same elements in the same order.
pub proof fn lemma_vec_round_trips<W, D: ProtoPack<W> + ProtoUnpack<W>>(
    d: Vec<D>,
    same: spec_fn(D, D) -> bool,
)
    requires
        forall|i: int| 0 <= i < d@.len() ==> round_trips_as::<W, D>(#[trigger] d@[i], same),
    ensures
        round_trips_as::<Vec<W>, Vec<D>>(d, same_elements(same)),
{
    assert forall|w: Vec<W>| #[trigger] d.packs_to(Ok(w)) implies unpacks_only_to(
        w,
        d,
        same_elements(same),
    ) by {
        assert(packs_each(d@, w@));
        assert forall|i: int| 0 <= i < w@.len() implies unpacks_only_to(
            #[trigger] w@[i],
            d@[i],
            same,
        ) by {
            assert(d@[i].packs_to(Ok(w@[i])));
            assert(round_trips_as::<W, D>(d@[i], same));
        }
        assert(unpackable_each::<W, D>(w@));
        assert forall|r: Result<Vec<D>, MappingError>| #[trigger]
            Vec::<D>::unpacks_to(w, r) implies (r matches Ok(u) && same_elements(same)(d, u)) by {
            match r {
                Ok(u) => {
                    assert(unpacks_each(w@, u@));
                    assert forall|i: int| 0 <= i < d@.len() implies same(d@[i], u@[i]) by {
                        assert(unpacks_only_to(w@[i], d@[i], same));
                        assert(D::unpacks_to(w@[i], Ok(u@[i])));
                    }
                },
                Err(e) => {
                    let index = e->ListElement_index;
                    let source = e->ListElement_source;
                    assert(unpacks_only_to(w@[index as int], d@[index as int], same));
                    assert(D::unpacks_to(w@[index as int], Err(*source)));
                },
            }
        }
    }
}

/// A point in time round-trips where `chrono` reads its seconds and nanoseconds back: a
/// leap second that is not the last second of its minute does not.
pub proof fn lemma_timestamp_round_trips(t: UtcDateTime)
    requires
        keeps_its_second(datetime_seconds(t), datetime_nanos(t)),
    ensures
        round_trips::<prost_types::Timestamp, UtcDateTime>(t),
{
}

/// A span of time that packs, whatever its sign, unpacks to a span of the same length.
pub proof fn lemma_duration_round_trips(d: chrono::TimeDelta)
    ensures
        round_trips_as::<prost_types::Duration, chrono::TimeDelta>(
            d,
            |a: chrono::TimeDelta, b: chrono::TimeDelta| delta_nanos(a) == delta_nanos(b),
        ),
{
    let same = |a: chrono::TimeDelta, b: chrono::TimeDelta| delta_nanos(a) == delta_nanos(b);
    assert forall|w: prost_types::Duration| #[trigger] d.packs_to(Ok(w)) implies unpacks_only_to(
        w,
        d,
        same,
    ) by {
        assert(wire_nanos(w.seconds, w.nanos) == delta_nanos(d));
    }
}

/// Every number of a JSON tree comes back from its double-precision form. A number that
/// is held as an integer does not: it comes back as a number with a fraction.
pub open spec fn numbers_read_back(j: JsonModel) -> bool
    decreases j,
{
    match j {
        JsonModel::Number(n) => wire_number(n) matches Some(bits) && json_number(bits) == Some(n),
        JsonModel::Array(items) => forall|i: int|
            0 <= i < items.len() ==> numbers_read_back(#[trigger] items[i]),
        JsonModel::Object(fields) => forall|k: Seq<char>|
            fields.contains_key(k) ==> numbers_read_back(#[trigger] fields[k]),
        _ => true,
    }
}

/// The numbers of a tree read back where they are held as doubles and have been packed.
pub proof fn lemma_float_numbers_read_back(j: JsonModel)
    requires
        is_float_tree(j),
        numbers_packed(j),
    ensures
        numbers_read_back(j),
    decreases j,
{
    match j {
        JsonModel::Array(items) => {
            assert forall|i: int| 0 <= i < items.len() implies numbers_read_back(
                #[trigger] items[i],
            ) by {
                lemma_float_numbers_read_back(items[i]);
            }
        },
        JsonModel::Object(fields) => {
            assert forall|k: Seq<char>| fields.contains_key(k) implies numbers_read_back(
                #[trigger] fields[k],
            ) by {
                lemma_float_numbers_read_back(fields[k]);
            }
        },
        _ => {},
    }
}

/// A dynamic message value of which unpacking keeps every part: each part has a kind,
/// each null has the code 0, and each number is finite.
pub open spec fn is_plain_value(w: WireModel) -> bool
    decreases w,
{
    match w {
        WireModel::Unset => false,
        WireModel::Null(code) => code == 0,
        WireModel::Number(bits) => is_finite_double(bits),
        WireModel::List(items) => forall|i: int|
            0 <= i < items.len() ==> is_plain_value(#[trigger] items[i]),
        WireModel::Struct(fields) => forall|k: Seq<char>|
            fields.contains_key(k) ==> is_plain_value(#[trigger] fields[k]),
        _ => true,
    }
}

/// The message form of a JSON tree whose numbers read back has the tree as its JSON form.
pub proof fn lemma_json_model_round_trips(j: JsonModel)
    requires
        numbers_read_back(j),
    ensures
        wire_to_json(json_to_wire(j)) == j,
    decreases j,
{
    match j {
        JsonModel::Array(items) => {
            let packed = json_to_wire(j)->List_0;
            let back = wire_to_json(json_to_wire(j))->Array_0;
            assert forall|i: int| 0 <= i < items.len() implies back[i] == items[i] by {
                assert(packed[i] == json_to_wire(items[i]));
                lemma_json_model_round_trips(items[i]);
            }
            assert(back =~= items);
        },
        JsonModel::Object(fields) => {
            let packed = json_to_wire(j)->Struct_0;
            let back = wire_to_json(json_to_wire(j))->Object_0;
            assert forall|k: Seq<char>| fields.contains_key(k) implies back.contains_key(k)
                && back[k] == fields[k] by {
                assert(packed.contains_key(k));
                assert(packed[k] == json_to_wire(fields[k]));
                lemma_json_model_round_trips(fields[k]);
            }
            assert forall|k: Seq<char>| back.contains_key(k) implies fields.contains_key(k) by {
                assert(packed.contains_key(k));
            }
            assert(back =~= fields);
        },
        _ => {},
    }
}

/// The JSON form of a plain dynamic message value, whose numbers have been read, has the
/// value as its message form.
pub proof fn lemma_wire_model_round_trips(w: WireModel)
    requires
        is_plain_value(w),
        numbers_read(w),
    ensures
        json_to_wire(wire_to_json(w)) == w,
    decreases w,
{
    match w {
        WireModel::List(items) => {
            let unpacked = wire_to_json(w)->Array_0;
            let back = json_to_wire(wire_to_json(w))->List_0;
            assert forall|i: int| 0 <= i < items.len() implies back[i] == items[i] by {
                assert(unpacked[i] == wire_to_json(items[i]));
                lemma_wire_model_round_trips(items[i]);
            }
            assert(back =~= items);
        },
        WireModel::Struct(fields) => {
            let unpacked = wire_to_json(w)->Object_0;
            let back = json_to_wire(wire_to_json(w))->Struct_0;
            assert forall|k: Seq<char>| fields.contains_key(k) implies back.contains_key(k)
                && back[k] == fields[k] by {
                assert(unpacked.contains_key(k));
                assert(unpacked[k] == wire_to_json(fields[k]));
                lemma_wire_model_round_trips(fields[k]);
            }
            assert forall|k: Seq<char>| back.contains_key(k) implies fields.contains_key(k) by {
                assert(unpacked.contains_key(k));
            }
            assert(back =~= fields);
        },
        _ => {},
    }
}

/// The JSON form of a dynamic message value has no more levels than the value.
pub proof fn lemma_wire_fits_as_json(w: WireModel, room: nat)
    requires
        wire_fits(w, room),
    ensures
        json_fits(wire_to_json(w), room),
    decreases w,
{
    match w {
        WireModel::List(items) => {
            let unpacked = wire_to_json(w)->Array_0;
            assert forall|i: int| 0 <= i < unpacked.len() implies json_fits(
                #[trigger] unpacked[i],
                (room - 1) as nat,
            ) by {
                assert(wire_fits(items[i], (room - 1) as nat));
                lemma_wire_fits_as_json(items[i], (room - 1) as nat);
            }
        },
        WireModel::Struct(fields) => {
            let unpacked = wire_to_json(w)->Object_0;
            assert forall|k: Seq<char>| unpacked.contains_key(k) implies json_fits(
                #[trigger] unpacked[k],
                (room - 1) as nat,
            ) by {
                assert(wire_fits(fields[k], (room - 1) as nat));
                lemma_wire_fits_as_json(fields[k], (room - 1) as nat);
            }
        },
        _ => {},
    }
}

/// The message form of a JSON tree has no more levels than the tree.
pub proof fn lemma_json_fits_as_wire(j: JsonModel, room: nat)
    requires
        json_fits(j, room),
    ensures
        wire_fits(json_to_wire(j), room),
    decreases j,
{
    match j {
        JsonModel::Array(items) => {
            let packed = json_to_wire(j)->List_0;
            assert forall|i: int| 0 <= i < packed.len() implies wire_fits(
                #[trigger] packed[i],
                (room - 1) as nat,
            ) by {
                assert(json_fits(items[i], (room - 1) as nat));
                lemma_json_fits_as_wire(items[i], (room - 1) as nat);
            }
        },
        JsonModel::Object(fields) => {
            let packed = json_to_wire(j)->Struct_0;
            assert forall|k: Seq<char>| packed.contains_key(k) implies wire_fits(
                #[trigger] packed[k],
                (room - 1) as nat,
            ) by {
                assert(json_fits(fields[k], (room - 1) as nat));
                lemma_json_fits_as_wire(fields[k], (room - 1) as nat);
            }
        },
        _ => {},
    }
}

/// A JSON tree whose numbers are all held as doubles, and that packs, unpacks to a tree
/// that holds the same. A number that is held as an integer comes back as a double.
pub proof fn lemma_json_round_trips(value: serde_json::Value)
    requires
        is_float_tree(json_model(value)),
    ensures
        round_trips_as::<prost_types::Value, serde_json::Value>(
            value,
            |a: serde_json::Value, b: serde_json::Value| json_model(a) == json_model(b),
        ),
{
    let same = |a: serde_json::Value, b: serde_json::Value| json_model(a) == json_model(b);
    assert forall|w: prost_types::Value| #[trigger] value.packs_to(Ok(w)) implies unpacks_only_to(
        w,
        value,
        same,
    ) by {
        lemma_float_numbers_read_back(json_model(value));
        lemma_json_model_round_trips(json_model(value));
        lemma_json_fits_as_wire(json_model(value), crate::json::MAX_JSON_NEST as nat);
    }
}

/// A plain dynamic message value that unpacks is what the unpacked tree packs to again:
/// packing the tree does not fail, and whatever comes of it holds the same as the value.
pub proof fn lemma_wire_round_trips(
    value: prost_types::Value,
    tree: serde_json::Value,
    r: Result<prost_types::Value, MappingError>,
)
    requires
        is_plain_value(wire_model(value)),
        <serde_json::Value as ProtoUnpack<prost_types::Value>>::unpacks_to(value, Ok(tree)),
        tree.packs_to(r),
    ensures
        r matches Ok(back) && wire_model(back) == wire_model(value),
{
    lemma_wire_model_round_trips(wire_model(value));
    lemma_wire_fits_as_json(wire_model(value), crate::json::MAX_JSON_NEST as nat);
}

/// Two maps have the same keys, and under each key values that are the same.
pub open spec fn same_entries<K, V>(same: spec_fn(V, V) -> bool) -> spec_fn(
    HashMap<K, V>,
    HashMap<K, V>,
) -> bool {
    |a: HashMap<K, V>, b: HashMap<K, V>|
        a@.dom() == b@.dom() && forall|k: K| #[trigger] a@.contains_key(k) ==> same(a@[k], b@[k])
}

/// The packed entry `(k, v)` unpacks to nothing but an entry of `d`, up to `same` in the
/// value.
pub open spec fn unpacks_to_entry_of<K, V, K2: ProtoUnpack<K>, V2: ProtoUnpack<V>>(
    k: K,
    v: V,
    d: Map<K2, V2>,
    same: spec_fn(V2, V2) -> bool,
) -> bool {
    exists|k2: K2| #[trigger]
        d.contains_key(k2) && unpacks_only_to(k, k2, |a: K2, b: K2| a == b) && unpacks_only_to(
            v,
            d[k2],
            same,
        )
}

/// Every entry of what a map of round-tripping keys and values packs to unpacks to
/// nothing but an entry of that map.
proof fn lemma_packed_entries_unpack<K, V, K2, V2>(
    d: Map<K2, V2>,
    w: Map<K, V>,
    same: spec_fn(V2, V2) -> bool,
    k: K,
) where K2: ProtoPack<K> + ProtoUnpack<K>, V2: ProtoPack<V> + ProtoUnpack<V>
    requires
        forall|k: K2| #[trigger] d.contains_key(k) ==> round_trips::<K, K2>(k),
        forall|k: K2| #[trigger] d.contains_key(k) ==> round_trips_as::<V, V2>(d[k], same),
        packs_entries(d, w),
        w.contains_key(k),
    ensures
        unpacks_to_entry_of(k, w[k], d, same),
{
    reveal(packed_from);
    assert(packed_from(d, k, w[k]));
    let k2 = choose|k2: K2| #[trigger] d.contains_key(k2) && entry_packs_to((k2, d[k2]), (k, w[k]));
    assert(round_trips::<K, K2>(k2));
    assert(round_trips_as::<V, V2>(d[k2], same));
    assert(k2.packs_to(Ok(k)));
    assert(d[k2].packs_to(Ok(w[k])));
    assert(unpacks_only_to(k, k2, |a: K2, b: K2| a == b));
    assert(unpacks_only_to(w[k], d[k2], same));
}

/// An entry that a packed map unpacks to is an entry of the map that was packed.
proof fn lemma_unpacked_entry_is_packed<K, V, K2, V2>(
    d: Map<K2, V2>,
    w: Map<K, V>,
    u: Map<K2, V2>,
    same: spec_fn(V2, V2) -> bool,
    ku: K2,
) where K2: ProtoPack<K> + ProtoUnpack<K>, V2: ProtoPack<V> + ProtoUnpack<V>
    requires
        forall|k: K| #[trigger] w.contains_key(k) ==> unpacks_to_entry_of(k, w[k], d, same),
        unpacks_entries(w, u),
        u.contains_key(ku),
    ensures
        d.contains_key(ku),
        same(d[ku], u[ku]),
{
    reveal(unpacked_from);
    assert(unpacked_from(w, ku, u[ku]));
    let k = choose|k: K| #[trigger] w.contains_key(k) && entry_unpacks_to((k, w[k]), (ku, u[ku]));
    assert(unpacks_to_entry_of(k, w[k], d, same));
    let k2 = choose|k2: K2| #[trigger]
        d.contains_key(k2) && unpacks_only_to(k, k2, |a: K2, b: K2| a == b) && unpacks_only_to(
            w[k],
            d[k2],
            same,
        );
    assert(K2::unpacks_to(k, Ok(ku)));
    assert(V2::unpacks_to(w[k], Ok(u[ku])));
}

/// The key of every entry of a packed map is a key of what the packed map unpacks to.
proof fn lemma_packed_key_is_unpacked<K, V, K2, V2>(
    d: Map<K2, V2>,
    w: Map<K, V>,
    u: Map<K2, V2>,
    k2: K2,
) where K2: ProtoPack<K> + ProtoUnpack<K>, V2: ProtoPack<V> + ProtoUnpack<V>
    requires
        round_trips::<K, K2>(k2),
        packs_entries(d, w),
        unpacks_entries(w, u),
        d.contains_key(k2),
    ensures
        u.contains_key(k2),
{
    reveal(packed_into);
    reveal(unpacked_into);
    assert(packed_into(k2, w));
    let k = choose|k: K| #[trigger] w.contains_key(k) && k2.packs_to(Ok(k));
    assert(unpacked_into(k, u));
    let ku = choose|ku: K2| #[trigger] u.contains_key(ku) && K2::unpacks_to(k, Ok(ku));
    assert(unpacks_only_to(k, k2, |a: K2, b: K2| a == b));
}

/// No entry of what a map of round-tripping keys and values packs to fails to unpack.
proof fn lemma_packed_entry_unpacks<K, V, K2, V2>(
    d: Map<K2, V2>,
    w: Map<K, V>,
    same: spec_fn(V2, V2) -> bool,
    k: K,
    e: MappingError,
) where K2: ProtoPack<K> + ProtoUnpack<K>, V2: ProtoPack<V> + ProtoUnpack<V>
    requires
        unpacks_to_entry_of(k, w[k], d, same),
    ensures
        !entry_unpack_fails::<K, V, K2, V2>((k, w[k]), e),
        K2::unpackable(k),
        V2::unpackable(w[k]),
{
    let k2 = choose|k2: K2| #[trigger]
        d.contains_key(k2) && unpacks_only_to(k, k2, |a: K2, b: K2| a == b) && unpacks_only_to(
            w[k],
            d[k2],
            same,
        );
    assert(!K2::unpacks_to(k, Err(e)));
    assert(!V2::unpacks_to(w[k], Err(e)));
}

/// A map round-trips where each of its keys and each of its values does: it unpacks to a
/// map with the same keys, and under each key the same value. Stated for keys that hash
/// and compare as a `HashMap` expects.
pub proof fn lemma_map_round_trips<K, V, K2, V2>(
    d: HashMap<K2, V2>,
    same: spec_fn(V2, V2) -> bool,
) where
    K: Eq + Hash,
    K2: ProtoPack<K> + ProtoUnpack<K> + Eq + Hash,
    V2: ProtoPack<V> + ProtoUnpack<V>,

    requires
        obeys_key_model::<K>(),
        obeys_key_model::<K2>(),
        forall|k: K2| #[trigger] d@.contains_key(k) ==> round_trips::<K, K2>(k),
        forall|k: K2| #[trigger] d@.contains_key(k) ==> round_trips_as::<V, V2>(d@[k], same),
    ensures
        round_trips_as::<HashMap<K, V>, HashMap<K2, V2>>(d, same_entries(same)),
{
    assert forall|w: HashMap<K, V>| #[trigger] d.packs_to(Ok(w)) implies unpacks_only_to(
        w,
        d,
        same_entries(same),
    ) by {
        assert(packs_entries(d@, w@));
        assert forall|k: K| #[trigger] w@.contains_key(k) implies unpacks_to_entry_of(
            k,
            w@[k],
            d@,
            same,
        ) by {
            lemma_packed_entries_unpack(d@, w@, same, k);
        }
        assert forall|k: K| #[trigger] w@.contains_key(k) implies K2::unpackable(k)
            && V2::unpackable(w@[k]) by {
            lemma_packed_entry_unpacks::<K, V, K2, V2>(d@, w@, same, k, MappingError::ValueNotPresent);
        }
        assert(HashMap::<K2, V2>::unpackable(w));
        assert forall|r: Result<HashMap<K2, V2>, MappingError>| #[trigger]
            HashMap::<K2, V2>::unpacks_to(w, r) implies (r matches Ok(u) && same_entries(same)(
            d,
            u,
        )) by {
            match r {
                Ok(u) => {
                    assert(unpacks_entries(w@, u@));
                    assert forall|ku: K2| #[trigger] u@.contains_key(ku) implies d@.contains_key(ku)
                        && same(d@[ku], u@[ku]) by {
                        lemma_unpacked_entry_is_packed(d@, w@, u@, same, ku);
                    }
                    assert forall|k2: K2| #[trigger] d@.contains_key(k2) implies u@.contains_key(
                        k2,
                    ) by {
                        lemma_packed_key_is_unpacked::<K, V, K2, V2>(d@, w@, u@, k2);
                    }
                    assert(d@.dom() =~= u@.dom());
                },
                Err(e) => {
                    let source = e->MapEntry_source;
                    let k = choose|k: K| #[trigger]
                        w@.contains_key(k) && entry_unpack_fails::<K, V, K2, V2>(
                            (k, w@[k]),
                            *source,
                        );
                    lemma_packed_entry_unpacks::<K, V, K2, V2>(d@, w@, same, k, *source);
                },
            }
        }
    }
}

} // verus!
