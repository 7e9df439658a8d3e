//! Conversion between JSON trees and the dynamic values of protobuf.

use prost_types::value::Kind;
use vstd::prelude::*;

use crate::convert::{pack_option, unpack_option};
use crate::convert::{packs_to_some, unpackable_some, unpacks_from_option};
use crate::result::MappingError;
use crate::{ProtoPack, ProtoUnpack};

verus! {

/// The number of levels that a dynamic value may have.
pub const MAX_JSON_NEST: usize = 100;

/// A JSON tree of `serde_json`. The proofs see it through `json_model`.
#[verifier::external_type_specification]
#[verifier::external_body]
pub struct ExJsonValue(serde_json::Value);

/// A JSON number of `serde_json`. It is carried through as it is.
#[verifier::external_type_specification]
#[verifier::external_body]
pub struct ExJsonNumber(serde_json::Number);

/// A dynamic value of `prost_types`. The proofs see it through `wire_model`.
#[verifier::external_type_specification]
#[verifier::external_body]
pub struct ExWireValue(prost_types::Value);

/// What a JSON tree holds.
pub enum JsonModel {
    Null,
    Bool(bool),
    Number(serde_json::Number),
    String(Seq<char>),
    Array(Seq<JsonModel>),
    Object(Map<Seq<char>, JsonModel>),
}

/// What a dynamic message value holds. A number is given by the bits of its
/// double-precision form; `Unset` is a value of no kind.
pub enum WireModel {
    Unset,
    Null(i32),
    Number(u64),
    String(Seq<char>),
    Bool(bool),
    Struct(Map<Seq<char>, WireModel>),
    List(Seq<WireModel>),
}

/// What the JSON tree `value` holds.
pub uninterp spec fn json_model(value: serde_json::Value) -> JsonModel;

/// What the dynamic message value `value` holds.
pub uninterp spec fn wire_model(value: prost_types::Value) -> WireModel;

/// The bits of the double-precision number that `serde_json` gives for the JSON number `n`,
/// or `None` where it gives none.
pub uninterp spec fn wire_number(n: serde_json::Number) -> Option<u64>;

/// The JSON number that `serde_json` makes of the double-precision number with the bits
/// `bits`, or `None` where it makes none.
pub uninterp spec fn json_number(bits: u64) -> Option<serde_json::Number>;

/// Whether `bits` are the bits of a finite double-precision number: one whose exponent
/// is not all ones.
pub open spec fn is_finite_double(bits: u64) -> bool {
    (bits / 0x10_0000_0000_0000) % 0x800 != 0x7ff
}

/// Whether `serde_json` holds the JSON number `n` as a double-precision number, and not
/// as an integer.
pub uninterp spec fn is_float_number(n: serde_json::Number) -> bool;

/// A JSON tree whose numbers are all held as doubles.
pub open spec fn is_float_tree(j: JsonModel) -> bool
    decreases j,
{
    match j {
        JsonModel::Number(n) => is_float_number(n),
        JsonModel::Array(items) => forall|i: int|
            0 <= i < items.len() ==> is_float_tree(#[trigger] items[i]),
        JsonModel::Object(fields) => forall|k: Seq<char>|
            fields.contains_key(k) ==> is_float_tree(#[trigger] fields[k]),
        _ => true,
    }
}

/// What is known of a JSON number once `serde_json` has been asked for its double form:
/// a number that is held as a double comes back from that form.
pub open spec fn number_packed(n: serde_json::Number) -> bool {
    is_float_number(n) ==> (wire_number(n) matches Some(bits) && json_number(bits) == Some(n))
}

/// Every number of a JSON tree has been packed.
pub open spec fn numbers_packed(j: JsonModel) -> bool
    decreases j,
{
    match j {
        JsonModel::Number(n) => number_packed(n),
        JsonModel::Array(items) => forall|i: int|
            0 <= i < items.len() ==> numbers_packed(#[trigger] items[i]),
        JsonModel::Object(fields) => forall|k: Seq<char>|
            fields.contains_key(k) ==> numbers_packed(#[trigger] fields[k]),
        _ => true,
    }
}

/// What is known of a number once `serde_json` has been asked for its JSON form: there
/// is one for exactly the finite numbers, and it reads as the number it was made from.
pub open spec fn number_read(bits: u64) -> bool {
    &&& json_number(bits) is Some <==> is_finite_double(bits)
    &&& json_number(bits) matches Some(n) ==> wire_number(n) == Some(bits)
}

/// Every number of a dynamic message value has been read.
pub open spec fn numbers_read(w: WireModel) -> bool
    decreases w,
{
    match w {
        WireModel::Number(bits) => number_read(bits),
        WireModel::List(items) => forall|i: int|
            0 <= i < items.len() ==> numbers_read(#[trigger] items[i]),
        WireModel::Struct(fields) => forall|k: Seq<char>|
            fields.contains_key(k) ==> numbers_read(#[trigger] fields[k]),
        _ => true,
    }
}

/// The map that a list of entries stands for. Where a key occurs twice, the later entry
/// counts.
pub open spec fn entries_map<V>(entries: Seq<(Seq<char>, V)>) -> Map<Seq<char>, V>
    decreases entries.len(),
{
    if entries.len() == 0 {
        Map::empty()
    } else {
        entries_map(entries.drop_last()).insert(entries.last().0, entries.last().1)
    }
}

/// No key occurs twice in a list of entries.
pub open spec fn distinct_keys<V>(entries: Seq<(Seq<char>, V)>) -> bool {
    forall|i: int, j: int| 0 <= i < j < entries.len() ==> entries[i].0 != entries[j].0
}

/// What each of a list of JSON trees holds.
pub open spec fn json_models(values: Seq<serde_json::Value>) -> Seq<JsonModel> {
    Seq::new(values.len(), |i: int| json_model(values[i]))
}

/// What each of a list of dynamic message values holds.
pub open spec fn wire_models(values: Seq<prost_types::Value>) -> Seq<WireModel> {
    Seq::new(values.len(), |i: int| wire_model(values[i]))
}

/// The keys of a list of JSON object members, with what each member holds.
pub open spec fn json_entry_models(entries: Seq<(String, serde_json::Value)>) -> Seq<
    (Seq<char>, JsonModel),
> {
    Seq::new(entries.len(), |i: int| (entries[i].0@, json_model(entries[i].1)))
}

/// The keys of a list of message struct fields, with what each field holds.
pub open spec fn wire_entry_models(entries: Seq<(String, prost_types::Value)>) -> Seq<
    (Seq<char>, WireModel),
> {
    Seq::new(entries.len(), |i: int| (entries[i].0@, wire_model(entries[i].1)))
}

/// A JSON tree with its top level opened: the children are still whole trees.
enum JsonNode {
    Null,
    Bool(bool),
    Number(serde_json::Number),
    String(String),
    Array(Vec<serde_json::Value>),
    Object(Vec<(String, serde_json::Value)>),
}

impl JsonNode {
    /// What the opened tree holds.
    spec fn model(self) -> JsonModel {
        match self {
            JsonNode::Null => JsonModel::Null,
            JsonNode::Bool(b) => JsonModel::Bool(b),
            JsonNode::Number(n) => JsonModel::Number(n),
            JsonNode::String(s) => JsonModel::String(s@),
            JsonNode::Array(items) => JsonModel::Array(json_models(items@)),
            JsonNode::Object(entries) => JsonModel::Object(
                entries_map(json_entry_models(entries@)),
            ),
        }
    }

    /// The members of an object have distinct keys.
    spec fn well_formed(self) -> bool {
        self matches JsonNode::Object(entries) ==> distinct_keys(json_entry_models(entries@))
    }
}

/// A JSON tree looked into by one level, without taking it apart.
enum JsonPeek<'a> {
    Null,
    Bool(bool),
    Number(&'a serde_json::Number),
    String(&'a String),
    Array(&'a Vec<serde_json::Value>),
    Object(Vec<(&'a String, &'a serde_json::Value)>),
}

/// The keys of a list of JSON object members that are looked at, with what each member
/// holds.
spec fn json_peek_entry_models(entries: Seq<(&String, &serde_json::Value)>) -> Seq<
    (Seq<char>, JsonModel),
> {
    Seq::new(entries.len(), |i: int| (entries[i].0@, json_model(*entries[i].1)))
}

impl<'a> JsonPeek<'a> {
    /// What the tree that is looked at holds.
    spec fn model(self) -> JsonModel {
        match self {
            JsonPeek::Null => JsonModel::Null,
            JsonPeek::Bool(b) => JsonModel::Bool(b),
            JsonPeek::Number(n) => JsonModel::Number(*n),
            JsonPeek::String(s) => JsonModel::String(s@),
            JsonPeek::Array(items) => JsonModel::Array(json_models(items@)),
            JsonPeek::Object(entries) => JsonModel::Object(
                entries_map(json_peek_entry_models(entries@)),
            ),
        }
    }

    /// The members of an object have distinct keys.
    spec fn well_formed(self) -> bool {
        self matches JsonPeek::Object(entries) ==> distinct_keys(json_peek_entry_models(entries@))
    }
}

/// A dynamic message value with its top level opened: the children are still whole values.
/// A number stays inside the value that held it.
enum WireNode {
    Unset,
    Null(i32),
    Number(prost_types::Value),
    String(String),
    Bool(bool),
    Struct(Vec<(String, prost_types::Value)>),
    List(Vec<prost_types::Value>),
}

impl WireNode {
    /// What the opened value holds.
    spec fn model(self) -> WireModel {
        match self {
            WireNode::Unset => WireModel::Unset,
            WireNode::Null(v) => WireModel::Null(v),
            WireNode::Number(holder) => wire_model(holder),
            WireNode::String(s) => WireModel::String(s@),
            WireNode::Bool(b) => WireModel::Bool(b),
            WireNode::Struct(entries) => WireModel::Struct(
                entries_map(wire_entry_models(entries@)),
            ),
            WireNode::List(items) => WireModel::List(wire_models(items@)),
        }
    }

    /// The fields of a struct have distinct keys, and what stands for a number is one.
    spec fn well_formed(self) -> bool {
        &&& self matches WireNode::Struct(entries) ==> distinct_keys(wire_entry_models(entries@))
        &&& self matches WireNode::Number(holder) ==> wire_model(holder) is Number
    }
}

/// Looks into a `serde_json::Value` by one level. The contract claims that what is seen
/// is what the tree holds, and that an object's members are seen once each:
/// `serde_json::Map` keeps one value per key.
#[verifier::external_body]
fn peek_json<'a>(value: &'a serde_json::Value) -> (r: JsonPeek<'a>)
    ensures
        r.model() == json_model(*value),
        r.well_formed(),
{
    match value {
        serde_json::Value::Null => JsonPeek::Null,
        serde_json::Value::Bool(b) => JsonPeek::Bool(*b),
        serde_json::Value::Number(n) => JsonPeek::Number(n),
        serde_json::Value::String(s) => JsonPeek::String(s),
        serde_json::Value::Array(items) => JsonPeek::Array(items),
        serde_json::Value::Object(members) => JsonPeek::Object(members.iter().collect()),
    }
}

/// Calls `serde_json::Number::is_f64`. The contract names the result.
#[verifier::external_body]
fn number_is_float(n: &serde_json::Number) -> (r: bool)
    ensures
        r == is_float_number(*n),
{
    n.is_f64()
}

/// Takes a `serde_json::Value` apart by one level. The contract claims that the parts hold
/// what the tree held, and that an object's members come out once each: `serde_json::Map`
/// keeps one value per key.
#[verifier::external_body]
fn open_json(value: serde_json::Value) -> (r: JsonNode)
    ensures
        r.model() == json_model(value),
        r.well_formed(),
{
    match value {
        serde_json::Value::Null => JsonNode::Null,
        serde_json::Value::Bool(b) => JsonNode::Bool(b),
        serde_json::Value::Number(n) => JsonNode::Number(n),
        serde_json::Value::String(s) => JsonNode::String(s),
        serde_json::Value::Array(items) => JsonNode::Array(items),
        serde_json::Value::Object(members) => JsonNode::Object(members.into_iter().collect()),
    }
}

/// Builds a `serde_json::Value` from its top level and its children. The contract claims
/// that the tree holds what the parts held; for an object it asks for distinct keys, so that
/// no member is dropped when `serde_json::Map` is filled.
#[verifier::external_body]
fn close_json(node: JsonNode) -> (r: serde_json::Value)
    requires
        node.well_formed(),
    ensures
        json_model(r) == node.model(),
{
    match node {
        JsonNode::Null => serde_json::Value::Null,
        JsonNode::Bool(b) => serde_json::Value::Bool(b),
        JsonNode::Number(n) => serde_json::Value::Number(n),
        JsonNode::String(s) => serde_json::Value::String(s),
        JsonNode::Array(items) => serde_json::Value::Array(items),
        JsonNode::Object(entries) => serde_json::Value::Object(entries.into_iter().collect()),
    }
}

/// Takes a `prost_types::Value` apart by one level. The contract claims that the parts hold
/// what the value held, and that a struct's fields come out once each: its fields are a
/// `BTreeMap`, which keeps one value per key.
#[verifier::external_body]
fn open_wire(value: prost_types::Value) -> (r: WireNode)
    ensures
        r.model() == wire_model(value),
        r.well_formed(),
{
    match value.kind {
        None => WireNode::Unset,
        Some(Kind::NullValue(v)) => WireNode::Null(v),
        Some(Kind::NumberValue(_)) => WireNode::Number(value),
        Some(Kind::StringValue(s)) => WireNode::String(s),
        Some(Kind::BoolValue(b)) => WireNode::Bool(b),
        Some(Kind::StructValue(s)) => WireNode::Struct(
            s.fields.into_iter().collect(),
        ),
        Some(Kind::ListValue(l)) => WireNode::List(l.values),
    }
}

/// Builds a `prost_types::Value` from its top level and its children. The contract claims
/// that the value holds what the parts held; for a struct it asks for distinct keys, so that
/// no field is dropped when the `BTreeMap` is filled.
#[verifier::external_body]
fn close_wire(node: WireNode) -> (r: prost_types::Value)
    requires
        node.well_formed(),
    ensures
        wire_model(r) == node.model(),
{
    let kind = match node {
        WireNode::Unset => None,
        WireNode::Null(v) => Some(Kind::NullValue(v)),
        WireNode::Number(holder) => holder.kind,
        WireNode::String(s) => Some(Kind::StringValue(s)),
        WireNode::Bool(b) => Some(Kind::BoolValue(b)),
        WireNode::Struct(entries) => Some(
            Kind::StructValue(prost_types::Struct { fields: entries.into_iter().collect() }),
        ),
        WireNode::List(values) => Some(Kind::ListValue(prost_types::ListValue { values })),
    };
    prost_types::Value { kind }
}

/// Calls `serde_json::Number::as_f64` and puts the number into a `prost_types::Value`.
/// The contract names the bits of that number `wire_number(n)`. Of a number on which
/// `serde_json::Number::is_f64` is true it claims what `serde_json` documents, that
/// `as_f64` gives its value, and that `serde_json::Number::from_f64` makes the same
/// number again from that value, which is always finite.
#[verifier::external_body]
fn number_to_wire(n: &serde_json::Number) -> (r: Option<prost_types::Value>)
    ensures
        match r {
            Some(w) => wire_number(*n) matches Some(bits) && wire_model(w) == WireModel::Number(
                bits,
            ),
            None => wire_number(*n) is None,
        },
        r is None ==> !is_float_number(*n),
        r is Some ==> number_packed(*n),
{
    match n.as_f64() {
        Some(v) => Some(
            prost_types::Value { kind: Some(Kind::NumberValue(v)) },
        ),
        None => None,
    }
}

/// Calls `serde_json::Number::from_f64` on the number that `holder` holds. The contract
/// names the result `json_number` of the number's bits, and claims that a JSON number
/// comes back for exactly the finite numbers, and that it reads as the number it was
/// made from.
#[verifier::external_body]
fn number_to_json(holder: &prost_types::Value) -> (r: Option<serde_json::Number>)
    requires
        wire_model(*holder) is Number,
    ensures
        r == json_number(wire_model(*holder)->Number_0),
        r is Some <==> is_finite_double(wire_model(*holder)->Number_0),
        r matches Some(n) ==> wire_number(n) == Some(wire_model(*holder)->Number_0),
{
    match holder.kind {
        Some(Kind::NumberValue(v)) => serde_json::Number::from_f64(v),
        _ => None,
    }
}

/// The message form of a JSON tree. A number that has no double-precision form
/// becomes a null.
pub open spec fn json_to_wire(j: JsonModel) -> WireModel
    decreases j,
{
    match j {
        JsonModel::Null => WireModel::Null(0),
        JsonModel::Bool(b) => WireModel::Bool(b),
        JsonModel::Number(n) => match wire_number(n) {
            Some(bits) => WireModel::Number(bits),
            None => WireModel::Null(0),
        },
        JsonModel::String(s) => WireModel::String(s),
        JsonModel::Array(items) => WireModel::List(
            Seq::new(
                items.len(),
                |i: int|
                    if 0 <= i < items.len() {
                        json_to_wire(items[i])
                    } else {
                        WireModel::Unset
                    },
            ),
        ),
        JsonModel::Object(fields) => WireModel::Struct(
            Map::new(
                |k: Seq<char>| fields.contains_key(k),
                |k: Seq<char>|
                    if fields.contains_key(k) {
                        json_to_wire(fields[k])
                    } else {
                        WireModel::Unset
                    },
            ),
        ),
    }
}

/// Whether a JSON tree has at most `room` levels.
pub open spec fn json_fits(j: JsonModel, room: nat) -> bool
    decreases j,
{
    &&& room > 0
    &&& match j {
        JsonModel::Array(items) => forall|i: int|
            0 <= i < items.len() ==> json_fits(#[trigger] items[i], (room - 1) as nat),
        JsonModel::Object(fields) => forall|k: Seq<char>|
            fields.contains_key(k) ==> json_fits(#[trigger] fields[k], (room - 1) as nat),
        _ => true,
    }
}

/// The JSON form of a dynamic message value. A value of no kind becomes a null, and so does
/// a number of which `serde_json` makes no JSON number.
pub open spec fn wire_to_json(w: WireModel) -> JsonModel
    decreases w,
{
    match w {
        WireModel::Unset => JsonModel::Null,
        WireModel::Null(_) => JsonModel::Null,
        WireModel::Number(bits) => match json_number(bits) {
            Some(n) => JsonModel::Number(n),
            None => JsonModel::Null,
        },
        WireModel::String(s) => JsonModel::String(s),
        WireModel::Bool(b) => JsonModel::Bool(b),
        WireModel::Struct(fields) => JsonModel::Object(
            Map::new(
                |k: Seq<char>| fields.contains_key(k),
                |k: Seq<char>|
                    if fields.contains_key(k) {
                        wire_to_json(fields[k])
                    } else {
                        JsonModel::Null
                    },
            ),
        ),
        WireModel::List(items) => JsonModel::Array(
            Seq::new(
                items.len(),
                |i: int|
                    if 0 <= i < items.len() {
                        wire_to_json(items[i])
                    } else {
                        JsonModel::Null
                    },
            ),
        ),
    }
}

/// Whether a dynamic message value has at most `room` levels.
pub open spec fn wire_fits(w: WireModel, room: nat) -> bool
    decreases w,
{
    &&& room > 0
    &&& match w {
        WireModel::List(items) => forall|i: int|
            0 <= i < items.len() ==> wire_fits(#[trigger] items[i], (room - 1) as nat),
        WireModel::Struct(fields) => forall|k: Seq<char>|
            fields.contains_key(k) ==> wire_fits(#[trigger] fields[k], (room - 1) as nat),
        _ => true,
    }
}

/// What packing the JSON tree `value` gives: the message value of the same shape where the
/// tree has at most `MAX_JSON_NEST` levels, and an error where it has more. Where it gives
/// a value, every number of the tree has been packed.
pub open spec fn json_packs_to(
    value: serde_json::Value,
    r: Result<prost_types::Value, MappingError>,
) -> bool {
    match r {
        Ok(w) => json_fits(json_model(value), MAX_JSON_NEST as nat) && wire_model(w)
            == json_to_wire(json_model(value)) && numbers_packed(json_model(value)),
        Err(e) => !json_fits(json_model(value), MAX_JSON_NEST as nat) && e
            == MappingError::JsonValueNestedTooDeeply,
    }
}

/// What unpacking the message value `value` gives: the JSON tree of the same shape where
/// the value has at most `MAX_JSON_NEST` levels, and an error where it has more. Where it
/// gives a tree, every number of the value has been read.
pub open spec fn json_unpacks_to(
    value: prost_types::Value,
    r: Result<serde_json::Value, MappingError>,
) -> bool {
    match r {
        Ok(j) => wire_fits(wire_model(value), MAX_JSON_NEST as nat) && json_model(j)
            == wire_to_json(wire_model(value)) && numbers_read(wire_model(value)),
        Err(e) => !wire_fits(wire_model(value), MAX_JSON_NEST as nat) && e
            == MappingError::JsonValueNestedTooDeeply,
    }
}

/// A list of entries with distinct keys stands for the map that holds exactly these entries.
pub proof fn lemma_entries_map<V>(entries: Seq<(Seq<char>, V)>)
    requires
        distinct_keys(entries),
    ensures
        entries_map(entries).dom().finite(),
        forall|i: int|
            0 <= i < entries.len() ==> entries_map(entries).contains_key(
                (#[trigger] entries[i]).0,
            ) && entries_map(entries)[entries[i].0] == entries[i].1,
        forall|k: Seq<char>| #[trigger]
            entries_map(entries).contains_key(k) ==> exists|i: int|
                0 <= i < entries.len() && (#[trigger] entries[i]).0 == k,
    decreases entries.len(),
{
    if entries.len() > 0 {
        let front = entries.drop_last();
        let last = entries.last();
        assert forall|i: int, j: int| 0 <= i < j < front.len() implies front[i].0 != front[j].0 by {
            assert(front[i] == entries[i] && front[j] == entries[j]);
        }
        lemma_entries_map(front);
        let m = entries_map(entries);
        assert(m == entries_map(front).insert(last.0, last.1));
        assert forall|i: int| 0 <= i < entries.len() implies m.contains_key(
            (#[trigger] entries[i]).0,
        ) && m[entries[i].0] == entries[i].1 by {
            if i < entries.len() - 1 {
                assert(front[i] == entries[i]);
                assert(entries[i].0 != entries[entries.len() - 1].0);
            }
        }
        assert forall|k: Seq<char>| #[trigger] m.contains_key(k) implies exists|i: int|
            0 <= i < entries.len() && (#[trigger] entries[i]).0 == k by {
            if k == last.0 {
                assert(entries[entries.len() - 1].0 == k);
            } else {
                assert(entries_map(front).contains_key(k));
                let i = choose|i: int| 0 <= i < front.len() && (#[trigger] front[i]).0 == k;
                assert(entries[i] == front[i]);
            }
        }
    }
}

/// Converts the members of a JSON array, in order, each one level below `nest`.
fn json_items_into_wire(nest: usize, items: Vec<serde_json::Value>) -> (r: Result<
    Vec<prost_types::Value>,
    MappingError,
>)
    requires
        nest < MAX_JSON_NEST,
    ensures
        match r {
            Ok(out) => {
                &&& out@.len() == items@.len()
                &&& forall|i: int|
                    0 <= i < items@.len() ==> json_fits(
                        #[trigger] json_model(items@[i]),
                        (MAX_JSON_NEST - nest - 1) as nat,
                    ) && wire_model(out@[i]) == json_to_wire(json_model(items@[i]))
                    && numbers_packed(json_model(items@[i]))
            },
            Err(e) => {
                &&& e == MappingError::JsonValueNestedTooDeeply
                &&& exists|i: int|
                    0 <= i < items@.len() && !json_fits(
                        #[trigger] json_model(items@[i]),
                        (MAX_JSON_NEST - nest - 1) as nat,
                    )
            },
        },
    decreases MAX_JSON_NEST - nest - 1, 1int,
{
    let ghost all = items@;
    let mut out: Vec<prost_types::Value> = Vec::new();
    for item in it: items.into_iter()
        invariant
            nest < MAX_JSON_NEST,
            all == items@,
            it.seq() == all,
            out@.len() == it.index(),
            forall|i: int|
                0 <= i < out@.len() ==> json_fits(
                    #[trigger] json_model(all[i]),
                    (MAX_JSON_NEST - nest - 1) as nat,
                ) && wire_model(out@[i]) == json_to_wire(json_model(all[i])) && numbers_packed(
                    json_model(all[i]),
                ),
    {
        match json_into_wire(nest + 1, item) {
            Ok(w) => {
                out.push(w);
            },
            Err(e) => {
                return Err(e);
            },
        }
    }
    Ok(out)
}

/// Converts the members of a JSON object, each one level below `nest`, and keeps their keys.
fn json_entries_into_wire(nest: usize, entries: Vec<(String, serde_json::Value)>) -> (r: Result<
    Vec<(String, prost_types::Value)>,
    MappingError,
>)
    requires
        nest < MAX_JSON_NEST,
    ensures
        match r {
            Ok(out) => {
                &&& out@.len() == entries@.len()
                &&& forall|i: int|
                    0 <= i < entries@.len() ==> json_fits(
                        #[trigger] json_model(entries@[i].1),
                        (MAX_JSON_NEST - nest - 1) as nat,
                    ) && out@[i].0@ == entries@[i].0@ && wire_model(out@[i].1) == json_to_wire(
                        json_model(entries@[i].1),
                    ) && numbers_packed(json_model(entries@[i].1))
            },
            Err(e) => {
                &&& e == MappingError::JsonValueNestedTooDeeply
                &&& exists|i: int|
                    0 <= i < entries@.len() && !json_fits(
                        #[trigger] json_model(entries@[i].1),
                        (MAX_JSON_NEST - nest - 1) as nat,
                    )
            },
        },
    decreases MAX_JSON_NEST - nest - 1, 1int,
{
    let ghost all = entries@;
    let mut out: Vec<(String, prost_types::Value)> = Vec::new();
    for entry in it: entries.into_iter()
        invariant
            nest < MAX_JSON_NEST,
            all == entries@,
            it.seq() == all,
            out@.len() == it.index(),
            forall|i: int|
                0 <= i < out@.len() ==> json_fits(
                    #[trigger] json_model(all[i].1),
                    (MAX_JSON_NEST - nest - 1) as nat,
                ) && out@[i].0@ == all[i].0@ && wire_model(out@[i].1) == json_to_wire(
                    json_model(all[i].1),
                ) && numbers_packed(json_model(all[i].1)),
    {
        let (key, value) = entry;
        match json_into_wire(nest + 1, value) {
            Ok(w) => {
                out.push((key, w));
            },
            Err(e) => {
                return Err(e);
            },
        }
    }
    Ok(out)
}

/// Converts the JSON tree `value`, which stands `nest` levels below the root.
fn json_into_wire(nest: usize, value: serde_json::Value) -> (r: Result<
    prost_types::Value,
    MappingError,
>)
    requires
        nest <= MAX_JSON_NEST,
    ensures
        match r {
            Ok(w) => json_fits(json_model(value), (MAX_JSON_NEST - nest) as nat) && wire_model(w)
                == json_to_wire(json_model(value)) && numbers_packed(json_model(value)),
            Err(e) => !json_fits(json_model(value), (MAX_JSON_NEST - nest) as nat) && e
                == MappingError::JsonValueNestedTooDeeply,
        },
    decreases MAX_JSON_NEST - nest, 0int,
{
    if nest >= MAX_JSON_NEST {
        return Err(MappingError::JsonValueNestedTooDeeply);
    }
    let ghost room = (MAX_JSON_NEST - nest) as nat;
    let ghost model = json_model(value);
    let node = match open_json(value) {
        JsonNode::Null => WireNode::Null(0),
        JsonNode::Bool(b) => WireNode::Bool(b),
        JsonNode::Number(n) => match number_to_wire(&n) {
            Some(w) => WireNode::Number(w),
            None => WireNode::Null(0),
        },
        JsonNode::String(s) => WireNode::String(s),
        JsonNode::Array(items) => {
            let ghost models = json_models(items@);
            match json_items_into_wire(nest, items) {
                Ok(out) => {
                    proof {
                        assert forall|i: int| 0 <= i < models.len() implies json_fits(
                            #[trigger] models[i],
                            (room - 1) as nat,
                        ) && numbers_packed(models[i]) by {
                            assert(models[i] == json_model(items@[i]));
                        }
                        assert(wire_models(out@) =~= json_to_wire(model)->List_0) by {
                            assert forall|i: int| 0 <= i < out@.len() implies wire_models(out@)[i]
                                == json_to_wire(models[i]) by {
                                assert(models[i] == json_model(items@[i]));
                            }
                        }
                    }
                    WireNode::List(out)
                },
                Err(e) => {
                    proof {
                        let i = choose|i: int|
                            0 <= i < items@.len() && !json_fits(
                                #[trigger] json_model(items@[i]),
                                (room - 1) as nat,
                            );
                        assert(models[i] == json_model(items@[i]));
                    }
                    return Err(e);
                },
            }
        },
        JsonNode::Object(entries) => {
            let ghost members = json_entry_models(entries@);
            let ghost fields = entries_map(members);
            proof {
                lemma_entries_map(members);
            }
            match json_entries_into_wire(nest, entries) {
                Ok(out) => {
                    proof {
                        let packed = wire_entry_models(out@);
                        assert forall|i: int, j: int| 0 <= i < j < packed.len() implies packed[i].0
                            != packed[j].0 by {
                            assert(members[i].0 == packed[i].0 && members[j].0 == packed[j].0);
                        }
                        lemma_entries_map(packed);
                        assert forall|k: Seq<char>| fields.contains_key(k) implies json_fits(
                            #[trigger] fields[k],
                            (room - 1) as nat,
                        ) && numbers_packed(fields[k]) by {
                            let i = choose|i: int|
                                0 <= i < members.len() && (#[trigger] members[i]).0 == k;
                            assert(members[i].1 == json_model(entries@[i].1));
                        }
                        let target = json_to_wire(model)->Struct_0;
                        assert forall|k: Seq<char>| #[trigger]
                            entries_map(packed).contains_key(k) implies target.contains_key(k)
                            && target[k] == entries_map(packed)[k] by {
                            let i = choose|i: int|
                                0 <= i < packed.len() && (#[trigger] packed[i]).0 == k;
                            assert(members[i].0 == k);
                            assert(members[i].1 == json_model(entries@[i].1));
                        }
                        assert forall|k: Seq<char>| #[trigger]
                            target.contains_key(k) implies entries_map(packed).contains_key(
                            k,
                        ) by {
                            let i = choose|i: int|
                                0 <= i < members.len() && (#[trigger] members[i]).0 == k;
                            assert(packed[i].0 == k);
                        }
                        assert(entries_map(packed) =~= target);
                    }
                    WireNode::Struct(out)
                },
                Err(e) => {
                    proof {
                        let i = choose|i: int|
                            0 <= i < entries@.len() && !json_fits(
                                #[trigger] json_model(entries@[i].1),
                                (room - 1) as nat,
                            );
                        assert(members[i].1 == json_model(entries@[i].1));
                        assert(fields.contains_key(members[i].0));
                        assert(fields[members[i].0] == members[i].1);
                    }
                    return Err(e);
                },
            }
        },
    };
    Ok(close_wire(node))
}

/// Converts a JSON tree into a dynamic message value of the same shape. A tree of more
/// than `MAX_JSON_NEST` levels is refused.
pub fn json_value_to_value(value: serde_json::Value) -> (r: Result<
    prost_types::Value,
    MappingError,
>)
    ensures
        json_packs_to(value, r),
{
    json_into_wire(0, value)
}

/// Converts the members of a message list, in order, each one level below `nest`.
fn wire_items_into_json(nest: usize, items: Vec<prost_types::Value>) -> (r: Result<
    Vec<serde_json::Value>,
    MappingError,
>)
    requires
        nest < MAX_JSON_NEST,
    ensures
        match r {
            Ok(out) => {
                &&& out@.len() == items@.len()
                &&& forall|i: int|
                    0 <= i < items@.len() ==> wire_fits(
                        #[trigger] wire_model(items@[i]),
                        (MAX_JSON_NEST - nest - 1) as nat,
                    ) && json_model(out@[i]) == wire_to_json(wire_model(items@[i]))
                    && numbers_read(wire_model(items@[i]))
            },
            Err(e) => {
                &&& e == MappingError::JsonValueNestedTooDeeply
                &&& exists|i: int|
                    0 <= i < items@.len() && !wire_fits(
                        #[trigger] wire_model(items@[i]),
                        (MAX_JSON_NEST - nest - 1) as nat,
                    )
            },
        },
    decreases MAX_JSON_NEST - nest - 1, 1int,
{
    let ghost all = items@;
    let mut out: Vec<serde_json::Value> = Vec::new();
    for item in it: items.into_iter()
        invariant
            nest < MAX_JSON_NEST,
            all == items@,
            it.seq() == all,
            out@.len() == it.index(),
            forall|i: int|
                0 <= i < out@.len() ==> wire_fits(
                    #[trigger] wire_model(all[i]),
                    (MAX_JSON_NEST - nest - 1) as nat,
                ) && json_model(out@[i]) == wire_to_json(wire_model(all[i])) && numbers_read(
                    wire_model(all[i]),
                ),
    {
        match wire_into_json(nest + 1, item) {
            Ok(j) => {
                out.push(j);
            },
            Err(e) => {
                return Err(e);
            },
        }
    }
    Ok(out)
}

/// Converts the fields of a message struct, each one level below `nest`, and keeps their
/// keys.
fn wire_entries_into_json(nest: usize, entries: Vec<(String, prost_types::Value)>) -> (r: Result<
    Vec<(String, serde_json::Value)>,
    MappingError,
>)
    requires
        nest < MAX_JSON_NEST,
    ensures
        match r {
            Ok(out) => {
                &&& out@.len() == entries@.len()
                &&& forall|i: int|
                    0 <= i < entries@.len() ==> wire_fits(
                        #[trigger] wire_model(entries@[i].1),
                        (MAX_JSON_NEST - nest - 1) as nat,
                    ) && out@[i].0@ == entries@[i].0@ && json_model(out@[i].1) == wire_to_json(
                        wire_model(entries@[i].1),
                    ) && numbers_read(wire_model(entries@[i].1))
            },
            Err(e) => {
                &&& e == MappingError::JsonValueNestedTooDeeply
                &&& exists|i: int|
                    0 <= i < entries@.len() && !wire_fits(
                        #[trigger] wire_model(entries@[i].1),
                        (MAX_JSON_NEST - nest - 1) as nat,
                    )
            },
        },
    decreases MAX_JSON_NEST - nest - 1, 1int,
{
    let ghost all = entries@;
    let mut out: Vec<(String, serde_json::Value)> = Vec::new();
    for entry in it: entries.into_iter()
        invariant
            nest < MAX_JSON_NEST,
            all == entries@,
            it.seq() == all,
            out@.len() == it.index(),
            forall|i: int|
                0 <= i < out@.len() ==> wire_fits(
                    #[trigger] wire_model(all[i].1),
                    (MAX_JSON_NEST - nest - 1) as nat,
                ) && out@[i].0@ == all[i].0@ && json_model(out@[i].1) == wire_to_json(
                    wire_model(all[i].1),
                ) && numbers_read(wire_model(all[i].1)),
    {
        let (key, value) = entry;
        match wire_into_json(nest + 1, value) {
            Ok(j) => {
                out.push((key, j));
            },
            Err(e) => {
                return Err(e);
            },
        }
    }
    Ok(out)
}

/// Converts the dynamic message value `value`, which stands `nest` levels below the root.
fn wire_into_json(nest: usize, value: prost_types::Value) -> (r: Result<
    serde_json::Value,
    MappingError,
>)
    requires
        nest <= MAX_JSON_NEST,
    ensures
        match r {
            Ok(j) => wire_fits(wire_model(value), (MAX_JSON_NEST - nest) as nat) && json_model(j)
                == wire_to_json(wire_model(value)) && numbers_read(wire_model(value)),
            Err(e) => !wire_fits(wire_model(value), (MAX_JSON_NEST - nest) as nat) && e
                == MappingError::JsonValueNestedTooDeeply,
        },
    decreases MAX_JSON_NEST - nest, 0int,
{
    if nest >= MAX_JSON_NEST {
        return Err(MappingError::JsonValueNestedTooDeeply);
    }
    let ghost room = (MAX_JSON_NEST - nest) as nat;
    let ghost model = wire_model(value);
    let node = match open_wire(value) {
        WireNode::Unset => JsonNode::Null,
        WireNode::Null(_) => JsonNode::Null,
        WireNode::Number(holder) => match number_to_json(&holder) {
            Some(n) => JsonNode::Number(n),
            None => JsonNode::Null,
        },
        WireNode::String(s) => JsonNode::String(s),
        WireNode::Bool(b) => JsonNode::Bool(b),
        WireNode::Struct(entries) => {
            let ghost members = wire_entry_models(entries@);
            let ghost fields = entries_map(members);
            proof {
                lemma_entries_map(members);
            }
            match wire_entries_into_json(nest, entries) {
                Ok(out) => {
                    proof {
                        let unpacked = json_entry_models(out@);
                        assert forall|i: int, j: int|
                            0 <= i < j < unpacked.len() implies unpacked[i].0 != unpacked[j].0 by {
                            assert(members[i].0 == unpacked[i].0 && members[j].0 == unpacked[j].0);
                        }
                        lemma_entries_map(unpacked);
                        assert forall|k: Seq<char>| fields.contains_key(k) implies wire_fits(
                            #[trigger] fields[k],
                            (room - 1) as nat,
                        ) && numbers_read(fields[k]) by {
                            let i = choose|i: int|
                                0 <= i < members.len() && (#[trigger] members[i]).0 == k;
                            assert(members[i].1 == wire_model(entries@[i].1));
                        }
                        let target = wire_to_json(model)->Object_0;
                        assert forall|k: Seq<char>| #[trigger]
                            entries_map(unpacked).contains_key(k) implies target.contains_key(k)
                            && target[k] == entries_map(unpacked)[k] by {
                            let i = choose|i: int|
                                0 <= i < unpacked.len() && (#[trigger] unpacked[i]).0 == k;
                            assert(members[i].0 == k);
                            assert(members[i].1 == wire_model(entries@[i].1));
                        }
                        assert forall|k: Seq<char>| #[trigger]
                            target.contains_key(k) implies entries_map(unpacked).contains_key(
                            k,
                        ) by {
                            let i = choose|i: int|
                                0 <= i < members.len() && (#[trigger] members[i]).0 == k;
                            assert(unpacked[i].0 == k);
                        }
                        assert(entries_map(unpacked) =~= target);
                    }
                    JsonNode::Object(out)
                },
                Err(e) => {
                    proof {
                        let i = choose|i: int|
                            0 <= i < entries@.len() && !wire_fits(
                                #[trigger] wire_model(entries@[i].1),
                                (room - 1) as nat,
                            );
                        assert(members[i].1 == wire_model(entries@[i].1));
                        assert(fields.contains_key(members[i].0));
                        assert(fields[members[i].0] == members[i].1);
                    }
                    return Err(e);
                },
            }
        },
        WireNode::List(items) => {
            let ghost models = wire_models(items@);
            match wire_items_into_json(nest, items) {
                Ok(out) => {
                    proof {
                        assert forall|i: int| 0 <= i < models.len() implies wire_fits(
                            #[trigger] models[i],
                            (room - 1) as nat,
                        ) && numbers_read(models[i]) by {
                            assert(models[i] == wire_model(items@[i]));
                        }
                        assert(json_models(out@) =~= wire_to_json(model)->Array_0) by {
                            assert forall|i: int| 0 <= i < out@.len() implies json_models(out@)[i]
                                == wire_to_json(models[i]) by {
                                assert(models[i] == wire_model(items@[i]));
                            }
                        }
                    }
                    JsonNode::Array(out)
                },
                Err(e) => {
                    proof {
                        let i = choose|i: int|
                            0 <= i < items@.len() && !wire_fits(
                                #[trigger] wire_model(items@[i]),
                                (room - 1) as nat,
                            );
                        assert(models[i] == wire_model(items@[i]));
                    }
                    return Err(e);
                },
            }
        },
    };
    Ok(close_json(node))
}

/// Converts a dynamic message value into a JSON tree of the same shape. A value of more
/// than `MAX_JSON_NEST` levels is refused.
pub fn value_to_json_value(value: prost_types::Value) -> (r: Result<
    serde_json::Value,
    MappingError,
>)
    ensures
        json_unpacks_to(value, r),
{
    wire_into_json(0, value)
}

/// What holds of an array holds of each of its members, one level below.
proof fn lemma_member_of_array(items: Seq<JsonModel>, room: nat, i: int)
    requires
        0 <= i < items.len(),
    ensures
        json_fits(JsonModel::Array(items), room) ==> json_fits(items[i], (room - 1) as nat),
        is_float_tree(JsonModel::Array(items)) ==> is_float_tree(items[i]),
{
    let j = JsonModel::Array(items);
    assert(j->Array_0 == items);
    if is_float_tree(j) {
        assert(is_float_tree(j->Array_0[i]));
    }
    if json_fits(j, room) {
        assert(json_fits(j->Array_0[i], (room - 1) as nat));
    }
}

/// What holds of an object holds of each of its members, one level below.
proof fn lemma_member_of_object(fields: Map<Seq<char>, JsonModel>, room: nat, k: Seq<char>)
    requires
        fields.contains_key(k),
    ensures
        json_fits(JsonModel::Object(fields), room) ==> json_fits(fields[k], (room - 1) as nat),
        is_float_tree(JsonModel::Object(fields)) ==> is_float_tree(fields[k]),
{
    let j = JsonModel::Object(fields);
    assert(j->Object_0 == fields);
    if is_float_tree(j) {
        assert(is_float_tree(j->Object_0[k]));
    }
    if json_fits(j, room) {
        assert(json_fits(j->Object_0[k], (room - 1) as nat));
    }
}

/// Tells whether the JSON tree `value`, which stands `nest` levels below the root, has
/// no level too many and holds every number as a double.
fn floats_below(nest: usize, value: &serde_json::Value) -> (r: bool)
    requires
        nest <= MAX_JSON_NEST,
    ensures
        r == (json_fits(json_model(*value), (MAX_JSON_NEST - nest) as nat) && is_float_tree(
            json_model(*value),
        )),
    decreases MAX_JSON_NEST - nest,
{
    if nest >= MAX_JSON_NEST {
        return false;
    }
    let ghost room = (MAX_JSON_NEST - nest) as nat;
    match peek_json(value) {
        JsonPeek::Null => true,
        JsonPeek::Bool(_) => true,
        JsonPeek::String(_) => true,
        JsonPeek::Number(n) => number_is_float(n),
        JsonPeek::Array(items) => {
            let ghost models = json_models(items@);
            let mut i: usize = 0;
            while i < items.len()
                invariant
                    i <= items.len(),
                    nest < MAX_JSON_NEST,
                    room == (MAX_JSON_NEST - nest) as nat,
                    models == json_models(items@),
                    json_model(*value) == JsonModel::Array(models),
                    forall|j: int|
                        0 <= j < i ==> json_fits(#[trigger] models[j], (room - 1) as nat)
                            && is_float_tree(models[j]),
                decreases items.len() - i,
            {
                if !floats_below(nest + 1, &items[i]) {
                    proof {
                        assert(models[i as int] == json_model(items@[i as int]));
                        lemma_member_of_array(models, room, i as int);
                    }
                    return false;
                }
                assert(models[i as int] == json_model(items@[i as int]));
                i = i + 1;
            }
            true
        },
        JsonPeek::Object(entries) => {
            let ghost members = json_peek_entry_models(entries@);
            let ghost fields = entries_map(members);
            proof {
                lemma_entries_map(members);
            }
            let mut i: usize = 0;
            while i < entries.len()
                invariant
                    i <= entries.len(),
                    nest < MAX_JSON_NEST,
                    room == (MAX_JSON_NEST - nest) as nat,
                    members == json_peek_entry_models(entries@),
                    fields == entries_map(members),
                    json_model(*value) == JsonModel::Object(fields),
                    forall|j: int|
                        0 <= j < members.len() ==> fields.contains_key((#[trigger] members[j]).0)
                            && fields[members[j].0] == members[j].1,
                    forall|k: Seq<char>| #[trigger]
                        fields.contains_key(k) ==> exists|j: int|
                            0 <= j < members.len() && (#[trigger] members[j]).0 == k,
                    forall|j: int|
                        0 <= j < i ==> json_fits((#[trigger] members[j]).1, (room - 1) as nat)
                            && is_float_tree(members[j].1),
                decreases entries.len() - i,
            {
                let child = entries[i].1;
                assert(members[i as int].1 == json_model(*child));
                if !floats_below(nest + 1, child) {
                    proof {
                        assert(fields[members[i as int].0] == members[i as int].1);
                        lemma_member_of_object(fields, room, members[i as int].0);
                    }
                    return false;
                }
                i = i + 1;
            }
            proof {
                assert forall|k: Seq<char>| fields.contains_key(k) implies json_fits(
                    #[trigger] fields[k],
                    (room - 1) as nat,
                ) && is_float_tree(fields[k]) by {
                    let j = choose|j: int| 0 <= j < members.len() && (#[trigger] members[j]).0 == k;
                    assert(fields[members[j].0] == members[j].1);
                }
            }
            true
        },
    }
}

/// Tells whether the JSON tree `value` has at most `MAX_JSON_NEST` levels and holds every
/// number as a double, and not as an integer. Such a tree packs, and comes back from the
/// message as it was.
pub fn has_only_float_numbers(value: &serde_json::Value) -> (r: bool)
    ensures
        r == (json_fits(json_model(*value), MAX_JSON_NEST as nat) && is_float_tree(
            json_model(*value),
        )),
{
    floats_below(0, value)
}

impl ProtoPack<prost_types::Value> for serde_json::Value {
    open spec fn packs_to(self, r: Result<prost_types::Value, MappingError>) -> bool {
        json_packs_to(self, r)
    }

    fn pack(self) -> (r: Result<prost_types::Value, MappingError>) {
        json_value_to_value(self)
    }
}

impl ProtoUnpack<prost_types::Value> for serde_json::Value {
    open spec fn unpackable(value: prost_types::Value) -> bool {
        true
    }

    open spec fn unpacks_to(value: prost_types::Value, r: Result<Self, MappingError>) -> bool {
        json_unpacks_to(value, r)
    }

    fn unpack(value: prost_types::Value) -> (r: Result<Self, MappingError>) {
        value_to_json_value(value)
    }
}

impl ProtoPack<Option<prost_types::Value>> for serde_json::Value {
    open spec fn packs_to(self, r: Result<Option<prost_types::Value>, MappingError>) -> bool {
        packs_to_some(self, r)
    }

    fn pack(self) -> (r: Result<Option<prost_types::Value>, MappingError>) {
        pack_option(self)
    }
}

impl ProtoUnpack<Option<prost_types::Value>> for serde_json::Value {
    open spec fn unpackable(value: Option<prost_types::Value>) -> bool {
        unpackable_some::<prost_types::Value, serde_json::Value>(value)
    }

    open spec fn unpacks_to(value: Option<prost_types::Value>, r: Result<Self, MappingError>) -> bool {
        unpacks_from_option(value, r)
    }

    fn unpack(value: Option<prost_types::Value>) -> (r: Result<Self, MappingError>) {
        unpack_option(value)
    }
}

// Values of any shape, by way of their JSON form

/// A model value that is packed and unpacked by way of its JSON form.
pub struct Json<T>(pub T);

/// Calls `serde_json::to_value`. What comes back is decided by how `T` serializes, so the
/// contract claims nothing of it.
#[verifier::external_body]
fn encode_json<T: serde::Serialize>(value: &T) -> (r: Result<
    serde_json::Value,
    serde_json::Error,
>) {
    serde_json::to_value(value)
}

/// Calls `serde_json::from_value`. What comes back is decided by how `T` deserializes, so
/// the contract claims nothing of it.
#[verifier::external_body]
fn decode_json<T: serde::de::DeserializeOwned>(value: serde_json::Value) -> (r: Result<
    T,
    serde_json::Error,
>) {
    serde_json::from_value(value)
}

/// What packing gives once the value has been encoded as JSON: a failure to encode is
/// handed on, and a tree is packed as every JSON tree is.
pub open spec fn encoded_packs_to(
    encoded: Result<serde_json::Value, serde_json::Error>,
    r: Result<prost_types::Value, MappingError>,
) -> bool {
    match encoded {
        Ok(tree) => json_packs_to(tree, r),
        Err(e) => r == Err::<prost_types::Value, MappingError>(MappingError::Json(e)),
    }
}

/// Packs what `serde_json` made of a model value.
pub fn pack_encoded(encoded: Result<serde_json::Value, serde_json::Error>) -> (r: Result<
    prost_types::Value,
    MappingError,
>)
    ensures
        encoded_packs_to(encoded, r),
{
    match encoded {
        Ok(tree) => json_value_to_value(tree),
        Err(e) => Err(MappingError::Json(e)),
    }
}

/// The result of unpacking once `serde_json` has decoded the JSON tree: a failure to
/// decode is handed on.
pub open spec fn decoded_result<T>(decoded: Result<T, serde_json::Error>) -> Result<
    T,
    MappingError,
> {
    match decoded {
        Ok(value) => Ok(value),
        Err(e) => Err(MappingError::Json(e)),
    }
}

/// Finishes unpacking with what `serde_json` made of the JSON tree.
pub fn unpack_decoded<T>(decoded: Result<T, serde_json::Error>) -> (r: Result<T, MappingError>)
    ensures
        r == decoded_result(decoded),
{
    match decoded {
        Ok(value) => Ok(value),
        Err(e) => Err(MappingError::Json(e)),
    }
}

/// Packs any value that `serde` can serialize, by way of its JSON form.
pub fn pack_value<T: serde::Serialize>(value: T) -> (r: Result<prost_types::Value, MappingError>)
    ensures
        exists|encoded: Result<serde_json::Value, serde_json::Error>| #[trigger]
            encoded_packs_to(encoded, r),
{
    let encoded = encode_json(&value);
    pack_encoded(encoded)
}

/// Unpacks any value that `serde` can deserialize, by way of its JSON form. A message
/// value that has no JSON form is refused before `serde` is asked.
pub fn unpack_value<T: serde::de::DeserializeOwned>(value: prost_types::Value) -> (r: Result<
    T,
    MappingError,
>)
    ensures
        !wire_fits(wire_model(value), MAX_JSON_NEST as nat) ==> r == Err::<T, MappingError>(
            MappingError::JsonValueNestedTooDeeply,
        ),
        wire_fits(wire_model(value), MAX_JSON_NEST as nat) ==> exists|
            decoded: Result<T, serde_json::Error>,
        | r == #[trigger] decoded_result(decoded),
{
    match value_to_json_value(value) {
        Ok(tree) => {
            let decoded = decode_json(tree);
            unpack_decoded(decoded)
        },
        Err(e) => Err(e),
    }
}

impl<T> Json<T> {
    /// Packs the value it holds, as `pack_value` does.
    pub fn pack(self) -> (r: Result<prost_types::Value, MappingError>) where T: serde::Serialize
        ensures
            exists|encoded: Result<serde_json::Value, serde_json::Error>| #[trigger]
                encoded_packs_to(encoded, r),
    {
        pack_value(self.0)
    }

    /// Unpacks a value to hold, as `unpack_value` does.
    pub fn unpack(value: prost_types::Value) -> (r: Result<Json<T>, MappingError>) where
        T: serde::de::DeserializeOwned,

        ensures
            !wire_fits(wire_model(value), MAX_JSON_NEST as nat) ==> r == Err::<
                Json<T>,
                MappingError,
            >(MappingError::JsonValueNestedTooDeeply),
            wire_fits(wire_model(value), MAX_JSON_NEST as nat) ==> exists|
                decoded: Result<T, serde_json::Error>,
            | unpacked_holder(r) == #[trigger] decoded_result(decoded),
    {
        match unpack_value::<T>(value) {
            Ok(inner) => Ok(Json(inner)),
            Err(e) => Err(e),
        }
    }
}

/// The result `r` without the holder around its value.
pub open spec fn unpacked_holder<T>(r: Result<Json<T>, MappingError>) -> Result<T, MappingError> {
    match r {
        Ok(holder) => Ok(holder.0),
        Err(e) => Err(e),
    }
}

} // verus!
