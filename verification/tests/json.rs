use prost_types::value::Kind;
use prost_types::{ListValue, Struct, Value};
use protobuf_mapper::json::{has_only_float_numbers, json_value_to_value, pack_encoded};
use protobuf_mapper::json::{pack_value, unpack_decoded};
use protobuf_mapper::json::{unpack_value, value_to_json_value};
use protobuf_mapper::result::MappingError;
use protobuf_mapper::{Json, ProtoPack, ProtoUnpack};
use serde_json::Value as JsonValue;
use std::collections::HashMap;

fn wire(kind: Kind) -> Value {
    Value { kind: Some(kind) }
}

fn nested_json(levels: usize) -> JsonValue {
    let mut tree = JsonValue::Null;
    for _ in 1..levels {
        tree = JsonValue::Array(vec![tree]);
    }
    tree
}

fn nested_wire(levels: usize) -> Value {
    let mut value = wire(Kind::NullValue(0));
    for _ in 1..levels {
        value = wire(Kind::ListValue(ListValue { values: vec![value] }));
    }
    value
}

fn nested_json_object(levels: usize) -> JsonValue {
    let mut tree = JsonValue::Bool(true);
    for _ in 1..levels {
        let mut object = serde_json::Map::new();
        object.insert("k".to_string(), tree);
        tree = JsonValue::Object(object);
    }
    tree
}

fn nested_wire_struct(levels: usize) -> Value {
    let mut value = wire(Kind::BoolValue(true));
    for _ in 1..levels {
        value = wire(Kind::StructValue(Struct {
            fields: vec![("k".to_string(), value)].into_iter().collect(),
        }));
    }
    value
}

#[test]
fn json_leaves_pack_to_their_kinds() {
    assert_eq!(json_value_to_value(JsonValue::Null).unwrap(), wire(Kind::NullValue(0)));
    assert_eq!(json_value_to_value(JsonValue::Bool(true)).unwrap(), wire(Kind::BoolValue(true)));
    assert_eq!(
        json_value_to_value(JsonValue::String("s".to_string())).unwrap(),
        wire(Kind::StringValue("s".to_string()))
    );
    assert_eq!(
        json_value_to_value(JsonValue::from(1.5_f64)).unwrap(),
        wire(Kind::NumberValue(1.5))
    );
}

#[test]
fn json_integers_pack_as_doubles() {
    assert_eq!(json_value_to_value(JsonValue::from(5_i64)).unwrap(), wire(Kind::NumberValue(5.0)));
    assert_eq!(json_value_to_value(JsonValue::from(-5_i64)).unwrap(), wire(Kind::NumberValue(-5.0)));
    assert_eq!(
        json_value_to_value(JsonValue::from(u64::MAX)).unwrap(),
        wire(Kind::NumberValue(18446744073709551615.0))
    );
}

#[test]
fn wire_leaves_unpack_to_their_kinds() {
    assert_eq!(value_to_json_value(Value { kind: None }).unwrap(), JsonValue::Null);
    assert_eq!(value_to_json_value(wire(Kind::NullValue(0))).unwrap(), JsonValue::Null);
    assert_eq!(value_to_json_value(wire(Kind::NullValue(3))).unwrap(), JsonValue::Null);
    assert_eq!(value_to_json_value(wire(Kind::BoolValue(false))).unwrap(), JsonValue::Bool(false));
    assert_eq!(
        value_to_json_value(wire(Kind::StringValue("s".to_string()))).unwrap(),
        JsonValue::String("s".to_string())
    );
    assert_eq!(
        value_to_json_value(wire(Kind::NumberValue(2.25))).unwrap(),
        JsonValue::from(2.25_f64)
    );
}

#[test]
fn wire_numbers_without_json_form_unpack_as_null() {
    assert_eq!(value_to_json_value(wire(Kind::NumberValue(f64::NAN))).unwrap(), JsonValue::Null);
    assert_eq!(
        value_to_json_value(wire(Kind::NumberValue(f64::INFINITY))).unwrap(),
        JsonValue::Null
    );
    assert_eq!(
        value_to_json_value(wire(Kind::NumberValue(f64::NEG_INFINITY))).unwrap(),
        JsonValue::Null
    );
}

#[test]
fn json_trees_pack_to_the_same_shape() {
    let mut inner = serde_json::Map::new();
    inner.insert("b".to_string(), JsonValue::Bool(true));
    inner.insert("a".to_string(), JsonValue::Array(vec![JsonValue::Null, JsonValue::from(2.0)]));
    let mut outer = serde_json::Map::new();
    outer.insert("inner".to_string(), JsonValue::Object(inner));
    outer.insert("s".to_string(), JsonValue::String("x".to_string()));
    let tree = JsonValue::Object(outer);

    let expected = wire(Kind::StructValue(Struct {
        fields: vec![
            (
                "inner".to_string(),
                wire(Kind::StructValue(Struct {
                    fields: vec![
                        (
                            "a".to_string(),
                            wire(Kind::ListValue(ListValue {
                                values: vec![wire(Kind::NullValue(0)), wire(Kind::NumberValue(2.0))],
                            })),
                        ),
                        ("b".to_string(), wire(Kind::BoolValue(true))),
                    ]
                    .into_iter()
                    .collect(),
                })),
            ),
            ("s".to_string(), wire(Kind::StringValue("x".to_string()))),
        ]
        .into_iter()
        .collect(),
    }));

    let packed = json_value_to_value(tree.clone()).unwrap();
    assert_eq!(packed, expected);
    assert_eq!(value_to_json_value(packed).unwrap(), tree);
}

#[test]
fn empty_containers_stay_empty() {
    assert_eq!(
        json_value_to_value(JsonValue::Array(vec![])).unwrap(),
        wire(Kind::ListValue(ListValue { values: vec![] }))
    );
    assert_eq!(
        json_value_to_value(JsonValue::Object(serde_json::Map::new())).unwrap(),
        wire(Kind::StructValue(Struct { fields: Default::default() }))
    );
    assert_eq!(
        value_to_json_value(wire(Kind::ListValue(ListValue { values: vec![] }))).unwrap(),
        JsonValue::Array(vec![])
    );
    assert_eq!(
        value_to_json_value(wire(Kind::StructValue(Struct { fields: Default::default() }))).unwrap(),
        JsonValue::Object(serde_json::Map::new())
    );
}

#[test]
fn a_tree_of_a_hundred_levels_is_accepted() {
    assert_eq!(json_value_to_value(nested_json(100)).unwrap(), nested_wire(100));
    assert_eq!(value_to_json_value(nested_wire(100)).unwrap(), nested_json(100));
    assert_eq!(json_value_to_value(nested_json_object(100)).unwrap(), nested_wire_struct(100));
    assert_eq!(value_to_json_value(nested_wire_struct(100)).unwrap(), nested_json_object(100));
}

#[test]
fn a_tree_of_a_hundred_and_one_levels_is_refused() {
    assert!(matches!(
        json_value_to_value(nested_json(101)),
        Err(MappingError::JsonValueNestedTooDeeply)
    ));
    assert!(matches!(
        value_to_json_value(nested_wire(101)),
        Err(MappingError::JsonValueNestedTooDeeply)
    ));
    assert!(matches!(
        json_value_to_value(nested_json_object(101)),
        Err(MappingError::JsonValueNestedTooDeeply)
    ));
    assert!(matches!(
        value_to_json_value(nested_wire_struct(101)),
        Err(MappingError::JsonValueNestedTooDeeply)
    ));
    let packed: Result<Value, MappingError> = nested_json(150).pack();
    assert!(matches!(packed, Err(MappingError::JsonValueNestedTooDeeply)));
    let unpacked: Result<JsonValue, MappingError> = ProtoUnpack::unpack(nested_wire(150));
    assert!(matches!(unpacked, Err(MappingError::JsonValueNestedTooDeeply)));
}

#[test]
fn a_deep_branch_beside_shallow_ones_is_refused() {
    let tree = JsonValue::Array(vec![JsonValue::Null, nested_json(100), JsonValue::Bool(true)]);
    assert!(matches!(
        json_value_to_value(tree),
        Err(MappingError::JsonValueNestedTooDeeply)
    ));
    let tree = JsonValue::Array(vec![JsonValue::Null, nested_json(99), JsonValue::Bool(true)]);
    assert!(json_value_to_value(tree).is_ok());
}

#[test]
fn json_value_in_an_optional_field() {
    let packed: Option<Value> = JsonValue::Bool(true).pack().unwrap();
    assert_eq!(packed, Some(wire(Kind::BoolValue(true))));
    let unpacked: JsonValue = ProtoUnpack::unpack(Some(wire(Kind::BoolValue(true)))).unwrap();
    assert_eq!(unpacked, JsonValue::Bool(true));
    let r: Result<JsonValue, MappingError> = ProtoUnpack::unpack(None::<Value>);
    assert!(matches!(r, Err(MappingError::ValueNotPresent)));
    let packed: Option<Value> = None::<JsonValue>.pack().unwrap();
    assert_eq!(packed, None);
    let unpacked: Option<JsonValue> = ProtoUnpack::unpack(None::<Value>).unwrap();
    assert_eq!(unpacked, None);
}

#[test]
fn pack_value_goes_by_the_json_form() {
    let packed = pack_value(vec![1_i32, 2]).unwrap();
    assert_eq!(
        packed,
        wire(Kind::ListValue(ListValue {
            values: vec![wire(Kind::NumberValue(1.0)), wire(Kind::NumberValue(2.0))],
        }))
    );
    let mut m = HashMap::new();
    m.insert("k".to_string(), true);
    assert_eq!(
        pack_value(m).unwrap(),
        wire(Kind::StructValue(Struct {
            fields: vec![("k".to_string(), wire(Kind::BoolValue(true)))].into_iter().collect(),
        }))
    );
}

#[test]
fn pack_value_hands_on_a_failure_to_encode() {
    let mut m = HashMap::new();
    m.insert(vec![1_i32], true);
    let err = pack_value(m).err().unwrap();
    assert!(matches!(err, MappingError::Json(_)));
    assert_eq!(err.message(), "JSON error: key must be a string");
}

#[test]
fn unpack_value_goes_by_the_json_form() {
    let value = wire(Kind::ListValue(ListValue {
        values: vec![wire(Kind::StringValue("a".to_string())), wire(Kind::StringValue("b".to_string()))],
    }));
    let unpacked: Vec<String> = unpack_value(value).unwrap();
    assert_eq!(unpacked, vec!["a".to_string(), "b".to_string()]);
}

#[test]
fn unpack_value_hands_on_a_failure_to_decode() {
    let r: Result<Vec<String>, MappingError> = unpack_value(wire(Kind::BoolValue(true)));
    assert!(matches!(r, Err(MappingError::Json(_))));
    let r: Result<Vec<String>, MappingError> = unpack_value(nested_wire(101));
    assert!(matches!(r, Err(MappingError::JsonValueNestedTooDeeply)));
}

#[test]
fn pack_encoded_and_unpack_decoded_map_the_error() {
    let failed: Result<JsonValue, serde_json::Error> = serde_json::from_str("{");
    assert!(matches!(pack_encoded(failed), Err(MappingError::Json(_))));
    let parsed: Result<JsonValue, serde_json::Error> = serde_json::from_str("[true]");
    assert_eq!(
        pack_encoded(parsed).unwrap(),
        wire(Kind::ListValue(ListValue { values: vec![wire(Kind::BoolValue(true))] }))
    );
    let failed: Result<i32, serde_json::Error> = serde_json::from_str("x");
    assert!(matches!(unpack_decoded(failed), Err(MappingError::Json(_))));
    let parsed: Result<i32, serde_json::Error> = serde_json::from_str("12");
    assert_eq!(unpack_decoded(parsed).unwrap(), 12);
}

#[test]
fn json_holder_packs_and_unpacks_what_it_holds() {
    let packed = Json((1.5_f64, "x".to_string())).pack().unwrap();
    assert_eq!(
        packed,
        wire(Kind::ListValue(ListValue {
            values: vec![wire(Kind::NumberValue(1.5)), wire(Kind::StringValue("x".to_string()))],
        }))
    );
    let unpacked: Json<(f64, String)> = Json::unpack(packed).unwrap();
    assert_eq!(unpacked.0, (1.5_f64, "x".to_string()));
    let whole = Json(1_u8).pack().unwrap();
    assert_eq!(whole, wire(Kind::NumberValue(1.0)));
    let r: Result<Json<u8>, MappingError> = Json::unpack(whole);
    assert!(matches!(r, Err(MappingError::Json(_))));
    let r: Result<Json<bool>, MappingError> = Json::unpack(wire(Kind::NumberValue(1.0)));
    assert!(matches!(r, Err(MappingError::Json(_))));
}

#[test]
fn errors_convert_from_the_outside_errors() {
    let failed: Result<JsonValue, serde_json::Error> = serde_json::from_str("{");
    let err: MappingError = failed.err().unwrap().into();
    assert!(matches!(err, MappingError::Json(_)));
}

#[test]
fn a_tree_of_doubles_comes_back_from_the_message() {
    let mut object = serde_json::Map::new();
    object.insert("x".to_string(), JsonValue::from(-0.5_f64));
    object.insert("y".to_string(), JsonValue::Array(vec![JsonValue::from(1e300_f64)]));
    let tree = JsonValue::Array(vec![JsonValue::Object(object), JsonValue::from(0.0_f64)]);
    let packed = json_value_to_value(tree.clone()).unwrap();
    assert_eq!(value_to_json_value(packed).unwrap(), tree);
}

#[test]
fn an_integer_number_comes_back_as_a_double() {
    let packed = json_value_to_value(JsonValue::from(5_u64)).unwrap();
    let back = value_to_json_value(packed).unwrap();
    assert_eq!(back, JsonValue::from(5.0_f64));
    assert!(back != JsonValue::from(5_u64));
    assert!(back.is_f64());
}

#[test]
fn a_plain_message_value_comes_back_from_the_tree() {
    let value = wire(Kind::StructValue(Struct {
        fields: vec![
            ("n".to_string(), wire(Kind::NullValue(0))),
            ("x".to_string(), wire(Kind::NumberValue(-2.5))),
            (
                "l".to_string(),
                wire(Kind::ListValue(ListValue {
                    values: vec![wire(Kind::BoolValue(true)), wire(Kind::StringValue("s".to_string()))],
                })),
            ),
        ]
        .into_iter()
        .collect(),
    }));
    let tree = value_to_json_value(value.clone()).unwrap();
    assert_eq!(json_value_to_value(tree).unwrap(), value);
}

#[test]
fn what_unpacking_does_not_keep_comes_back_as_null() {
    for value in [
        Value { kind: None },
        wire(Kind::NullValue(3)),
        wire(Kind::NumberValue(f64::NAN)),
        wire(Kind::NumberValue(f64::NEG_INFINITY)),
    ] {
        let tree = value_to_json_value(value).unwrap();
        assert_eq!(json_value_to_value(tree).unwrap(), wire(Kind::NullValue(0)));
    }
}

#[test]
fn trees_of_doubles_are_told_apart() {
    assert!(has_only_float_numbers(&JsonValue::Null));
    assert!(has_only_float_numbers(&JsonValue::String("5".to_string())));
    assert!(has_only_float_numbers(&JsonValue::from(5.0_f64)));
    assert!(!has_only_float_numbers(&JsonValue::from(5_u64)));
    assert!(!has_only_float_numbers(&JsonValue::from(-5_i64)));
    let mut object = serde_json::Map::new();
    object.insert("a".to_string(), JsonValue::from(0.25_f64));
    object.insert("b".to_string(), JsonValue::Array(vec![JsonValue::Bool(true)]));
    assert!(has_only_float_numbers(&JsonValue::Object(object.clone())));
    object.insert("c".to_string(), JsonValue::Array(vec![JsonValue::from(1.5_f64), JsonValue::from(2_u64)]));
    assert!(!has_only_float_numbers(&JsonValue::Object(object)));
    assert!(has_only_float_numbers(&JsonValue::Array(vec![])));
    assert!(has_only_float_numbers(&JsonValue::Object(serde_json::Map::new())));
}

#[test]
fn a_tree_with_a_level_too_many_is_no_tree_of_doubles() {
    assert!(has_only_float_numbers(&nested_json(100)));
    assert!(!has_only_float_numbers(&nested_json(101)));
    assert!(has_only_float_numbers(&nested_json_object(100)));
    assert!(!has_only_float_numbers(&nested_json_object(101)));
}

#[test]
fn a_tree_that_is_told_to_hold_doubles_comes_back() {
    let mut object = serde_json::Map::new();
    object.insert("x".to_string(), JsonValue::from(1e-7_f64));
    let doubles = JsonValue::Array(vec![JsonValue::Object(object), JsonValue::from(3.0_f64)]);
    let whole = JsonValue::Array(vec![JsonValue::from(3_u64)]);
    for tree in [doubles, whole, JsonValue::Null] {
        let back = value_to_json_value(json_value_to_value(tree.clone()).unwrap()).unwrap();
        assert_eq!(has_only_float_numbers(&tree), back == tree);
    }
}
