use protobuf_mapper::result::MappingError;

#[test]
fn messages_of_the_plain_errors() {
    assert_eq!(
        MappingError::ValueNotPresent.message(),
        "Could not unpack a non-optional value from null"
    );
    assert_eq!(
        MappingError::FieldValueNotPresent { field_name: "json" }.message(),
        "Could not unpack field 'json' from null"
    );
    assert_eq!(
        MappingError::JsonValueNestedTooDeeply.message(),
        "JSON value nested too deeply"
    );
    assert_eq!(
        MappingError::JsonTypeUrlUnknown { type_url: "type.googleapis.com/X".to_string() }.message(),
        "Could not convert json value from type_url: type.googleapis.com/X"
    );
    assert_eq!(
        MappingError::ParseDuration { message: "too long".to_string() }.message(),
        "Parse duration error: too long"
    );
}

#[test]
fn message_of_a_json_error() {
    let failed: Result<serde_json::Value, serde_json::Error> = serde_json::from_str("[1,");
    let e = failed.err().unwrap();
    let expected = format!("JSON error: {}", e);
    assert_eq!(MappingError::Json(e).message(), expected);
    assert_eq!(expected, "JSON error: EOF while parsing a value at line 1 column 3");
}

#[test]
fn message_of_a_list_element_error() {
    let e = MappingError::ListElement { source: Box::new(MappingError::ValueNotPresent), index: 0 };
    assert_eq!(e.message(), "List element 0: Could not unpack a non-optional value from null");
    let e = MappingError::ListElement {
        source: Box::new(MappingError::JsonValueNestedTooDeeply),
        index: 12345,
    };
    assert_eq!(e.message(), "List element 12345: JSON value nested too deeply");
    let e = MappingError::ListElement {
        source: Box::new(MappingError::JsonValueNestedTooDeeply),
        index: usize::MAX,
    };
    assert_eq!(e.message(), format!("List element {}: JSON value nested too deeply", usize::MAX));
}

#[test]
fn message_of_a_map_entry_error() {
    let e = MappingError::MapEntry {
        source: Box::new(MappingError::ListElement {
            source: Box::new(MappingError::FieldValueNotPresent { field_name: "v" }),
            index: 10,
        }),
    };
    assert_eq!(e.message(), "Map entry: List element 10: Could not unpack field 'v' from null");
}

#[test]
fn message_of_an_unknown_discriminant() {
    let e = MappingError::EnumDiscriminantNotFound { enum_name: "Color", discriminant: 0 };
    assert_eq!(e.message(), "Enum discriminant is not found: enum type = Color, discriminant = 0");
    let e = MappingError::EnumDiscriminantNotFound { enum_name: "Color", discriminant: -42 };
    assert_eq!(e.message(), "Enum discriminant is not found: enum type = Color, discriminant = -42");
    let e = MappingError::EnumDiscriminantNotFound { enum_name: "Color", discriminant: i32::MIN };
    assert_eq!(
        e.message(),
        "Enum discriminant is not found: enum type = Color, discriminant = -2147483648"
    );
    let e = MappingError::EnumDiscriminantNotFound { enum_name: "Color", discriminant: i32::MAX };
    assert_eq!(
        e.message(),
        "Enum discriminant is not found: enum type = Color, discriminant = 2147483647"
    );
}
