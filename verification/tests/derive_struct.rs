use protobuf_mapper::codegen::derive_struct::{Conversion, FieldMapping, InputReceiver, InputType};
use protobuf_mapper::codegen::types::{Data, DeriveInput, DescriptorError, FieldReceiver, Paths, Style};
use protobuf_mapper::codegen::types::{Variant, VariantReceiver};
use protobuf_mapper::{derive_pack, derive_unpack};

fn field(ident: &str) -> FieldReceiver {
    FieldReceiver {
        ident: Some(ident.to_string()),
        ty: "i32".to_string(),
        rename: None,
        map_fn: None,
        proto_enum: false,
        skip_pack: false,
    }
}

fn input(fields: Vec<FieldReceiver>, targets: &[&str]) -> DeriveInput {
    DeriveInput {
        ident: "Model".to_string(),
        data: Data::Struct { style: Style::Named, fields },
        message_type: Paths {
            paths: targets.iter().map(|t| t.to_string()).collect(),
        },
        proto_enum_type: Paths { paths: vec![] },
    }
}

fn names(fields: &[FieldMapping]) -> Vec<&str> {
    fields.iter().map(|f| f.field.as_str()).collect()
}

#[test]
fn input_type_defaults_to_pack() {
    assert_eq!(InputType::default(), InputType::Pack);
}

#[test]
fn receiver_keeps_what_was_declared() {
    let mut renamed = field("b");
    renamed.rename = Some("_b".to_string());
    let declared = input(vec![field("a"), renamed.clone()], &["Message", "Message2"]);
    let receiver = InputReceiver::from_derive_input(&declared).unwrap();
    assert_eq!(receiver.input_type(), InputType::Pack);
    assert_eq!(receiver.ident(), "Model");
    assert_eq!(receiver.fields(), &vec![field("a"), renamed]);
    assert_eq!(
        receiver.message_type().paths,
        vec!["Message".to_string(), "Message2".to_string()]
    );
    let receiver = receiver.to_unpack();
    assert_eq!(receiver.input_type(), InputType::Unpack);
    assert_eq!(receiver.ident(), "Model");
    assert_eq!(receiver.fields().len(), 2);
    assert_eq!(receiver.message_type().paths.len(), 2);
}

#[test]
fn skipped_field_is_left_out_when_packing_only() {
    let mut skipped = field("b");
    skipped.skip_pack = true;
    let declared = input(vec![field("a"), skipped, field("c")], &["Message"]);
    let packed = derive_pack(&declared).unwrap();
    assert_eq!(names(&packed[0].fields), vec!["a", "c"]);
    assert_eq!(names(&packed[1].fields), vec!["a", "c"]);
    let unpacked = derive_unpack(&declared).unwrap();
    assert_eq!(names(&unpacked[0].fields), vec!["a", "b", "c"]);
    assert_eq!(names(&unpacked[1].fields), vec!["a", "b", "c"]);
}

#[test]
fn a_skipped_field_leaves_the_rest_of_the_message_at_its_default() {
    let mut skipped = field("b");
    skipped.skip_pack = true;
    let declared = input(vec![field("a"), skipped], &["Message"]);
    assert!(derive_pack(&declared).unwrap().iter().all(|item| item.rest_default));
    assert!(derive_unpack(&declared).unwrap().iter().all(|item| !item.rest_default));
    let declared = input(vec![field("a"), field("b")], &["Message"]);
    assert!(derive_pack(&declared).unwrap().iter().all(|item| !item.rest_default));
    let declared = input(vec![], &["Message"]);
    assert!(derive_pack(&declared).unwrap().iter().all(|item| !item.rest_default));
}

#[derive(Debug, Default, PartialEq)]
struct Sparse {
    a: i32,
    b: i32,
}

struct Dense {
    a: i32,
    b: i32,
}

// What the generator emits for `Dense` whose field `b` is left out when packing.

impl protobuf_mapper::ProtoPack<Sparse> for Dense {
    fn pack(self) -> Result<Sparse, protobuf_mapper::result::MappingError> {
        let value = self;
        Ok(Sparse {
            a: protobuf_mapper::ProtoPack::pack(value.a)?,
            ..Default::default()
        })
    }
}

#[test]
fn a_skipped_field_is_packed_as_the_default() {
    let dense = Dense { a: 4, b: 9 };
    assert_eq!(dense.b, 9);
    let packed: Sparse = protobuf_mapper::ProtoPack::pack(dense).unwrap();
    assert_eq!(packed, Sparse { a: 4, b: 0 });
}

#[test]
fn all_fields_skipped_packs_nothing() {
    let mut a = field("a");
    a.skip_pack = true;
    let declared = input(vec![a], &["Message"]);
    let packed = derive_pack(&declared).unwrap();
    assert_eq!(packed.len(), 2);
    assert!(packed[0].fields.is_empty());
    let declared = input(vec![], &["Message"]);
    assert!(derive_pack(&declared).unwrap()[0].fields.is_empty());
    assert!(derive_unpack(&declared).unwrap()[1].fields.is_empty());
}

#[test]
fn map_fn_comes_before_the_enum_marker() {
    let mut both = field("a");
    both.map_fn = Some("path::to::convert".to_string());
    both.proto_enum = true;
    let declared = input(vec![both], &["Message"]);
    let expected = Conversion::MapFn { map_fn: "path::to::convert".to_string() };
    assert_eq!(derive_pack(&declared).unwrap()[0].fields[0].conversion, expected);
    assert_eq!(derive_unpack(&declared).unwrap()[0].fields[0].conversion, expected);
}

#[test]
fn to_tokens_appends_two_impls_for_each_message_type() {
    let declared = input(vec![field("a")], &["M1", "M2", "M3"]);
    let receiver = InputReceiver::from_derive_input(&declared).unwrap();
    let mut tokens = Vec::new();
    receiver.to_tokens(&mut tokens);
    let heads: Vec<(&str, bool)> = tokens
        .iter()
        .map(|t| (t.message_type.as_str(), t.outer_option))
        .collect();
    assert_eq!(
        heads,
        vec![("M1", false), ("M1", true), ("M2", false), ("M2", true), ("M3", false), ("M3", true)]
    );
    let before = tokens.clone();
    receiver.to_unpack().to_tokens(&mut tokens);
    assert_eq!(tokens.len(), 12);
    assert_eq!(&tokens[..6], &before[..]);
    assert!(tokens[6..].iter().all(|t| t.direction == InputType::Unpack));
    assert!(tokens[..6].iter().all(|t| t.direction == InputType::Pack));
}

#[test]
fn a_tuple_struct_is_refused() {
    let mut declared = input(vec![field("a")], &["Message"]);
    declared.data = Data::Struct { style: Style::Tuple, fields: vec![field("a")] };
    assert_eq!(derive_pack(&declared), Err(DescriptorError::UnsupportedShape));
    declared.data = Data::Struct { style: Style::Unit, fields: vec![] };
    assert_eq!(derive_unpack(&declared), Err(DescriptorError::UnsupportedShape));
}

#[test]
fn a_field_without_a_name_is_refused() {
    let mut unnamed = field("a");
    unnamed.ident = None;
    let declared = input(vec![field("b"), unnamed], &["Message"]);
    assert_eq!(derive_pack(&declared), Err(DescriptorError::UnsupportedShape));
}

#[test]
fn an_enum_is_refused() {
    let mut declared = input(vec![], &["Message"]);
    declared.data = Data::Enum {
        variants: vec![Variant {
            style: Style::Unit,
            receiver: VariantReceiver { ident: "A".to_string(), rename: None },
        }],
    };
    assert_eq!(derive_pack(&declared), Err(DescriptorError::UnsupportedShape));
    assert_eq!(derive_unpack(&declared), Err(DescriptorError::UnsupportedShape));
}

#[test]
fn a_struct_without_a_message_type_is_refused() {
    let declared = input(vec![field("a")], &[]);
    assert_eq!(derive_pack(&declared), Err(DescriptorError::MissingTargetType));
    assert_eq!(derive_unpack(&declared), Err(DescriptorError::MissingTargetType));
    let mut tuple = declared.clone();
    tuple.data = Data::Struct { style: Style::Tuple, fields: vec![] };
    assert_eq!(derive_pack(&tuple), Err(DescriptorError::UnsupportedShape));
}

#[test]
fn two_fields_for_one_message_field_are_refused() {
    let mut renamed = field("c");
    renamed.rename = Some("a".to_string());
    let declared = input(vec![field("a"), field("b"), renamed.clone()], &["Message"]);
    assert_eq!(derive_pack(&declared), Err(DescriptorError::AmbiguousName { index: 2 }));
    assert_eq!(derive_unpack(&declared), Err(DescriptorError::AmbiguousName { index: 2 }));
    let declared = input(vec![field("a"), field("a")], &["Message"]);
    assert_eq!(derive_pack(&declared), Err(DescriptorError::AmbiguousName { index: 1 }));
}

#[test]
fn a_skipped_field_may_share_a_message_field() {
    let mut renamed = field("c");
    renamed.rename = Some("a".to_string());
    renamed.skip_pack = true;
    let declared = input(vec![field("a"), renamed], &["Message"]);
    let packed = derive_pack(&declared).unwrap();
    assert_eq!(names(&packed[0].fields), vec!["a"]);
    let unpacked = derive_unpack(&declared).unwrap();
    let wire_fields: Vec<&str> = unpacked[0].fields.iter().map(|f| f.wire_field.as_str()).collect();
    assert_eq!(wire_fields, vec!["a", "a"]);
}
