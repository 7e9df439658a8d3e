use protobuf_mapper::codegen::derive_enum::{EnumImpl, InputReceiver, VariantArm};
use protobuf_mapper::codegen::types::{Data, DeriveInput, DescriptorError, Paths, Style, Variant, VariantReceiver};
use protobuf_mapper::result::MappingError;
use protobuf_mapper::{ProtoEnum, ProtoEnumMeta, ProtoPack, ProtoUnpack};

#[derive(Debug, PartialEq)]
enum EnumProto {
    A,
    BBBB,
}

impl EnumProto {
    fn from_i32(v: i32) -> Option<Self> {
        match v {
            0 => Some(EnumProto::A),
            1 => Some(EnumProto::BBBB),
            _ => None,
        }
    }
}

impl From<EnumProto> for i32 {
    fn from(v: EnumProto) -> Self {
        match v {
            EnumProto::A => 0,
            EnumProto::BBBB => 1,
        }
    }
}

#[derive(Debug, PartialEq)]
enum EnumModel {
    A,
    B,
}

// What the generator emits for `EnumModel`, with the message enum `EnumProto` and the
// variant `B` renamed to `BBBB`.

impl ProtoEnumMeta for EnumModel {
    const NAME: &'static str = "EnumModel";

    fn get_variant_name(&self) -> &'static str {
        match *self {
            Self::A => "A",
            Self::B => "B",
        }
    }
}

impl ProtoPack<i32> for EnumModel {
    fn pack(self) -> Result<i32, MappingError> {
        let v = <Self as ProtoEnum<EnumProto>>::into_proto_enum(self);
        Ok(v.into())
    }
}

impl ProtoUnpack<i32> for EnumModel {
    fn unpack(v: i32) -> Result<Self, MappingError> {
        <Self as ProtoEnum<EnumProto>>::unpack_i32(v)
    }
}

impl ProtoEnum<EnumProto> for EnumModel {
    fn from_i32(v: i32) -> Option<Self> {
        EnumProto::from_i32(v).map(|p| match p {
            EnumProto::A => Self::A,
            EnumProto::BBBB => Self::B,
        })
    }

    fn into_proto_enum(self) -> EnumProto {
        match self {
            Self::A => EnumProto::A,
            Self::B => EnumProto::BBBB,
        }
    }

    fn unpack_enum(v: EnumProto) -> Self {
        match v {
            EnumProto::A => Self::A,
            EnumProto::BBBB => Self::B,
        }
    }
}

fn unit(ident: &str, rename: Option<&str>) -> Variant {
    Variant {
        style: Style::Unit,
        receiver: VariantReceiver {
            ident: ident.to_string(),
            rename: rename.map(|r| r.to_string()),
        },
    }
}

fn enum_input(variants: Vec<Variant>, targets: &[&str]) -> DeriveInput {
    DeriveInput {
        ident: "EnumModel".to_string(),
        data: Data::Enum { variants },
        message_type: Paths { paths: vec![] },
        proto_enum_type: Paths {
            paths: targets.iter().map(|t| t.to_string()).collect(),
        },
    }
}

fn arms() -> Vec<VariantArm> {
    vec![
        VariantArm { variant: "A".to_string(), proto_variant: "A".to_string() },
        VariantArm { variant: "B".to_string(), proto_variant: "BBBB".to_string() },
    ]
}

#[test]
fn derive_enum() {
    assert_eq!(EnumModel::from_i32(1), Some(EnumModel::B));
    assert_eq!(EnumModel::B.into_proto_enum(), EnumProto::BBBB);
    assert_eq!(EnumModel::B.get_variant_name(), "B");
    assert_eq!(EnumModel::NAME, "EnumModel");
}

#[test]
fn enum_round_trips_through_the_message_enum() {
    assert_eq!(EnumModel::unpack_enum(EnumModel::A.into_proto_enum()), EnumModel::A);
    assert_eq!(EnumModel::unpack_enum(EnumModel::B.into_proto_enum()), EnumModel::B);
}

#[test]
fn enum_packs_as_the_code_of_its_message_variant() {
    assert_eq!(ProtoPack::<i32>::pack(EnumModel::A).unwrap(), 0);
    assert_eq!(ProtoPack::<i32>::pack(EnumModel::B).unwrap(), 1);
    assert_eq!(<EnumModel as ProtoUnpack<i32>>::unpack(1).unwrap(), EnumModel::B);
}

#[test]
fn unpack_i32_accepts_the_known_codes() {
    assert_eq!(EnumModel::unpack_i32(0).unwrap(), EnumModel::A);
    assert_eq!(EnumModel::unpack_i32(1).unwrap(), EnumModel::B);
}

#[test]
fn unpack_i32_refuses_an_unknown_code() {
    let err = EnumModel::unpack_i32(7).err().unwrap();
    assert!(matches!(
        err,
        MappingError::EnumDiscriminantNotFound { enum_name: "EnumModel", discriminant: 7 }
    ));
    assert_eq!(
        err.message(),
        "Enum discriminant is not found: enum type = EnumModel, discriminant = 7"
    );
    let err = <EnumModel as ProtoUnpack<i32>>::unpack(-3).err().unwrap();
    assert!(matches!(
        err,
        MappingError::EnumDiscriminantNotFound { enum_name: "EnumModel", discriminant: -3 }
    ));
}

#[test]
fn derive_enum_emits_names_codec_and_mapping() {
    let input = enum_input(vec![unit("A", None), unit("B", Some("BBBB"))], &["EnumProto"]);
    let emitted = protobuf_mapper::derive_enum(&input).unwrap();
    assert_eq!(
        emitted,
        vec![
            EnumImpl::Meta {
                ident: "EnumModel".to_string(),
                name: "EnumModel".to_string(),
                variant_names: vec!["A".to_string(), "B".to_string()],
            },
            EnumImpl::PackI32 {
                ident: "EnumModel".to_string(),
                proto_enum_type: "EnumProto".to_string(),
            },
            EnumImpl::UnpackI32 {
                ident: "EnumModel".to_string(),
                proto_enum_type: "EnumProto".to_string(),
            },
            EnumImpl::ProtoEnum {
                ident: "EnumModel".to_string(),
                proto_enum_type: "EnumProto".to_string(),
                arms: arms(),
            },
        ]
    );
}

#[test]
fn to_tokens_keeps_what_was_emitted_before() {
    let input = enum_input(vec![unit("A", None)], &["EnumProto"]);
    let receiver = InputReceiver::from_derive_input(&input).unwrap();
    let mut tokens = Vec::new();
    receiver.to_tokens(&mut tokens);
    assert_eq!(tokens.len(), 4);
    let first = tokens.clone();
    receiver.to_tokens(&mut tokens);
    assert_eq!(tokens.len(), 8);
    assert_eq!(&tokens[..4], &first[..]);
    assert_eq!(&tokens[4..], &first[..]);
}

#[test]
fn emitted_mapping_maps_variants_by_name() {
    let input = enum_input(vec![unit("A", None), unit("B", Some("BBBB"))], &["EnumProto"]);
    let receiver = InputReceiver::from_derive_input(&input).unwrap();
    assert_eq!(receiver.ident(), "EnumModel");
    assert_eq!(receiver.variants().len(), 2);
    assert_eq!(receiver.proto_enum_type().paths, vec!["EnumProto".to_string()]);
    assert_eq!(receiver.into_proto_enum("A"), Some("A".to_string()));
    assert_eq!(receiver.into_proto_enum("B"), Some("BBBB".to_string()));
    assert_eq!(receiver.into_proto_enum("BBBB"), None);
    assert_eq!(receiver.unpack_enum("BBBB"), Some("B".to_string()));
    assert_eq!(receiver.unpack_enum("A"), Some("A".to_string()));
    assert_eq!(receiver.unpack_enum("B"), None);
    for variant in ["A", "B"] {
        let there = receiver.into_proto_enum(variant).unwrap();
        assert_eq!(receiver.unpack_enum(&there), Some(variant.to_string()));
    }
}

#[test]
fn derive_enum_refuses_a_struct() {
    let input = DeriveInput {
        ident: "Model".to_string(),
        data: Data::Struct { style: Style::Named, fields: vec![] },
        message_type: Paths { paths: vec![] },
        proto_enum_type: Paths { paths: vec!["EnumProto".to_string()] },
    };
    assert_eq!(protobuf_mapper::derive_enum(&input), Err(DescriptorError::UnsupportedShape));
}

#[test]
fn derive_enum_refuses_a_variant_with_fields() {
    let mut with_fields = unit("B", None);
    with_fields.style = Style::Tuple;
    let input = enum_input(vec![unit("A", None), with_fields], &["EnumProto"]);
    assert_eq!(protobuf_mapper::derive_enum(&input), Err(DescriptorError::UnsupportedShape));
}

#[test]
fn derive_enum_refuses_an_enum_without_target() {
    let input = enum_input(vec![unit("A", None)], &[]);
    assert_eq!(protobuf_mapper::derive_enum(&input), Err(DescriptorError::MissingTargetType));
}

#[test]
fn derive_enum_refuses_two_variants_for_one_message_variant() {
    let input = enum_input(
        vec![unit("A", None), unit("B", Some("BBBB")), unit("C", Some("BBBB"))],
        &["EnumProto"],
    );
    assert_eq!(
        protobuf_mapper::derive_enum(&input),
        Err(DescriptorError::AmbiguousName { index: 2 })
    );
    let input = enum_input(vec![unit("A", None), unit("A", Some("Other"))], &["EnumProto"]);
    assert_eq!(
        protobuf_mapper::derive_enum(&input),
        Err(DescriptorError::AmbiguousName { index: 1 })
    );
}
