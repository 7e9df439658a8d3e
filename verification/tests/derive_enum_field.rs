use protobuf_mapper::codegen::derive_struct::{Conversion, FieldMapping};
use protobuf_mapper::codegen::types::{Data, DeriveInput, FieldReceiver, Paths, Style};
use protobuf_mapper::result::MappingError;
use protobuf_mapper::{derive_pack, derive_unpack, ProtoEnum, ProtoEnumMeta, ProtoPack, ProtoUnpack};

#[derive(Debug, PartialEq)]
enum EnumProto {
    A,
    BBBB,
}

impl EnumProto {
    fn from_i32(v: i32) -> Option<Self> {
        match v {
            0 => Some(EnumProto::A),
            1 => Some(EnumProto::BBBB),
            _ => None,
        }
    }
}

impl Default for EnumProto {
    fn default() -> Self {
        EnumProto::A
    }
}

impl From<EnumProto> for i32 {
    fn from(v: EnumProto) -> Self {
        match v {
            EnumProto::A => 0,
            EnumProto::BBBB => 1,
        }
    }
}

#[derive(Debug, PartialEq)]
enum EnumModel {
    A,
    B,
}

impl ProtoEnumMeta for EnumModel {
    const NAME: &'static str = "EnumModel";

    fn get_variant_name(&self) -> &'static str {
        match *self {
            Self::A => "A",
            Self::B => "B",
        }
    }
}

impl ProtoEnum<EnumProto> for EnumModel {
    fn from_i32(v: i32) -> Option<Self> {
        EnumProto::from_i32(v).map(|p| match p {
            EnumProto::A => Self::A,
            EnumProto::BBBB => Self::B,
        })
    }

    fn into_proto_enum(self) -> EnumProto {
        match self {
            Self::A => EnumProto::A,
            Self::B => EnumProto::BBBB,
        }
    }

    fn unpack_enum(v: EnumProto) -> Self {
        match v {
            EnumProto::A => Self::A,
            EnumProto::BBBB => Self::B,
        }
    }
}

struct Message {
    f: i32,
}

impl Message {
    fn set_f(&mut self, v: EnumProto) {
        self.f = v.into();
    }

    fn f(&self) -> EnumProto {
        EnumProto::from_i32(self.f).unwrap_or_default()
    }
}

#[derive(Debug, PartialEq)]
struct Model {
    f: EnumModel,
}

// What the generator emits for `Model`, whose field `f` is marked as an enum.

impl ProtoPack<Message> for Model {
    fn pack(self) -> Result<Message, MappingError> {
        let value = self;
        Ok({
            let mut packed = Message { f: Default::default() };
            packed.set_f(<EnumModel as ProtoEnum<_>>::into_proto_enum(value.f));
            packed
        })
    }
}

impl ProtoUnpack<Message> for Model {
    fn unpack(value: Message) -> Result<Model, MappingError> {
        let f = <EnumModel as ProtoEnum<_>>::unpack_enum(value.f());
        Ok(Model { f })
    }
}

fn model_input() -> DeriveInput {
    DeriveInput {
        ident: "Model".to_string(),
        data: Data::Struct {
            style: Style::Named,
            fields: vec![FieldReceiver {
                ident: Some("f".to_string()),
                ty: "EnumModel".to_string(),
                rename: None,
                map_fn: None,
                proto_enum: true,
                skip_pack: false,
            }],
        },
        message_type: Paths { paths: vec!["Message".to_string()] },
        proto_enum_type: Paths { paths: vec![] },
    }
}

#[test]
fn derive_enum_field() {
    let packed: Message = Model { f: EnumModel::B }.pack().unwrap();
    let _: Result<Model, MappingError> = ProtoUnpack::unpack(packed);
}

#[test]
fn enum_field_goes_through_the_accessors() {
    let packed: Message = Model { f: EnumModel::B }.pack().unwrap();
    assert_eq!(packed.f, 1);
    let unpacked: Model = ProtoUnpack::unpack(packed).unwrap();
    assert_eq!(unpacked, Model { f: EnumModel::B });
    assert_eq!(EnumModel::B.get_variant_name(), "B");
}

#[test]
fn enum_field_with_an_unknown_code_unpacks_as_the_default() {
    let unpacked: Model = ProtoUnpack::unpack(Message { f: 9 }).unwrap();
    assert_eq!(unpacked, Model { f: EnumModel::A });
}

#[test]
fn derive_pack_emits_the_setter_of_an_enum_field() {
    let emitted = derive_pack(&model_input()).unwrap();
    assert_eq!(emitted.len(), 2);
    assert_eq!(
        emitted[0].fields,
        vec![FieldMapping {
            field: "f".to_string(),
            ty: "EnumModel".to_string(),
            wire_field: "f".to_string(),
            conversion: Conversion::ProtoEnum { accessor: "set_f".to_string() },
        }]
    );
    assert_eq!(emitted[1].fields, emitted[0].fields);
}

#[test]
fn derive_unpack_emits_the_getter_of_an_enum_field() {
    let mut input = model_input();
    if let Data::Struct { fields, .. } = &mut input.data {
        fields[0].rename = Some("g".to_string());
    }
    let emitted = derive_unpack(&input).unwrap();
    assert_eq!(
        emitted[0].fields,
        vec![FieldMapping {
            field: "f".to_string(),
            ty: "EnumModel".to_string(),
            wire_field: "g".to_string(),
            conversion: Conversion::ProtoEnum { accessor: "g".to_string() },
        }]
    );
    let emitted = derive_pack(&input).unwrap();
    assert_eq!(
        emitted[0].fields,
        vec![FieldMapping {
            field: "f".to_string(),
            ty: "EnumModel".to_string(),
            wire_field: "g".to_string(),
            conversion: Conversion::ProtoEnum { accessor: "set_g".to_string() },
        }]
    );
}

// The same model with its field renamed: the message has the field `g`, with the getter
// `g` and the setter `set_g`.

struct RenamedMessage {
    g: i32,
}

impl RenamedMessage {
    fn set_g(&mut self, v: EnumProto) {
        self.g = v.into();
    }

    fn g(&self) -> EnumProto {
        EnumProto::from_i32(self.g).unwrap_or_default()
    }
}

impl ProtoPack<RenamedMessage> for Model {
    fn pack(self) -> Result<RenamedMessage, MappingError> {
        let value = self;
        Ok({
            let mut packed = RenamedMessage { g: Default::default() };
            packed.set_g(<EnumModel as ProtoEnum<_>>::into_proto_enum(value.f));
            packed
        })
    }
}

impl ProtoUnpack<RenamedMessage> for Model {
    fn unpack(value: RenamedMessage) -> Result<Model, MappingError> {
        let f = <EnumModel as ProtoEnum<_>>::unpack_enum(value.g());
        Ok(Model { f })
    }
}

#[test]
fn renamed_enum_field_goes_through_the_accessors_of_the_message_field() {
    let packed: RenamedMessage = Model { f: EnumModel::B }.pack().unwrap();
    assert_eq!(packed.g, 1);
    let unpacked: Model = ProtoUnpack::unpack(packed).unwrap();
    assert_eq!(unpacked, Model { f: EnumModel::B });
}
