//! What is emitted for a struct: for each message type, how each field is converted.

use vstd::prelude::*;

use crate::codegen::types::{clone_text, clone_texts, is_new_name, text_view, text_views};
use crate::codegen::types::{Data, DeriveInput, DescriptorError, FieldReceiver, Paths, Style};

verus! {

/// The direction that is emitted for a struct.
#[derive(Clone, Copy, Debug, PartialEq, Eq, Structural)]
pub enum InputType {
    /// From the model to the message.
    Pack,
    /// From the message to the model.
    Unpack,
}

impl Default for InputType {
    fn default() -> (r: InputType)
        ensures
            r == InputType::Pack,
    {
        InputType::Pack
    }
}

/// One field of a mapped struct: its name and type, and what its attributes say.
pub struct FieldDescriptor {
    pub ident: Seq<char>,
    pub ty: Seq<char>,
    /// The name of the message field, where it differs from the model's.
    pub rename: Option<Seq<char>>,
    /// A function that is applied to the value in place of the ordinary conversion.
    pub map_fn: Option<Seq<char>>,
    /// The field is an enum that the message reads and writes through accessors.
    pub proto_enum: bool,
    /// The field is left out when the model is packed.
    pub skip_pack: bool,
}

/// A mapped struct: the direction to emit, its name, its fields in the order of their
/// declaration, and the message types it is mapped to.
pub struct StructDescriptor {
    pub input_type: InputType,
    pub ident: Seq<char>,
    pub fields: Seq<FieldDescriptor>,
    pub targets: Seq<Seq<char>>,
}

/// How the value of one field is converted.
pub enum ConversionView {
    /// The function `map_fn` is applied to the value.
    MapFn { map_fn: Seq<char> },
    /// The value goes through the enum mapping; the message is written with the setter
    /// `accessor` when packing, and read with the getter `accessor` when unpacking. The
    /// getter has the name of the message field, the setter that name behind `set_`.
    ProtoEnum { accessor: Seq<char> },
    /// The value is packed with the `pack` of its type, or unpacked with
    /// `convert::unpack_field` under the name of the field, which reports an absent value
    /// with that name.
    Convert,
}

/// What is emitted for one field: the field of the model, its type, the field of the
/// message, and the conversion between the two.
pub struct FieldMappingView {
    pub field: Seq<char>,
    pub ty: Seq<char>,
    pub wire_field: Seq<char>,
    pub conversion: ConversionView,
}

/// One emitted implementation: the conversion, in the direction `direction`, between the
/// model `ident` and the message type `message_type`, or an optional value of that type
/// where `outer_option` is set. Where `rest_default` is set, the message has fields that
/// no mapping fills, and they are left at their defaults.
pub struct MappingImplView {
    pub direction: InputType,
    pub ident: Seq<char>,
    pub message_type: Seq<char>,
    pub outer_option: bool,
    pub fields: Seq<FieldMappingView>,
    pub rest_default: bool,
}

/// What comes before a message field's name in the name of its setter.
pub open spec fn setter_prefix() -> Seq<char> {
    "set_"@
}

impl FieldDescriptor {
    /// The name of the field on the message side.
    pub open spec fn wire_field(self) -> Seq<char> {
        match self.rename {
            Some(name) => name,
            None => self.ident,
        }
    }

    /// What is emitted for the field when the model is packed.
    pub open spec fn pack_mapping(self) -> FieldMappingView {
        FieldMappingView {
            field: self.ident,
            ty: self.ty,
            wire_field: self.wire_field(),
            conversion: match self.map_fn {
                Some(map_fn) => ConversionView::MapFn { map_fn },
                None => if self.proto_enum {
                    ConversionView::ProtoEnum { accessor: setter_prefix() + self.wire_field() }
                } else {
                    ConversionView::Convert
                },
            },
        }
    }

    /// What is emitted for the field when the message is unpacked.
    pub open spec fn unpack_mapping(self) -> FieldMappingView {
        FieldMappingView {
            field: self.ident,
            ty: self.ty,
            wire_field: self.wire_field(),
            conversion: match self.map_fn {
                Some(map_fn) => ConversionView::MapFn { map_fn },
                None => if self.proto_enum {
                    ConversionView::ProtoEnum { accessor: self.wire_field() }
                } else {
                    ConversionView::Convert
                },
            },
        }
    }
}

/// What is emitted for the fields when the model is packed: one mapping for each field
/// that is not left out, in the order of the fields.
pub open spec fn pack_mappings(fields: Seq<FieldDescriptor>) -> Seq<FieldMappingView>
    decreases fields.len(),
{
    if fields.len() == 0 {
        Seq::empty()
    } else if fields.last().skip_pack {
        pack_mappings(fields.drop_last())
    } else {
        pack_mappings(fields.drop_last()).push(fields.last().pack_mapping())
    }
}

/// What is emitted for the fields when the message is unpacked: one mapping for each
/// field, in the order of the fields.
pub open spec fn unpack_mappings(fields: Seq<FieldDescriptor>) -> Seq<FieldMappingView> {
    Seq::new(fields.len(), |i: int| fields[i].unpack_mapping())
}

impl StructDescriptor {
    /// The names of the fields.
    pub open spec fn idents(self) -> Seq<Seq<char>> {
        Seq::new(self.fields.len(), |i: int| self.fields[i].ident)
    }

    /// The field at `index` is packed into a message field that a field before it is
    /// packed into.
    pub open spec fn shares_wire_field(self, index: int) -> bool {
        !self.fields[index].skip_pack && exists|i: int|
            0 <= i < index && !(#[trigger] self.fields[i]).skip_pack && self.fields[i].wire_field()
                == self.fields[index].wire_field()
    }

    /// The field at `index` has the name of a field before it, or is packed into the
    /// message field of one.
    pub open spec fn is_ambiguous_field(self, index: int) -> bool {
        !is_new_name(self.idents(), index) || self.shares_wire_field(index)
    }

    /// A target is named, no two fields share a name, and no two fields are packed into
    /// the same field of the message.
    pub open spec fn well_formed(self) -> bool {
        &&& self.targets.len() > 0
        &&& forall|j: int| 0 <= j < self.fields.len() ==> !self.is_ambiguous_field(j)
    }

    /// Packing leaves a field of the message at its default: some field of the model is
    /// left out.
    pub open spec fn leaves_rest(self) -> bool {
        self.input_type == InputType::Pack && exists|i: int|
            0 <= i < self.fields.len() && (#[trigger] self.fields[i]).skip_pack
    }

    /// What is emitted for the fields, in the direction of the descriptor.
    pub open spec fn mappings(self) -> Seq<FieldMappingView> {
        match self.input_type {
            InputType::Pack => pack_mappings(self.fields),
            InputType::Unpack => unpack_mappings(self.fields),
        }
    }

    /// The implementations that are emitted for the struct: for each target in turn, the
    /// conversion with the message type itself and then the one with an optional value of
    /// it.
    pub open spec fn impls(self) -> Seq<MappingImplView> {
        Seq::new(
            2 * self.targets.len(),
            |i: int|
                MappingImplView {
                    direction: self.input_type,
                    ident: self.ident,
                    message_type: self.targets[i / 2],
                    outer_option: i % 2 == 1,
                    fields: self.mappings(),
                    rest_default: self.leaves_rest(),
                },
        )
    }
}

/// How the value of one field is converted.
#[derive(Clone, Debug, PartialEq, Eq)]
pub enum Conversion {
    MapFn { map_fn: String },
    ProtoEnum { accessor: String },
    Convert,
}

impl View for Conversion {
    type V = ConversionView;

    open spec fn view(&self) -> ConversionView {
        match self {
            Conversion::MapFn { map_fn } => ConversionView::MapFn { map_fn: map_fn@ },
            Conversion::ProtoEnum { accessor } => ConversionView::ProtoEnum { accessor: accessor@ },
            Conversion::Convert => ConversionView::Convert,
        }
    }
}

/// What is emitted for one field.
#[derive(Clone, Debug, PartialEq, Eq)]
pub struct FieldMapping {
    pub field: String,
    pub ty: String,
    pub wire_field: String,
    pub conversion: Conversion,
}

impl View for FieldMapping {
    type V = FieldMappingView;

    open spec fn view(&self) -> FieldMappingView {
        FieldMappingView {
            field: self.field@,
            ty: self.ty@,
            wire_field: self.wire_field@,
            conversion: self.conversion@,
        }
    }
}

/// What each of a list of field mappings holds.
pub open spec fn field_mapping_views(mappings: Seq<FieldMapping>) -> Seq<FieldMappingView> {
    Seq::new(mappings.len(), |i: int| mappings[i]@)
}

/// One emitted implementation.
#[derive(Clone, Debug, PartialEq, Eq)]
pub struct MappingImpl {
    pub direction: InputType,
    pub ident: String,
    pub message_type: String,
    pub outer_option: bool,
    pub fields: Vec<FieldMapping>,
    pub rest_default: bool,
}

impl View for MappingImpl {
    type V = MappingImplView;

    open spec fn view(&self) -> MappingImplView {
        MappingImplView {
            direction: self.direction,
            ident: self.ident@,
            message_type: self.message_type@,
            outer_option: self.outer_option,
            fields: field_mapping_views(self.fields@),
            rest_default: self.rest_default,
        }
    }
}

/// What each of a list of emitted implementations holds.
pub open spec fn mapping_impl_views(impls: Seq<MappingImpl>) -> Seq<MappingImplView> {
    Seq::new(impls.len(), |i: int| impls[i]@)
}

/// What a declared field says of the mapping. A field without a name has the empty name.
pub open spec fn field_descriptor(f: FieldReceiver) -> FieldDescriptor {
    FieldDescriptor {
        ident: match f.ident {
            Some(name) => name@,
            None => Seq::empty(),
        },
        ty: f.ty@,
        rename: text_view(f.rename),
        map_fn: text_view(f.map_fn),
        proto_enum: f.proto_enum,
        skip_pack: f.skip_pack,
    }
}

/// What each of a list of declared fields says of the mapping.
pub open spec fn field_descriptors(fields: Seq<FieldReceiver>) -> Seq<FieldDescriptor> {
    Seq::new(fields.len(), |i: int| field_descriptor(fields[i]))
}

/// The descriptor that a declaration asks for, if it is accepted. It is for packing.
pub open spec fn struct_descriptor(input: DeriveInput) -> StructDescriptor {
    StructDescriptor {
        input_type: InputType::Pack,
        ident: input.ident@,
        fields: match input.data {
            Data::Struct { fields, .. } => field_descriptors(fields@),
            Data::Enum { .. } => Seq::empty(),
        },
        targets: text_views(input.message_type.paths@),
    }
}

/// The declaration is a struct whose fields have names.
pub open spec fn is_named_struct(input: DeriveInput) -> bool {
    &&& input.data matches Data::Struct { style, fields }
    &&& style == Style::Named
    &&& forall|i: int| 0 <= i < fields@.len() ==> (#[trigger] fields@[i]).ident is Some
}

/// The answer to a declaration: the descriptor where it is accepted, and else the first
/// reason to refuse it.
pub open spec fn struct_input_result(
    input: DeriveInput,
    r: Result<StructDescriptor, DescriptorError>,
) -> bool {
    let d = struct_descriptor(input);
    if !is_named_struct(input) {
        r == Err::<StructDescriptor, DescriptorError>(DescriptorError::UnsupportedShape)
    } else if d.targets.len() == 0 {
        r == Err::<StructDescriptor, DescriptorError>(DescriptorError::MissingTargetType)
    } else {
        match r {
            Ok(accepted) => accepted == d && d.well_formed(),
            Err(DescriptorError::AmbiguousName { index }) => {
                &&& index < d.fields.len()
                &&& d.is_ambiguous_field(index as int)
                &&& forall|j: int| 0 <= j < index ==> !d.is_ambiguous_field(j)
            },
            Err(_) => false,
        }
    }
}

/// Copies an optional text.
fn clone_optional_text(text: &Option<String>) -> (r: Option<String>)
    ensures
        text_view(r) == text_view(*text),
{
    match text {
        Some(t) => Some(clone_text(t)),
        None => None,
    }
}

/// Copies a declared field.
fn clone_field(f: &FieldReceiver) -> (r: FieldReceiver)
    ensures
        field_descriptor(r) == field_descriptor(*f),
        r.ident is Some == f.ident is Some,
{
    FieldReceiver {
        ident: clone_optional_text(&f.ident),
        ty: clone_text(&f.ty),
        rename: clone_optional_text(&f.rename),
        map_fn: clone_optional_text(&f.map_fn),
        proto_enum: f.proto_enum,
        skip_pack: f.skip_pack,
    }
}

/// The name of a field.
fn field_ident(f: &FieldReceiver) -> (r: &String)
    requires
        f.ident is Some,
    ensures
        r@ == field_descriptor(*f).ident,
{
    match &f.ident {
        Some(name) => name,
        None => unreached(),
    }
}

/// The name of a field on the message side.
fn wire_field(f: &FieldReceiver) -> (r: &String)
    requires
        f.ident is Some,
    ensures
        r@ == field_descriptor(*f).wire_field(),
{
    match &f.rename {
        Some(name) => name,
        None => field_ident(f),
    }
}

/// What is emitted for a field when the model is packed.
fn pack_mapping(f: &FieldReceiver) -> (r: FieldMapping)
    requires
        f.ident is Some,
    ensures
        r@ == field_descriptor(*f).pack_mapping(),
{
    let conversion = match &f.map_fn {
        Some(map_fn) => Conversion::MapFn { map_fn: clone_text(map_fn) },
        None => if f.proto_enum {
            let mut accessor = "set_".to_owned();
            accessor.append(wire_field(f).as_str());
            Conversion::ProtoEnum { accessor }
        } else {
            Conversion::Convert
        },
    };
    FieldMapping {
        field: clone_text(field_ident(f)),
        ty: clone_text(&f.ty),
        wire_field: clone_text(wire_field(f)),
        conversion,
    }
}

/// What is emitted for a field when the message is unpacked.
fn unpack_mapping(f: &FieldReceiver) -> (r: FieldMapping)
    requires
        f.ident is Some,
    ensures
        r@ == field_descriptor(*f).unpack_mapping(),
{
    let conversion = match &f.map_fn {
        Some(map_fn) => Conversion::MapFn { map_fn: clone_text(map_fn) },
        None => if f.proto_enum {
            Conversion::ProtoEnum { accessor: clone_text(wire_field(f)) }
        } else {
            Conversion::Convert
        },
    };
    FieldMapping {
        field: clone_text(field_ident(f)),
        ty: clone_text(&f.ty),
        wire_field: clone_text(wire_field(f)),
        conversion,
    }
}

/// The descriptor of a mapped struct, checked.
#[derive(Debug)]
pub struct InputReceiver {
    input_type: InputType,
    ident: String,
    fields: Vec<FieldReceiver>,
    message_type: Paths,
}

impl View for InputReceiver {
    type V = StructDescriptor;

    closed spec fn view(&self) -> StructDescriptor {
        StructDescriptor {
            input_type: self.input_type,
            ident: self.ident@,
            fields: field_descriptors(self.fields@),
            targets: text_views(self.message_type.paths@),
        }
    }
}

impl InputReceiver {
    #[verifier::type_invariant]
    spec fn valid(self) -> bool {
        &&& self@.well_formed()
        &&& forall|i: int| 0 <= i < self.fields@.len() ==> (#[trigger] self.fields@[i]).ident is Some
    }

    /// Checks a declaration and makes its descriptor, for packing.
    pub fn from_derive_input(input: &DeriveInput) -> (r: Result<InputReceiver, DescriptorError>)
        ensures
            struct_input_result(
                *input,
                match r {
                    Ok(receiver) => Ok(receiver@),
                    Err(e) => Err(e),
                },
            ),
    {
        let declared = match &input.data {
            Data::Struct { style, fields } => {
                match style {
                    Style::Named => {},
                    _ => {
                        return Err(DescriptorError::UnsupportedShape);
                    },
                }
                fields
            },
            Data::Enum { .. } => {
                return Err(DescriptorError::UnsupportedShape);
            },
        };
        let ghost d = struct_descriptor(*input);
        let mut fields: Vec<FieldReceiver> = Vec::new();
        let mut i: usize = 0;
        while i < declared.len()
            invariant
                i <= declared.len(),
                input.data == (Data::Struct { style: Style::Named, fields: *declared }),
                fields@.len() == i,
                forall|j: int| 0 <= j < i ==> (#[trigger] declared@[j]).ident is Some,
                forall|j: int| 0 <= j < i ==> (#[trigger] fields@[j]).ident is Some,
                forall|j: int|
                    0 <= j < i ==> field_descriptor(#[trigger] fields@[j]) == field_descriptor(
                        declared@[j],
                    ),
            decreases declared.len() - i,
        {
            if declared[i].ident.is_none() {
                return Err(DescriptorError::UnsupportedShape);
            }
            fields.push(clone_field(&declared[i]));
            i = i + 1;
        }
        if input.message_type.paths.len() == 0 {
            return Err(DescriptorError::MissingTargetType);
        }
        assert(field_descriptors(fields@) =~= d.fields);
        let mut j: usize = 0;
        while j < fields.len()
            invariant
                j <= fields.len(),
                is_named_struct(*input),
                d == struct_descriptor(*input),
                d.targets.len() > 0,
                field_descriptors(fields@) == d.fields,
                forall|k: int| 0 <= k < fields@.len() ==> (#[trigger] fields@[k]).ident is Some,
                forall|k: int| 0 <= k < j ==> !d.is_ambiguous_field(k),
            decreases fields.len() - j,
        {
            let mut i: usize = 0;
            while i < j
                invariant
                    i <= j < fields.len(),
                    is_named_struct(*input),
                    d == struct_descriptor(*input),
                    d.targets.len() > 0,
                    field_descriptors(fields@) == d.fields,
                    forall|k: int| 0 <= k < fields@.len() ==> (#[trigger] fields@[k]).ident is Some,
                    forall|k: int| 0 <= k < j ==> !d.is_ambiguous_field(k),
                    forall|k: int| 0 <= k < i ==> d.idents()[k] != d.idents()[j as int],
                    forall|k: int|
                        0 <= k < i ==> !(!(#[trigger] d.fields[k]).skip_pack && !d.fields[j as int].skip_pack
                            && d.fields[k].wire_field() == d.fields[j as int].wire_field()),
                decreases j - i,
            {
                assert(field_descriptor(fields@[i as int]) == d.fields[i as int]);
                assert(field_descriptor(fields@[j as int]) == d.fields[j as int]);
                let same_ident = *field_ident(&fields[i]) == *field_ident(&fields[j]);
                let same_wire_field = !fields[i].skip_pack && !fields[j].skip_pack && *wire_field(
                    &fields[i],
                ) == *wire_field(&fields[j]);
                if same_ident || same_wire_field {
                    proof {
                        if same_ident {
                            assert(d.idents()[i as int] == d.idents()[j as int]);
                        } else {
                            assert(!d.fields[i as int].skip_pack);
                            assert(d.shares_wire_field(j as int));
                        }
                        assert(d.is_ambiguous_field(j as int));
                    }
                    return Err(DescriptorError::AmbiguousName { index: j });
                }
                i = i + 1;
            }
            assert(!d.is_ambiguous_field(j as int));
            j = j + 1;
        }
        let ident = clone_text(&input.ident);
        let paths = clone_texts(&input.message_type.paths);
        proof {
            let made = StructDescriptor {
                input_type: InputType::Pack,
                ident: ident@,
                fields: field_descriptors(fields@),
                targets: text_views(paths@),
            };
            assert(made == d);
        }
        let receiver = InputReceiver {
            input_type: InputType::Pack,
            ident,
            fields,
            message_type: Paths { paths },
        };
        Ok(receiver)
    }

    /// The direction that is emitted.
    pub fn input_type(&self) -> (r: InputType)
        ensures
            r == self@.input_type,
    {
        self.input_type
    }

    /// The name of the struct.
    pub fn ident(&self) -> (r: &String)
        ensures
            r@ == self@.ident,
    {
        &self.ident
    }

    /// The fields, in the order of their declaration; each has a name.
    pub fn fields(&self) -> (r: &Vec<FieldReceiver>)
        ensures
            field_descriptors(r@) == self@.fields,
            forall|i: int| 0 <= i < r@.len() ==> (#[trigger] r@[i]).ident is Some,
    {
        proof {
            use_type_invariant(self);
        }
        &self.fields
    }

    /// The message types that the struct is mapped to; there is at least one.
    pub fn message_type(&self) -> (r: &Paths)
        ensures
            text_views(r.paths@) == self@.targets,
            r.paths@.len() > 0,
    {
        proof {
            use_type_invariant(self);
        }
        &self.message_type
    }

    /// The same descriptor, for unpacking.
    pub fn to_unpack(self) -> (r: InputReceiver)
        ensures
            r@ == (StructDescriptor { input_type: InputType::Unpack, ..self@ }),
    {
        proof {
            use_type_invariant(&self);
            let packing = self@;
            let unpacking = StructDescriptor { input_type: InputType::Unpack, ..packing };
            assert(unpacking.idents() =~= packing.idents());
            assert forall|j: int| 0 <= j < unpacking.fields.len() implies !unpacking.is_ambiguous_field(
                j,
            ) by {
                assert(!packing.is_ambiguous_field(j));
            }
        }
        InputReceiver {
            input_type: InputType::Unpack,
            ident: self.ident,
            fields: self.fields,
            message_type: self.message_type,
        }
    }

    /// What is emitted for the fields, in the direction of the descriptor.
    fn mappings(&self) -> (r: Vec<FieldMapping>)
        ensures
            field_mapping_views(r@) == self@.mappings(),
    {
        proof {
            use_type_invariant(self);
        }
        let ghost fields = self@.fields;
        let mut mappings: Vec<FieldMapping> = Vec::new();
        let mut i: usize = 0;
        assert(fields.take(0) =~= Seq::empty());
        while i < self.fields.len()
            invariant
                i <= self.fields.len(),
                fields == self@.fields,
                fields.len() == self.fields@.len(),
                forall|k: int| 0 <= k < self.fields@.len() ==> (#[trigger] self.fields@[k]).ident is Some,
                self.input_type == InputType::Pack ==> field_mapping_views(mappings@) == pack_mappings(
                    fields.take(i as int),
                ),
                self.input_type == InputType::Unpack ==> field_mapping_views(mappings@)
                    == unpack_mappings(fields.take(i as int)),
            decreases self.fields.len() - i,
        {
            let f = &self.fields[i];
            let ghost before = mappings@;
            proof {
                assert(fields.take(i + 1).drop_last() =~= fields.take(i as int));
                assert(fields.take(i + 1).last() == field_descriptor(*f));
            }
            match self.input_type {
                InputType::Pack => {
                    if !f.skip_pack {
                        mappings.push(pack_mapping(f));
                        assert(field_mapping_views(mappings@) =~= field_mapping_views(before).push(
                            field_descriptor(*f).pack_mapping(),
                        ));
                    }
                },
                InputType::Unpack => {
                    mappings.push(unpack_mapping(f));
                    proof {
                        let target = unpack_mappings(fields.take(i + 1));
                        assert forall|k: int| 0 <= k < i + 1 implies field_mapping_views(
                            mappings@,
                        )[k] == target[k] by {
                            if k < i {
                                assert(field_mapping_views(before)[k] == unpack_mappings(
                                    fields.take(i as int),
                                )[k]);
                            }
                        }
                        assert(field_mapping_views(mappings@) =~= target);
                    }
                },
            }
            i = i + 1;
        }
        assert(fields.take(i as int) =~= fields);
        mappings
    }

    /// Tells whether packing leaves a field of the message at its default.
    fn leaves_rest(&self) -> (r: bool)
        ensures
            r == self@.leaves_rest(),
    {
        match self.input_type {
            InputType::Unpack => {
                return false;
            },
            InputType::Pack => {},
        }
        let mut i: usize = 0;
        while i < self.fields.len()
            invariant
                i <= self.fields.len(),
                self.input_type == InputType::Pack,
                forall|k: int| 0 <= k < i ==> !(#[trigger] self@.fields[k]).skip_pack,
            decreases self.fields.len() - i,
        {
            if self.fields[i].skip_pack {
                assert(self@.fields[i as int].skip_pack);
                return true;
            }
            i = i + 1;
        }
        false
    }

    /// Emits the implementations for the struct, behind what `tokens` holds already.
    pub fn to_tokens(&self, tokens: &mut Vec<MappingImpl>)
        ensures
            mapping_impl_views(final(tokens)@) == mapping_impl_views(old(tokens)@) + self@.impls(),
    {
        let ghost before = tokens@;
        let ghost d = self@;
        let mut i: usize = 0;
        while i < self.message_type.paths.len()
            invariant
                i <= self.message_type.paths.len(),
                d == self@,
                d.targets.len() == self.message_type.paths@.len(),
                tokens@.len() == before.len() + 2 * i,
                forall|k: int| 0 <= k < before.len() ==> tokens@[k] == before[k],
                forall|k: int|
                    before.len() <= k < tokens@.len() ==> (#[trigger] tokens@[k])@ == d.impls()[k
                        - before.len()],
            decreases self.message_type.paths.len() - i,
        {
            let message_type = &self.message_type.paths[i];
            tokens.push(
                MappingImpl {
                    direction: self.input_type,
                    ident: clone_text(&self.ident),
                    message_type: clone_text(message_type),
                    outer_option: false,
                    fields: self.mappings(),
                    rest_default: self.leaves_rest(),
                },
            );
            tokens.push(
                MappingImpl {
                    direction: self.input_type,
                    ident: clone_text(&self.ident),
                    message_type: clone_text(message_type),
                    outer_option: true,
                    fields: self.mappings(),
                    rest_default: self.leaves_rest(),
                },
            );
            i = i + 1;
        }
        assert(mapping_impl_views(tokens@) =~= mapping_impl_views(before) + d.impls());
    }
}

} // verus!
