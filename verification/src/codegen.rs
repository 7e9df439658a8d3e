//! The rules by which mapping implementations are emitted for annotated declarations.

use vstd::prelude::*;

pub mod derive_enum;
pub mod derive_struct;
pub mod types;

use crate::codegen::derive_enum::{enum_descriptor, enum_impl_views, enum_input_result, EnumImpl};
use crate::codegen::derive_struct::{mapping_impl_views, struct_descriptor, struct_input_result};
use crate::codegen::derive_struct::{InputType, MappingImpl, StructDescriptor};
use crate::codegen::types::{DeriveInput, DescriptorError};

verus! {

/// The descriptor for unpacking that a declaration asks for, if it is accepted.
pub open spec fn unpack_descriptor(input: DeriveInput) -> StructDescriptor {
    StructDescriptor { input_type: InputType::Unpack, ..struct_descriptor(input) }
}

/// Emits, for a struct, the implementations that pack it into each of its message types.
/// A declaration that does not pass the checks is refused, and nothing is emitted.
pub fn derive_pack(input: &DeriveInput) -> (r: Result<Vec<MappingImpl>, DescriptorError>)
    ensures
        match r {
            Ok(tokens) => {
                &&& struct_input_result(*input, Ok(struct_descriptor(*input)))
                &&& mapping_impl_views(tokens@) == struct_descriptor(*input).impls()
            },
            Err(e) => struct_input_result(*input, Err(e)),
        },
{
    match derive_struct::InputReceiver::from_derive_input(input) {
        Ok(receiver) => {
            let mut tokens: Vec<MappingImpl> = Vec::new();
            receiver.to_tokens(&mut tokens);
            Ok(tokens)
        },
        Err(e) => Err(e),
    }
}

/// Emits, for a struct, the implementations that unpack it from each of its message types.
/// A declaration that does not pass the checks is refused, and nothing is emitted.
pub fn derive_unpack(input: &DeriveInput) -> (r: Result<Vec<MappingImpl>, DescriptorError>)
    ensures
        match r {
            Ok(tokens) => {
                &&& struct_input_result(*input, Ok(struct_descriptor(*input)))
                &&& mapping_impl_views(tokens@) == unpack_descriptor(*input).impls()
            },
            Err(e) => struct_input_result(*input, Err(e)),
        },
{
    match derive_struct::InputReceiver::from_derive_input(input) {
        Ok(receiver) => {
            let receiver = receiver.to_unpack();
            let mut tokens: Vec<MappingImpl> = Vec::new();
            receiver.to_tokens(&mut tokens);
            Ok(tokens)
        },
        Err(e) => Err(e),
    }
}

/// Emits, for an enum, its names and the mapping to each of its message enums.
/// A declaration that does not pass the checks is refused, and nothing is emitted.
pub fn derive_enum(input: &DeriveInput) -> (r: Result<Vec<EnumImpl>, DescriptorError>)
    ensures
        match r {
            Ok(tokens) => {
                &&& enum_input_result(*input, Ok(enum_descriptor(*input)))
                &&& enum_impl_views(tokens@) == enum_descriptor(*input).impls()
            },
            Err(e) => enum_input_result(*input, Err(e)),
        },
{
    match derive_enum::InputReceiver::from_derive_input(input) {
        Ok(receiver) => {
            let mut tokens: Vec<EnumImpl> = Vec::new();
            receiver.to_tokens(&mut tokens);
            Ok(tokens)
        },
        Err(e) => Err(e),
    }
}

} // verus!
