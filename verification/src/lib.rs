//! Mapping between an application's model types and protobuf message types: the traits
//! that a mapped type implements, conversions for the common field types, and the rules by
//! which the implementations for structs and enums are emitted.

use vstd::prelude::*;

pub mod codegen;
pub mod convert;
pub mod decimal;
pub mod json;
pub mod laws;
pub mod result;
pub mod time;

pub use crate::codegen::{derive_enum, derive_pack, derive_unpack};
pub use crate::json::Json;
use crate::result::MappingError;

verus! {

/// Conversion of a model value into its message form `T`.
pub trait ProtoPack<T>: Sized {
    /// Whether `pack` may return `r` for this value. An implementation that states
    /// nothing accepts every result.
    open spec fn packs_to(self, r: Result<T, MappingError>) -> bool {
        true
    }

    /// Packs the value.
    fn pack(self) -> (r: Result<T, MappingError>)
        ensures
            self.packs_to(r),
    ;
}

/// Conversion of a message value `T` back into the model.
pub trait ProtoUnpack<T>: Sized {
    /// The message values that `unpack` accepts. An implementation that states nothing
    /// accepts every value.
    open spec fn unpackable(value: T) -> bool {
        true
    }

    /// Whether `unpack` may return `r` for `value`. An implementation that states
    /// nothing accepts every result.
    open spec fn unpacks_to(value: T, r: Result<Self, MappingError>) -> bool {
        true
    }

    /// Unpacks a value; one that stands for an absent value is refused with
    /// `MappingError::ValueNotPresent`.
    fn unpack(value: T) -> (r: Result<Self, MappingError>)
        requires
            Self::unpackable(value),
        ensures
            Self::unpacks_to(value, r),
    ;
}

/// Names for diagnostics: of the enum type and of each of its variants.
pub trait ProtoEnumMeta {
    /// The name of the enum type.
    const NAME: &'static str;

    /// The name of this variant.
    fn get_variant_name(&self) -> &'static str;
}

/// Mapping between a model enum and the message enum `T`.
pub trait ProtoEnum<T>: Sized {
    /// Whether `from_i32` may return `r` for the discriminant `v`.
    open spec fn maps_code(v: i32, r: Option<Self>) -> bool {
        true
    }

    /// Whether `into_proto_enum` may return `r` for this variant.
    open spec fn maps_to_proto(self, r: T) -> bool {
        true
    }

    /// Whether `unpack_enum` may return `r` for the message variant `v`.
    open spec fn maps_from_proto(v: T, r: Self) -> bool {
        true
    }

    /// The variant whose counterpart in `T` has the discriminant `v`; `None` where `v` is no
    /// discriminant of `T`.
    fn from_i32(v: i32) -> (r: Option<Self>)
        ensures
            Self::maps_code(v, r),
    ;

    /// The variant of `T` that stands for this variant.
    fn into_proto_enum(self) -> (r: T)
        ensures
            self.maps_to_proto(r),
    ;

    /// Like `from_i32`, but an integer that is no discriminant is an error that names
    /// the enum and the integer.
    fn unpack_i32(v: i32) -> (r: Result<Self, MappingError>) where Self: ProtoEnumMeta
        ensures
            match r {
                Ok(e) => Self::maps_code(v, Some(e)),
                Err(err) => Self::maps_code(v, None) && err == (MappingError::EnumDiscriminantNotFound {
                    enum_name: Self::NAME,
                    discriminant: v,
                }),
            },
    {
        match Self::from_i32(v) {
            Some(e) => Ok(e),
            None => Err(MappingError::EnumDiscriminantNotFound { enum_name: Self::NAME, discriminant: v }),
        }
    }

    /// The variant that the variant `v` of `T` stands for.
    fn unpack_enum(v: T) -> (r: Self)
        ensures
            Self::maps_from_proto(v, r),
    ;
}

impl<T1, T2: ProtoPack<T1>> ProtoPack<Option<T1>> for Option<T2> {
    open spec fn packs_to(self, r: Result<Option<T1>, MappingError>) -> bool {
        match self {
            None => r == Ok::<Option<T1>, MappingError>(None),
            Some(value) => match r {
                Ok(Some(packed)) => value.packs_to(Ok(packed)),
                Ok(None) => false,
                Err(e) => value.packs_to(Err(e)),
            },
        }
    }

    fn pack(self) -> (r: Result<Option<T1>, MappingError>) {
        match self {
            Some(value) => match value.pack() {
                Ok(packed) => Ok(Some(packed)),
                Err(e) => Err(e),
            },
            None => Ok(None),
        }
    }
}

impl<T1, T2: ProtoUnpack<T1>> ProtoUnpack<Option<T1>> for Option<T2> {
    open spec fn unpackable(value: Option<T1>) -> bool {
        value matches Some(inner) ==> T2::unpackable(inner)
    }

    open spec fn unpacks_to(value: Option<T1>, r: Result<Self, MappingError>) -> bool {
        match value {
            None => r == Ok::<Self, MappingError>(None),
            Some(inner) => match r {
                Ok(Some(unpacked)) => T2::unpacks_to(inner, Ok(unpacked)),
                Ok(None) => false,
                Err(e) => T2::unpacks_to(inner, Err(e)),
            },
        }
    }

    fn unpack(value: Option<T1>) -> (r: Result<Self, MappingError>) {
        match value {
            Some(inner) => match T2::unpack(inner) {
                Ok(unpacked) => Ok(Some(unpacked)),
                Err(e) => Err(e),
            },
            None => Ok(None),
        }
    }
}

} // verus!
