//! Conversion of decimal numbers of any precision, which the message holds as text.

use vstd::prelude::*;

use crate::result::MappingError;
use crate::{ProtoPack, ProtoUnpack};

verus! {

/// A decimal number of any precision, of `bigdecimal`. The proofs see of it the text that
/// `decimal_text` names.
#[verifier::external_type_specification]
#[verifier::external_body]
pub struct ExBigDecimal(bigdecimal::BigDecimal);

/// The text that `bigdecimal` writes for the number `d`.
pub uninterp spec fn decimal_text(d: bigdecimal::BigDecimal) -> Seq<char>;

/// The number that `bigdecimal` reads from `text`, or the error with which it refuses it.
pub uninterp spec fn parse_decimal(text: Seq<char>) -> Result<
    bigdecimal::BigDecimal,
    bigdecimal::ParseBigDecimalError,
>;

/// Writes `d` as text with the `Display` of `bigdecimal::BigDecimal`. The contract names
/// the text.
#[verifier::external_body]
fn decimal_to_string(d: &bigdecimal::BigDecimal) -> (r: String)
    ensures
        r@ == decimal_text(*d),
{
    d.to_string()
}

/// Reads a number with the `FromStr` of `bigdecimal::BigDecimal`. The contract names the
/// result.
#[verifier::external_body]
fn decimal_from_str(text: &str) -> (r: Result<
    bigdecimal::BigDecimal,
    bigdecimal::ParseBigDecimalError,
>)
    ensures
        r == parse_decimal(text@),
{
    text.parse()
}

/// What unpacking gives once `bigdecimal` has read the text: its number, or its error as
/// a decimal parse error.
pub open spec fn parsed_result(
    parsed: Result<bigdecimal::BigDecimal, bigdecimal::ParseBigDecimalError>,
) -> Result<bigdecimal::BigDecimal, MappingError> {
    match parsed {
        Ok(d) => Ok(d),
        Err(e) => Err(MappingError::ParseBigDecimal(e)),
    }
}

/// Unpacks a decimal number from its text.
pub fn unpack_decimal(text: &str) -> (r: Result<bigdecimal::BigDecimal, MappingError>)
    ensures
        r == parsed_result(parse_decimal(text@)),
{
    match decimal_from_str(text) {
        Ok(d) => Ok(d),
        Err(e) => Err(MappingError::ParseBigDecimal(e)),
    }
}

impl ProtoPack<String> for bigdecimal::BigDecimal {
    open spec fn packs_to(self, r: Result<String, MappingError>) -> bool {
        &&& r matches Ok(text)
        &&& text@ == decimal_text(self)
    }

    fn pack(self) -> (r: Result<String, MappingError>) {
        Ok(decimal_to_string(&self))
    }
}

impl ProtoUnpack<String> for bigdecimal::BigDecimal {
    open spec fn unpackable(value: String) -> bool {
        true
    }

    open spec fn unpacks_to(value: String, r: Result<Self, MappingError>) -> bool {
        r == parsed_result(parse_decimal(value@))
    }

    fn unpack(value: String) -> (r: Result<Self, MappingError>) {
        unpack_decimal(value.as_str())
    }
}

impl<'a> ProtoUnpack<&'a str> for bigdecimal::BigDecimal {
    open spec fn unpackable(value: &'a str) -> bool {
        true
    }

    open spec fn unpacks_to(value: &'a str, r: Result<Self, MappingError>) -> bool {
        r == parsed_result(parse_decimal(value@))
    }

    fn unpack(value: &'a str) -> (r: Result<Self, MappingError>) {
        unpack_decimal(value)
    }
}

} // verus!
