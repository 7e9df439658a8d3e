//! The error of a mapping, and its text.

use vstd::prelude::*;

verus! {

/// The error that `serde_json` reports when a value cannot be encoded or decoded.
/// Nothing inside it is visible to the proofs: it is carried through unchanged.
#[verifier::external_type_specification]
#[verifier::external_body]
pub struct ExJsonError(serde_json::Error);

/// The error that `bigdecimal` reports for malformed decimal text.
/// Nothing inside it is visible to the proofs: it is carried through unchanged.
#[verifier::external_type_specification]
#[verifier::external_body]
pub struct ExParseBigDecimalError(bigdecimal::ParseBigDecimalError);

/// Everything that can go wrong while mapping between model and message types.
#[derive(Debug)]
pub enum MappingError {
    /// Encoding to or decoding from the intermediate JSON tree failed.
    Json(serde_json::Error),
    /// A type URL named a message that has no JSON mapping.
    JsonTypeUrlUnknown { type_url: String },
    /// A value that the model requires was absent from the message.
    ValueNotPresent,
    /// The value of the named model field was absent from the message.
    FieldValueNotPresent { field_name: &'static str },
    /// A dynamic value was nested deeper than the conversions accept.
    JsonValueNestedTooDeeply,
    /// The element at `index` of a repeated field failed with `source`.
    ListElement { source: Box<MappingError>, index: usize },
    /// An entry of a map field failed with `source`, in its key or in its value.
    MapEntry { source: Box<MappingError> },
    /// Decimal text could not be parsed.
    ParseBigDecimal(bigdecimal::ParseBigDecimalError),
    /// A duration does not fit the range of the target type.
    ParseDuration { message: String },
    /// An integer read from a message is no discriminant of the named enum.
    EnumDiscriminantNotFound { enum_name: &'static str, discriminant: i32 },
}

/// The result of a mapping.
pub type Result<T, E = MappingError> = std::result::Result<T, E>;

impl MappingError {
    /// The error with its place added: a bare absence becomes the absence of the field
    /// `field_name`, and every other error is kept as it is.
    pub open spec fn in_field_spec(self, field_name: &'static str) -> MappingError {
        match self {
            MappingError::ValueNotPresent => MappingError::FieldValueNotPresent { field_name },
            _ => self,
        }
    }

    /// Adds the name of the field whose value was being unpacked to an error that lacks it.
    pub fn in_field(self, field_name: &'static str) -> (r: MappingError)
        ensures
            r == self.in_field_spec(field_name),
    {
        match self {
            MappingError::ValueNotPresent => MappingError::FieldValueNotPresent { field_name },
            other => other,
        }
    }
}

/// The text by which `serde_json` describes the error `e`.
pub uninterp spec fn json_error_text(e: serde_json::Error) -> Seq<char>;

/// The text by which `bigdecimal` describes the error `e`.
pub uninterp spec fn decimal_error_text(e: bigdecimal::ParseBigDecimalError) -> Seq<char>;

/// Writes a `serde_json::Error` with its `Display`. The contract names the text.
#[verifier::external_body]
fn json_error_to_string(e: &serde_json::Error) -> (r: String)
    ensures
        r@ == json_error_text(*e),
{
    e.to_string()
}

/// Writes a `bigdecimal::ParseBigDecimalError` with its `Display`. The contract names the
/// text.
#[verifier::external_body]
fn decimal_error_to_string(e: &bigdecimal::ParseBigDecimalError) -> (r: String)
    ensures
        r@ == decimal_error_text(*e),
{
    e.to_string()
}

/// The decimal digit for a number below ten.
pub open spec fn digit_char(d: nat) -> char {
    if d == 0 {
        '0'
    } else if d == 1 {
        '1'
    } else if d == 2 {
        '2'
    } else if d == 3 {
        '3'
    } else if d == 4 {
        '4'
    } else if d == 5 {
        '5'
    } else if d == 6 {
        '6'
    } else if d == 7 {
        '7'
    } else if d == 8 {
        '8'
    } else {
        '9'
    }
}

/// A natural number in decimal digits, without leading zeros.
pub open spec fn decimal_digits(n: nat) -> Seq<char>
    decreases n,
{
    if n < 10 {
        seq![digit_char(n)]
    } else {
        decimal_digits(n / 10).push(digit_char(n % 10))
    }
}

/// An integer in decimal digits, with a minus sign before a negative one.
pub open spec fn decimal_number(n: int) -> Seq<char> {
    if n < 0 {
        seq!['-'] + decimal_digits((-n) as nat)
    } else {
        decimal_digits(n as nat)
    }
}

/// The decimal digit for a number below ten, as a text.
fn digit_text(d: u64) -> (r: &'static str)
    requires
        d < 10,
    ensures
        r@ == seq![digit_char(d as nat)],
{
    proof {
        reveal_strlit("0");
        reveal_strlit("1");
        reveal_strlit("2");
        reveal_strlit("3");
        reveal_strlit("4");
        reveal_strlit("5");
        reveal_strlit("6");
        reveal_strlit("7");
        reveal_strlit("8");
        reveal_strlit("9");
    }
    if d == 0 {
        "0"
    } else if d == 1 {
        "1"
    } else if d == 2 {
        "2"
    } else if d == 3 {
        "3"
    } else if d == 4 {
        "4"
    } else if d == 5 {
        "5"
    } else if d == 6 {
        "6"
    } else if d == 7 {
        "7"
    } else if d == 8 {
        "8"
    } else {
        "9"
    }
}

/// Writes a natural number behind `out`, in decimal digits.
fn append_digits(out: &mut String, n: u64)
    ensures
        final(out)@ == old(out)@ + decimal_digits(n as nat),
    decreases n,
{
    if n >= 10 {
        append_digits(out, n / 10);
    }
    out.append(digit_text(n % 10));
    proof {
        if n >= 10 {
            assert(old(out)@ + decimal_digits(n as nat / 10).push(digit_char(n as nat % 10))
                =~= old(out)@ + decimal_digits(n as nat / 10) + seq![digit_char(n as nat % 10)]);
        }
    }
}

/// Writes an integer behind `out`, in decimal digits.
fn append_number(out: &mut String, n: i64)
    requires
        n > i64::MIN,
    ensures
        final(out)@ == old(out)@ + decimal_number(n as int),
{
    if n < 0 {
        proof {
            reveal_strlit("-");
        }
        out.append("-");
        append_digits(out, (-n) as u64);
    } else {
        append_digits(out, n as u64);
    }
}

impl MappingError {
    /// The text that describes the error. An error about an element or an entry ends
    /// with the text of the error it wraps.
    pub open spec fn message_spec(self) -> Seq<char>
        decreases self,
    {
        match self {
            MappingError::Json(e) => "JSON error: "@ + json_error_text(e),
            MappingError::JsonTypeUrlUnknown { type_url } => "Could not convert json value from type_url: "@
                + type_url@,
            MappingError::ValueNotPresent => "Could not unpack a non-optional value from null"@,
            MappingError::FieldValueNotPresent { field_name } => "Could not unpack field '"@
                + field_name@ + "' from null"@,
            MappingError::JsonValueNestedTooDeeply => "JSON value nested too deeply"@,
            MappingError::ListElement { source, index } => "List element "@ + decimal_digits(
                index as nat,
            ) + ": "@ + source.message_spec(),
            MappingError::MapEntry { source } => "Map entry: "@ + source.message_spec(),
            MappingError::ParseBigDecimal(e) => "Parse decimal error: "@ + decimal_error_text(e),
            MappingError::ParseDuration { message } => "Parse duration error: "@ + message@,
            MappingError::EnumDiscriminantNotFound {
                enum_name,
                discriminant,
            } => "Enum discriminant is not found: enum type = "@ + enum_name@ + ", discriminant = "@
                + decimal_number(discriminant as int),
        }
    }

    /// Writes the text that describes the error.
    pub fn message(&self) -> (r: String)
        ensures
            r@ == self.message_spec(),
        decreases self,
    {
        match self {
            MappingError::Json(e) => {
                let mut out = "JSON error: ".to_owned();
                let text = json_error_to_string(e);
                out.append(text.as_str());
                out
            },
            MappingError::JsonTypeUrlUnknown { type_url } => {
                let mut out = "Could not convert json value from type_url: ".to_owned();
                out.append(type_url.as_str());
                out
            },
            MappingError::ValueNotPresent => "Could not unpack a non-optional value from null".to_owned(),
            MappingError::FieldValueNotPresent { field_name } => {
                let mut out = "Could not unpack field '".to_owned();
                out.append(field_name);
                out.append("' from null");
                out
            },
            MappingError::JsonValueNestedTooDeeply => "JSON value nested too deeply".to_owned(),
            MappingError::ListElement { source, index } => {
                let mut out = "List element ".to_owned();
                append_digits(&mut out, *index as u64);
                out.append(": ");
                let text = source.message();
                out.append(text.as_str());
                out
            },
            MappingError::MapEntry { source } => {
                let mut out = "Map entry: ".to_owned();
                let text = source.message();
                out.append(text.as_str());
                out
            },
            MappingError::ParseBigDecimal(e) => {
                let mut out = "Parse decimal error: ".to_owned();
                let text = decimal_error_to_string(e);
                out.append(text.as_str());
                out
            },
            MappingError::ParseDuration { message } => {
                let mut out = "Parse duration error: ".to_owned();
                out.append(message.as_str());
                out
            },
            MappingError::EnumDiscriminantNotFound { enum_name, discriminant } => {
                let mut out = "Enum discriminant is not found: enum type = ".to_owned();
                out.append(enum_name);
                out.append(", discriminant = ");
                append_number(&mut out, *discriminant as i64);
                out
            },
        }
    }
}

impl From<serde_json::Error> for MappingError {
    fn from(e: serde_json::Error) -> (r: MappingError) {
        MappingError::Json(e)
    }
}

impl vstd::std_specs::convert::FromSpecImpl<serde_json::Error> for MappingError {
    open spec fn obeys_from_spec() -> bool {
        true
    }

    open spec fn from_spec(e: serde_json::Error) -> MappingError {
        MappingError::Json(e)
    }
}

impl From<bigdecimal::ParseBigDecimalError> for MappingError {
    fn from(e: bigdecimal::ParseBigDecimalError) -> (r: MappingError) {
        MappingError::ParseBigDecimal(e)
    }
}

impl vstd::std_specs::convert::FromSpecImpl<bigdecimal::ParseBigDecimalError> for MappingError {
    open spec fn obeys_from_spec() -> bool {
        true
    }

    open spec fn from_spec(e: bigdecimal::ParseBigDecimalError) -> MappingError {
        MappingError::ParseBigDecimal(e)
    }
}

} // verus!
