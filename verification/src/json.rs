//! Values out of JSON documents that come in more than one form.
use vstd::prelude::*;

use crate::text::{
    blank, is_blank, lemma_overflow, overflows, parse_i64, parse_number, parsed_i64,
    parsed_unsigned, unsigned_digits, Parsed,
};

pub mod laws;

verus! {

/// A JSON value, as far as it matters for a field that holds a number or a
/// text.
#[derive(Debug, Clone, PartialEq, Eq)]
pub enum JsonValue {
    Null,
    Number(JsonNumber),
    Text(String),
    /// Any other value, in JSON notation.
    Other(String),
}

/// A JSON number.
#[derive(Debug, Clone, PartialEq, Eq)]
pub struct JsonNumber {
    /// The number, if it is an integer in the range of `i64`.
    pub as_i64: Option<i64>,
    /// The number, if it is an integer in the range of `u64`.
    pub as_u64: Option<u64>,
    /// The number in JSON notation.
    pub notation: String,
}

/// What is wrong with the value of a field.
#[derive(Debug, Clone, PartialEq, Eq)]
pub enum FieldError {
    /// Neither a number nor a text.
    NotTextOrNumber { value: String },
    /// Neither a number, nor a text, nor nothing.
    NotTextNumberOrNull { value: String },
    /// A number that is not an unsigned integer.
    NotUnsigned,
    /// A text with something else than decimal digits.
    InvalidDigit,
    /// A text of more digits than fit.
    TooLarge,
}

/// The error in words.
pub open spec fn field_error_text(error: FieldError) -> Seq<char> {
    match error {
        FieldError::NotTextOrNumber { value } => "expected string or number, got "@ + value@,
        FieldError::NotTextNumberOrNull { value } => "expected string, number, or null, got "@
            + value@,
        FieldError::NotUnsigned => "expected unsigned integer"@,
        FieldError::InvalidDigit => "invalid digit found in string"@,
        FieldError::TooLarge => "number too large to fit in target type"@,
    }
}

impl FieldError {
    /// The error in words.
    pub fn message(&self) -> (res: String)
        ensures
            res@ == field_error_text(*self),
            match *self {
                FieldError::NotTextOrNumber { value } => res@ == "expected string or number, got "@
                    + value@,
                FieldError::NotTextNumberOrNull { value } => res@
                    == "expected string, number, or null, got "@ + value@,
                FieldError::NotUnsigned => res@ == "expected unsigned integer"@,
                FieldError::InvalidDigit => res@ == "invalid digit found in string"@,
                FieldError::TooLarge => res@ == "number too large to fit in target type"@,
            },
    {
        match self {
            FieldError::NotTextOrNumber { value } => {
                let mut res = "expected string or number, got ".to_owned();
                res.append(value.as_str());
                res
            },
            FieldError::NotTextNumberOrNull { value } => {
                let mut res = "expected string, number, or null, got ".to_owned();
                res.append(value.as_str());
                res
            },
            FieldError::NotUnsigned => "expected unsigned integer".to_owned(),
            FieldError::InvalidDigit => "invalid digit found in string".to_owned(),
            FieldError::TooLarge => "number too large to fit in target type".to_owned(),
        }
    }
}

/// The integer in a field: a number, a text that denotes one, or 0.
pub open spec fn integer_or_zero(value: JsonValue) -> int {
    match value {
        JsonValue::Number(number) => match number.as_i64 {
            Some(n) => n as int,
            None => 0,
        },
        JsonValue::Text(text) => match parsed_i64(text@) {
            Some(n) => n,
            None => 0,
        },
        _ => 0,
    }
}

/// The integer in a field.
pub fn deserialize_i64_or_string(value: &JsonValue) -> (res: i64)
    ensures
        res == integer_or_zero(*value),
{
    match value {
        JsonValue::Number(number) => match number.as_i64 {
            Some(n) => n,
            None => 0,
        },
        JsonValue::Text(text) => match parse_i64(text.as_str()) {
            Some(n) => n,
            None => 0,
        },
        _ => 0,
    }
}

/// The text in a field: a text, or a number in its notation.
pub fn number_or_string_to_string(value: JsonValue) -> (res: Result<String, FieldError>)
    ensures
        match value {
            JsonValue::Text(text) => res is Ok && res->Ok_0@ == text@,
            JsonValue::Number(number) => res is Ok && res->Ok_0@ == number.notation@,
            JsonValue::Null => res is Err && res->Err_0 is NotTextOrNumber
                && res->Err_0->NotTextOrNumber_value@ == "null"@,
            JsonValue::Other(notation) => res is Err && res->Err_0 is NotTextOrNumber
                && res->Err_0->NotTextOrNumber_value@ == notation@,
        },
{
    match value {
        JsonValue::Text(text) => Ok(text),
        JsonValue::Number(number) => Ok(number.notation),
        JsonValue::Null => Err(FieldError::NotTextOrNumber { value: "null".to_owned() }),
        JsonValue::Other(notation) => Err(FieldError::NotTextOrNumber { value: notation }),
    }
}

/// The number in a field that may be missing: `value` is nothing if the field is
/// not there. A blank text counts as missing too.
pub open spec fn optional_number(
    value: Option<JsonValue>,
    res: Result<Option<u128>, FieldError>,
) -> bool {
    match value {
        None | Some(JsonValue::Null) => res == Ok::<Option<u128>, FieldError>(None),
        Some(JsonValue::Number(number)) => match number.as_u64 {
            Some(n) => res == Ok::<Option<u128>, FieldError>(Some(n as u128)),
            None => res == Err::<Option<u128>, FieldError>(FieldError::NotUnsigned),
        },
        Some(JsonValue::Text(text)) => if blank(text@) {
            res == Ok::<Option<u128>, FieldError>(None)
        } else if overflows(unsigned_digits(text@), u128::MAX as nat) {
            res == Err::<Option<u128>, FieldError>(FieldError::TooLarge)
        } else {
            match parsed_unsigned(text@, u128::MAX as nat) {
                Some(n) => res == Ok::<Option<u128>, FieldError>(Some(n as u128)),
                None => res == Err::<Option<u128>, FieldError>(FieldError::InvalidDigit),
            }
        },
        Some(JsonValue::Other(notation)) => {
            &&& res is Err
            &&& res->Err_0 is NotTextNumberOrNull
            &&& res->Err_0->NotTextNumberOrNull_value@ == notation@
        },
    }
}

/// The number in a field that may be missing.
pub fn optional_u128_from_number_or_string(value: Option<JsonValue>) -> (res: Result<
    Option<u128>,
    FieldError,
>)
    ensures
        optional_number(value, res),
{
    match value {
        None => Ok(None),
        Some(JsonValue::Null) => Ok(None),
        Some(JsonValue::Number(number)) => match number.as_u64 {
            Some(n) => Ok(Some(n as u128)),
            None => Err(FieldError::NotUnsigned),
        },
        Some(JsonValue::Text(text)) => {
            if is_blank(text.as_str()) {
                return Ok(None);
            }
            match parse_number(text.as_str(), u128::MAX) {
                Parsed::Value(n) => {
                    proof {
                        let digits = unsigned_digits(text@);
                        if overflows(digits, u128::MAX as nat) {
                            lemma_overflow(digits, u128::MAX as nat);
                        }
                    }
                    Ok(Some(n))
                },
                Parsed::Invalid => Err(FieldError::InvalidDigit),
                Parsed::TooLarge => Err(FieldError::TooLarge),
            }
        },
        Some(JsonValue::Other(notation)) => Err(
            FieldError::NotTextNumberOrNull { value: notation },
        ),
    }
}

} // verus!
