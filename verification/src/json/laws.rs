//! What the fields of a document are read as.
use vstd::prelude::*;

use crate::json::{integer_or_zero, optional_number, FieldError, JsonValue};
use crate::text::laws::{lemma_decimal, lemma_parse_i64, lemma_parse_unsigned};
use crate::text::{decimal, lemma_overflow, overflows, unsigned_digits, white_space};

verus! {

/// A field that holds an integer, as a number or as a text in decimal notation, is read as
/// that integer, if `i64` has it; a field that holds anything else is read as 0.
pub proof fn lemma_integer_field(value: JsonValue, n: nat)
    ensures
        match value {
            JsonValue::Number(number) => integer_or_zero(value) == (if number.as_i64 is Some {
                number.as_i64->0 as int
            } else {
                0
            }),
            JsonValue::Text(text) => {
                &&& text@ == decimal(n) ==> integer_or_zero(value) == (if n
                    <= 0x7fff_ffff_ffff_ffff {
                    n as int
                } else {
                    0
                })
                &&& text@ == seq!['-'] + decimal(n) ==> integer_or_zero(value) == (if n
                    <= 0x8000_0000_0000_0000 {
                    -(n as int)
                } else {
                    0
                })
            },
            JsonValue::Null | JsonValue::Other(_) => integer_or_zero(value) == 0,
        },
{
    lemma_parse_i64(n);
}

/// There is one result for each field: if two results fit, they are the same but for the
/// way in which an error holds its text.
pub proof fn lemma_number_field_unique(
    value: Option<JsonValue>,
    a: Result<Option<u128>, FieldError>,
    b: Result<Option<u128>, FieldError>,
)
    requires
        optional_number(value, a),
        optional_number(value, b),
    ensures
        a is Ok <==> b is Ok,
        a is Ok ==> a == b,
{
}

/// A field that is not there, or null, or a text of nothing but white space has no number;
/// a field with an unsigned number, or a text in decimal notation for one, has that
/// number; any other number is refused, and so is a number too large for `u128`, and
/// anything that is neither number nor text.
pub proof fn lemma_number_field(
    value: Option<JsonValue>,
    res: Result<Option<u128>, FieldError>,
    n: nat,
)
    requires
        optional_number(value, res),
    ensures
        match value {
            None | Some(JsonValue::Null) => res == Ok::<Option<u128>, FieldError>(None),
            Some(JsonValue::Number(number)) => {
                &&& number.as_u64 is Some ==> res is Ok && res->Ok_0 is Some && res->Ok_0->0
                    == number.as_u64->0
                &&& number.as_u64 is None ==> res == Err::<Option<u128>, FieldError>(
                    FieldError::NotUnsigned,
                )
            },
            Some(JsonValue::Text(text)) => {
                &&& (forall|i: int| 0 <= i < text@.len() ==> white_space(#[trigger] text@[i]))
                    ==> res == Ok::<Option<u128>, FieldError>(None)
                &&& text@ == decimal(n) && n <= u128::MAX ==> res is Ok && res->Ok_0 is Some
                    && res->Ok_0->0 == n
                &&& text@ == decimal(n) && n > u128::MAX ==> res == Err::<
                    Option<u128>,
                    FieldError,
                >(FieldError::TooLarge)
            },
            Some(JsonValue::Other(_)) => res is Err && res->Err_0 is NotTextNumberOrNull,
        },
{
    if let Some(JsonValue::Text(text)) = value {
        if text@ == decimal(n) {
            let max = u128::MAX as nat;
            lemma_decimal(n);
            lemma_parse_unsigned(n, max);
            assert('0' <= text@[0] <= '9');
            assert(unsigned_digits(text@) == text@);
            if overflows(text@, max) {
                lemma_overflow(text@, max);
            }
            if n > max {
                assert(text@.take(text@.len() as int) =~= text@);
            }
        }
    }
}

} // verus!
