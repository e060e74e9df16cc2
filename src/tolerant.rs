use vstd::prelude::*;

use crate::error::YahooError;
use crate::json::{non_null_field, JsonValue};

verus! {

/// The mantissa and scale of the decimal that `rust_decimal` reads from the
/// text, when it reads one.
pub uninterp spec fn decimal_parts(s: Seq<char>) -> Option<(int, int)>;

/// Relies on `<rust_decimal::Decimal as FromStr>::from_str`, whose outcome
/// depends on the text alone, and on `Decimal::mantissa` and `Decimal::scale`,
/// which give the parts that determine the parsed value.
#[verifier::external_body]
fn parse_decimal(s: &str) -> (r: Option<(i128, u32)>)
    ensures
        r is Some <==> decimal_parts(s@) is Some,
        r matches Some(p) ==> decimal_parts(s@) == Some((p.0 as int, p.1 as int)),
{
    match <rust_decimal::Decimal as std::str::FromStr>::from_str(s) {
        Ok(d) => Some((d.mantissa(), d.scale())),
        Err(_) => None,
    }
}

/// The first second that `time` represents: -9999-01-01T00:00:00 UTC.
pub const MIN_UNIX_SECONDS: i64 = -377705116800;

/// The last second that `time` represents: 9999-12-31T23:59:59 UTC.
pub const MAX_UNIX_SECONDS: i64 = 253402300799;

/// Relies on `time::OffsetDateTime::from_unix_timestamp`, which without the
/// `large-dates` feature accepts exactly the seconds from year -9999 to year
/// 9999.
#[verifier::external_body]
pub(crate) fn unix_timestamp_representable(seconds: i64) -> (r: bool)
    ensures
        r == (MIN_UNIX_SECONDS <= seconds <= MAX_UNIX_SECONDS),
{
    time::OffsetDateTime::from_unix_timestamp(seconds).is_ok()
}

/// The `raw` member of an envelope: `Err` when the envelope is not an object;
/// `Ok(None)` when the member is absent or null.
pub open spec fn spec_raw<F>(v: JsonValue<F>) -> Result<Option<JsonValue<F>>, YahooError> {
    if v is Object {
        Ok(non_null_field(v, "raw"@))
    } else {
        Err(YahooError::TypeMismatch)
    }
}

/// Reads the `raw` member of an envelope: `None` when it is absent or null, a
/// type mismatch when the envelope is not an object.
pub fn raw_member<F>(v: &JsonValue<F>) -> (r: Result<Option<&JsonValue<F>>, YahooError>)
    ensures
        r is Err <==> spec_raw(*v) is Err,
        r matches Err(e) ==> e == YahooError::TypeMismatch,
        r matches Ok(o) ==> (o is Some <==> spec_raw(*v).unwrap() is Some),
        r matches Ok(Some(x)) ==> spec_raw(*v).unwrap() == Some(*x),
{
    match v {
        JsonValue::Object(_) => Ok(v.get_non_null("raw")),
        _ => Err(YahooError::TypeMismatch),
    }
}

/// The value of a JSON number as a signed 64-bit integer, if it is one.
pub open spec fn as_int<F>(x: JsonValue<F>) -> Option<i64> {
    match x {
        JsonValue::Number(n) => n.int,
        _ => None,
    }
}

fn int_of<F>(x: &JsonValue<F>) -> (r: Option<i64>)
    ensures
        r == as_int(*x),
{
    match x {
        JsonValue::Number(n) => n.int,
        _ => None,
    }
}

/// A value that the provider wraps as `{ "raw": ... }`, decoded tolerantly:
/// an absent or null `raw` gives no value, a `raw` of the wrong JSON type is
/// a type mismatch.
pub trait TolerantValue<F>: Sized {
    /// Whether the envelope `v` decodes.
    spec fn accepts(v: JsonValue<F>) -> bool;

    /// Whether `t` is a value decoded from the envelope `v`.
    spec fn decodes(v: JsonValue<F>, t: Self) -> bool;

    /// Whether `t` holds no value.
    spec fn empty(t: Self) -> bool;

    /// The value that holds nothing.
    fn none() -> (r: Self)
        ensures
            Self::empty(r),
    ;

    fn from_json(v: &JsonValue<F>) -> (r: Result<Self, YahooError>)
        ensures
            r is Ok <==> Self::accepts(*v),
            r matches Ok(t) ==> Self::decodes(*v, t),
            r matches Err(e) ==> e == YahooError::TypeMismatch,
    ;
}

/// An integer that the provider may leave out.
#[derive(Debug, Clone, Copy, PartialEq, Eq)]
pub struct IntegerValue(pub Option<i64>);

/// A decimal number: `mantissa` divided by ten to the power `scale`.
#[derive(Debug, Clone, Copy, PartialEq, Eq, Structural)]
pub struct DecimalNumber {
    pub mantissa: i128,
    pub scale: u32,
}

/// A decimal that the provider may leave out.
#[derive(Debug, Clone, Copy, PartialEq, Eq, Structural)]
pub struct DecimalValue(pub Option<DecimalNumber>);

/// A point in time, in seconds since the Unix epoch, that the provider may
/// leave out.
#[derive(Debug, Clone, Copy, PartialEq, Eq)]
pub struct OffsetDateTimeValue(pub Option<i64>);

/// Decoding of an integer envelope.
pub open spec fn spec_integer_value<F>(v: JsonValue<F>) -> Result<IntegerValue, YahooError> {
    match spec_raw(v) {
        Err(e) => Err(e),
        Ok(None) => Ok(IntegerValue(None)),
        Ok(Some(x)) => match as_int(x) {
            Some(i) => Ok(IntegerValue(Some(i))),
            None => Err(YahooError::TypeMismatch),
        },
    }
}

/// Decoding of a timestamp envelope: a second out of the representable
/// range gives no value rather than an error.
pub open spec fn spec_date_value<F>(v: JsonValue<F>) -> Result<OffsetDateTimeValue, YahooError> {
    match spec_raw(v) {
        Err(e) => Err(e),
        Ok(None) => Ok(OffsetDateTimeValue(None)),
        Ok(Some(x)) => match as_int(x) {
            Some(s) => if MIN_UNIX_SECONDS <= s <= MAX_UNIX_SECONDS {
                Ok(OffsetDateTimeValue(Some(s)))
            } else {
                Ok(OffsetDateTimeValue(None))
            },
            None => Err(YahooError::TypeMismatch),
        },
    }
}

/// The decimal text of a JSON number.
pub open spec fn number_text<F>(x: JsonValue<F>) -> Option<Seq<char>> {
    match x {
        JsonValue::Number(n) => Some(n.text@),
        _ => None,
    }
}

impl<F> TolerantValue<F> for IntegerValue {
    open spec fn accepts(v: JsonValue<F>) -> bool {
        spec_integer_value(v) is Ok
    }

    open spec fn decodes(v: JsonValue<F>, t: Self) -> bool {
        spec_integer_value(v) == Ok::<Self, YahooError>(t)
    }

    open spec fn empty(t: Self) -> bool {
        t.0 is None
    }

    fn none() -> (r: Self) {
        IntegerValue(None)
    }

    fn from_json(v: &JsonValue<F>) -> (r: Result<Self, YahooError>) {
        match raw_member(v) {
            Err(e) => Err(e),
            Ok(None) => Ok(IntegerValue(None)),
            Ok(Some(x)) => match int_of(x) {
                Some(i) => Ok(IntegerValue(Some(i))),
                None => Err(YahooError::TypeMismatch),
            },
        }
    }
}

impl<F> TolerantValue<F> for OffsetDateTimeValue {
    open spec fn accepts(v: JsonValue<F>) -> bool {
        spec_date_value(v) is Ok
    }

    open spec fn decodes(v: JsonValue<F>, t: Self) -> bool {
        spec_date_value(v) == Ok::<Self, YahooError>(t)
    }

    open spec fn empty(t: Self) -> bool {
        t.0 is None
    }

    fn none() -> (r: Self) {
        OffsetDateTimeValue(None)
    }

    fn from_json(v: &JsonValue<F>) -> (r: Result<Self, YahooError>) {
        match raw_member(v) {
            Err(e) => Err(e),
            Ok(None) => Ok(OffsetDateTimeValue(None)),
            Ok(Some(x)) => match int_of(x) {
                Some(s) => if unix_timestamp_representable(s) {
                    Ok(OffsetDateTimeValue(Some(s)))
                } else {
                    Ok(OffsetDateTimeValue(None))
                },
                None => Err(YahooError::TypeMismatch),
            },
        }
    }
}

impl<F> TolerantValue<F> for DecimalValue {
    /// The decimal is read from the number's text; a number whose text is no
    /// representable decimal, and any value that is not a number, is a type
    /// mismatch.
    open spec fn accepts(v: JsonValue<F>) -> bool {
        match spec_raw(v) {
            Err(_) => false,
            Ok(None) => true,
            Ok(Some(x)) => number_text(x) matches Some(t) && decimal_parts(t) is Some,
        }
    }

    /// The decoded decimal is the one read from the raw number's text.
    open spec fn decodes(v: JsonValue<F>, t: Self) -> bool {
        match spec_raw(v) {
            Err(_) => false,
            Ok(None) => t.0 is None,
            Ok(Some(x)) => number_text(x) matches Some(s) && (t.0 matches Some(d)
                && decimal_parts(s) == Some((d.mantissa as int, d.scale as int))),
        }
    }

    open spec fn empty(t: Self) -> bool {
        t.0 is None
    }

    fn none() -> (r: Self) {
        DecimalValue(None)
    }

    fn from_json(v: &JsonValue<F>) -> (r: Result<Self, YahooError>) {
        match raw_member(v) {
            Err(e) => Err(e),
            Ok(None) => Ok(DecimalValue(None)),
            Ok(Some(JsonValue::Number(n))) => match parse_decimal(n.text.as_str()) {
                Some((mantissa, scale)) => Ok(DecimalValue(Some(DecimalNumber { mantissa, scale }))),
                None => Err(YahooError::TypeMismatch),
            },
            Ok(Some(_)) => Err(YahooError::TypeMismatch),
        }
    }
}

/// The optional member `key` of `obj` is absent, null, or an envelope
/// that decodes.
pub open spec fn optional_accepts<F, T: TolerantValue<F>>(obj: JsonValue<F>, key: Seq<char>) -> bool {
    match non_null_field(obj, key) {
        None => true,
        Some(x) => T::accepts(x),
    }
}

/// `f` is what the optional member `key` of `obj` decodes to.
pub open spec fn optional_decodes<F, T: TolerantValue<F>>(
    obj: JsonValue<F>,
    key: Seq<char>,
    f: Option<T>,
) -> bool {
    match non_null_field(obj, key) {
        None => f is None,
        Some(x) => f matches Some(t) && T::decodes(x, t),
    }
}

/// Decodes the optional member `key` of `obj`: an absent or null member gives
/// `None`, any other value is decoded as an envelope.
pub fn optional_member<F, T: TolerantValue<F>>(obj: &JsonValue<F>, key: &str) -> (r: Result<
    Option<T>,
    YahooError,
>)
    ensures
        r is Ok <==> optional_accepts::<F, T>(*obj, key@),
        r matches Ok(f) ==> optional_decodes(*obj, key@, f),
        r matches Err(e) ==> e == YahooError::TypeMismatch,
{
    match obj.get_non_null(key) {
        None => Ok(None),
        Some(x) => match T::from_json(x) {
            Ok(t) => Ok(Some(t)),
            Err(e) => Err(e),
        },
    }
}

/// `t` is what the member `key` of `obj` decodes to: no value when the
/// member is absent or null.
pub open spec fn member_decodes<F, T: TolerantValue<F>>(obj: JsonValue<F>, key: Seq<char>, t: T) -> bool {
    match non_null_field(obj, key) {
        None => T::empty(t),
        Some(x) => T::decodes(x, t),
    }
}

/// Decodes the member `key` of `obj` as an envelope; an absent or null
/// member holds no value.
pub fn tolerant_member<F, T: TolerantValue<F>>(obj: &JsonValue<F>, key: &str) -> (r: Result<
    T,
    YahooError,
>)
    ensures
        r is Ok <==> optional_accepts::<F, T>(*obj, key@),
        r matches Ok(t) ==> member_decodes(*obj, key@, t),
        r matches Err(e) ==> e == YahooError::TypeMismatch,
{
    match obj.get_non_null(key) {
        None => Ok(T::none()),
        Some(x) => T::from_json(x),
    }
}

} // verus!
