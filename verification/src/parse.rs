//! Reading a value from its text, for the capabilities whose text is
//! settled here: integers of the three widths, and arrays over them.
//!
//! An integer is an optional sign and decimal digits. An array is its
//! elements between `[` and `]`, separated by `,`; spaces may stand around
//! every element and around the whole value.

use vstd::prelude::*;
use edgedb_protocol::value::Value;
use crate::capability::{Capability, ScalarKind};

verus! {

/// Why a text is no value of the capability.
#[derive(Debug, Clone, Copy, PartialEq, Eq, Structural)]
pub enum ParseError {
    /// Values of this kind are not read from text here.
    Unhandled { kind: ScalarKind },
    /// What stands at `at`, be it the end of the text, cannot continue
    /// the value.
    Malformed { at: usize },
    /// The integer that starts at `at` does not fit its kind.
    OutOfRange { at: usize },
}

/// `edgedb_protocol::value::Value::Int16` of `n`.
pub uninterp spec fn int16_value(n: i16) -> Value;

/// `edgedb_protocol::value::Value::Int32` of `n`.
pub uninterp spec fn int32_value(n: i32) -> Value;

/// `edgedb_protocol::value::Value::Int64` of `n`.
pub uninterp spec fn int64_value(n: i64) -> Value;

/// `edgedb_protocol::value::Value::Array` of `items`.
pub uninterp spec fn array_value(items: Seq<Value>) -> Value;

/// `[`, which opens an array.
pub const OPEN: u8 = 0x5b;

/// `]`, which closes an array.
pub const CLOSE: u8 = 0x5d;

/// `,`, which separates the elements of an array.
pub const COMMA: u8 = 0x2c;

/// `-`, the sign of a negative integer.
pub const MINUS: u8 = 0x2d;

/// `+`, the sign that changes nothing.
pub const PLUS: u8 = 0x2b;

/// `0`, the first of the ten digits.
pub const ZERO: u8 = 0x30;

/// A blank, a tab, a line feed or a carriage return.
pub open spec fn is_space(byte: u8) -> bool {
    byte == 0x20 || byte == 0x09 || byte == 0x0a || byte == 0x0d
}

/// One of `0` to `9`.
pub open spec fn is_digit(byte: u8) -> bool {
    ZERO <= byte <= ZERO + 9
}

/// The first position from `at` on that holds no space.
pub open spec fn skip_spaces(text: Seq<u8>, at: int) -> int
    decreases text.len() - at,
{
    if 0 <= at < text.len() && is_space(text[at]) {
        skip_spaces(text, at + 1)
    } else {
        at
    }
}

/// The first position from `at` on that holds no digit.
pub open spec fn digits_end(text: Seq<u8>, at: int) -> int
    decreases text.len() - at,
{
    if 0 <= at < text.len() && is_digit(text[at]) {
        digits_end(text, at + 1)
    } else {
        at
    }
}

/// The number that decimal digits spell.
pub open spec fn number(digits: Seq<u8>) -> nat
    decreases digits.len(),
{
    if digits.len() == 0 {
        0
    } else {
        number(digits.drop_last()) * 10 + (digits.last() - ZERO) as nat
    }
}

/// Whether a sign stands at `at`.
pub open spec fn signed(text: Seq<u8>, at: int) -> bool {
    0 <= at < text.len() && (text[at] == MINUS || text[at] == PLUS)
}

/// The integer that starts at `at`, with the position behind it: an
/// optional `-` or `+` and at least one digit.
pub open spec fn integer_at(text: Seq<u8>, at: int) -> Option<(int, int)> {
    let start = if signed(text, at) {
        at + 1
    } else {
        at
    };
    let end = digits_end(text, start);
    let magnitude = number(text.subrange(start, end)) as int;
    if end == start {
        None
    } else if signed(text, at) && text[at] == MINUS {
        Some((-magnitude, end))
    } else {
        Some((magnitude, end))
    }
}

/// The scalar of `kind` that starts at `at`, with the position behind it.
pub open spec fn scalar_at(kind: ScalarKind, text: Seq<u8>, at: int) -> Result<
    (Value, int),
    ParseError,
> {
    if !(kind is Int16 || kind is Int32 || kind is Int64) {
        Err(ParseError::Unhandled { kind })
    } else {
        match integer_at(text, at) {
            None => Err(
                ParseError::Malformed {
                    at: (if signed(text, at) {
                        at + 1
                    } else {
                        at
                    }) as usize,
                },
            ),
            Some((n, end)) => match kind {
                ScalarKind::Int16 => if i16::MIN <= n <= i16::MAX {
                    Ok((int16_value(n as i16), end))
                } else {
                    Err(ParseError::OutOfRange { at: at as usize })
                },
                ScalarKind::Int32 => if i32::MIN <= n <= i32::MAX {
                    Ok((int32_value(n as i32), end))
                } else {
                    Err(ParseError::OutOfRange { at: at as usize })
                },
                _ => if i64::MIN <= n <= i64::MAX {
                    Ok((int64_value(n as i64), end))
                } else {
                    Err(ParseError::OutOfRange { at: at as usize })
                },
            },
        }
    }
}

/// The value of `capability` that starts at `at`, with the position
/// behind it.
pub open spec fn value_at(capability: Capability, text: Seq<u8>, at: int) -> Result<
    (Value, int),
    ParseError,
>
    decreases capability, 0nat, 0nat,
{
    match capability {
        Capability::Scalar(kind) => scalar_at(kind, text, at),
        Capability::Array(element) => if 0 <= at < text.len() && text[at] == OPEN {
            let first = skip_spaces(text, at + 1);
            if 0 <= first < text.len() && text[first] == CLOSE {
                Ok((array_value(Seq::empty()), first + 1))
            } else {
                items_at(*element, text, first, Seq::empty())
            }
        } else {
            Err(ParseError::Malformed { at: at as usize })
        },
    }
}

/// The array whose elements are `before` and then those that start at
/// `at`, with the position behind its `]`. (An element ends behind its
/// start, see [`lemma_value_advances`]: the test on `after` never fails.)
pub open spec fn items_at(element: Capability, text: Seq<u8>, at: int, before: Seq<Value>) -> Result<
    (Value, int),
    ParseError,
>
    decreases element, 1nat, (text.len() - at) as nat,
{
    match value_at(element, text, at) {
        Err(error) => Err(error),
        Ok((item, end)) => {
            let next = skip_spaces(text, end);
            if 0 <= next < text.len() && text[next] == CLOSE {
                Ok((array_value(before.push(item)), next + 1))
            } else if 0 <= next < text.len() && text[next] == COMMA {
                let after = skip_spaces(text, next + 1);
                if at < after <= text.len() {
                    items_at(element, text, after, before.push(item))
                } else {
                    Err(ParseError::Malformed { at: after as usize })
                }
            } else {
                Err(ParseError::Malformed { at: next as usize })
            }
        },
    }
}

/// The value that the whole of `text` spells for `capability`.
pub open spec fn parsed(capability: Capability, text: Seq<u8>) -> Result<Value, ParseError> {
    match value_at(capability, text, skip_spaces(text, 0)) {
        Err(error) => Err(error),
        Ok((value, end)) => if skip_spaces(text, end) == text.len() {
            Ok(value)
        } else {
            Err(ParseError::Malformed { at: skip_spaces(text, end) as usize })
        },
    }
}

/// A value ends behind its start and within the text.
pub proof fn lemma_value_advances(capability: Capability, text: Seq<u8>, at: int)
    requires
        0 <= at <= text.len(),
        value_at(capability, text, at).is_ok(),
    ensures
        at < value_at(capability, text, at).unwrap().1 <= text.len(),
    decreases capability, 0nat, 0nat,
{
    match capability {
        Capability::Scalar(kind) => {
            let start = if signed(text, at) {
                at + 1
            } else {
                at
            };
            lemma_run_bounds(text, start);
        },
        Capability::Array(element) => {
            let first = skip_spaces(text, at + 1);
            lemma_run_bounds(text, at + 1);
            if !(first < text.len() && text[first] == CLOSE) {
                lemma_items_advance(*element, text, first, Seq::empty());
            }
        },
    }
}

/// An array ends behind the start of its last element and within the text.
pub proof fn lemma_items_advance(element: Capability, text: Seq<u8>, at: int, before: Seq<Value>)
    requires
        0 <= at <= text.len(),
        items_at(element, text, at, before).is_ok(),
    ensures
        at < items_at(element, text, at, before).unwrap().1 <= text.len(),
    decreases element, 1nat, (text.len() - at) as nat,
{
    lemma_value_advances(element, text, at);
    let (item, end) = value_at(element, text, at).unwrap();
    let next = skip_spaces(text, end);
    lemma_run_bounds(text, end);
    if next < text.len() && text[next] == CLOSE {
    } else {
        let after = skip_spaces(text, next + 1);
        lemma_items_advance(element, text, after, before.push(item));
    }
}

/// A run of spaces or of digits ends at or behind its start and within
/// the text.
pub proof fn lemma_run_bounds(text: Seq<u8>, at: int)
    requires
        0 <= at <= text.len(),
    ensures
        at <= skip_spaces(text, at) <= text.len(),
        at <= digits_end(text, at) <= text.len(),
    decreases text.len() - at,
{
    if at < text.len() {
        lemma_run_bounds(text, at + 1);
    }
}

/// The decimal digits of `n`.
pub open spec fn digits(n: nat) -> Seq<u8>
    decreases n,
{
    if n < 10 {
        seq![(ZERO + n) as u8]
    } else {
        digits(n / 10).push((ZERO + n % 10) as u8)
    }
}

/// The text of `n`: its digits, behind a `-` where it is negative.
pub open spec fn integer_text(n: int) -> Seq<u8> {
    if n < 0 {
        seq![MINUS] + digits((-n) as nat)
    } else {
        digits(n as nat)
    }
}

/// The integers of a kind.
pub open spec fn fits(kind: ScalarKind, n: int) -> bool {
    match kind {
        ScalarKind::Int16 => i16::MIN <= n <= i16::MAX,
        ScalarKind::Int32 => i32::MIN <= n <= i32::MAX,
        ScalarKind::Int64 => i64::MIN <= n <= i64::MAX,
        _ => false,
    }
}

/// The value of an integer of a kind.
pub open spec fn integer_value(kind: ScalarKind, n: int) -> Value
    recommends
        fits(kind, n),
{
    match kind {
        ScalarKind::Int16 => int16_value(n as i16),
        ScalarKind::Int32 => int32_value(n as i32),
        _ => int64_value(n as i64),
    }
}

/// Nothing is lost in reading: every integer of a kind is read back from
/// its text as itself.
pub proof fn lemma_integer_is_read_back(kind: ScalarKind, n: int)
    requires
        fits(kind, n),
    ensures
        parsed(Capability::Scalar(kind), integer_text(n)) == Ok::<Value, ParseError>(
            integer_value(kind, n),
        ),
{
    let text = integer_text(n);
    let magnitude = (if n < 0 {
        -n
    } else {
        n
    }) as nat;
    let start: int = if n < 0 {
        1
    } else {
        0
    };
    lemma_digits(magnitude);
    assert(text.subrange(start, text.len() as int) =~= digits(magnitude));
    assert forall|i: int| start <= i < text.len() implies is_digit(#[trigger] text[i]) by {
        assert(text[i] == digits(magnitude)[i - start]);
    }
    lemma_digits_run(text, start, text.len() as int);
    assert(skip_spaces(text, 0) == 0);
    assert(skip_spaces(text, text.len() as int) == text.len());
    assert(integer_at(text, 0) == Some((n, text.len() as int)));
}

/// The digits of a number are digits, at least one, and spell it.
pub proof fn lemma_digits(n: nat)
    ensures
        digits(n).len() >= 1,
        forall|i: int| 0 <= i < digits(n).len() ==> is_digit(#[trigger] digits(n)[i]),
        number(digits(n)) == n,
    decreases n,
{
    if n < 10 {
        assert(digits(n).drop_last() =~= Seq::<u8>::empty());
        assert(number(digits(n).drop_last()) == 0);
    } else {
        lemma_digits(n / 10);
        assert(digits(n).drop_last() =~= digits(n / 10));
    }
}

/// A stretch of digits that ends at the end of the text, or before
/// something else, is the run of digits from its start.
pub proof fn lemma_digits_run(text: Seq<u8>, at: int, end: int)
    requires
        0 <= at <= end <= text.len(),
        forall|i: int| at <= i < end ==> is_digit(#[trigger] text[i]),
        end == text.len() || !is_digit(text[end]),
    ensures
        digits_end(text, at) == end,
    decreases end - at,
{
    if at < end {
        lemma_digits_run(text, at + 1, end);
    }
}

impl Capability {
    /// Reads the whole of `input` as one value of this capability.
    pub fn parse(&self, input: &[u8]) -> (read: Result<Value, ParseError>)
        ensures
            read == parsed(*self, input@),
    {
        let start = skip(input, 0);
        match value_from(self, input, start) {
            Err(error) => Err(error),
            Ok((value, end)) => {
                let rest = skip(input, end);
                if rest == input.len() {
                    Ok(value)
                } else {
                    Err(ParseError::Malformed { at: rest })
                }
            },
        }
    }
}

fn space(byte: u8) -> (yes: bool)
    ensures
        yes == is_space(byte),
{
    byte == 0x20 || byte == 0x09 || byte == 0x0a || byte == 0x0d
}

fn digit(byte: u8) -> (yes: bool)
    ensures
        yes == is_digit(byte),
{
    ZERO <= byte && byte <= ZERO + 9
}

fn skip(input: &[u8], at: usize) -> (next: usize)
    requires
        at <= input@.len(),
    ensures
        next == skip_spaces(input@, at as int),
        at <= next <= input@.len(),
{
    let mut i: usize = at;
    while i < input.len() && space(input[i])
        invariant
            at <= i <= input@.len(),
            skip_spaces(input@, at as int) == skip_spaces(input@, i as int),
        decreases input@.len() - i,
    {
        i += 1;
    }
    i
}

/// The run of digits from `start`: its number unless that is beyond
/// every kind, whether it is, and its end.
fn digits_from(input: &[u8], start: usize) -> (read: (u64, bool, usize))
    requires
        start <= input@.len(),
    ensures
        read.2 == digits_end(input@, start as int),
        start <= read.2 <= input@.len(),
        !read.1 ==> read.0 == number(input@.subrange(start as int, read.2 as int)),
        read.1 ==> number(input@.subrange(start as int, read.2 as int)) > 0x8000_0000_0000_0000,
{
    let mut i: usize = start;
    let mut magnitude: u64 = 0;
    let mut beyond = false;
    assert(number(input@.subrange(start as int, start as int)) == 0);
    while i < input.len() && digit(input[i])
        invariant
            start <= i <= input@.len(),
            digits_end(input@, start as int) == digits_end(input@, i as int),
            !beyond ==> magnitude == number(input@.subrange(start as int, i as int)),
            beyond ==> number(input@.subrange(start as int, i as int)) > 0x8000_0000_0000_0000,
        decreases input@.len() - i,
    {
        let unit: u64 = (input[i] - ZERO) as u64;
        proof {
            let longer = input@.subrange(start as int, i + 1);
            assert(longer.drop_last() =~= input@.subrange(start as int, i as int));
            assert(longer.last() == input@[i as int]);
        }
        if !beyond {
            if magnitude > 922337203685477580 {
                beyond = true;
            } else {
                magnitude = magnitude * 10 + unit;
            }
        }
        i += 1;
    }
    (magnitude, beyond, i)
}

fn scalar_from(kind: ScalarKind, input: &[u8], at: usize) -> (made: Result<
    (Value, usize),
    ParseError,
>)
    requires
        at <= input@.len(),
    ensures
        match made {
            Ok((value, end)) => scalar_at(kind, input@, at as int) == Ok::<
                (Value, int),
                ParseError,
            >((value, end as int)) && at < end <= input@.len(),
            Err(error) => scalar_at(kind, input@, at as int) == Err::<(Value, int), ParseError>(
                error,
            ),
        },
{
    match kind {
        ScalarKind::Int16 | ScalarKind::Int32 | ScalarKind::Int64 => {},
        _ => {
            return Err(ParseError::Unhandled { kind });
        },
    }
    let with_sign = at < input.len() && (input[at] == MINUS || input[at] == PLUS);
    let negative = with_sign && input[at] == MINUS;
    let start: usize = if with_sign {
        at + 1
    } else {
        at
    };
    let (magnitude, beyond, end) = digits_from(input, start);
    if end == start {
        return Err(ParseError::Malformed { at: start });
    }
    if beyond {
        return Err(ParseError::OutOfRange { at });
    }
    let n: i128 = if negative {
        -(magnitude as i128)
    } else {
        magnitude as i128
    };
    match kind {
        ScalarKind::Int16 => if -0x8000 <= n && n <= 0x7fff {
            Ok((value_int16(n as i16), end))
        } else {
            Err(ParseError::OutOfRange { at })
        },
        ScalarKind::Int32 => if -0x8000_0000 <= n && n <= 0x7fff_ffff {
            Ok((value_int32(n as i32), end))
        } else {
            Err(ParseError::OutOfRange { at })
        },
        _ => if -0x8000_0000_0000_0000 <= n && n <= 0x7fff_ffff_ffff_ffff {
            Ok((value_int64(n as i64), end))
        } else {
            Err(ParseError::OutOfRange { at })
        },
    }
}

fn value_from(capability: &Capability, input: &[u8], at: usize) -> (made: Result<
    (Value, usize),
    ParseError,
>)
    requires
        at <= input@.len(),
    ensures
        match made {
            Ok((value, end)) => value_at(*capability, input@, at as int) == Ok::<
                (Value, int),
                ParseError,
            >((value, end as int)) && at < end <= input@.len(),
            Err(error) => value_at(*capability, input@, at as int) == Err::<
                (Value, int),
                ParseError,
            >(error),
        },
    decreases *capability,
{
    match capability {
        Capability::Scalar(kind) => scalar_from(*kind, input, at),
        Capability::Array(element) => {
            if !(at < input.len() && input[at] == OPEN) {
                return Err(ParseError::Malformed { at });
            }
            let first = skip(input, at + 1);
            if first < input.len() && input[first] == CLOSE {
                return Ok((value_array(Vec::new()), first + 1));
            }
            let inner: &Capability = &**element;
            let mut items: Vec<Value> = Vec::new();
            let mut pos: usize = first;
            loop
                invariant
                    at < pos <= input@.len(),
                    *capability == Capability::Array(Box::new(*inner)),
                    value_at(*capability, input@, at as int) == items_at(
                        *inner,
                        input@,
                        pos as int,
                        items@,
                    ),
                decreases input@.len() - pos,
            {
                match value_from(inner, input, pos) {
                    Err(error) => {
                        return Err(error);
                    },
                    Ok((item, end)) => {
                        let next = skip(input, end);
                        if next < input.len() && input[next] == CLOSE {
                            items.push(item);
                            return Ok((value_array(items), next + 1));
                        } else if next < input.len() && input[next] == COMMA {
                            items.push(item);
                            pos = skip(input, next + 1);
                        } else {
                            return Err(ParseError::Malformed { at: next });
                        }
                    },
                }
            }
        },
    }
}

/// Builds `edgedb_protocol::value::Value::Int16`. Trusted: the same number
/// gives the same value, named `int16_value`.
#[verifier::external_body]
fn value_int16(n: i16) -> (value: Value)
    ensures
        value == int16_value(n),
{
    Value::Int16(n)
}

/// Builds `edgedb_protocol::value::Value::Int32`. Trusted: the same number
/// gives the same value, named `int32_value`.
#[verifier::external_body]
fn value_int32(n: i32) -> (value: Value)
    ensures
        value == int32_value(n),
{
    Value::Int32(n)
}

/// Builds `edgedb_protocol::value::Value::Int64`. Trusted: the same number
/// gives the same value, named `int64_value`.
#[verifier::external_body]
fn value_int64(n: i64) -> (value: Value)
    ensures
        value == int64_value(n),
{
    Value::Int64(n)
}

/// Builds `edgedb_protocol::value::Value::Array`. Trusted: the same items
/// in the same order give the same value, named `array_value`.
#[verifier::external_body]
fn value_array(items: Vec<Value>) -> (value: Value)
    ensures
        value == array_value(items@),
{
    Value::Array(items)
}

} // verus!
