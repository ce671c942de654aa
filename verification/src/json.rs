//! The telemetry document as plain values: a JSON tree whose numbers carry the
//! readings that the parsers take of them.

use vstd::prelude::*;
use crate::error::TelemetryParseError;
use crate::text::chars_of;

verus! {

/// A JSON number, held as the readings the parsers take of it.
#[derive(Debug, Clone, Copy, PartialEq)]
pub struct JsonNumber {
    /// The number as an unsigned integer, when it is a non-negative integer that fits `u64`.
    pub as_u64: Option<u64>,
    /// The number as a signed integer, when it is an integer that fits `i64`.
    pub as_i64: Option<i64>,
    /// The IEEE-754 bit pattern of the number as a double.
    pub f64_bits: u64,
    /// The number rounded to single precision, times 1000, truncated toward zero and
    /// saturated to `i32` (a seconds reading in whole milliseconds).
    pub thousandths: i32,
}

/// A JSON document.
#[derive(Debug, PartialEq)]
pub enum JsonValue {
    Null,
    Bool(bool),
    Number(JsonNumber),
    Str(String),
    Array(Vec<JsonValue>),
    /// The members of an object, in the order the reader of the document lists them.
    Object(Vec<(String, JsonValue)>),
}

/// The value of the first member whose key is `key`.
pub open spec fn lookup(members: Seq<(String, JsonValue)>, key: Seq<char>) -> Option<JsonValue>
    decreases members.len(),
{
    if members.len() == 0 {
        None
    } else if members[0].0@ == key {
        Some(members[0].1)
    } else {
        lookup(members.drop_first(), key)
    }
}

/// The member `key` of `v`, when `v` is an object that has it.
pub open spec fn field(v: JsonValue, key: Seq<char>) -> Option<JsonValue> {
    match v {
        JsonValue::Object(members) => lookup(members@, key),
        _ => None,
    }
}

/// The member `key` of `v`, when `v` is present.
pub open spec fn field_of(v: Option<JsonValue>, key: Seq<char>) -> Option<JsonValue> {
    match v {
        Some(x) => field(x, key),
        None => None,
    }
}

/// `v` read as an unsigned integer.
pub open spec fn u64_of(v: Option<JsonValue>) -> Option<u64> {
    match v {
        Some(JsonValue::Number(n)) => n.as_u64,
        _ => None,
    }
}

/// `v` read as a signed integer.
pub open spec fn i64_of(v: Option<JsonValue>) -> Option<i64> {
    match v {
        Some(JsonValue::Number(n)) => n.as_i64,
        _ => None,
    }
}

/// `v` read as a number.
pub open spec fn number_of(v: Option<JsonValue>) -> Option<JsonNumber> {
    match v {
        Some(JsonValue::Number(n)) => Some(n),
        _ => None,
    }
}

/// `v` read as a boolean.
pub open spec fn bool_of(v: Option<JsonValue>) -> Option<bool> {
    match v {
        Some(JsonValue::Bool(b)) => Some(b),
        _ => None,
    }
}

/// `v` read as a string.
pub open spec fn str_of(v: Option<JsonValue>) -> Option<Seq<char>> {
    match v {
        Some(JsonValue::Str(s)) => Some(s@),
        _ => None,
    }
}

/// `v` read as an array.
pub open spec fn array_of(v: Option<JsonValue>) -> Option<Seq<JsonValue>> {
    match v {
        Some(JsonValue::Array(items)) => Some(items@),
        _ => None,
    }
}

impl JsonValue {
    /// The member `key`, when this is an object that has it.
    pub fn get(&self, key: &str) -> (r: Option<&JsonValue>)
        ensures
            match r {
                Some(x) => field(*self, key@) == Some(*x),
                None => field(*self, key@) is None,
            },
    {
        match self {
            JsonValue::Object(members) => {
                let k = chars_of(key);
                let mut i: usize = 0;
                assert(members@.skip(0) =~= members@);
                while i < members.len()
                    invariant
                        k@ == key@,
                        i <= members.len(),
                        field(*self, key@) == lookup(members@, key@),
                        lookup(members@, key@) == lookup(members@.skip(i as int), key@),
                    decreases members.len() - i,
                {
                    let name = chars_of(members[i].0.as_str());
                    let mut same = name.len() == k.len();
                    let mut j: usize = 0;
                    while same && j < k.len()
                        invariant
                            k@ == key@,
                            name@ == members@[i as int].0@,
                            i < members.len(),
                            j <= k.len(),
                            same ==> name.len() == k.len(),
                            same ==> forall|t: int| 0 <= t < j ==> name@[t] == k@[t],
                            !same ==> name@ != k@,
                        decreases k.len() - j,
                    {
                        if name[j] != k[j] {
                            same = false;
                        }
                        j += 1;
                    }
                    if same {
                        assert(name@ =~= k@);
                    }
                    assert(members@.skip(i as int)[0] == members@[i as int]);
                    if same {
                        let ghost rest = members@.skip(i as int);
                        assert(rest.len() > 0 && rest[0].0@ == key@);
                        assert(lookup(rest, key@) == Some(rest[0].1));
                        let entry = &members[i];
                        assert(*entry == members@[i as int]);
                        assert(field(*self, key@) == Some(entry.1));
                        return Some(&entry.1);
                    }
                    assert(members@.skip(i as int).drop_first() =~= members@.skip(i + 1));
                    i += 1;
                }
                None
            },
            _ => None,
        }
    }

    /// This value read as an unsigned integer.
    pub fn as_u64(&self) -> (r: Option<u64>)
        ensures
            r == u64_of(Some(*self)),
    {
        match self {
            JsonValue::Number(n) => n.as_u64,
            _ => None,
        }
    }

    /// This value read as a signed integer.
    pub fn as_i64(&self) -> (r: Option<i64>)
        ensures
            r == i64_of(Some(*self)),
    {
        match self {
            JsonValue::Number(n) => n.as_i64,
            _ => None,
        }
    }

    /// This value read as a number.
    pub fn as_number(&self) -> (r: Option<JsonNumber>)
        ensures
            r == number_of(Some(*self)),
    {
        match self {
            JsonValue::Number(n) => Some(*n),
            _ => None,
        }
    }

    /// This value read as a boolean.
    pub fn as_bool(&self) -> (r: Option<bool>)
        ensures
            r == bool_of(Some(*self)),
    {
        match self {
            JsonValue::Bool(b) => Some(*b),
            _ => None,
        }
    }

    /// This value read as a string.
    pub fn as_str(&self) -> (r: Option<&str>)
        ensures
            match r {
                Some(s) => str_of(Some(*self)) == Some(s@),
                None => str_of(Some(*self)) is None,
            },
    {
        match self {
            JsonValue::Str(s) => Some(s.as_str()),
            _ => None,
        }
    }

    /// This value read as an array.
    pub fn as_array(&self) -> (r: Option<&Vec<JsonValue>>)
        ensures
            match r {
                Some(items) => array_of(Some(*self)) == Some(items@),
                None => array_of(Some(*self)) is None,
            },
    {
        match self {
            JsonValue::Array(items) => Some(items),
            _ => None,
        }
    }

    /// Whether this value is `null`.
    pub fn is_null(&self) -> (r: bool)
        ensures
            r == (*self is Null),
    {
        match self {
            JsonValue::Null => true,
            _ => false,
        }
    }
}

/// An optional reference read as an optional value.
pub open spec fn opt(v: Option<&JsonValue>) -> Option<JsonValue> {
    match v {
        Some(x) => Some(*x),
        None => None,
    }
}

/// `v` read as an unsigned integer that fits `usize`.
pub open spec fn usize_of(v: Option<JsonValue>) -> Option<usize> {
    match u64_of(v) {
        Some(n) => if n <= usize::MAX {
            Some(n as usize)
        } else {
            None
        },
        None => None,
    }
}

/// `v` read as an unsigned integer that fits `u32`.
pub open spec fn u32_of(v: Option<JsonValue>) -> Option<u32> {
    match u64_of(v) {
        Some(n) => if n <= u32::MAX {
            Some(n as u32)
        } else {
            None
        },
        None => None,
    }
}

/// `v` read as an unsigned integer that fits `u8`.
pub open spec fn u8_of(v: Option<JsonValue>) -> Option<u8> {
    match u64_of(v) {
        Some(n) => if n <= u8::MAX {
            Some(n as u8)
        } else {
            None
        },
        None => None,
    }
}

/// `v` read as a signed integer that fits `i32`.
pub open spec fn i32_of(v: Option<JsonValue>) -> Option<i32> {
    match i64_of(v) {
        Some(n) => if i32::MIN <= n <= i32::MAX {
            Some(n as i32)
        } else {
            None
        },
        None => None,
    }
}

/// The string `v` holds, or `default` when it holds none.
pub open spec fn str_or(v: Option<JsonValue>, default: Seq<char>) -> Seq<char> {
    match str_of(v) {
        Some(s) => s,
        None => default,
    }
}

/// The boolean `v` holds, or `false` when it holds none.
pub open spec fn flag_of(v: Option<JsonValue>) -> bool {
    match bool_of(v) {
        Some(b) => b,
        None => false,
    }
}

/// An unsigned integer narrowed to `usize` when it fits.
pub fn u64_to_usize(n: u64) -> (r: Option<usize>)
    ensures
        r == (if n <= usize::MAX {
            Some(n as usize)
        } else {
            None
        }),
{
    if n <= usize::MAX as u64 {
        Some(n as usize)
    } else {
        None
    }
}

/// `value` read as an unsigned integer that fits `usize`.
pub fn optional_usize(value: Option<&JsonValue>) -> (r: Option<usize>)
    ensures
        r == usize_of(opt(value)),
{
    match value {
        Some(v) => match v.as_u64() {
            Some(n) => u64_to_usize(n),
            None => None,
        },
        None => None,
    }
}

/// `value` read as an unsigned integer that fits `u32`.
pub fn optional_u32(value: Option<&JsonValue>) -> (r: Option<u32>)
    ensures
        r == u32_of(opt(value)),
{
    match value {
        Some(v) => match v.as_u64() {
            Some(n) => if n <= u32::MAX as u64 {
                Some(n as u32)
            } else {
                None
            },
            None => None,
        },
        None => None,
    }
}

/// `value` read as an unsigned integer that fits `u8`.
pub fn optional_u8(value: Option<&JsonValue>) -> (r: Option<u8>)
    ensures
        r == u8_of(opt(value)),
{
    match value {
        Some(v) => match v.as_u64() {
            Some(n) => if n <= u8::MAX as u64 {
                Some(n as u8)
            } else {
                None
            },
            None => None,
        },
        None => None,
    }
}

/// `value` read as a signed integer that fits `i32`.
pub fn optional_i32(value: Option<&JsonValue>) -> (r: Option<i32>)
    ensures
        r == i32_of(opt(value)),
{
    match value {
        Some(v) => match v.as_i64() {
            Some(n) => if i32::MIN as i64 <= n && n <= i32::MAX as i64 {
                Some(n as i32)
            } else {
                None
            },
            None => None,
        },
        None => None,
    }
}

/// `value` read as a number.
pub fn optional_number(value: Option<&JsonValue>) -> (r: Option<JsonNumber>)
    ensures
        r == number_of(opt(value)),
{
    match value {
        Some(v) => v.as_number(),
        None => None,
    }
}

/// `value` read as a boolean, `false` when it holds none.
pub fn flag(value: Option<&JsonValue>) -> (r: bool)
    ensures
        r == flag_of(opt(value)),
{
    match value {
        Some(v) => match v.as_bool() {
            Some(b) => b,
            None => false,
        },
        None => false,
    }
}

/// The string `value` holds, or `default` when it holds none.
pub fn string_or(value: Option<&JsonValue>, default: &str) -> (r: String)
    ensures
        r@ == str_or(opt(value), default@),
{
    match value {
        Some(v) => match v.as_str() {
            Some(s) => crate::text::string_of(s),
            None => crate::text::string_of(default),
        },
        None => crate::text::string_of(default),
    }
}

/// The member `key` read as a `usize`, or the error naming `key` as missing.
pub fn value_usize(value: &JsonValue, key: &'static str) -> (r: Result<usize, TelemetryParseError>)
    ensures
        match usize_of(field(*value, key@)) {
            Some(n) => r == Ok::<usize, TelemetryParseError>(n),
            None => r matches Err(e) && e.is_missing(key@),
        },
{
    match optional_usize(value.get(key)) {
        Some(n) => Ok(n),
        None => Err(TelemetryParseError::MissingField(key)),
    }
}

/// The member `key` read as a `u8`, or the error naming `key` as missing.
pub fn value_u8(value: &JsonValue, key: &'static str) -> (r: Result<u8, TelemetryParseError>)
    ensures
        match u8_of(field(*value, key@)) {
            Some(n) => r == Ok::<u8, TelemetryParseError>(n),
            None => r matches Err(e) && e.is_missing(key@),
        },
{
    match optional_u8(value.get(key)) {
        Some(n) => Ok(n),
        None => Err(TelemetryParseError::MissingField(key)),
    }
}

/// The first failure, in order, of `check` over `items`.
pub open spec fn first_failure(items: Seq<JsonValue>, check: spec_fn(JsonValue) -> Option<Seq<char>>) -> Option<Seq<char>>
    decreases items.len(),
{
    if items.len() == 0 {
        None
    } else {
        match first_failure(items.drop_last(), check) {
            Some(n) => Some(n),
            None => check(items.last()),
        }
    }
}

/// A failure in a prefix is the first failure of the whole.
pub proof fn lemma_first_failure_prefix(
    items: Seq<JsonValue>,
    check: spec_fn(JsonValue) -> Option<Seq<char>>,
    i: int,
)
    requires
        0 <= i <= items.len(),
        first_failure(items.take(i), check) is Some,
    ensures
        first_failure(items, check) == first_failure(items.take(i), check),
    decreases items.len(),
{
    if i == items.len() {
        assert(items.take(i) =~= items);
    } else {
        assert(items.drop_last().take(i) =~= items.take(i));
        lemma_first_failure_prefix(items.drop_last(), check, i);
    }
}

/// Extending a prefix without failure by one item.
pub proof fn lemma_first_failure_step(
    items: Seq<JsonValue>,
    check: spec_fn(JsonValue) -> Option<Seq<char>>,
    i: int,
)
    requires
        0 <= i < items.len(),
        first_failure(items.take(i), check) is None,
    ensures
        first_failure(items.take(i + 1), check) == check(items[i]),
{
    assert(items.take(i + 1).drop_last() =~= items.take(i));
}

} // verus!
