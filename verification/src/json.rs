//! The JSON values that the planner reads: argument objects, request-body
//! schemas and response schemas, and the compact JSON text of a value.

use vstd::prelude::*;
use crate::text::{decimal, parse_usize};
use serde_json::ser::{CompactFormatter, Formatter};

verus! {

/// A JSON number as `serde_json` keeps it: a non-negative integer, a
/// negative integer, or a floating-point number carried by its display text.
#[derive(Debug)]
pub enum JsonNumber {
    PosInt(u64),
    NegInt(i64),
    Float(String),
}

/// A JSON value. An object keeps its members in iteration order.
#[derive(Debug)]
pub enum JsonValue {
    Null,
    Bool(bool),
    Number(JsonNumber),
    Str(String),
    Array(Vec<JsonValue>),
    Object(Vec<(String, JsonValue)>),
}

/// A value parsed by serde_json.
#[verifier::external_type_specification]
#[verifier::external_body]
pub struct ExSerdeValue(serde_json::Value);

/// A number parsed by serde_json.
#[verifier::external_type_specification]
#[verifier::external_body]
pub struct ExSerdeNumber(serde_json::Number);

/// What `serde_json::from_str` gives for text that should hold a JSON array:
/// its elements, or serde_json's error message. Parsing depends on the text
/// alone.
pub uninterp spec fn json_array_of_text(text: Seq<char>) -> Result<Seq<JsonValue>, Seq<char>>;

/// `serde_json::from_str::<Vec<serde_json::Value>>`: the elements of the JSON
/// array written in `text`, each converted to a `JsonValue`, or the text of
/// serde_json's error (which gives the line and column).
#[verifier::external_body]
pub(crate) fn parse_json_array(text: &str) -> (r: Result<Vec<JsonValue>, String>)
    ensures
        match r {
            Ok(items) => json_array_of_text(text@) == Ok::<Seq<JsonValue>, Seq<char>>(items@),
            Err(m) => json_array_of_text(text@) == Err::<Seq<JsonValue>, Seq<char>>(m@),
        },
{
    match serde_json::from_str::<Vec<serde_json::Value>>(text) {
        Ok(items) => Ok(items.iter().map(value_of_serde).collect()),
        Err(error) => Err(error.to_string()),
    }
}

/// The conversion used by `parse_json_array`: a serde_json value, variant by
/// variant, with object members in the map's iteration order.
#[verifier::external_body]
fn value_of_serde(value: &serde_json::Value) -> JsonValue {
    match value {
        serde_json::Value::Null => JsonValue::Null,
        serde_json::Value::Bool(b) => JsonValue::Bool(*b),
        serde_json::Value::Number(n) => JsonValue::Number(number_of_serde(n)),
        serde_json::Value::String(s) => JsonValue::Str(s.clone()),
        serde_json::Value::Array(items) => JsonValue::Array(items.iter().map(value_of_serde).collect()),
        serde_json::Value::Object(map) => JsonValue::Object(
            map.iter().map(|(key, item)| (key.clone(), value_of_serde(item))).collect(),
        ),
    }
}

/// The conversion of a serde_json number: its non-negative integer, its
/// negative integer, or the display text of its floating-point value.
#[verifier::external_body]
fn number_of_serde(n: &serde_json::Number) -> JsonNumber {
    match (n.as_u64(), n.as_i64()) {
        (Some(u), _) => JsonNumber::PosInt(u),
        (None, Some(i)) => JsonNumber::NegInt(i),
        (None, None) => JsonNumber::Float(n.to_string()),
    }
}

/// The value stored under `key` in a member list (the first such member).
pub open spec fn lookup(entries: Seq<(String, JsonValue)>, key: Seq<char>) -> Option<JsonValue>
    decreases entries.len(),
{
    if entries.len() == 0 {
        None
    } else if entries[0].0@ == key {
        Some(entries[0].1)
    } else {
        lookup(entries.drop_first(), key)
    }
}

/// `Value::get(key)`: the member `key` of an object; `None` for any other value.
pub open spec fn get(v: JsonValue, key: Seq<char>) -> Option<JsonValue> {
    match v {
        JsonValue::Object(entries) => lookup(entries@, key),
        _ => None,
    }
}

/// `Value::as_u64`.
pub open spec fn as_u64(v: JsonValue) -> Option<u64> {
    match v {
        JsonValue::Number(JsonNumber::PosInt(n)) => Some(n),
        _ => None,
    }
}

/// `Value::as_str`.
pub open spec fn as_text(v: JsonValue) -> Option<Seq<char>> {
    match v {
        JsonValue::Str(s) => Some(s@),
        _ => None,
    }
}

/// `Value::as_object`.
pub open spec fn as_members(v: JsonValue) -> Option<Seq<(String, JsonValue)>> {
    match v {
        JsonValue::Object(entries) => Some(entries@),
        _ => None,
    }
}

/// The array index that a JSON-pointer token names: decimal digits without
/// a sign or a leading zero.
pub open spec fn pointer_index(token: Seq<char>) -> Option<usize> {
    if token.len() > 0 && (token[0] == '+' || (token[0] == '0' && token.len() != 1)) {
        None
    } else {
        parse_usize(token)
    }
}

/// One step of `Value::pointer`: an object member, or an array element.
pub open spec fn pointer_step(v: JsonValue, token: Seq<char>) -> Option<JsonValue> {
    match v {
        JsonValue::Object(entries) => lookup(entries@, token),
        JsonValue::Array(items) => match pointer_index(token) {
            Some(i) => if i < items@.len() {
                Some(items@[i as int])
            } else {
                None
            },
            None => None,
        },
        _ => None,
    }
}

/// `Value::pointer` with the (already unescaped) reference tokens `tokens`.
pub open spec fn pointer(v: JsonValue, tokens: Seq<Seq<char>>) -> Option<JsonValue>
    decreases tokens.len(),
{
    if tokens.len() == 0 {
        Some(v)
    } else {
        match pointer_step(v, tokens[0]) {
            Some(t) => pointer(t, tokens.drop_first()),
            None => None,
        }
    }
}

pub open spec fn token_views(tokens: Seq<&str>) -> Seq<Seq<char>> {
    tokens.map_values(|t: &str| t@)
}

/// The display text of a number.
pub open spec fn number_text(n: JsonNumber) -> Seq<char> {
    match n {
        JsonNumber::PosInt(u) => decimal(u as nat),
        JsonNumber::NegInt(i) => if i < 0 {
            seq!['-'] + decimal((-i) as nat)
        } else {
            decimal(i as nat)
        },
        JsonNumber::Float(t) => t@,
    }
}

/// A lowercase hexadecimal digit.
pub open spec fn hex_digit(d: nat) -> char {
    if d < 10 {
        (d + 48) as char
    } else {
        (d + 87) as char
    }
}

/// How serde_json writes one character inside a string literal: `"` and `\`
/// are escaped, U+0008, U+0009, U+000A, U+000C and U+000D become `\b`, `\t`,
/// `\n`, `\f` and `\r`, every other character below U+0020 becomes `\u00XX`
/// with lowercase hexadecimal digits, and everything else is kept.
pub open spec fn json_char_text(c: char) -> Seq<char> {
    let u = c as u32;
    if c == '"' {
        seq!['\\', '"']
    } else if c == '\\' {
        seq!['\\', '\\']
    } else if u == 0x08 {
        seq!['\\', 'b']
    } else if u == 0x09 {
        seq!['\\', 't']
    } else if u == 0x0a {
        seq!['\\', 'n']
    } else if u == 0x0c {
        seq!['\\', 'f']
    } else if u == 0x0d {
        seq!['\\', 'r']
    } else if u < 0x20 {
        seq!['\\', 'u', '0', '0', hex_digit((u / 16) as nat), hex_digit((u % 16) as nat)]
    } else {
        seq![c]
    }
}

/// The escaped characters of a string literal's body.
pub open spec fn json_escaped(s: Seq<char>) -> Seq<char>
    decreases s.len(),
{
    if s.len() == 0 {
        Seq::<char>::empty()
    } else {
        json_char_text(s[0]) + json_escaped(s.drop_first())
    }
}

/// The JSON string literal for `s`, as `serde_json::to_string` writes it:
/// the escaped characters between double quotes.
pub open spec fn json_string_literal(s: Seq<char>) -> Seq<char> {
    seq!['"'] + json_escaped(s) + seq!['"']
}

/// `serde_json::to_string` of a string slice: the string literal of `s`,
/// escaped as serde_json's escape table does. Serializing a string cannot
/// fail, so the default is never used.
#[verifier::external_body]
fn string_literal(s: &str) -> (r: String)
    ensures
        r@ == json_string_literal(s@),
{
    serde_json::to_string(s).unwrap_or_default()
}

// The pieces of compact JSON text, each written by serde_json's
// `CompactFormatter` into a byte buffer and appended; writing to a `Vec`
// cannot fail and the pieces are ASCII, so no default is ever used.

/// `CompactFormatter::write_null`: appends `null`.
#[verifier::external_body]
fn write_null(out: &mut String)
    ensures
        final(out)@ == old(out)@ + "null"@,
{
    let mut bytes: Vec<u8> = Vec::new();
    let _ = CompactFormatter.write_null(&mut bytes);
    out.push_str(std::str::from_utf8(&bytes).unwrap_or_default());
}

/// `CompactFormatter::write_bool`: appends `true` or `false`.
#[verifier::external_body]
fn write_bool(out: &mut String, value: bool)
    ensures
        final(out)@ == old(out)@ + if value {
            "true"@
        } else {
            "false"@
        },
{
    let mut bytes: Vec<u8> = Vec::new();
    let _ = CompactFormatter.write_bool(&mut bytes, value);
    out.push_str(std::str::from_utf8(&bytes).unwrap_or_default());
}

/// `CompactFormatter::write_u64`: appends the decimal digits of `value`
/// (itoa, no leading zeros).
#[verifier::external_body]
fn write_u64(out: &mut String, value: u64)
    ensures
        final(out)@ == old(out)@ + decimal(value as nat),
{
    let mut bytes: Vec<u8> = Vec::new();
    let _ = CompactFormatter.write_u64(&mut bytes, value);
    out.push_str(std::str::from_utf8(&bytes).unwrap_or_default());
}

/// `CompactFormatter::write_i64`: appends `value` in decimal, with a `-`
/// sign when it is negative (itoa).
#[verifier::external_body]
fn write_i64(out: &mut String, value: i64)
    ensures
        final(out)@ == old(out)@ + if value < 0 {
            seq!['-'] + decimal((-value) as nat)
        } else {
            decimal(value as nat)
        },
{
    let mut bytes: Vec<u8> = Vec::new();
    let _ = CompactFormatter.write_i64(&mut bytes, value);
    out.push_str(std::str::from_utf8(&bytes).unwrap_or_default());
}

/// `CompactFormatter::begin_array`: appends `[`.
#[verifier::external_body]
fn begin_array(out: &mut String)
    ensures
        final(out)@ == old(out)@ + seq!['['],
{
    let mut bytes: Vec<u8> = Vec::new();
    let _ = CompactFormatter.begin_array(&mut bytes);
    out.push_str(std::str::from_utf8(&bytes).unwrap_or_default());
}

/// `CompactFormatter::begin_array_value`: appends `,` before every element
/// but the first.
#[verifier::external_body]
fn begin_array_value(out: &mut String, first: bool)
    ensures
        final(out)@ == old(out)@ + if first {
            Seq::<char>::empty()
        } else {
            seq![',']
        },
{
    let mut bytes: Vec<u8> = Vec::new();
    let _ = CompactFormatter.begin_array_value(&mut bytes, first);
    out.push_str(std::str::from_utf8(&bytes).unwrap_or_default());
}

/// `CompactFormatter::end_array`: appends `]`.
#[verifier::external_body]
fn end_array(out: &mut String)
    ensures
        final(out)@ == old(out)@ + seq![']'],
{
    let mut bytes: Vec<u8> = Vec::new();
    let _ = CompactFormatter.end_array(&mut bytes);
    out.push_str(std::str::from_utf8(&bytes).unwrap_or_default());
}

/// `CompactFormatter::begin_object`: appends `{`.
#[verifier::external_body]
fn begin_object(out: &mut String)
    ensures
        final(out)@ == old(out)@ + seq!['{'],
{
    let mut bytes: Vec<u8> = Vec::new();
    let _ = CompactFormatter.begin_object(&mut bytes);
    out.push_str(std::str::from_utf8(&bytes).unwrap_or_default());
}

/// `CompactFormatter::begin_object_key`: appends `,` before every member
/// but the first.
#[verifier::external_body]
fn begin_object_key(out: &mut String, first: bool)
    ensures
        final(out)@ == old(out)@ + if first {
            Seq::<char>::empty()
        } else {
            seq![',']
        },
{
    let mut bytes: Vec<u8> = Vec::new();
    let _ = CompactFormatter.begin_object_key(&mut bytes, first);
    out.push_str(std::str::from_utf8(&bytes).unwrap_or_default());
}

/// `CompactFormatter::begin_object_value`: appends `:`.
#[verifier::external_body]
fn begin_object_value(out: &mut String)
    ensures
        final(out)@ == old(out)@ + seq![':'],
{
    let mut bytes: Vec<u8> = Vec::new();
    let _ = CompactFormatter.begin_object_value(&mut bytes);
    out.push_str(std::str::from_utf8(&bytes).unwrap_or_default());
}

/// `CompactFormatter::end_object`: appends `}`.
#[verifier::external_body]
fn end_object(out: &mut String)
    ensures
        final(out)@ == old(out)@ + seq!['}'],
{
    let mut bytes: Vec<u8> = Vec::new();
    let _ = CompactFormatter.end_object(&mut bytes);
    out.push_str(std::str::from_utf8(&bytes).unwrap_or_default());
}

impl JsonValue {
    pub fn get(&self, key: &str) -> (r: Option<&JsonValue>)
        ensures
            match r {
                Some(x) => get(*self, key@) == Some(*x),
                None => get(*self, key@) is None,
            },
    {
        match self {
            JsonValue::Object(entries) => lookup_member(entries, key),
            _ => None,
        }
    }

    pub fn as_u64(&self) -> (r: Option<u64>)
        ensures
            r == as_u64(*self),
    {
        match self {
            JsonValue::Number(JsonNumber::PosInt(n)) => Some(*n),
            _ => None,
        }
    }

    pub fn as_str(&self) -> (r: Option<&str>)
        ensures
            match r {
                Some(s) => as_text(*self) == Some(s@),
                None => as_text(*self) is None,
            },
    {
        match self {
            JsonValue::Str(s) => Some(s.as_str()),
            _ => None,
        }
    }

    pub fn as_object(&self) -> (r: Option<&Vec<(String, JsonValue)>>)
        ensures
            match r {
                Some(m) => as_members(*self) == Some(m@),
                None => as_members(*self) is None,
            },
    {
        match self {
            JsonValue::Object(entries) => Some(entries),
            _ => None,
        }
    }

    pub fn is_null(&self) -> (r: bool)
        ensures
            r == (*self is Null),
    {
        match self {
            JsonValue::Null => true,
            _ => false,
        }
    }
}

/// The value stored under `key` in a member list.
pub fn lookup_member<'a>(entries: &'a Vec<(String, JsonValue)>, key: &str) -> (r: Option<&'a JsonValue>)
    ensures
        match r {
            Some(x) => lookup(entries@, key@) == Some(*x),
            None => lookup(entries@, key@) is None,
        },
{
    let wanted = key.to_owned();
    let mut i: usize = 0;
    assert(entries@.skip(0) =~= entries@);
    while i < entries.len()
        invariant
            0 <= i <= entries@.len(),
            wanted@ == key@,
            lookup(entries@, key@) == lookup(entries@.skip(i as int), key@),
        decreases entries@.len() - i,
    {
        assert(entries@.skip(i as int)[0] == entries@[i as int]);
        if entries[i].0 == wanted {
            return Some(&entries[i].1);
        }
        assert(entries@.skip(i as int).drop_first() =~= entries@.skip(i + 1));
        i += 1;
    }
    None
}

} // verus!

verus! {

fn pointer_index_of(chars: &Vec<char>) -> (r: Option<usize>)
    ensures
        r == pointer_index(chars@),
{
    if chars.len() > 0 && (chars[0] == '+' || (chars[0] == '0' && chars.len() != 1)) {
        None
    } else {
        let r = crate::text::parse_usize_range(chars, 0, chars.len());
        assert(chars@.subrange(0, chars@.len() as int) =~= chars@);
        r
    }
}

/// One step of `Value::pointer`.
pub fn pointer_step_of<'a>(v: &'a JsonValue, token: &str) -> (r: Option<&'a JsonValue>)
    ensures
        match r {
            Some(x) => pointer_step(*v, token@) == Some(*x),
            None => pointer_step(*v, token@) is None,
        },
{
    match v {
        JsonValue::Object(entries) => lookup_member(entries, token),
        JsonValue::Array(items) => {
            let chars = crate::text::chars_of(token);
            match pointer_index_of(&chars) {
                Some(i) => if i < items.len() {
                    Some(&items[i])
                } else {
                    None
                },
                None => None,
            }
        },
        _ => None,
    }
}

/// `Value::pointer` along the reference tokens `tokens`.
pub fn pointer_of<'a>(v: &'a JsonValue, tokens: &[&str]) -> (r: Option<&'a JsonValue>)
    ensures
        match r {
            Some(x) => pointer(*v, token_views(tokens@)) == Some(*x),
            None => pointer(*v, token_views(tokens@)) is None,
        },
{
    let ghost all = token_views(tokens@);
    let mut cur: &JsonValue = v;
    let mut i: usize = 0;
    assert(all.skip(0) =~= all);
    while i < tokens.len()
        invariant
            0 <= i <= tokens@.len(),
            all == token_views(tokens@),
            pointer(*v, all) == pointer(*cur, all.skip(i as int)),
        decreases tokens@.len() - i,
    {
        assert(all.skip(i as int)[0] == tokens@[i as int]@);
        assert(all.skip(i as int).drop_first() =~= all.skip(i + 1));
        match pointer_step_of(cur, tokens[i]) {
            Some(next) => {
                cur = next;
            },
            None => {
                return None;
            },
        }
        i += 1;
    }
    assert(all.skip(tokens@.len() as int) =~= Seq::<Seq<char>>::empty());
    Some(cur)
}

// ---------------------------------------------------------------------------
// Compact JSON text
// ---------------------------------------------------------------------------

/// The compact JSON text of a value (no whitespace; members in iteration
/// order), as `serde_json::to_string` and `Value`'s `Display` write it.
pub open spec fn json_text(v: JsonValue) -> Seq<char>
    decreases v,
{
    match v {
        JsonValue::Null => "null"@,
        JsonValue::Bool(b) => if b {
            "true"@
        } else {
            "false"@
        },
        JsonValue::Number(n) => number_text(n),
        JsonValue::Str(s) => json_string_literal(s@),
        JsonValue::Array(items) => seq!['['] + items_text(items@) + seq![']'],
        JsonValue::Object(entries) => seq!['{'] + members_text(entries@) + seq!['}'],
    }
}

/// The comma-separated texts of array elements.
pub open spec fn items_text(items: Seq<JsonValue>) -> Seq<char>
    decreases items,
{
    if items.len() == 0 {
        Seq::<char>::empty()
    } else if items.len() == 1 {
        json_text(items[0])
    } else {
        items_text(items.drop_last()) + seq![','] + json_text(items.last())
    }
}

/// The comma-separated `"key":value` texts of object members.
pub open spec fn members_text(entries: Seq<(String, JsonValue)>) -> Seq<char>
    decreases entries,
{
    if entries.len() == 0 {
        Seq::<char>::empty()
    } else if entries.len() == 1 {
        json_string_literal(entries[0].0@) + seq![':'] + json_text(entries[0].1)
    } else {
        members_text(entries.drop_last()) + seq![','] + json_string_literal(entries.last().0@)
            + seq![':'] + json_text(entries.last().1)
    }
}

} // verus!

verus! {

/// Appends the display text of a number to `out`.
pub fn push_number_text(out: &mut String, n: &JsonNumber)
    ensures
        final(out)@ == old(out)@ + number_text(*n),
{
    match n {
        JsonNumber::PosInt(u) => write_u64(out, *u),
        JsonNumber::NegInt(i) => write_i64(out, *i),
        JsonNumber::Float(t) => out.append(t.as_str()),
    }
}

/// Appends the compact JSON text of `v` to `out`.
pub fn push_json_text(out: &mut String, v: &JsonValue)
    ensures
        final(out)@ == old(out)@ + json_text(*v),
    decreases v,
{
    match v {
        JsonValue::Null => write_null(out),
        JsonValue::Bool(b) => write_bool(out, *b),
        JsonValue::Number(n) => push_number_text(out, n),
        JsonValue::Str(s) => {
            let literal = string_literal(s.as_str());
            out.append(literal.as_str());
        },
        JsonValue::Array(items) => {
            let ghost start = out@;
            begin_array(out);
            let mut i: usize = 0;
            assert(items@.take(0) =~= Seq::<JsonValue>::empty());
            while i < items.len()
                invariant
                    0 <= i <= items@.len(),
                    out@ == start + seq!['['] + items_text(items@.take(i as int)),
                    *v == JsonValue::Array(*items),
                decreases items@.len() - i,
            {
                assert(items@.take(i + 1).drop_last() =~= items@.take(i as int));
                assert(items@.take(i + 1).last() == items@[i as int]);
                begin_array_value(out, i == 0);
                if i == 0 {
                    assert(items@.take(1)[0] == items@[0]);
                }
                proof {
                    assert(decreases_to!(*v => (*v)->Array_0));
                    assert(decreases_to!(items@ => items@[i as int]));
                }
                push_json_text(out, &items[i]);
                i += 1;
            }
            assert(items@.take(items@.len() as int) =~= items@);
            end_array(out);
        },
        JsonValue::Object(entries) => {
            let ghost start = out@;
            begin_object(out);
            let mut i: usize = 0;
            assert(entries@.take(0) =~= Seq::<(String, JsonValue)>::empty());
            while i < entries.len()
                invariant
                    0 <= i <= entries@.len(),
                    out@ == start + seq!['{'] + members_text(entries@.take(i as int)),
                    *v == JsonValue::Object(*entries),
                decreases entries@.len() - i,
            {
                assert(entries@.take(i + 1).drop_last() =~= entries@.take(i as int));
                assert(entries@.take(i + 1).last() == entries@[i as int]);
                begin_object_key(out, i == 0);
                if i == 0 {
                    assert(entries@.take(1)[0] == entries@[0]);
                }
                let key = string_literal(entries[i].0.as_str());
                out.append(key.as_str());
                begin_object_value(out);
                proof {
                    assert(decreases_to!(*v => (*v)->Object_0));
                    assert(decreases_to!(entries@[i as int] => entries@[i as int].1));
                }
                push_json_text(out, &entries[i].1);
                i += 1;
            }
            assert(entries@.take(entries@.len() as int) =~= entries@);
            end_object(out);
        },
    }
}

/// The compact JSON text of `v` (`serde_json::to_string`).
pub fn json_text_of(v: &JsonValue) -> (s: String)
    ensures
        s@ == json_text(*v),
{
    let mut s = String::new();
    push_json_text(&mut s, v);
    s
}

} // verus!
