//! Caller values bound as TEXT parameters, and PostgreSQL array literals.

use vstd::prelude::*;
use crate::error::{PlanError, PlanFailure};
use crate::json::{JsonValue, json_text, json_text_of};
use crate::text::{chars_of, push_char, upper_seq};

verus! {

/// One value sent as a separately bound TEXT parameter (`None` is SQL NULL).
#[derive(Debug)]
pub struct BoundText {
    pub value: Option<String>,
}

impl View for BoundText {
    type V = Option<Seq<char>>;

    open spec fn view(&self) -> Option<Seq<char>> {
        match self.value {
            Some(s) => Some(s@),
            None => None,
        }
    }
}

/// The models of a list of bound values.
pub open spec fn bound_views(values: Seq<BoundText>) -> Seq<Option<Seq<char>>> {
    values.map_values(|b: BoundText| b@)
}

/// The text of a scalar argument: a JSON string as it is, any other value as
/// its compact JSON text.
pub open spec fn scalar_text(v: JsonValue) -> Seq<char> {
    match v {
        JsonValue::Str(s) => s@,
        _ => json_text(v),
    }
}

/// What one character of an array element becomes inside its double quotes:
/// `"` and `\` are preceded by a backslash.
pub open spec fn element_piece(c: char) -> Seq<char> {
    if c == '"' || c == '\\' {
        seq!['\\', c]
    } else {
        seq![c]
    }
}

pub open spec fn escape_element(s: Seq<char>) -> Seq<char>
    decreases s.len(),
{
    if s.len() == 0 {
        Seq::<char>::empty()
    } else {
        element_piece(s[0]) + escape_element(s.drop_first())
    }
}

/// The literal of one array element: `NULL`, a nested array literal, or the
/// escaped scalar text in double quotes.
pub open spec fn element_literal(v: JsonValue) -> Seq<char>
    decreases v,
{
    match v {
        JsonValue::Null => "NULL"@,
        JsonValue::Array(items) => seq!['{'] + elements_literal(items@) + seq!['}'],
        _ => seq!['"'] + escape_element(scalar_text(v)) + seq!['"'],
    }
}

/// The comma-separated literals of array elements.
pub open spec fn elements_literal(items: Seq<JsonValue>) -> Seq<char>
    decreases items,
{
    if items.len() == 0 {
        Seq::<char>::empty()
    } else if items.len() == 1 {
        element_literal(items[0])
    } else {
        elements_literal(items.drop_last()) + seq![','] + element_literal(items.last())
    }
}

/// The PostgreSQL array literal of a JSON array: `{` elements `}`.
pub open spec fn array_literal(items: Seq<JsonValue>) -> Seq<char> {
    seq!['{'] + elements_literal(items) + seq!['}']
}

/// `postgres_array_literal` as a function of the argument: only a JSON array
/// has one.
pub open spec fn array_literal_of(value: JsonValue) -> Result<Seq<char>, PlanFailure> {
    match value {
        JsonValue::Array(items) => Ok(array_literal(items@)),
        _ => Err(PlanFailure::ArrayArgumentNotArray),
    }
}

/// The parameter text bound for an argument: SQL NULL for JSON null, an array
/// literal for an array-typed argument, the scalar text otherwise.
pub open spec fn bound_text(value: JsonValue, array: bool) -> Result<Option<Seq<char>>, PlanFailure> {
    if value is Null {
        Ok(None)
    } else if array {
        match array_literal_of(value) {
            Ok(t) => Ok(Some(t)),
            Err(e) => Err(e),
        }
    } else {
        Ok(Some(scalar_text(value)))
    }
}

pub proof fn lemma_escape_element_push(s: Seq<char>, c: char)
    ensures
        escape_element(s.push(c)) == escape_element(s) + element_piece(c),
    decreases s.len(),
{
    if s.len() == 0 {
        assert(s.push(c).drop_first() =~= Seq::<char>::empty());
        assert(s.push(c)[0] == c);
        assert(escape_element(Seq::<char>::empty()) =~= Seq::<char>::empty());
        assert(escape_element(s) =~= Seq::<char>::empty());
        assert(escape_element(s.push(c)) =~= element_piece(c) + Seq::<char>::empty());
    } else {
        lemma_escape_element_push(s.drop_first(), c);
        assert(s.push(c).drop_first() =~= s.drop_first().push(c));
        assert(s.push(c)[0] == s[0]);
        assert(escape_element(s.push(c)) =~= element_piece(s[0]) + (escape_element(
            s.drop_first(),
        ) + element_piece(c)));
    }
}

/// The scalar text of an argument.
pub fn scalar_text_of(v: &JsonValue) -> (s: String)
    ensures
        s@ == scalar_text(*v),
{
    match v {
        JsonValue::Str(s) => s.clone(),
        _ => json_text_of(v),
    }
}

/// Appends `"` + escaped `text` + `"` to `out`.
fn push_quoted_element(out: &mut String, text: &str)
    ensures
        final(out)@ == old(out)@ + seq!['"'] + escape_element(text@) + seq!['"'],
{
    let ghost start = out@;
    let chars = chars_of(text);
    push_char(out, '"');
    let mut i: usize = 0;
    assert(chars@.take(0) =~= Seq::<char>::empty());
    while i < chars.len()
        invariant
            0 <= i <= chars@.len(),
            out@ == start + seq!['"'] + escape_element(chars@.take(i as int)),
        decreases chars@.len() - i,
    {
        let c = chars[i];
        proof {
            lemma_escape_element_push(chars@.take(i as int), c);
            assert(chars@.take(i + 1) =~= chars@.take(i as int).push(c));
        }
        if c == '"' || c == '\\' {
            push_char(out, '\\');
        }
        push_char(out, c);
        i += 1;
    }
    assert(chars@.take(chars@.len() as int) =~= chars@);
    push_char(out, '"');
}

/// Appends the comma-separated element literals of `items` to `out`.
fn push_elements(out: &mut String, items: &Vec<JsonValue>)
    ensures
        final(out)@ == old(out)@ + elements_literal(items@),
    decreases items@,
{
    let ghost start = out@;
    let mut i: usize = 0;
    assert(items@.take(0) =~= Seq::<JsonValue>::empty());
    while i < items.len()
        invariant
            0 <= i <= items@.len(),
            out@ == start + elements_literal(items@.take(i as int)),
        decreases items@.len() - i,
    {
        assert(items@.take(i + 1).drop_last() =~= items@.take(i as int));
        assert(items@.take(i + 1).last() == items@[i as int]);
        if i > 0 {
            push_char(out, ',');
        } else {
            assert(items@.take(1)[0] == items@[0]);
        }
        let item = &items[i];
        match item {
            JsonValue::Null => {
                out.append("NULL");
                assert(element_literal(items@[i as int]) == "NULL"@);
            },
            JsonValue::Array(inner) => {
                push_char(out, '{');
                proof {
                    assert(decreases_to!(items@[i as int] => items@[i as int]->Array_0));
                }
                let ghost before = out@;
                push_elements(out, inner);
                push_char(out, '}');
                assert(element_literal(items@[i as int]) == seq!['{'] + elements_literal(inner@)
                    + seq!['}']);
                assert(out@ =~= before + elements_literal(inner@) + seq!['}']);
            },
            _ => {
                let text = scalar_text_of(item);
                push_quoted_element(out, text.as_str());
                assert(element_literal(items@[i as int]) == seq!['"'] + escape_element(
                    scalar_text(items@[i as int]),
                ) + seq!['"']);
            },
        }
        i += 1;
    }
    assert(items@.take(items@.len() as int) =~= items@);
}

/// `postgres_array_literal`: the PostgreSQL array literal of a JSON array,
/// written without any SQL interpolation; any other value is refused.
pub fn postgres_array_literal(value: &JsonValue) -> (r: Result<String, PlanError>)
    ensures
        match r {
            Ok(s) => array_literal_of(*value) == Ok::<Seq<char>, PlanFailure>(s@),
            Err(e) => array_literal_of(*value) == Err::<Seq<char>, PlanFailure>(e@),
        },
{
    match value {
        JsonValue::Array(items) => {
            let mut out = String::new();
            push_char(&mut out, '{');
            push_elements(&mut out, items);
            push_char(&mut out, '}');
            assert(out@ =~= array_literal(items@));
            Ok(out)
        },
        _ => Err(PlanError::ArrayArgumentNotArray),
    }
}

impl BoundText {
    /// The parameter text bound for `value`; `array` selects the PostgreSQL
    /// array-literal encoding.
    pub fn from_json(value: &JsonValue, array: bool) -> (r: Result<BoundText, PlanError>)
        ensures
            match r {
                Ok(b) => bound_text(*value, array) == Ok::<Option<Seq<char>>, PlanFailure>(b@),
                Err(e) => bound_text(*value, array) == Err::<Option<Seq<char>>, PlanFailure>(e@),
            },
    {
        if value.is_null() {
            Ok(BoundText { value: None })
        } else if array {
            match postgres_array_literal(value) {
                Ok(s) => Ok(BoundText { value: Some(s) }),
                Err(e) => Err(e),
            }
        } else {
            Ok(BoundText { value: Some(scalar_text_of(value)) })
        }
    }
}

} // verus!

verus! {

/// The library's model of PostgreSQL's array input, for literals without
/// whitespace around elements and without a dimension prefix (the form this
/// library writes). It reads the rest of a double-quoted element after its
/// opening quote: a backslash makes the next character literal, and an
/// unescaped `"` closes the element. The result is the text read and the
/// number of characters consumed, closing quote included.
pub open spec fn read_quoted_element(t: Seq<char>) -> Option<(Seq<char>, nat)>
    decreases t.len(),
{
    if t.len() == 0 {
        None
    } else if t[0] == '\\' {
        if t.len() >= 2 {
            match read_quoted_element(t.subrange(2, t.len() as int)) {
                Some((text, n)) => Some((seq![t[1]] + text, n + 2)),
                None => None,
            }
        } else {
            None
        }
    } else if t[0] == '"' {
        Some((Seq::<char>::empty(), 1))
    } else {
        match read_quoted_element(t.drop_first()) {
            Some((text, n)) => Some((seq![t[0]] + text, n + 1)),
            None => None,
        }
    }
}

/// A quoted array element is read back as exactly the argument's text, and
/// the element ends exactly at its closing quote, whatever follows it.
pub proof fn quoted_element_reads_back(text: Seq<char>, rest: Seq<char>)
    ensures
        read_quoted_element(escape_element(text) + seq!['"'] + rest) == Some(
            (text, escape_element(text).len() + 1),
        ),
    decreases text.len(),
{
    let t = escape_element(text) + seq!['"'] + rest;
    if text.len() == 0 {
        assert(t =~= seq!['"'] + rest);
    } else {
        let tail = text.drop_first();
        quoted_element_reads_back(tail, rest);
        let u = escape_element(tail) + seq!['"'] + rest;
        let c = text[0];
        if c == '"' || c == '\\' {
            assert(t =~= seq!['\\', c] + u);
            assert(t.subrange(2, t.len() as int) =~= u);
        } else {
            assert(t =~= seq![c] + u);
            assert(t.drop_first() =~= u);
        }
        assert(seq![c] + tail =~= text);
    }
}

/// An element of an array value in the model of PostgreSQL's array input:
/// SQL NULL, a text element, or a nested array.
pub enum ArrayElement {
    SqlNull,
    Text(Seq<char>),
    Nested(Seq<ArrayElement>),
}

/// The number of leading characters of an unquoted element: it runs up to
/// the next `,` or `}`.
pub open spec fn bare_length(t: Seq<char>) -> nat
    decreases t.len(),
{
    if t.len() == 0 || t[0] == ',' || t[0] == '}' {
        0
    } else {
        1 + bare_length(t.drop_first())
    }
}

/// The model's reading of one element at the start of `t`: a double-quoted
/// element, a nested `{..}` array, or an unquoted word, where the word `NULL`
/// (in any ASCII case) is SQL NULL. The result is the element and the number of
/// characters it took.
pub open spec fn read_element(t: Seq<char>) -> Option<(ArrayElement, nat)>
    decreases t.len(), 1nat,
{
    if t.len() == 0 {
        None
    } else if t[0] == '"' {
        match read_quoted_element(t.drop_first()) {
            Some((text, n)) => Some((ArrayElement::Text(text), n + 1)),
            None => None,
        }
    } else if t[0] == '{' {
        match read_array(t) {
            Some((items, n)) => Some((ArrayElement::Nested(items), n)),
            None => None,
        }
    } else {
        let k = bare_length(t);
        if k == 0 {
            None
        } else if upper_seq(t.take(k as int)) == "NULL"@ {
            Some((ArrayElement::SqlNull, k))
        } else {
            Some((ArrayElement::Text(t.take(k as int)), k))
        }
    }
}

/// Reads `element (, element)* }` at the start of `t`.
pub open spec fn read_list(t: Seq<char>) -> Option<(Seq<ArrayElement>, nat)>
    decreases t.len(), 2nat,
{
    match read_element(t) {
        Some((e, n)) => if n < t.len() {
            if t[n as int] == ',' {
                match read_list(t.subrange(n + 1 as int, t.len() as int)) {
                    Some((es, m)) => Some((seq![e] + es, n + 1 + m)),
                    None => None,
                }
            } else if t[n as int] == '}' {
                Some((seq![e], n + 1))
            } else {
                None
            }
        } else {
            None
        },
        None => None,
    }
}

/// The model's reading of a `{..}` array value at the start of `t`: its
/// elements, and the number of characters the array took. PostgreSQL also
/// refuses arrays whose sub-arrays differ in shape; the model does not check
/// that, and the law below is stated for rectangular arrays only.
pub open spec fn read_array(t: Seq<char>) -> Option<(Seq<ArrayElement>, nat)>
    decreases t.len(), 0nat,
{
    if t.len() >= 2 && t[0] == '{' {
        if t[1] == '}' {
            Some((Seq::<ArrayElement>::empty(), 2))
        } else {
            match read_list(t.drop_first()) {
                Some((items, n)) => Some((items, n + 1)),
                None => None,
            }
        }
    } else {
        None
    }
}

/// What PostgreSQL holds for one JSON array element: SQL NULL for `null`, a
/// nested array for an array, and the scalar text of anything else.
pub open spec fn element_shape(v: JsonValue) -> ArrayElement
    decreases v,
{
    match v {
        JsonValue::Null => ArrayElement::SqlNull,
        JsonValue::Array(items) => ArrayElement::Nested(items_shape(items@)),
        _ => ArrayElement::Text(scalar_text(v)),
    }
}

pub open spec fn items_shape(items: Seq<JsonValue>) -> Seq<ArrayElement>
    decreases items,
{
    if items.len() == 0 {
        Seq::<ArrayElement>::empty()
    } else {
        seq![element_shape(items[0])] + items_shape(items.drop_first())
    }
}

proof fn lemma_elements_literal_front(items: Seq<JsonValue>)
    requires
        items.len() >= 1,
    ensures
        items.len() == 1 ==> elements_literal(items) == element_literal(items[0]),
        items.len() >= 2 ==> elements_literal(items) == element_literal(items[0]) + seq![',']
            + elements_literal(items.drop_first()),
    decreases items.len(),
{
    if items.len() >= 3 {
        let init = items.drop_last();
        lemma_elements_literal_front(init);
        assert(init.drop_first() =~= items.drop_first().drop_last());
        assert(items.drop_first().last() == items.last());
        assert(init[0] == items[0]);
    } else if items.len() == 2 {
        assert(items.drop_last() =~= seq![items[0]]);
        assert(items.drop_first() =~= seq![items[1]]);
        assert(elements_literal(items.drop_first()) == element_literal(items[1]));
        assert(elements_literal(items.drop_last()) == element_literal(items[0]));
    }
}

proof fn lemma_element_literal_start(v: JsonValue)
    ensures
        element_literal(v).len() >= 2,
        element_literal(v)[0] == 'N' || element_literal(v)[0] == '{' || element_literal(v)[0]
            == '"',
{
    reveal_strlit("NULL");
}

proof fn lemma_element_reads_back(v: JsonValue, rest: Seq<char>)
    requires
        rest.len() > 0,
        rest[0] == ',' || rest[0] == '}',
    ensures
        read_element(element_literal(v) + rest) == Some((element_shape(v), element_literal(v).len())),
    decreases v, 2nat,
{
    let t = element_literal(v) + rest;
    match v {
        JsonValue::Null => {
            reveal_strlit("NULL");
            assert(t =~= seq!['N', 'U', 'L', 'L'] + rest);
            assert(t.drop_first().drop_first().drop_first().drop_first() =~= rest);
            assert(bare_length(t.drop_first().drop_first().drop_first().drop_first()) == 0);
            assert(bare_length(t.drop_first().drop_first().drop_first()) == 1);
            assert(bare_length(t.drop_first().drop_first()) == 2);
            assert(bare_length(t.drop_first()) == 3);
            assert(bare_length(t) == 4);
            assert(t.take(4) =~= "NULL"@);
            assert(upper_seq(t.take(4)) =~= "NULL"@);
        },
        JsonValue::Array(items) => {
            assert(decreases_to!(v => items@));
            lemma_array_reads_back(items@, rest);
            assert(element_literal(v) == array_literal(items@));
        },
        _ => {
            let s = scalar_text(v);
            quoted_element_reads_back(s, rest);
            assert(t.drop_first() =~= escape_element(s) + seq!['"'] + rest);
        },
    }
}

proof fn lemma_list_reads_back(items: Seq<JsonValue>, rest: Seq<char>)
    requires
        items.len() >= 1,
    ensures
        read_list(elements_literal(items) + seq!['}'] + rest) == Some(
            (items_shape(items), elements_literal(items).len() + 1),
        ),
    decreases items, 0nat,
{
    let t = elements_literal(items) + seq!['}'] + rest;
    let first = items[0];
    let l = element_literal(first).len();
    lemma_elements_literal_front(items);
    let tail = items.drop_first();
    if items.len() == 1 {
        lemma_element_reads_back(first, seq!['}'] + rest);
        assert(t =~= element_literal(first) + (seq!['}'] + rest));
        assert(t[l as int] == '}');
        assert(items_shape(tail) =~= Seq::<ArrayElement>::empty());
        assert(items_shape(items) =~= seq![element_shape(first)]);
    } else {
        let after = seq![','] + elements_literal(tail) + seq!['}'] + rest;
        lemma_element_reads_back(first, after);
        assert(t =~= element_literal(first) + after);
        assert(t[l as int] == ',');
        assert(t.subrange(l + 1 as int, t.len() as int) =~= elements_literal(tail) + seq!['}'] + rest);
        lemma_list_reads_back(tail, rest);
    }
}

proof fn lemma_array_reads_back(items: Seq<JsonValue>, rest: Seq<char>)
    ensures
        read_array(array_literal(items) + rest) == Some((items_shape(items), array_literal(items).len())),
    decreases items, 1nat,
{
    let t = array_literal(items) + rest;
    if items.len() == 0 {
        assert(elements_literal(items) =~= Seq::<char>::empty());
        assert(t =~= seq!['{', '}'] + rest);
    } else {
        lemma_elements_literal_front(items);
        lemma_element_literal_start(items[0]);
        assert(t.drop_first() =~= elements_literal(items) + seq!['}'] + rest);
        assert(t[1] == element_literal(items[0])[0]);
        lemma_list_reads_back(items, rest);
    }
}

/// The dimensions of a JSON value read as an array: its length, then the
/// dimensions of its first element; nothing for a scalar.
pub open spec fn array_dims(v: JsonValue) -> Seq<nat>
    decreases v,
{
    match v {
        JsonValue::Array(items) => if items@.len() == 0 {
            seq![0nat]
        } else {
            seq![items@.len()] + array_dims(items@[0])
        },
        _ => Seq::<nat>::empty(),
    }
}

/// Whether a JSON value is a rectangular array (or a scalar): every element
/// of an array has the dimensions of the first, and is rectangular itself.
pub open spec fn rectangular(v: JsonValue) -> bool
    decreases v,
{
    match v {
        JsonValue::Array(items) => items@.len() == 0 || rectangular_items(
            items@,
            array_dims(items@[0]),
        ),
        _ => true,
    }
}

pub open spec fn rectangular_items(items: Seq<JsonValue>, dims: Seq<nat>) -> bool
    decreases items,
{
    if items.len() == 0 {
        true
    } else {
        array_dims(items[0]) == dims && rectangular(items[0]) && rectangular_items(
            items.drop_first(),
            dims,
        )
    }
}

/// In the model of PostgreSQL's array input, the array literal of a
/// rectangular JSON array is read back as an array of the same shape: every
/// string as its own text (the string `NULL` too), every other scalar as its
/// JSON text, and SQL NULL exactly where the array holds JSON `null`; the
/// literal is read to its last character.
pub proof fn array_literal_reads_back(value: JsonValue)
    requires
        value is Array,
        rectangular(value),
    ensures
        array_literal_of(value) matches Ok(t) && read_array(t) == Some(
            (items_shape(value->Array_0@), t.len()),
        ),
{
    let items = value->Array_0@;
    lemma_array_reads_back(items, Seq::<char>::empty());
    assert(array_literal(items) + Seq::<char>::empty() =~= array_literal(items));
}

} // verus!
