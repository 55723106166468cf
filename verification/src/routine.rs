//! Calling a catalog routine with caller-supplied arguments bound as TEXT
//! parameters and cast by the statement to each argument's declared type.

use vstd::prelude::*;
use crate::binding::{BoundText, bound_text, bound_views};
use crate::endpoint::EndpointRecord;
use crate::error::{PlanError, PlanFailure};
use crate::identifier::{quote_identifier, quoted_identifier};
use crate::json::{
    JsonValue, as_members, as_text, get, lookup, lookup_member, pointer, pointer_of, token_views,
};
use crate::text::{
    CharClass, ascii_lower, chars_of, decimal, is_ascii_alphanumeric, is_ascii_alphanumeric_char, join,
    leading_run_end, lower_seq, eq_ignore_ascii_case, parse_usize, parse_usize_range,
    push_decimal, push_joined, strip_leading, strip_trailing, to_ascii_lower, trailing_run_start, trim_end,
    trim_matches, views,
};

verus! {

// ---------------------------------------------------------------------------
// Declared argument types
// ---------------------------------------------------------------------------

/// Whether a schema's `type` is `expected`, or is a list holding `expected`.
pub open spec fn includes_type(schema: JsonValue, expected: Seq<char>) -> bool {
    match get(schema, "type"@) {
        Some(JsonValue::Str(s)) => s@ == expected,
        Some(JsonValue::Array(items)) => exists|i: int|
            0 <= i < items@.len() && as_text(#[trigger] items@[i]) == Some(expected),
        _ => false,
    }
}

/// `type_includes`: whether a schema's `type` is `expected`, or is a list
/// holding `expected`.
pub fn type_includes(schema: &JsonValue, expected: &str) -> (r: bool)
    ensures
        r == includes_type(*schema, expected@),
{
    let wanted = expected.to_owned();
    match schema.get("type") {
        Some(JsonValue::Str(s)) => *s == wanted,
        Some(JsonValue::Array(items)) => {
            let mut i: usize = 0;
            while i < items.len()
                invariant
                    0 <= i <= items@.len(),
                    wanted@ == expected@,
                    get(*schema, "type"@) == Some(JsonValue::Array(*items)),
                    forall|k: int| 0 <= k < i ==> as_text(#[trigger] items@[k]) != Some(expected@),
                decreases items@.len() - i,
            {
                match &items[i] {
                    JsonValue::Str(s) => {
                        if *s == wanted {
                            assert(as_text(items@[i as int]) == Some(expected@));
                            return true;
                        }
                    },
                    _ => {},
                }
                i += 1;
            }
            false
        },
        _ => false,
    }
}

/// A character allowed in a declared PostgreSQL type name.
pub open spec fn type_name_char(c: char) -> bool {
    is_ascii_alphanumeric(c) || c == '_' || c == ' ' || c == '.' || c == ',' || c == '"' || c
        == '[' || c == ']' || c == '(' || c == ')'
}

pub open spec fn safe_type_name(raw: Seq<char>) -> bool {
    forall|i: int| 0 <= i < raw.len() ==> type_name_char(#[trigger] raw[i])
}

/// Polymorphic pseudo-types bound as `text[]`.
pub open spec fn pseudo_array_type(n: Seq<char>) -> bool {
    n == "anyarray"@ || n == "anycompatiblearray"@
}

/// Polymorphic pseudo-types bound as `text`.
pub open spec fn pseudo_scalar_type(n: Seq<char>) -> bool {
    n == "any"@ || n == "anyelement"@ || n == "anynonarray"@ || n == "anyenum"@ || n
        == "anycompatible"@ || n == "anycompatiblenonarray"@
}

pub open spec fn ends_with(s: Seq<char>, suffix: Seq<char>) -> bool {
    s.len() >= suffix.len() && s.subrange(s.len() - suffix.len(), s.len() as int) == suffix
}

/// `trusted_postgres_type`: the PostgreSQL type an argument is cast to, and
/// whether it is bound as an array literal.
pub open spec fn postgres_type(schema: JsonValue) -> Result<(Seq<char>, bool), PlanFailure> {
    match get(schema, "x-postgres-type"@) {
        Some(JsonValue::Str(raw_string)) => {
            let raw = raw_string@;
            if raw.len() == 0 {
                Err(PlanFailure::EmptyPostgresType)
            } else if !safe_type_name(raw) {
                Err(PlanFailure::UnsafePostgresType(raw))
            } else {
                let schema_is_array = includes_type(schema, "array"@);
                let normalized = lower_seq(trim_matches(raw, '"'));
                if pseudo_array_type(normalized) {
                    Ok(("text[]"@, true))
                } else if pseudo_scalar_type(normalized) {
                    Ok(("text"@, false))
                } else if schema_is_array && !ends_with(trim_end(raw), "[]"@) {
                    Ok((raw + "[]"@, schema_is_array))
                } else {
                    Ok((raw, schema_is_array))
                }
            }
        },
        _ => Err(PlanFailure::MissingPostgresType),
    }
}

/// Whether `lower(chars[lo..hi])` spells `word`.
fn lowered_range_is(chars: &Vec<char>, lo: usize, hi: usize, word: &str) -> (r: bool)
    requires
        lo <= hi <= chars@.len(),
    ensures
        r == (lower_seq(chars@.subrange(lo as int, hi as int)) == word@),
{
    let w = chars_of(word);
    let ghost part = chars@.subrange(lo as int, hi as int);
    if hi - lo != w.len() {
        assert(lower_seq(part).len() == part.len());
        return false;
    }
    let mut i: usize = 0;
    while i < w.len()
        invariant
            lo <= hi <= chars@.len(),
            hi - lo == w@.len(),
            w@ == word@,
            part == chars@.subrange(lo as int, hi as int),
            0 <= i <= w@.len(),
            forall|k: int| 0 <= k < i ==> lower_seq(part)[k] == w@[k],
        decreases w@.len() - i,
    {
        if to_ascii_lower(chars[lo + i]) != w[i] {
            assert(lower_seq(part)[i as int] != w@[i as int]);
            return false;
        }
        i += 1;
    }
    assert(lower_seq(part) =~= w@);
    true
}

/// `trusted_postgres_type`: reads the declared `x-postgres-type` of an
/// argument schema, refusing anything outside the type-name alphabet.
pub fn trusted_postgres_type(schema: &JsonValue) -> (r: Result<(String, bool), PlanError>)
    ensures
        match r {
            Ok((t, a)) => postgres_type(*schema) == Ok::<(Seq<char>, bool), PlanFailure>((t@, a)),
            Err(e) => postgres_type(*schema) == Err::<(Seq<char>, bool), PlanFailure>(e@),
        },
{
    let raw: &str = match schema.get("x-postgres-type") {
        Some(v) => match v.as_str() {
            Some(s) => s,
            None => return Err(PlanError::MissingPostgresType),
        },
        None => return Err(PlanError::MissingPostgresType),
    };
    let chars = chars_of(raw);
    let n = chars.len();
    if n == 0 {
        return Err(PlanError::EmptyPostgresType);
    }
    let mut i: usize = 0;
    while i < n
        invariant
            n == chars@.len(),
            n > 0,
            chars@ == raw@,
            match get(*schema, "x-postgres-type"@) {
                Some(v) => as_text(v) == Some(raw@),
                None => false,
            },
            0 <= i <= n,
            forall|k: int| 0 <= k < i ==> type_name_char(#[trigger] chars@[k]),
        decreases n - i,
    {
        let c = chars[i];
        if !(is_ascii_alphanumeric_char(c) || c == '_' || c == ' ' || c == '.' || c == ',' || c
            == '"' || c == '[' || c == ']' || c == '(' || c == ')') {
            assert(!type_name_char(raw@[i as int]));
            assert(!safe_type_name(raw@));
            return Err(PlanError::UnsafePostgresType(raw.to_owned()));
        }
        i += 1;
    }
    let schema_is_array = type_includes(schema, "array");
    let quote = CharClass::Only('"');
    let a = leading_run_end(&chars, 0, n, &quote);
    let b = trailing_run_start(&chars, a, n, &quote);
    assert(chars@.subrange(0, n as int) =~= raw@);
    assert(trim_matches(raw@, '"') == chars@.subrange(a as int, b as int));
    if lowered_range_is(&chars, a, b, "anyarray") || lowered_range_is(&chars, a, b, "anycompatiblearray") {
        return Ok((String::from_str("text[]"), true));
    }
    if lowered_range_is(&chars, a, b, "any") || lowered_range_is(&chars, a, b, "anyelement")
        || lowered_range_is(&chars, a, b, "anynonarray") || lowered_range_is(&chars, a, b, "anyenum")
        || lowered_range_is(&chars, a, b, "anycompatible") || lowered_range_is(&chars, a, b, "anycompatiblenonarray") {
        return Ok((String::from_str("text"), false));
    }
    let t = trailing_run_start(&chars, 0, n, &CharClass::Whitespace);
    let ends_in_brackets = t >= 2 && chars[t - 2] == '[' && chars[t - 1] == ']';
    proof {
        reveal_strlit("[]");
        let trimmed = chars@.subrange(0, t as int);
        assert(trim_end(raw@) == trimmed);
        assert("[]"@ =~= seq!['[', ']']);
        if t >= 2 {
            let tail = trimmed.subrange(trimmed.len() - 2, trimmed.len() as int);
            assert(tail =~= seq![chars@[t - 2], chars@[t - 1]]);
            if ends_in_brackets {
                assert(tail =~= "[]"@);
            } else {
                assert(tail[0] != '[' || tail[1] != ']');
            }
        }
        assert(ends_in_brackets == ends_with(trimmed, "[]"@));
    }
    let mut postgres_type = raw.to_owned();
    if schema_is_array && !ends_in_brackets {
        postgres_type.append("[]");
    }
    Ok((postgres_type, schema_is_array))
}

} // verus!

verus! {

// ---------------------------------------------------------------------------
// Argument order
// ---------------------------------------------------------------------------

/// The position of a positional argument: a name `arg<N>` whose suffix
/// parses as a `usize`.
pub open spec fn ordinal(name: Seq<char>) -> Option<usize> {
    if name.len() >= 3 && name.take(3) == "arg"@ {
        parse_usize(name.skip(3))
    } else {
        None
    }
}

/// `parameter_sort_key` without the name itself: positional arguments first,
/// by position, then every other argument.
pub open spec fn sort_rank(name: Seq<char>) -> (u8, usize) {
    match ordinal(name) {
        Some(n) => (0, n),
        None => (1, usize::MAX),
    }
}

/// Lexicographic order of character sequences by code point, which is the
/// order of `str` (UTF-8 bytes compare as their code points do).
pub open spec fn lex_le(a: Seq<char>, b: Seq<char>) -> bool
    decreases a.len(),
{
    if a.len() == 0 {
        true
    } else if b.len() == 0 {
        false
    } else if a[0] != b[0] {
        a[0] < b[0]
    } else {
        lex_le(a.drop_first(), b.drop_first())
    }
}

/// The order of the keys `(rank, position, name)` that arguments are sorted by.
pub open spec fn key_le(a: Seq<char>, b: Seq<char>) -> bool {
    let (ta, oa) = sort_rank(a);
    let (tb, ob) = sort_rank(b);
    ta < tb || (ta == tb && (oa < ob || (oa == ob && lex_le(a, b))))
}

fn ordinal_of(name: &Vec<char>) -> (r: Option<usize>)
    ensures
        r == ordinal(name@),
{
    if name.len() >= 3 && crate::text::range_is(name, 0, 3, "arg") {
        proof {
            assert(name@.subrange(0, 3) =~= name@.take(3));
            assert(name@.subrange(3, name@.len() as int) =~= name@.skip(3));
        }
        parse_usize_range(name, 3, name.len())
    } else {
        proof {
            if name@.len() >= 3 {
                assert(name@.subrange(0, 3) =~= name@.take(3));
            }
        }
        None
    }
}

/// `parameter_sort_key`: the key that orders a routine's arguments.
pub fn parameter_sort_key(name: &str) -> (r: (u8, usize, &str))
    ensures
        (r.0, r.1) == sort_rank(name@),
        r.2 == name,
{
    let chars = chars_of(name);
    match ordinal_of(&chars) {
        Some(n) => (0, n, name),
        None => (1, usize::MAX, name),
    }
}

fn lex_le_of(a: &Vec<char>, b: &Vec<char>) -> (r: bool)
    ensures
        r == lex_le(a@, b@),
{
    let mut i: usize = 0;
    assert(a@.skip(0) =~= a@);
    assert(b@.skip(0) =~= b@);
    while i < a.len() && i < b.len() && a[i] == b[i]
        invariant
            0 <= i <= a@.len(),
            i <= b@.len(),
            lex_le(a@, b@) == lex_le(a@.skip(i as int), b@.skip(i as int)),
        decreases a@.len() - i,
    {
        assert(a@.skip(i as int).drop_first() =~= a@.skip(i + 1));
        assert(b@.skip(i as int).drop_first() =~= b@.skip(i + 1));
        i += 1;
    }
    if i == a.len() {
        true
    } else if i == b.len() {
        false
    } else {
        a[i] < b[i]
    }
}

fn key_le_of(ka: (u8, usize), na: &Vec<char>, kb: (u8, usize), nb: &Vec<char>) -> (r: bool)
    requires
        ka == sort_rank(na@),
        kb == sort_rank(nb@),
    ensures
        r == key_le(na@, nb@),
{
    ka.0 < kb.0 || (ka.0 == kb.0 && (ka.1 < kb.1 || (ka.1 == kb.1 && lex_le_of(na, nb))))
}

/// The name of member `k`.
pub open spec fn member_name(props: Seq<(String, JsonValue)>, k: int) -> Seq<char> {
    props[k].0@
}

/// Inserts member index `k` into a sorted order after every member whose key
/// is at most `k`'s (so equal keys keep their original order).
pub open spec fn insert_by_key(order: Seq<int>, k: int, props: Seq<(String, JsonValue)>) -> Seq<int>
    decreases order.len(),
{
    if order.len() == 0 {
        seq![k]
    } else if key_le(member_name(props, order.last()), member_name(props, k)) {
        order.push(k)
    } else {
        insert_by_key(order.drop_last(), k, props).push(order.last())
    }
}

/// The indices of the first `n` members in argument order (a stable
/// insertion sort by `key_le`).
pub open spec fn sorted_order(props: Seq<(String, JsonValue)>, n: nat) -> Seq<int>
    decreases n,
{
    if n == 0 {
        Seq::<int>::empty()
    } else {
        insert_by_key(sorted_order(props, (n - 1) as nat), n - 1, props)
    }
}

/// The members of an argument object in argument order.
pub open spec fn ordered_members(props: Seq<(String, JsonValue)>) -> Seq<(String, JsonValue)> {
    sorted_order(props, props.len()).map_values(|k: int| props[k])
}

proof fn lemma_insert_at(order: Seq<int>, k: int, props: Seq<(String, JsonValue)>, j: int)
    requires
        0 <= j <= order.len(),
        j == 0 || key_le(member_name(props, order[j - 1]), member_name(props, k)),
        forall|m: int| j <= m < order.len() ==> !key_le(member_name(props, #[trigger] order[m]), member_name(props, k)),
    ensures
        insert_by_key(order, k, props) == order.take(j).push(k) + order.skip(j),
    decreases order.len(),
{
    if order.len() == 0 {
        assert(order.take(j).push(k) + order.skip(j) =~= seq![k]);
    } else if j == order.len() {
        assert(order.take(j) =~= order);
        assert(order.skip(j) =~= Seq::<int>::empty());
        assert(order.take(j).push(k) + order.skip(j) =~= order.push(k));
    } else {
        let rest = order.drop_last();
        assert(!key_le(member_name(props, order[order.len() - 1]), member_name(props, k)));
        lemma_insert_at(rest, k, props, j);
        assert(rest.take(j) =~= order.take(j));
        assert((rest.take(j).push(k) + rest.skip(j)).push(order.last()) =~= order.take(j).push(k)
            + order.skip(j));
    }
}

/// The indices of `props` in argument order.
fn argument_order(props: &Vec<(String, JsonValue)>) -> (order: Vec<usize>)
    ensures
        order@.len() == props@.len(),
        order@.map_values(|k: usize| k as int) == sorted_order(props@, props@.len()),
        forall|m: int| 0 <= m < order@.len() ==> (#[trigger] order@[m]) < props@.len(),
{
    let n = props.len();
    let mut names: Vec<Vec<char>> = Vec::new();
    let mut ranks: Vec<(u8, usize)> = Vec::new();
    let mut i: usize = 0;
    while i < n
        invariant
            n == props@.len(),
            0 <= i <= n,
            names@.len() == i,
            ranks@.len() == i,
            forall|m: int| 0 <= m < i ==> (#[trigger] names@[m])@ == member_name(props@, m),
            forall|m: int| 0 <= m < i ==> #[trigger] ranks@[m] == sort_rank(member_name(props@, m)),
        decreases n - i,
    {
        let name = chars_of(props[i].0.as_str());
        let rank = match ordinal_of(&name) {
            Some(p) => (0u8, p),
            None => (1u8, usize::MAX),
        };
        names.push(name);
        ranks.push(rank);
        i += 1;
    }
    let mut order: Vec<usize> = Vec::new();
    let mut k: usize = 0;
    while k < n
        invariant
            n == props@.len(),
            names@.len() == n,
            ranks@.len() == n,
            forall|m: int| 0 <= m < n ==> (#[trigger] names@[m])@ == member_name(props@, m),
            forall|m: int| 0 <= m < n ==> #[trigger] ranks@[m] == sort_rank(member_name(props@, m)),
            0 <= k <= n,
            order@.len() == k,
            order@.map_values(|x: usize| x as int) == sorted_order(props@, k as nat),
            forall|m: int| 0 <= m < order@.len() ==> (#[trigger] order@[m]) < k,
        decreases n - k,
    {
        let ghost before = order@.map_values(|x: usize| x as int);
        let mut j: usize = order.len();
        while j > 0 && !key_le_of(ranks[order[j - 1]], &names[order[j - 1]], ranks[k], &names[k])
            invariant
                n == props@.len(),
                names@.len() == n,
                ranks@.len() == n,
                forall|m: int| 0 <= m < n ==> (#[trigger] names@[m])@ == member_name(props@, m),
                forall|m: int| 0 <= m < n ==> #[trigger] ranks@[m] == sort_rank(member_name(props@, m)),
                k < n,
                0 <= j <= order@.len(),
                before == order@.map_values(|x: usize| x as int),
                forall|m: int| 0 <= m < order@.len() ==> (#[trigger] order@[m]) < k,
                forall|m: int| j <= m < order@.len() ==> !key_le(member_name(props@, #[trigger] before[m]), member_name(props@, k as int)),
            decreases j,
        {
            j -= 1;
        }
        proof {
            lemma_insert_at(before, k as int, props@, j as int);
        }
        order.insert(j, k);
        assert(order@.map_values(|x: usize| x as int) =~= before.take(j as int).push(k as int)
            + before.skip(j as int));
        k += 1;
    }
    order
}

} // verus!

verus! {

// ---------------------------------------------------------------------------
// Binding the arguments of a call
// ---------------------------------------------------------------------------

/// The body schema that lists a routine's arguments.
pub open spec fn body_properties(input_schema: JsonValue) -> Option<Seq<(String, JsonValue)>> {
    match pointer(
        input_schema,
        seq!["requestBody"@, "content"@, "application/json"@, "schema"@, "properties"@],
    ) {
        Some(v) => as_members(v),
        None => None,
    }
}

/// Whether the routine's success response is declared as a JSON array.
pub open spec fn returns_set(output_schema: JsonValue) -> bool {
    match pointer(output_schema, seq!["200"@, "content"@, "application/json"@, "schema"@]) {
        Some(s) => match get(s, "type"@) {
            Some(t) => as_text(t) == Some("array"@),
            None => false,
        },
        None => false,
    }
}

/// The members of the caller's `body` object (none when it is absent or not
/// an object).
pub open spec fn body_members(args: JsonValue) -> Seq<(String, JsonValue)> {
    match get(args, "body"@) {
        Some(b) => match as_members(b) {
            Some(m) => m,
            None => Seq::<(String, JsonValue)>::empty(),
        },
        None => Seq::<(String, JsonValue)>::empty(),
    }
}

/// The expression of the bound parameter number `placeholder`, cast to `ty`;
/// `bytea` arguments are decoded from base64 instead.
pub open spec fn cast_expression(ty: Seq<char>, placeholder: nat) -> Seq<char> {
    if eq_ignore_ascii_case(ty, "bytea"@) {
        "decode($"@ + decimal(placeholder) + "::text, 'base64')"@
    } else {
        seq!['$'] + decimal(placeholder) + "::text::"@ + ty
    }
}

/// A positional argument is passed by position, any other by name.
pub open spec fn argument_expression(name: Seq<char>, cast: Seq<char>) -> Seq<char> {
    if ordinal(name) is Some {
        cast
    } else {
        quoted_identifier(name) + " => "@ + cast
    }
}

/// What binding has produced so far.
pub struct BindState {
    /// Whether a positional argument has been omitted.
    pub skipped: bool,
    /// The argument expressions of the call.
    pub expressions: Seq<Seq<char>>,
    /// The texts bound to `$1`, `$2`, ...
    pub values: Seq<Option<Seq<char>>>,
}

/// Binding one declared argument `name` with schema `schema`.
pub open spec fn bind_step(st: BindState, name: Seq<char>, schema: JsonValue, body: Seq<(String, JsonValue)>) -> Result<BindState, PlanFailure> {
    match lookup(body, name) {
        None => Ok(BindState { skipped: st.skipped || ordinal(name) is Some, ..st }),
        Some(value) => if st.skipped {
            Err(PlanFailure::PositionalAfterOmitted(name))
        } else {
            match postgres_type(schema) {
                Err(e) => Err(e),
                Ok((ty, is_array)) => match bound_text(value, is_array) {
                    Err(e) => Err(e),
                    Ok(b) => {
                        let cast = cast_expression(ty, st.values.len() + 1);
                        Ok(
                            BindState {
                                skipped: st.skipped,
                                expressions: st.expressions.push(argument_expression(name, cast)),
                                values: st.values.push(b),
                            },
                        )
                    },
                },
            }
        },
    }
}

/// Binding the first `n` declared arguments, in order.
pub open spec fn bind_members(defs: Seq<(String, JsonValue)>, body: Seq<(String, JsonValue)>, n: nat) -> Result<BindState, PlanFailure>
    decreases n,
{
    if n == 0 {
        Ok(
            BindState {
                skipped: false,
                expressions: Seq::<Seq<char>>::empty(),
                values: Seq::<Option<Seq<char>>>::empty(),
            },
        )
    } else {
        match bind_members(defs, body, (n - 1) as nat) {
            Err(e) => Err(e),
            Ok(st) => bind_step(st, defs[n - 1].0@, defs[n - 1].1, body),
        }
    }
}

/// `schema.routine(expressions...)`.
pub open spec fn invocation(schema: Seq<char>, routine: Seq<char>, expressions: Seq<Seq<char>>) -> Seq<char> {
    quoted_identifier(schema) + seq!['.'] + quoted_identifier(routine) + seq!['('] + join(
        expressions,
        ", "@,
    ) + seq![')']
}

/// The statement returning the call's result as JSON: an aggregated array for
/// a set-returning routine, the single value otherwise.
pub open spec fn routine_statement(set: bool, call: Seq<char>) -> Seq<char> {
    if set {
        "SELECT COALESCE(jsonb_agg(to_jsonb(result)), '[]'::jsonb) FROM (SELECT "@ + call
            + " AS result) AS routine_rows"@
    } else {
        "SELECT to_jsonb("@ + call + seq![')']
    }
}

/// `build_routine_sql` as a function of its arguments: the statement text and
/// the values bound to its parameters.
pub open spec fn routine_sql(endpoint: EndpointRecord, schema: Seq<char>, routine: Seq<char>, args: JsonValue) -> Result<(Seq<char>, Seq<Option<Seq<char>>>), PlanFailure> {
    match body_properties(endpoint.input_schema) {
        None => Err(PlanFailure::MissingRequestBodyProperties),
        Some(props) => if props.len() > 0 && get(args, "body"@) is None {
            Err(PlanFailure::BodyRequired)
        } else {
            let defs = ordered_members(props);
            match bind_members(defs, body_members(args), defs.len()) {
                Err(e) => Err(e),
                Ok(st) => Ok(
                    (
                        routine_statement(
                            returns_set(endpoint.output_schema),
                            invocation(schema, routine, st.expressions),
                        ),
                        st.values,
                    ),
                ),
            }
        },
    }
}

/// `routine_body_schema`: the routine's declared body properties.
pub fn routine_body_schema(endpoint: &EndpointRecord) -> (r: Result<&Vec<(String, JsonValue)>, PlanError>)
    ensures
        match r {
            Ok(m) => body_properties(endpoint.input_schema) == Some(m@),
            Err(e) => body_properties(endpoint.input_schema) is None && e@
                == PlanFailure::MissingRequestBodyProperties,
        },
{
    let mut tokens: Vec<&str> = Vec::new();
    tokens.push("requestBody");
    tokens.push("content");
    tokens.push("application/json");
    tokens.push("schema");
    tokens.push("properties");
    assert(token_views(tokens@) =~= seq![
        "requestBody"@,
        "content"@,
        "application/json"@,
        "schema"@,
        "properties"@,
    ]);
    match pointer_of(&endpoint.input_schema, tokens.as_slice()) {
        Some(v) => match v.as_object() {
            Some(m) => Ok(m),
            None => Err(PlanError::MissingRequestBodyProperties),
        },
        None => Err(PlanError::MissingRequestBodyProperties),
    }
}

/// `success_schema`: the schema of the routine's success response.
pub fn success_schema(endpoint: &EndpointRecord) -> (r: Option<&JsonValue>)
    ensures
        match r {
            Some(s) => pointer(
                endpoint.output_schema,
                seq!["200"@, "content"@, "application/json"@, "schema"@],
            ) == Some(*s),
            None => pointer(
                endpoint.output_schema,
                seq!["200"@, "content"@, "application/json"@, "schema"@],
            ) is None,
        },
{
    let mut tokens: Vec<&str> = Vec::new();
    tokens.push("200");
    tokens.push("content");
    tokens.push("application/json");
    tokens.push("schema");
    assert(token_views(tokens@) =~= seq!["200"@, "content"@, "application/json"@, "schema"@]);
    pointer_of(&endpoint.output_schema, tokens.as_slice())
}

fn returns_set_of(endpoint: &EndpointRecord) -> (r: bool)
    ensures
        r == returns_set(endpoint.output_schema),
{
    match success_schema(endpoint) {
        Some(s) => match s.get("type") {
            Some(t) => match t.as_str() {
                Some(text) => {
                    let chars = chars_of(text);
                    let r = crate::text::range_is(&chars, 0, chars.len(), "array");
                    assert(chars@.subrange(0, chars@.len() as int) =~= text@);
                    r
                },
                None => false,
            },
            None => false,
        },
        None => false,
    }
}

/// Whether `ty` is `bytea`, ignoring ASCII case.
fn is_bytea(ty: &str) -> (r: bool)
    ensures
        r == eq_ignore_ascii_case(ty@, "bytea"@),
{
    let chars = chars_of(ty);
    let r = lowered_range_is(&chars, 0, chars.len(), "bytea");
    proof {
        reveal_strlit("bytea");
        assert(chars@.subrange(0, chars@.len() as int) =~= ty@);
        assert(lower_seq("bytea"@) =~= "bytea"@);
    }
    r
}

/// The cast expression of parameter `placeholder`.
fn cast_expression_of(ty: &str, placeholder: u64) -> (r: String)
    ensures
        r@ == cast_expression(ty@, placeholder as nat),
{
    let mut out = String::new();
    if is_bytea(ty) {
        out.append("decode($");
        push_decimal(&mut out, placeholder);
        out.append("::text, 'base64')");
    } else {
        out.append("$");
        push_decimal(&mut out, placeholder);
        out.append("::text::");
        out.append(ty);
        proof {
            reveal_strlit("$");
        }
    }
    out
}

} // verus!

verus! {

proof fn lemma_bind_error_persists(defs: Seq<(String, JsonValue)>, body: Seq<(String, JsonValue)>, m: nat, n: nat)
    requires
        m <= n,
        bind_members(defs, body, m) is Err,
    ensures
        bind_members(defs, body, n) == bind_members(defs, body, m),
    decreases n - m,
{
    if n > m {
        lemma_bind_error_persists(defs, body, m, (n - 1) as nat);
    }
}

/// `build_routine_sql`: the call of a catalog routine with the caller's
/// arguments. The statement holds only quoted identifiers, declared types
/// and parameter placeholders; every caller value is bound separately.
pub fn build_routine_sql(endpoint: &EndpointRecord, schema: &str, routine: &str, args: &JsonValue) -> (r: Result<(String, Vec<BoundText>), PlanError>)
    ensures
        match r {
            Ok((sql, values)) => routine_sql(*endpoint, schema@, routine@, *args) == Ok::<
                (Seq<char>, Seq<Option<Seq<char>>>),
                PlanFailure,
            >((sql@, bound_views(values@))),
            Err(e) => routine_sql(*endpoint, schema@, routine@, *args) == Err::<
                (Seq<char>, Seq<Option<Seq<char>>>),
                PlanFailure,
            >(e@),
        },
{
    let properties = match routine_body_schema(endpoint) {
        Ok(p) => p,
        Err(e) => return Err(e),
    };
    let body_argument = args.get("body");
    if !(properties.len() == 0 || body_argument.is_some()) {
        return Err(PlanError::BodyRequired);
    }
    let empty_body: Vec<(String, JsonValue)> = Vec::new();
    let body: &Vec<(String, JsonValue)> = match body_argument {
        Some(b) => match b.as_object() {
            Some(m) => m,
            None => &empty_body,
        },
        None => &empty_body,
    };
    assert(body@ == body_members(*args));
    let order = argument_order(properties);
    let ghost props = properties@;
    let ghost defs = ordered_members(props);
    assert(defs.len() == order@.len());
    let mut expressions: Vec<String> = Vec::new();
    let mut values: Vec<BoundText> = Vec::new();
    let mut skipped = false;
    let mut i: usize = 0;
    assert(views(expressions@) =~= Seq::<Seq<char>>::empty());
    assert(bound_views(values@) =~= Seq::<Option<Seq<char>>>::empty());
    while i < order.len()
        invariant
            0 <= i <= order@.len(),
            body_properties(endpoint.input_schema) == Some(props),
            !(props.len() > 0 && get(*args, "body"@) is None),
            order@.len() == props.len(),
            props == properties@,
            defs == ordered_members(props),
            order@.map_values(|k: usize| k as int) == sorted_order(props, props.len()),
            forall|m: int| 0 <= m < order@.len() ==> (#[trigger] order@[m]) < props.len(),
            body@ == body_members(*args),
            bind_members(defs, body@, i as nat) == Ok::<BindState, PlanFailure>(
                BindState {
                    skipped,
                    expressions: views(expressions@),
                    values: bound_views(values@),
                },
            ),
            values@.len() <= i,
        decreases order@.len() - i,
    {
        let k = order[i];
        assert(defs[i as int] == props[k as int]);
        let name = &properties[k].0;
        let argument_schema = &properties[k].1;
        let ghost st = BindState {
            skipped,
            expressions: views(expressions@),
            values: bound_views(values@),
        };
        match lookup_member(body, name.as_str()) {
            None => {
                let chars = chars_of(name.as_str());
                if ordinal_of(&chars).is_some() {
                    skipped = true;
                }
            },
            Some(value) => {
                if skipped {
                    let e = PlanError::PositionalAfterOmitted(name.clone());
                    proof {
                        lemma_bind_error_persists(defs, body@, (i + 1) as nat, defs.len());
                    }
                    return Err(e);
                }
                let (postgres_type, is_array) = match trusted_postgres_type(argument_schema) {
                    Ok(t) => t,
                    Err(e) => {
                        proof {
                            lemma_bind_error_persists(defs, body@, (i + 1) as nat, defs.len());
                        }
                        return Err(e);
                    },
                };
                let bound = match BoundText::from_json(value, is_array) {
                    Ok(b) => b,
                    Err(e) => {
                        proof {
                            lemma_bind_error_persists(defs, body@, (i + 1) as nat, defs.len());
                        }
                        return Err(e);
                    },
                };
                values.push(bound);
                let placeholder = values.len() as u64;
                let cast = cast_expression_of(postgres_type.as_str(), placeholder);
                let chars = chars_of(name.as_str());
                let expression = if ordinal_of(&chars).is_some() {
                    cast
                } else {
                    let mut named = quote_identifier(name.as_str());
                    named.append(" => ");
                    named.append(cast.as_str());
                    named
                };
                expressions.push(expression);
                assert(views(expressions@) =~= st.expressions.push(expression@));
                assert(bound_views(values@) =~= st.values.push(bound@));
            },
        }
        i += 1;
    }
    let mut call = quote_identifier(schema);
    call.append(".");
    call.append(quote_identifier(routine).as_str());
    call.append("(");
    push_joined(&mut call, &expressions, ", ");
    call.append(")");
    proof {
        reveal_strlit(".");
        reveal_strlit("(");
        reveal_strlit(")");
    }
    let ghost st = BindState {
        skipped,
        expressions: views(expressions@),
        values: bound_views(values@),
    };
    assert(call@ =~= invocation(schema@, routine@, st.expressions));
    let mut sql = String::new();
    if returns_set_of(endpoint) {
        sql.append("SELECT COALESCE(jsonb_agg(to_jsonb(result)), '[]'::jsonb) FROM (SELECT ");
        sql.append(call.as_str());
        sql.append(" AS result) AS routine_rows");
    } else {
        sql.append("SELECT to_jsonb(");
        sql.append(call.as_str());
        sql.append(")");
    }
    assert(sql@ =~= routine_statement(returns_set(endpoint.output_schema), call@));
    Ok((sql, values))
}

} // verus!

verus! {

/// Two argument objects supply the same routine arguments (possibly with
/// different values): both have a `body` or neither has, and every name is
/// present in both bodies or in neither.
pub open spec fn same_argument_names(a1: JsonValue, a2: JsonValue) -> bool {
    &&& (get(a1, "body"@) is None <==> get(a2, "body"@) is None)
    &&& forall|name: Seq<char>|
        #![trigger lookup(body_members(a1), name), lookup(body_members(a2), name)]
        (lookup(body_members(a1), name) is None <==> lookup(body_members(a2), name) is None)
}

proof fn lemma_bind_shape(defs: Seq<(String, JsonValue)>, b1: Seq<(String, JsonValue)>, b2: Seq<(String, JsonValue)>, n: nat)
    requires
        n <= defs.len(),
        forall|name: Seq<char>|
            #![trigger lookup(b1, name), lookup(b2, name)]
            (lookup(b1, name) is None <==> lookup(b2, name) is None),
        bind_members(defs, b1, n) is Ok,
        bind_members(defs, b2, n) is Ok,
    ensures
        bind_members(defs, b1, n)->Ok_0.expressions == bind_members(defs, b2, n)->Ok_0.expressions,
        bind_members(defs, b1, n)->Ok_0.skipped == bind_members(defs, b2, n)->Ok_0.skipped,
        bind_members(defs, b1, n)->Ok_0.values.len() == bind_members(defs, b2, n)->Ok_0.values.len(),
    decreases n,
{
    if n > 0 {
        let m = (n - 1) as nat;
        lemma_bind_error_persists_contra(defs, b1, m, n);
        lemma_bind_error_persists_contra(defs, b2, m, n);
        lemma_bind_shape(defs, b1, b2, m);
        let name = defs[n - 1].0@;
        assert(lookup(b1, name) is None <==> lookup(b2, name) is None);
    }
}

proof fn lemma_bind_error_persists_contra(defs: Seq<(String, JsonValue)>, body: Seq<(String, JsonValue)>, m: nat, n: nat)
    requires
        m <= n,
        bind_members(defs, body, n) is Ok,
    ensures
        bind_members(defs, body, m) is Ok,
{
    if bind_members(defs, body, m) is Err {
        lemma_bind_error_persists(defs, body, m, n);
    }
}

/// Caller values never enter a routine's statement: two calls of the same
/// routine that supply the same argument names, whatever their values, are
/// planned as the same statement text (only the bound values differ).
pub proof fn routine_statement_ignores_argument_values(
    endpoint: EndpointRecord,
    schema: Seq<char>,
    routine: Seq<char>,
    a1: JsonValue,
    a2: JsonValue,
)
    requires
        same_argument_names(a1, a2),
        routine_sql(endpoint, schema, routine, a1) is Ok,
        routine_sql(endpoint, schema, routine, a2) is Ok,
    ensures
        routine_sql(endpoint, schema, routine, a1)->Ok_0.0 == routine_sql(
            endpoint,
            schema,
            routine,
            a2,
        )->Ok_0.0,
        routine_sql(endpoint, schema, routine, a1)->Ok_0.1.len() == routine_sql(
            endpoint,
            schema,
            routine,
            a2,
        )->Ok_0.1.len(),
{
    let props = body_properties(endpoint.input_schema)->Some_0;
    let defs = ordered_members(props);
    lemma_bind_shape(defs, body_members(a1), body_members(a2), defs.len());
}

} // verus!

verus! {

proof fn lemma_lex_le_total(a: Seq<char>, b: Seq<char>)
    ensures
        lex_le(a, b) || lex_le(b, a),
    decreases a.len(),
{
    if a.len() > 0 && b.len() > 0 && a[0] == b[0] {
        lemma_lex_le_total(a.drop_first(), b.drop_first());
    }
}

proof fn lemma_lex_le_transitive(a: Seq<char>, b: Seq<char>, c: Seq<char>)
    requires
        lex_le(a, b),
        lex_le(b, c),
    ensures
        lex_le(a, c),
    decreases a.len(),
{
    if a.len() > 0 && b.len() > 0 && c.len() > 0 && a[0] == b[0] && b[0] == c[0] {
        lemma_lex_le_transitive(a.drop_first(), b.drop_first(), c.drop_first());
    }
}

proof fn lemma_key_le_total(a: Seq<char>, b: Seq<char>)
    ensures
        key_le(a, b) || key_le(b, a),
{
    lemma_lex_le_total(a, b);
}

proof fn lemma_key_le_transitive(a: Seq<char>, b: Seq<char>, c: Seq<char>)
    requires
        key_le(a, b),
        key_le(b, c),
    ensures
        key_le(a, c),
{
    if sort_rank(a) == sort_rank(b) && sort_rank(b) == sort_rank(c) {
        lemma_lex_le_transitive(a, b, c);
    }
}

/// `order` lists member indices in non-decreasing key order.
pub open spec fn in_key_order(order: Seq<int>, props: Seq<(String, JsonValue)>) -> bool {
    forall|i: int, j: int|
        0 <= i < j < order.len() ==> key_le(
            member_name(props, #[trigger] order[i]),
            member_name(props, #[trigger] order[j]),
        )
}

proof fn lemma_insert_sorted(order: Seq<int>, k: int, props: Seq<(String, JsonValue)>)
    requires
        in_key_order(order, props),
    ensures
        in_key_order(insert_by_key(order, k, props), props),
        insert_by_key(order, k, props).to_multiset() == order.to_multiset().insert(k),
    decreases order.len(),
{
    broadcast use vstd::seq_lib::group_to_multiset_ensures;

    let r = insert_by_key(order, k, props);
    if order.len() == 0 {
        assert(r =~= Seq::<int>::empty().push(k));
    } else if key_le(member_name(props, order.last()), member_name(props, k)) {
        assert forall|i: int, j: int| 0 <= i < j < r.len() implies key_le(
            member_name(props, #[trigger] r[i]),
            member_name(props, #[trigger] r[j]),
        ) by {
            if j == r.len() - 1 && i < order.len() - 1 {
                lemma_key_le_transitive(
                    member_name(props, order[i]),
                    member_name(props, order.last()),
                    member_name(props, k),
                );
            }
        }
    } else {
        let rest = order.drop_last();
        let last = order.last();
        assert(in_key_order(rest, props));
        lemma_insert_sorted(rest, k, props);
        let inner = insert_by_key(rest, k, props);
        lemma_key_le_total(member_name(props, last), member_name(props, k));
        assert forall|x: int| #[trigger] inner.to_multiset().count(x) > 0 implies key_le(
            member_name(props, x),
            member_name(props, last),
        ) by {
            if x != k {
                assert(rest.to_multiset().count(x) > 0);
                assert(rest.contains(x));
                let m = choose|m: int| 0 <= m < rest.len() && rest[m] == x;
                assert(order[m] == x);
            }
        }
        assert forall|i: int, j: int| 0 <= i < j < r.len() implies key_le(
            member_name(props, #[trigger] r[i]),
            member_name(props, #[trigger] r[j]),
        ) by {
            if j == r.len() - 1 {
                assert(inner.contains(r[i]));
                assert(inner.to_multiset().count(r[i]) > 0);
            } else {
                assert(r[i] == inner[i] && r[j] == inner[j]);
            }
        }
        assert(order =~= rest.push(last));
    }
}

/// Arguments are bound in argument order: every declared argument is taken
/// exactly once, positional arguments (`arg<N>`) first by position, then
/// every other argument by name.
pub proof fn argument_order_is_sorted_permutation(props: Seq<(String, JsonValue)>, n: nat)
    ensures
        sorted_order(props, n).to_multiset() == Seq::new(n, |i: int| i).to_multiset(),
        in_key_order(sorted_order(props, n), props),
    decreases n,
{
    broadcast use vstd::seq_lib::group_to_multiset_ensures;

    if n == 0 {
        assert(Seq::new(0, |i: int| i) =~= Seq::<int>::empty());
    } else {
        let m = (n - 1) as nat;
        argument_order_is_sorted_permutation(props, m);
        lemma_insert_sorted(sorted_order(props, m), m as int, props);
        assert(Seq::new(n, |i: int| i) =~= Seq::new(m, |i: int| i).push(m as int));
    }
}

/// The polymorphic pseudo-types that an argument cannot be cast to and that
/// are bound as text: `any`, `anyelement`, `anynonarray`, `anyenum`,
/// `anycompatible` and `anycompatiblenonarray`.
pub open spec fn polymorphic_scalar(n: Seq<char>) -> bool {
    n == "any"@ || n == "anyelement"@ || n == "anynonarray"@ || n == "anyenum"@ || n == "anycompatible"@ || n == "anycompatiblenonarray"@
}

/// Those and the array pseudo-types `anyarray` and `anycompatiblearray`.
pub open spec fn polymorphic_any(n: Seq<char>) -> bool {
    n == "any"@ || n == "anyelement"@ || n == "anynonarray"@ || n == "anyenum"@ || n == "anycompatible"@ || n == "anycompatiblenonarray"@ || n == "anyarray"@ || n == "anycompatiblearray"@
}

/// A declared type as PostgreSQL compares it: without surrounding double
/// quotes, in lower case.
pub open spec fn type_key(t: Seq<char>) -> Seq<char> {
    lower_seq(trim_matches(t, '"'))
}

proof fn lemma_strip_leading_split(s: Seq<char>, k: CharClass) -> (j: int)
    ensures
        0 <= j <= s.len(),
        strip_leading(s, k) == s.subrange(j, s.len() as int),
        forall|i: int| 0 <= i < j ==> k.holds(#[trigger] s[i]),
    decreases s.len(),
{
    if s.len() > 0 && k.holds(s[0]) {
        let j0 = lemma_strip_leading_split(s.drop_first(), k);
        assert(s.drop_first().subrange(j0, s.len() - 1) =~= s.subrange(j0 + 1, s.len() as int));
        assert forall|i: int| 0 <= i < j0 + 1 implies k.holds(#[trigger] s[i]) by {
            if i > 0 {
                assert(s[i] == s.drop_first()[i - 1]);
            }
        }
        j0 + 1
    } else {
        assert(s.subrange(0, s.len() as int) =~= s);
        0
    }
}

proof fn lemma_strip_trailing_split(s: Seq<char>, k: CharClass) -> (j: int)
    ensures
        0 <= j <= s.len(),
        strip_trailing(s, k) == s.subrange(0, j),
        forall|i: int| j <= i < s.len() ==> k.holds(#[trigger] s[i]),
    decreases s.len(),
{
    if s.len() > 0 && k.holds(s.last()) {
        let j0 = lemma_strip_trailing_split(s.drop_last(), k);
        assert(s.drop_last().subrange(0, j0) =~= s.subrange(0, j0));
        assert forall|i: int| j0 <= i < s.len() implies k.holds(#[trigger] s[i]) by {
            if i < s.len() - 1 {
                assert(s[i] == s.drop_last()[i]);
            }
        }
        j0
    } else {
        assert(s.subrange(0, s.len() as int) =~= s);
        s.len() as int
    }
}

proof fn lemma_polymorphic_names_are_type_names()
    ensures
        forall|n: Seq<char>| polymorphic_scalar(n) ==> safe_type_name(n),
{
    reveal_strlit("any");
    assert forall|i: int| 0 <= i < "any"@.len() implies type_name_char(#[trigger] "any"@[i]) by {
        assert(i == 0 || i == 1 || i == 2);
    }
    reveal_strlit("anyelement");
    assert forall|i: int| 0 <= i < "anyelement"@.len() implies type_name_char(#[trigger] "anyelement"@[i]) by {
        assert(i == 0 || i == 1 || i == 2 || i == 3 || i == 4 || i == 5 || i == 6 || i == 7 || i == 8 || i == 9);
    }
    reveal_strlit("anynonarray");
    assert forall|i: int| 0 <= i < "anynonarray"@.len() implies type_name_char(#[trigger] "anynonarray"@[i]) by {
        assert(i == 0 || i == 1 || i == 2 || i == 3 || i == 4 || i == 5 || i == 6 || i == 7 || i == 8 || i == 9 || i == 10);
    }
    reveal_strlit("anyenum");
    assert forall|i: int| 0 <= i < "anyenum"@.len() implies type_name_char(#[trigger] "anyenum"@[i]) by {
        assert(i == 0 || i == 1 || i == 2 || i == 3 || i == 4 || i == 5 || i == 6);
    }
    reveal_strlit("anycompatible");
    assert forall|i: int| 0 <= i < "anycompatible"@.len() implies type_name_char(#[trigger] "anycompatible"@[i]) by {
        assert(i == 0 || i == 1 || i == 2 || i == 3 || i == 4 || i == 5 || i == 6 || i == 7 || i == 8 || i == 9 || i == 10 || i == 11 || i == 12);
    }
    reveal_strlit("anycompatiblenonarray");
    assert forall|i: int| 0 <= i < "anycompatiblenonarray"@.len() implies type_name_char(#[trigger] "anycompatiblenonarray"@[i]) by {
        assert(i == 0 || i == 1 || i == 2 || i == 3 || i == 4 || i == 5 || i == 6 || i == 7 || i == 8 || i == 9 || i == 10 || i == 11 || i == 12 || i == 13 || i == 14 || i == 15 || i == 16 || i == 17 || i == 18 || i == 19 || i == 20);
    }
}

/// A declared type naming a polymorphic pseudo-type, quoted or not and in
/// any ASCII case, is bound and cast as `text`: for every argument schema
/// whose `x-postgres-type` is `any`, `anyelement`, `anynonarray`, `anyenum`,
/// `anycompatible` or `anycompatiblenonarray` once its surrounding double
/// quotes are removed and it is lower-cased, the type is `text` and the
/// argument is not an array.
pub proof fn polymorphic_types_bind_as_text(schema: JsonValue, raw: String)
    requires
        get(schema, "x-postgres-type"@) == Some(JsonValue::Str(raw)),
        polymorphic_scalar(type_key(raw@)),
    ensures
        postgres_type(schema) == Ok::<(Seq<char>, bool), PlanFailure>(("text"@, false)),
{
    reveal_strlit("any");
    reveal_strlit("anyelement");
    reveal_strlit("anynonarray");
    reveal_strlit("anyenum");
    reveal_strlit("anycompatible");
    reveal_strlit("anycompatiblenonarray");
    reveal_strlit("anyarray");
    reveal_strlit("anycompatiblearray");
    reveal_strlit("text");
    reveal_strlit("text[]");
    reveal_strlit("[]");
    let r = raw@;
    let a = lemma_strip_leading_split(r, CharClass::Only('"'));
    let left = strip_leading(r, CharClass::Only('"'));
    let b = lemma_strip_trailing_split(left, CharClass::Only('"'));
    let mid = trim_matches(r, '"');
    let n = lower_seq(mid);
    lemma_polymorphic_names_are_type_names();
    assert(safe_type_name(n));
    assert(mid == r.subrange(a, a + b));
    assert(n.len() == mid.len());
    assert(n.len() > 0);
    assert(r.len() > 0);
    assert forall|i: int| 0 <= i < r.len() implies type_name_char(#[trigger] r[i]) by {
        if a <= i < a + b {
            assert(mid[i - a] == r[i]);
            assert(n[i - a] == ascii_lower(r[i]));
            assert(type_name_char(n[i - a]));
        } else if i < a {
        } else {
            assert(left[i - a] == r[i]);
        }
    }
    assert(!pseudo_array_type(n));
}

/// No declared type is passed on as one of the pseudo-types this planner
/// maps: whatever type `postgres_type` gives, with its surrounding double
/// quotes removed and lower-cased, is never `any`, `anyelement`,
/// `anynonarray`, `anyenum`, `anycompatible`, `anycompatiblenonarray`,
/// `anyarray` or `anycompatiblearray`.
pub proof fn pseudo_types_are_never_cast_to(schema: JsonValue)
    ensures
        postgres_type(schema) matches Ok((t, _)) ==> !polymorphic_any(type_key(t)),
{
    reveal_strlit("any");
    reveal_strlit("anyelement");
    reveal_strlit("anynonarray");
    reveal_strlit("anyenum");
    reveal_strlit("anycompatible");
    reveal_strlit("anycompatiblenonarray");
    reveal_strlit("anyarray");
    reveal_strlit("anycompatiblearray");
    reveal_strlit("text");
    reveal_strlit("text[]");
    reveal_strlit("[]");
    if postgres_type(schema) is Ok {
        let t = postgres_type(schema)->Ok_0.0;
        let raw = match get(schema, "x-postgres-type"@) {
            Some(JsonValue::Str(s)) => s@,
            _ => Seq::<char>::empty(),
        };
        if t == "text"@ || t == "text[]"@ {
            assert(strip_leading(t, CharClass::Only('"')) == t);
            assert(strip_trailing(t, CharClass::Only('"')) == t);
            assert(lower_seq(t).len() == t.len());
        } else if t != raw {
            let a = lemma_strip_leading_split(t, CharClass::Only('"'));
            let left = strip_leading(t, CharClass::Only('"'));
            assert(t.last() == ']');
            assert(a < t.len());
            assert(left.last() == ']');
            assert(strip_trailing(left, CharClass::Only('"')) == left);
            assert(type_key(t).last() == ']');
        }
    }
}

/// Whether the caller's body supplies declared argument `d`.
pub open spec fn supplied_in(body: Seq<(String, JsonValue)>, d: (String, JsonValue)) -> bool {
    lookup(body, d.0@) is Some
}

/// Whether a supplied value for `d` can be bound: its declared type is
/// accepted and the value has a bound text of that type.
pub open spec fn binds_in(body: Seq<(String, JsonValue)>, d: (String, JsonValue)) -> bool {
    match lookup(body, d.0@) {
        None => true,
        Some(v) => match postgres_type(d.1) {
            Ok((ty, is_array)) => bound_text(v, is_array) is Ok,
            Err(_) => false,
        },
    }
}

/// A named argument in the call: `"name" => <cast of parameter p>`.
pub open spec fn named_call_argument(d: (String, JsonValue), p: nat) -> Seq<char> {
    quoted_identifier(d.0@) + " => "@ + cast_expression(postgres_type(d.1)->Ok_0.0, p)
}

/// Call argument `k` of `exprs` is the named argument of a supplied declared
/// argument among the first `n`, with parameter number `k + 1`.
pub open spec fn passes_supplied(exprs: Seq<Seq<char>>, defs: Seq<(String, JsonValue)>, body: Seq<(String, JsonValue)>, n: int, k: int) -> bool {
    exists|i: int|
        #![trigger defs[i]]
        0 <= i < n && supplied_in(body, defs[i]) && exprs[k] == named_call_argument(defs[i], (k + 1) as nat)
}

/// Declared argument `i` is passed somewhere in `exprs`, by name, with the
/// parameter number of its position.
pub open spec fn is_passed(exprs: Seq<Seq<char>>, d: (String, JsonValue)) -> bool {
    exists|k: int|
        #![trigger exprs[k]]
        0 <= k < exprs.len() && exprs[k] == named_call_argument(d, (k + 1) as nat)
}

/// Every call argument in `exprs` is the named argument of a supplied
/// declared argument among the first `n`, with its own parameter number.
pub open spec fn each_is_supplied(exprs: Seq<Seq<char>>, defs: Seq<(String, JsonValue)>, body: Seq<(String, JsonValue)>, n: int) -> bool {
    forall|k: int| 0 <= k < exprs.len() ==> #[trigger] passes_supplied(exprs, defs, body, n, k)
}

/// Every supplied declared argument among the first `n` is passed in
/// `exprs`, by name, with its own parameter number.
pub open spec fn each_supplied_is_passed(exprs: Seq<Seq<char>>, defs: Seq<(String, JsonValue)>, body: Seq<(String, JsonValue)>, n: int) -> bool {
    forall|i: int| 0 <= i < n && supplied_in(body, defs[i]) ==> #[trigger] is_passed(exprs, defs[i])
}

proof fn lemma_bind_named(defs: Seq<(String, JsonValue)>, body: Seq<(String, JsonValue)>, n: nat) -> (w: (Seq<int>, Seq<int>))
    requires
        n <= defs.len(),
        forall|i: int| 0 <= i < n ==> ordinal((#[trigger] defs[i]).0@) is None && binds_in(body, defs[i]),
    ensures
        bind_members(defs, body, n) is Ok,
        !bind_members(defs, body, n)->Ok_0.skipped,
        bind_members(defs, body, n)->Ok_0.expressions.len() == bind_members(defs, body, n)->Ok_0.values.len(),
        w.0.len() == bind_members(defs, body, n)->Ok_0.expressions.len(),
        forall|k: int|
            0 <= k < w.0.len() ==> 0 <= #[trigger] w.0[k] < n && supplied_in(body, defs[w.0[k]])
                && bind_members(defs, body, n)->Ok_0.expressions[k] == named_call_argument(defs[w.0[k]], (k + 1) as nat),
        w.1.len() == n,
        forall|i: int|
            0 <= i < n && supplied_in(body, defs[i]) ==> 0 <= #[trigger] w.1[i] < w.0.len()
                && bind_members(defs, body, n)->Ok_0.expressions[w.1[i]] == named_call_argument(defs[i], (w.1[i] + 1) as nat),
    decreases n,
{
    if n == 0 {
        (Seq::<int>::empty(), Seq::<int>::empty())
    } else {
        let m = (n - 1) as nat;
        let (src, pos) = lemma_bind_named(defs, body, m);
        let st = bind_members(defs, body, m)->Ok_0;
        let d = defs[m as int];
        assert(ordinal(d.0@) is None && binds_in(body, d));
        let st2 = bind_members(defs, body, n)->Ok_0;
        assert(bind_members(defs, body, n) == bind_step(st, d.0@, d.1, body));
        match lookup(body, d.0@) {
            None => {
                assert(st2 == st);
                let pos2 = pos.push(0);
                assert forall|i: int| 0 <= i < n && supplied_in(body, defs[i]) implies 0 <= #[trigger] pos2[i] < src.len()
                    && st2.expressions[pos2[i]] == named_call_argument(defs[i], (pos2[i] + 1) as nat) by {
                    assert(i < m);
                    assert(pos2[i] == pos[i]);
                }
                (src, pos2)
            },
            Some(v) => {
                assert(supplied_in(body, d));
                let k0 = st.expressions.len() as int;
                assert(st2.expressions == st.expressions.push(named_call_argument(d, (k0 + 1) as nat)));
                let src2 = src.push(m as int);
                let pos2 = pos.push(k0);
                assert forall|k: int| 0 <= k < src2.len() implies 0 <= #[trigger] src2[k] < n && supplied_in(body, defs[src2[k]])
                    && st2.expressions[k] == named_call_argument(defs[src2[k]], (k + 1) as nat) by {
                    if k < k0 {
                        assert(src2[k] == src[k]);
                        assert(st2.expressions[k] == st.expressions[k]);
                    }
                }
                assert forall|i: int| 0 <= i < n && supplied_in(body, defs[i]) implies 0 <= #[trigger] pos2[i] < src2.len()
                    && st2.expressions[pos2[i]] == named_call_argument(defs[i], (pos2[i] + 1) as nat) by {
                    if i < m {
                        assert(pos2[i] == pos[i]);
                        assert(st2.expressions[pos[i]] == st.expressions[pos[i]]);
                    }
                }
                (src2, pos2)
            },
        }
    }
}

proof fn lemma_sorted_order_indices(props: Seq<(String, JsonValue)>, n: nat)
    ensures
        sorted_order(props, n).len() == n,
        forall|i: int| 0 <= i < n ==> 0 <= #[trigger] sorted_order(props, n)[i] < n,
        forall|j: int| 0 <= j < n ==> #[trigger] sorted_order(props, n).contains(j),
{
    broadcast use vstd::seq_lib::group_to_multiset_ensures;

    let so = sorted_order(props, n);
    let ids = Seq::new(n, |i: int| i);
    argument_order_is_sorted_permutation(props, n);
    assert(so.to_multiset().len() == ids.to_multiset().len());
    assert forall|i: int| 0 <= i < so.len() implies 0 <= #[trigger] so[i] < n by {
        assert(so.to_multiset().count(so[i]) > 0);
        assert(ids.to_multiset().count(so[i]) > 0);
        assert(ids.contains(so[i]));
    }
    assert forall|j: int| 0 <= j < n implies #[trigger] so.contains(j) by {
        assert(ids[j] == j);
        assert(ids.contains(j));
        assert(ids.to_multiset().count(j) > 0);
        assert(so.to_multiset().count(j) > 0);
        assert(so.contains(j));
    }
}

proof fn lemma_named_in_order(props: Seq<(String, JsonValue)>, body: Seq<(String, JsonValue)>)
    requires
        forall|j: int| 0 <= j < props.len() ==> ordinal((#[trigger] props[j]).0@) is None && binds_in(body, props[j]),
    ensures
        ordered_members(props).len() == props.len(),
        forall|i: int|
            0 <= i < ordered_members(props).len() ==> ordinal((#[trigger] ordered_members(props)[i]).0@) is None
                && binds_in(body, ordered_members(props)[i]),
{
    let n = props.len();
    let so = sorted_order(props, n);
    let defs = ordered_members(props);
    lemma_sorted_order_indices(props, n);
    assert forall|i: int| 0 <= i < defs.len() implies ordinal((#[trigger] defs[i]).0@) is None
        && binds_in(body, defs[i]) by {
        assert(defs[i] == props[so[i]]);
        assert(0 <= so[i] < n);
    }
}

proof fn lemma_passed_in_props(props: Seq<(String, JsonValue)>, body: Seq<(String, JsonValue)>, exprs: Seq<Seq<char>>, src: Seq<int>, pos: Seq<int>)
    requires
        src.len() == exprs.len(),
        forall|k: int|
            0 <= k < src.len() ==> 0 <= #[trigger] src[k] < props.len() && supplied_in(body, ordered_members(props)[src[k]])
                && exprs[k] == named_call_argument(ordered_members(props)[src[k]], (k + 1) as nat),
        pos.len() == props.len(),
        forall|i: int|
            0 <= i < props.len() && supplied_in(body, ordered_members(props)[i]) ==> 0 <= #[trigger] pos[i] < src.len()
                && exprs[pos[i]] == named_call_argument(ordered_members(props)[i], (pos[i] + 1) as nat),
    ensures
        each_is_supplied(exprs, props, body, props.len() as int),
        each_supplied_is_passed(exprs, props, body, props.len() as int),
{
    let n = props.len();
    let so = sorted_order(props, n);
    let defs = ordered_members(props);
    lemma_sorted_order_indices(props, n);
    assert forall|k: int| 0 <= k < exprs.len() implies #[trigger] passes_supplied(exprs, props, body, n as int, k) by {
        let i = src[k];
        assert(defs[i] == props[so[i]]);
        assert(0 <= so[i] < n);
        assert(supplied_in(body, props[so[i]]) && exprs[k] == named_call_argument(props[so[i]], (k + 1) as nat));
    }
    assert forall|j: int| 0 <= j < n && supplied_in(body, props[j]) implies #[trigger] is_passed(exprs, props[j]) by {
        assert(so.contains(j));
        let i = choose|i: int| 0 <= i < so.len() && so[i] == j;
        assert(defs[i] == props[j]);
        assert(supplied_in(body, defs[i]));
        let k = pos[i];
        assert(exprs[k] == named_call_argument(props[j], (k + 1) as nat));
    }
}

/// Omitting an argument that is passed by name never refuses the call: for
/// a routine whose declared arguments are all named (none is `arg<N>`), any
/// subset of them may be supplied in `body` (when each supplied value binds
/// to its declared type), and the call passes exactly the supplied ones,
/// each as `"name" => $k::text::<type>` with its own parameter number `k`,
/// one bound value per argument.
pub proof fn named_arguments_may_be_omitted(endpoint: EndpointRecord, schema: Seq<char>, routine: Seq<char>, args: JsonValue)
    requires
        body_properties(endpoint.input_schema) is Some,
        forall|j: int|
            0 <= j < body_properties(endpoint.input_schema)->Some_0.len() ==> ordinal(
                (#[trigger] body_properties(endpoint.input_schema)->Some_0[j]).0@,
            ) is None && binds_in(body_members(args), body_properties(endpoint.input_schema)->Some_0[j]),
        body_properties(endpoint.input_schema)->Some_0.len() > 0 ==> get(args, "body"@) is Some,
    ensures
        routine_sql(endpoint, schema, routine, args) is Ok,
        exists|exprs: Seq<Seq<char>>|
            #![trigger invocation(schema, routine, exprs)]
            {
                let props = body_properties(endpoint.input_schema)->Some_0;
                let (sql, values) = routine_sql(endpoint, schema, routine, args)->Ok_0;
                &&& sql == routine_statement(
                    returns_set(endpoint.output_schema),
                    invocation(schema, routine, exprs),
                )
                &&& exprs.len() == values.len()
                &&& each_is_supplied(exprs, props, body_members(args), props.len() as int)
                &&& each_supplied_is_passed(exprs, props, body_members(args), props.len() as int)
            },
{
    let props = body_properties(endpoint.input_schema)->Some_0;
    let body = body_members(args);
    let defs = ordered_members(props);
    lemma_named_in_order(props, body);
    let (src, pos) = lemma_bind_named(defs, body, defs.len());
    let st = bind_members(defs, body, defs.len())->Ok_0;
    lemma_passed_in_props(props, body, st.expressions, src, pos);
    assert(routine_sql(endpoint, schema, routine, args) == Ok::<(Seq<char>, Seq<Option<Seq<char>>>), PlanFailure>(
        (routine_statement(returns_set(endpoint.output_schema), invocation(schema, routine, st.expressions)), st.values),
    ));
}

} // verus!
