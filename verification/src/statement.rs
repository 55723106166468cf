//! A single caller-supplied statement (`execute_sql`): its normal form, its
//! classification, the request sent to PostgreSQL and the response built
//! from what PostgreSQL returns.

use vstd::prelude::*;
use crate::binding::{BoundText, bound_views, scalar_text};
use crate::error::{PlanError, PlanFailure};
use crate::json::{json_array_of_text, parse_json_array, JsonNumber, JsonValue};
use crate::text::{
    CharClass, chars_of, decimal, is_whitespace, is_whitespace_char, leading_run_end,
    push_decimal, strip_leading, strip_trailing, to_ascii_upper, trailing_run_start, trim, trim_end, upper_seq,
};

verus! {

/// Rows returned when no `max_rows` is given.
pub const DEFAULT_SQL_MAX_ROWS: usize = 100;

/// The largest `max_rows` accepted.
pub const MAX_SQL_MAX_ROWS: usize = 10000;

/// `normalized_statement` as a function of the text: surrounding whitespace
/// and then one final `;` (with the whitespace before it) removed; an empty
/// result is refused.
pub open spec fn normalized(sql: Seq<char>) -> Result<Seq<char>, PlanFailure> {
    let t = trim(sql);
    if t.len() == 0 {
        Err(PlanFailure::EmptyStatement)
    } else {
        let u = trim_end(
            if t.last() == ';' {
                t.drop_last()
            } else {
                t
            },
        );
        if u.len() == 0 {
            Err(PlanFailure::EmptyStatement)
        } else {
            Ok(u)
        }
    }
}

/// `normalized_statement`: the single statement to run.
pub fn normalized_statement(sql: &str) -> (r: Result<&str, PlanError>)
    ensures
        match r {
            Ok(s) => normalized(sql@) == Ok::<Seq<char>, PlanFailure>(s@),
            Err(e) => normalized(sql@) == Err::<Seq<char>, PlanFailure>(e@),
        },
{
    let chars = chars_of(sql);
    let n = chars.len();
    let ws = CharClass::Whitespace;
    let a = leading_run_end(&chars, 0, n, &ws);
    let b = trailing_run_start(&chars, a, n, &ws);
    assert(chars@.subrange(0, n as int) =~= sql@);
    let ghost t = chars@.subrange(a as int, b as int);
    assert(trim(sql@) == t);
    if a == b {
        return Err(PlanError::EmptyStatement);
    }
    let c = if chars[b - 1] == ';' {
        b - 1
    } else {
        b
    };
    assert(chars@.subrange(a as int, c as int) == if t.last() == ';' {
        t.drop_last()
    } else {
        t
    });
    let d = trailing_run_start(&chars, a, c, &ws);
    if d == a {
        return Err(PlanError::EmptyStatement);
    }
    Ok(sql.substring_char(a, d))
}

/// The characters of `s` before its first whitespace.
pub open spec fn leading_word(s: Seq<char>) -> Seq<char>
    decreases s.len(),
{
    if s.len() == 0 || is_whitespace(s[0]) {
        Seq::<char>::empty()
    } else {
        seq![s[0]] + leading_word(s.drop_first())
    }
}

/// The first whitespace-separated word of `s` (empty when there is none).
pub open spec fn first_word(s: Seq<char>) -> Seq<char> {
    leading_word(strip_leading(s, CharClass::Whitespace))
}

/// The keywords that begin a statement returning rows.
pub open spec fn row_keyword(w: Seq<char>) -> bool {
    w == "SELECT"@ || w == "WITH"@ || w == "VALUES"@ || w == "TABLE"@
}

/// `is_row_query`: whether the first word, in ASCII upper case, begins a
/// statement that returns rows.
pub open spec fn row_query(sql: Seq<char>) -> bool {
    row_keyword(upper_seq(first_word(sql)))
}

/// Whether `upper(chars[lo..hi])` spells `word`.
fn uppered_range_is(chars: &Vec<char>, lo: usize, hi: usize, word: &str) -> (r: bool)
    requires
        lo <= hi <= chars@.len(),
    ensures
        r == (upper_seq(chars@.subrange(lo as int, hi as int)) == word@),
{
    let w = chars_of(word);
    let ghost part = chars@.subrange(lo as int, hi as int);
    if hi - lo != w.len() {
        assert(upper_seq(part).len() == part.len());
        return false;
    }
    let mut i: usize = 0;
    while i < w.len()
        invariant
            lo <= hi <= chars@.len(),
            hi - lo == w@.len(),
            w@ == word@,
            part == chars@.subrange(lo as int, hi as int),
            0 <= i <= w@.len(),
            forall|k: int| 0 <= k < i ==> upper_seq(part)[k] == w@[k],
        decreases w@.len() - i,
    {
        if to_ascii_upper(chars[lo + i]) != w[i] {
            assert(upper_seq(part)[i as int] != w@[i as int]);
            return false;
        }
        i += 1;
    }
    assert(upper_seq(part) =~= w@);
    true
}

/// The characters of `sql` and the index range of its first word.
fn first_word_range(sql: &str) -> (r: (Vec<char>, usize, usize))
    ensures
        r.0@ == sql@,
        r.1 <= r.2 <= r.0@.len(),
        first_word(sql@) == r.0@.subrange(r.1 as int, r.2 as int),
{
    let chars = chars_of(sql);
    let n = chars.len();
    let a = leading_run_end(&chars, 0, n, &CharClass::Whitespace);
    assert(chars@.subrange(0, n as int) =~= sql@);
    let mut b: usize = a;
    assert(chars@.subrange(a as int, a as int) =~= Seq::<char>::empty());
    while b < n && !is_whitespace_char(chars[b])
        invariant
            a <= b <= n,
            n == chars@.len(),
            leading_word(chars@.subrange(a as int, n as int)) == chars@.subrange(a as int, b as int)
                + leading_word(chars@.subrange(b as int, n as int)),
        decreases n - b,
    {
        assert(chars@.subrange(b as int, n as int).drop_first() =~= chars@.subrange(b + 1, n as int));
        assert(chars@.subrange(a as int, b + 1) =~= chars@.subrange(a as int, b as int) + seq![chars@[b as int]]);
        b += 1;
    }
    assert(leading_word(chars@.subrange(b as int, n as int)) =~= Seq::<char>::empty());
    assert(first_word(sql@) =~= chars@.subrange(a as int, b as int));
    (chars, a, b)
}

/// `is_row_query`: whether a statement returns rows (it begins with
/// `SELECT`, `WITH`, `VALUES` or `TABLE`, in any ASCII case).
pub fn is_row_query(sql: &str) -> (r: bool)
    ensures
        r == row_query(sql@),
{
    let (chars, a, b) = first_word_range(sql);
    uppered_range_is(&chars, a, b, "SELECT") || uppered_range_is(&chars, a, b, "WITH")
        || uppered_range_is(&chars, a, b, "VALUES") || uppered_range_is(&chars, a, b, "TABLE")
}

/// Whether a statement is an `EXPLAIN`.
pub fn is_explain(sql: &str) -> (r: bool)
    ensures
        r == explain_query(sql@),
{
    let (chars, a, b) = first_word_range(sql);
    uppered_range_is(&chars, a, b, "EXPLAIN")
}

} // verus!

verus! {

/// What is sent to PostgreSQL for one caller statement.
#[derive(Debug)]
pub enum SqlRequest {
    /// A row-returning statement, wrapped so that each row comes back as one
    /// JSON value; at most `max_rows + 1` rows are fetched.
    Rows { query: String, max_rows: usize },
    /// An `EXPLAIN` statement, sent as it is (it cannot stand inside a
    /// `FROM` clause); the plan rows it returns are the response's rows.
    Explain { statement: String, max_rows: usize },
    /// Any other statement, run as it is for its affected-row count.
    Command { statement: String },
}

/// The model of an `SqlRequest`.
pub enum RequestModel {
    Rows { query: Seq<char>, max_rows: usize },
    Explain { statement: Seq<char>, max_rows: usize },
    Command { statement: Seq<char> },
}

impl View for SqlRequest {
    type V = RequestModel;

    open spec fn view(&self) -> RequestModel {
        match self {
            SqlRequest::Rows { query, max_rows } => RequestModel::Rows {
                query: query@,
                max_rows: *max_rows,
            },
            SqlRequest::Explain { statement, max_rows } => RequestModel::Explain {
                statement: statement@,
                max_rows: *max_rows,
            },
            SqlRequest::Command { statement } => RequestModel::Command { statement: statement@ },
        }
    }
}

/// The planned request and the values bound to `$1`, `$2`, ...
#[derive(Debug)]
pub struct SqlPlan {
    pub request: SqlRequest,
    pub values: Vec<BoundText>,
}

/// The text bound for one caller parameter: SQL NULL for JSON null, the
/// scalar text otherwise.
pub open spec fn parameter_text(v: JsonValue) -> Option<Seq<char>> {
    if v is Null {
        None
    } else {
        Some(scalar_text(v))
    }
}

/// Whether a statement is an `EXPLAIN` (its first word, in any ASCII case),
/// which returns the plan as rows.
pub open spec fn explain_query(sql: Seq<char>) -> bool {
    upper_seq(first_word(sql)) == "EXPLAIN"@
}

/// The wrapped form of a row-returning statement.
pub open spec fn rows_query(statement: Seq<char>, fetch_rows: nat) -> Seq<char> {
    "SELECT to_jsonb(query_row) FROM ("@ + statement + ") AS query_row LIMIT "@ + decimal(
        fetch_rows,
    )
}

/// The planning half of `execute_parameterized_sql`: the statement is
/// normalized, then `max_rows` (default 100) must lie in `1..=10000`. A
/// row-returning statement is wrapped so each row comes back as JSON, an
/// `EXPLAIN` is sent as it is and its plan rows are returned, and any other
/// statement is run for its affected-row count.
pub open spec fn sql_plan(sql: Seq<char>, parameters: Seq<JsonValue>, max_rows: Option<usize>) -> Result<(RequestModel, Seq<Option<Seq<char>>>), PlanFailure> {
    match normalized(sql) {
        Err(e) => Err(e),
        Ok(statement) => {
            let m = match max_rows {
                Some(m) => m,
                None => DEFAULT_SQL_MAX_ROWS,
            };
            if !(1 <= m && m <= MAX_SQL_MAX_ROWS) {
                Err(PlanFailure::MaxRowsOutOfRange)
            } else {
                let values = parameters.map_values(|p: JsonValue| parameter_text(p));
                if row_query(statement) {
                    Ok(
                        (
                            RequestModel::Rows {
                                query: rows_query(statement, (m + 1) as nat),
                                max_rows: m,
                            },
                            values,
                        ),
                    )
                } else if explain_query(statement) {
                    Ok((RequestModel::Explain { statement, max_rows: m }, values))
                } else {
                    Ok((RequestModel::Command { statement }, values))
                }
            }
        },
    }
}

/// Plans `execute_parameterized_sql`: every parameter is bound as TEXT and
/// never enters the statement text.
pub fn plan_sql(sql: &str, parameters: &[JsonValue], max_rows: Option<usize>) -> (r: Result<SqlPlan, PlanError>)
    ensures
        match r {
            Ok(p) => sql_plan(sql@, parameters@, max_rows) == Ok::<
                (RequestModel, Seq<Option<Seq<char>>>),
                PlanFailure,
            >((p.request@, bound_views(p.values@))),
            Err(e) => sql_plan(sql@, parameters@, max_rows) == Err::<
                (RequestModel, Seq<Option<Seq<char>>>),
                PlanFailure,
            >(e@),
        },
{
    let statement = match normalized_statement(sql) {
        Ok(s) => s,
        Err(e) => return Err(e),
    };
    let m = match max_rows {
        Some(m) => m,
        None => DEFAULT_SQL_MAX_ROWS,
    };
    if !(1 <= m && m <= MAX_SQL_MAX_ROWS) {
        return Err(PlanError::MaxRowsOutOfRange);
    }
    let mut values: Vec<BoundText> = Vec::new();
    let mut i: usize = 0;
    while i < parameters.len()
        invariant
            0 <= i <= parameters@.len(),
            bound_views(values@) =~= parameters@.take(i as int).map_values(
                |p: JsonValue| parameter_text(p),
            ),
        decreases parameters@.len() - i,
    {
        let bound = match BoundText::from_json(&parameters[i], false) {
            Ok(b) => b,
            Err(e) => {
                assert(false);
                return Err(e);
            },
        };
        assert(bound@ == parameter_text(parameters@[i as int]));
        let ghost before = bound_views(values@);
        values.push(bound);
        assert(bound_views(values@) =~= before.push(bound@));
        assert(parameters@.take(i + 1) =~= parameters@.take(i as int).push(parameters@[i as int]));
        i += 1;
    }
    assert(parameters@.take(parameters@.len() as int) =~= parameters@);
    let request = if is_row_query(statement) {
        let mut query = String::new();
        query.append("SELECT to_jsonb(query_row) FROM (");
        query.append(statement);
        query.append(") AS query_row LIMIT ");
        push_decimal(&mut query, (m + 1) as u64);
        SqlRequest::Rows { query, max_rows: m }
    } else if is_explain(statement) {
        SqlRequest::Explain { statement: statement.to_owned(), max_rows: m }
    } else {
        SqlRequest::Command { statement: statement.to_owned() }
    };
    Ok(SqlPlan { request, values })
}

/// The caller parameters of `execute-sql`, written as a JSON array: its
/// elements, or serde_json's message where the text is not a JSON array.
pub fn parameters_of_text(text: &str) -> (r: Result<Vec<JsonValue>, String>)
    ensures
        match r {
            Ok(items) => json_array_of_text(text@) == Ok::<Seq<JsonValue>, Seq<char>>(items@),
            Err(m) => json_array_of_text(text@) == Err::<Seq<JsonValue>, Seq<char>>(m@),
        },
{
    parse_json_array(text)
}

/// How many of the fetched rows are returned, and whether any were cut off.
pub fn row_window(fetched: usize, max_rows: usize) -> (r: (usize, bool))
    ensures
        r.0 == if fetched > max_rows {
            max_rows
        } else {
            fetched
        },
        r.1 == (fetched > max_rows),
{
    if fetched > max_rows {
        (max_rows, true)
    } else {
        (fetched, false)
    }
}

/// The member list of an `execute_sql` response.
pub open spec fn response_members(m: Seq<(String, JsonValue)>, rows: JsonValue, row_count: u64, truncated: bool, affected: JsonValue) -> bool {
    &&& m.len() == 4
    &&& m[0].0@ == "rows"@ && m[0].1 == rows
    &&& m[1].0@ == "row_count"@ && m[1].1 == JsonValue::Number(JsonNumber::PosInt(row_count))
    &&& m[2].0@ == "truncated"@ && m[2].1 == JsonValue::Bool(truncated)
    &&& m[3].0@ == "affected_rows"@ && m[3].1 == affected
}

fn response(rows: JsonValue, row_count: u64, truncated: bool, affected: JsonValue) -> (r: JsonValue)
    ensures
        r matches JsonValue::Object(m) && response_members(m@, rows, row_count, truncated, affected),
{
    let mut m: Vec<(String, JsonValue)> = Vec::new();
    m.push((String::from_str("rows"), rows));
    m.push((String::from_str("row_count"), JsonValue::Number(JsonNumber::PosInt(row_count))));
    m.push((String::from_str("truncated"), JsonValue::Bool(truncated)));
    m.push((String::from_str("affected_rows"), affected));
    JsonValue::Object(m)
}

/// The response to a row-returning statement: the returned rows, their
/// count, whether rows were cut off, and no affected-row count.
pub fn rows_response(rows: Vec<JsonValue>, truncated: bool) -> (r: JsonValue)
    ensures
        r matches JsonValue::Object(m) && response_members(
            m@,
            JsonValue::Array(rows),
            rows@.len() as u64,
            truncated,
            JsonValue::Null,
        ),
{
    let count = rows.len() as u64;
    response(JsonValue::Array(rows), count, truncated, JsonValue::Null)
}

/// The response to any other statement: no rows, and the affected-row count.
pub fn command_response(affected_rows: u64) -> (r: JsonValue)
    ensures
        r matches JsonValue::Object(m) && m@[0].1 matches JsonValue::Array(rows) && rows@.len()
            == 0 && response_members(
            m@,
            m@[0].1,
            0,
            false,
            JsonValue::Number(JsonNumber::PosInt(affected_rows)),
        ),
{
    let rows: Vec<JsonValue> = Vec::new();
    response(
        JsonValue::Array(rows),
        0,
        false,
        JsonValue::Number(JsonNumber::PosInt(affected_rows)),
    )
}

} // verus!

verus! {

/// Caller parameters never enter the statement text: whether the statement
/// is accepted, and the request sent for it, are the same whatever
/// parameters accompany it.
pub proof fn sql_request_ignores_parameters(
    sql: Seq<char>,
    p1: Seq<JsonValue>,
    p2: Seq<JsonValue>,
    max_rows: Option<usize>,
)
    ensures
        (sql_plan(sql, p1, max_rows) is Ok) == (sql_plan(sql, p2, max_rows) is Ok),
        sql_plan(sql, p1, max_rows) is Ok ==> sql_plan(sql, p1, max_rows)->Ok_0.0 == sql_plan(
            sql,
            p2,
            max_rows,
        )->Ok_0.0,
        sql_plan(sql, p1, max_rows) is Err ==> sql_plan(sql, p1, max_rows) == sql_plan(
            sql,
            p2,
            max_rows,
        ),
{
}

/// A normalized statement is non-empty and neither begins nor ends with
/// whitespace.
pub proof fn normalized_statement_is_trimmed(sql: Seq<char>)
    requires
        normalized(sql) is Ok,
    ensures
        normalized(sql)->Ok_0.len() > 0,
        !is_whitespace(normalized(sql)->Ok_0[0]),
        !is_whitespace(normalized(sql)->Ok_0.last()),
{
    let t = trim(sql);
    let s0 = strip_leading(sql, CharClass::Whitespace);
    lemma_strip_leading_head(sql);
    lemma_strip_trailing_prefix(s0);
    let v = if t.last() == ';' {
        t.drop_last()
    } else {
        t
    };
    lemma_strip_trailing_prefix(v);
    let u = trim_end(v);
    assert(u.len() > 0);
    assert(u[0] == v[0]);
    assert(v[0] == t[0]);
    assert(t[0] == s0[0]);
}

proof fn lemma_strip_leading_head(s: Seq<char>)
    ensures
        strip_leading(s, CharClass::Whitespace).len() > 0 ==> !is_whitespace(
            strip_leading(s, CharClass::Whitespace)[0],
        ),
    decreases s.len(),
{
    if s.len() > 0 && is_whitespace(s[0]) {
        lemma_strip_leading_head(s.drop_first());
    }
}

proof fn lemma_strip_trailing_prefix(s: Seq<char>)
    ensures
        strip_trailing(s, CharClass::Whitespace).len() <= s.len(),
        strip_trailing(s, CharClass::Whitespace) == s.take(
            strip_trailing(s, CharClass::Whitespace).len() as int,
        ),
        strip_trailing(s, CharClass::Whitespace).len() > 0 ==> !is_whitespace(
            strip_trailing(s, CharClass::Whitespace).last(),
        ),
    decreases s.len(),
{
    if s.len() > 0 && is_whitespace(s.last()) {
        lemma_strip_trailing_prefix(s.drop_last());
        let r = strip_trailing(s.drop_last(), CharClass::Whitespace);
        assert(s.drop_last().take(r.len() as int) =~= s.take(r.len() as int));
    } else {
        assert(s.take(s.len() as int) =~= s);
    }
}

/// The characters with the Unicode `White_Space` property, by code point:
/// U+0009..U+000D, U+0020, U+0085, U+00A0, U+1680, U+2000..U+200A, U+2028,
/// U+2029, U+202F, U+205F and U+3000.
pub open spec fn white_space_code_point(c: char) -> bool {
    let u = c as u32;
    (0x9 <= u && u <= 0xd) || u == 0x20 || u == 0x85 || u == 0xa0 || u == 0x1680
        || (0x2000 <= u && u <= 0x200a) || u == 0x2028 || u == 0x2029 || u == 0x202f
        || u == 0x205f || u == 0x3000
}

proof fn lemma_leading_word_stops(w: Seq<char>, c: char, rest: Seq<char>)
    requires
        forall|i: int| 0 <= i < w.len() ==> !white_space_code_point(#[trigger] w[i]),
        white_space_code_point(c),
    ensures
        leading_word(w + seq![c] + rest) == w,
    decreases w.len(),
{
    let s = w + seq![c] + rest;
    if w.len() == 0 {
        assert(s[0] == c);
    } else {
        assert(s[0] == w[0]);
        assert(!white_space_code_point(w[0]));
        let t = w.drop_first();
        assert forall|i: int| 0 <= i < t.len() implies !white_space_code_point(#[trigger] t[i]) by {
            assert(t[i] == w[i + 1]);
        }
        lemma_leading_word_stops(t, c, rest);
        assert(s.drop_first() =~= t + seq![c] + rest);
        assert(seq![w[0]] + t =~= w);
    }
}

/// The first word of a statement runs from its first character up to the
/// first character with the Unicode `White_Space` property (a line break, a
/// tab and a space alike, as `str::split_whitespace` splits): a statement that
/// is a word, one whitespace character and anything after it is a row query
/// exactly when the word is `SELECT`, `WITH`, `VALUES` or `TABLE` in some
/// ASCII case, and an `EXPLAIN` exactly when the word is `EXPLAIN`.
pub proof fn first_word_ends_at_whitespace(w: Seq<char>, c: char, rest: Seq<char>)
    requires
        w.len() > 0,
        forall|i: int| 0 <= i < w.len() ==> !white_space_code_point(#[trigger] w[i]),
        white_space_code_point(c),
    ensures
        first_word(w + seq![c] + rest) == w,
        row_query(w + seq![c] + rest) <==> (upper_seq(w) == "SELECT"@ || upper_seq(w) == "WITH"@
            || upper_seq(w) == "VALUES"@ || upper_seq(w) == "TABLE"@),
        explain_query(w + seq![c] + rest) <==> upper_seq(w) == "EXPLAIN"@,
{
    let s = w + seq![c] + rest;
    assert(s[0] == w[0]);
    assert(!white_space_code_point(w[0]));
    assert(strip_leading(s, CharClass::Whitespace) == s);
    lemma_leading_word_stops(w, c, rest);
}

} // verus!
