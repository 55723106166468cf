//! Reading a page of a catalog relation.

use vstd::prelude::*;
use crate::error::{PlanError, PlanFailure};
use crate::identifier::{quote_identifier, quoted_identifier};
use crate::json::{JsonValue, as_u64, get};
use crate::text::{decimal, push_decimal};

verus! {

/// Rows returned when no `limit` is given.
pub const DEFAULT_RELATION_LIMIT: u64 = 100;

/// The largest `limit` accepted.
pub const MAX_RELATION_LIMIT: u64 = 10000;

/// A pagination argument: its default when absent, its value when it is a
/// non-negative integer, and the refusal `bad` otherwise.
pub open spec fn page_argument(args: JsonValue, key: Seq<char>, default: u64, bad: PlanFailure) -> Result<u64, PlanFailure> {
    match get(args, key) {
        None => Ok(default),
        Some(v) => match as_u64(v) {
            Some(n) => Ok(n),
            None => Err(bad),
        },
    }
}

/// The statement that reads one page of `schema.relation` as a JSON array.
pub open spec fn relation_query(schema: Seq<char>, relation: Seq<char>, limit: u64, offset: u64) -> Seq<char> {
    "SELECT COALESCE(jsonb_agg(to_jsonb(row_value)), '[]'::jsonb) FROM (SELECT * FROM "@
        + quoted_identifier(schema) + seq!['.'] + quoted_identifier(relation) + " LIMIT "@
        + decimal(limit as nat) + " OFFSET "@ + decimal(offset as nat) + ") AS row_value"@
}

/// `build_relation_sql` as a function of its arguments: `limit` (default
/// 100) and `offset` (default 0) must be non-negative integers, checked in
/// that order, and then `limit` must lie in `1..=10000`.
pub open spec fn relation_sql(schema: Seq<char>, relation: Seq<char>, args: JsonValue) -> Result<Seq<char>, PlanFailure> {
    match page_argument(args, "limit"@, DEFAULT_RELATION_LIMIT, PlanFailure::LimitNotInteger) {
        Err(e) => Err(e),
        Ok(limit) => match page_argument(args, "offset"@, 0, PlanFailure::OffsetNotInteger) {
            Err(e) => Err(e),
            Ok(offset) => if 1 <= limit && limit <= MAX_RELATION_LIMIT {
                Ok(relation_query(schema, relation, limit, offset))
            } else {
                Err(PlanFailure::LimitOutOfRange)
            },
        },
    }
}

fn page_argument_of(args: &JsonValue, key: &str, default: u64, bad: PlanError) -> (r: Result<u64, PlanError>)
    ensures
        match r {
            Ok(n) => page_argument(*args, key@, default, bad@) == Ok::<u64, PlanFailure>(n),
            Err(e) => page_argument(*args, key@, default, bad@) == Err::<u64, PlanFailure>(e@),
        },
{
    match args.get(key) {
        None => Ok(default),
        Some(v) => match v.as_u64() {
            Some(n) => Ok(n),
            None => Err(bad),
        },
    }
}

/// `build_relation_sql`: the statement reading one page of a catalog
/// relation. Only the quoted identifiers and the validated numbers enter the
/// statement.
pub fn build_relation_sql(schema: &str, relation: &str, args: &JsonValue) -> (r: Result<String, PlanError>)
    ensures
        match r {
            Ok(sql) => relation_sql(schema@, relation@, *args) == Ok::<Seq<char>, PlanFailure>(sql@),
            Err(e) => relation_sql(schema@, relation@, *args) == Err::<Seq<char>, PlanFailure>(e@),
        },
{
    let limit = match page_argument_of(args, "limit", DEFAULT_RELATION_LIMIT, PlanError::LimitNotInteger) {
        Ok(n) => n,
        Err(e) => return Err(e),
    };
    let offset = match page_argument_of(args, "offset", 0, PlanError::OffsetNotInteger) {
        Ok(n) => n,
        Err(e) => return Err(e),
    };
    if !(1 <= limit && limit <= MAX_RELATION_LIMIT) {
        return Err(PlanError::LimitOutOfRange);
    }
    let mut sql = String::new();
    sql.append("SELECT COALESCE(jsonb_agg(to_jsonb(row_value)), '[]'::jsonb) FROM (SELECT * FROM ");
    sql.append(quote_identifier(schema).as_str());
    sql.append(".");
    sql.append(quote_identifier(relation).as_str());
    sql.append(" LIMIT ");
    push_decimal(&mut sql, limit);
    sql.append(" OFFSET ");
    push_decimal(&mut sql, offset);
    sql.append(") AS row_value");
    proof {
        reveal_strlit(".");
    }
    assert(sql@ =~= relation_query(schema@, relation@, limit, offset));
    Ok(sql)
}

} // verus!

verus! {

/// A relation statement holds nothing from the caller but validated
/// pagination: every accepted request reads the named relation with a limit
/// in `1..=10000` and a non-negative offset, both written as decimal numbers.
pub proof fn relation_statement_holds_only_pagination(schema: Seq<char>, relation: Seq<char>, args: JsonValue)
    requires
        relation_sql(schema, relation, args) is Ok,
    ensures
        exists|limit: u64, offset: u64|
            1 <= limit <= MAX_RELATION_LIMIT && #[trigger] relation_query(
                schema,
                relation,
                limit,
                offset,
            ) == relation_sql(schema, relation, args)->Ok_0,
{
    let limit = page_argument(args, "limit"@, DEFAULT_RELATION_LIMIT, PlanFailure::LimitNotInteger)->Ok_0;
    let offset = page_argument(args, "offset"@, 0, PlanFailure::OffsetNotInteger)->Ok_0;
    assert(relation_query(schema, relation, limit, offset) == relation_sql(schema, relation, args)->Ok_0);
}

/// Whether `s` ends with `suffix`.
pub open spec fn has_suffix(s: Seq<char>, suffix: Seq<char>) -> bool {
    s.len() >= suffix.len() && s.subrange(s.len() - suffix.len(), s.len() as int) == suffix
}

/// The page read is exactly the one asked for: a request is accepted exactly
/// when `limit` (if given) is an integer in `1..=10000` and `offset` (if
/// given) is a non-negative integer, and the statement then ends with
/// ` LIMIT <limit> OFFSET <offset>) AS row_value`, with the caller's numbers
/// written unchanged (100 and 0 when absent) and no bound on the offset.
pub proof fn relation_page_is_the_requested_page(schema: Seq<char>, relation: Seq<char>, args: JsonValue, limit: u64, offset: u64)
    requires
        match get(args, "limit"@) {
            None => limit == 100,
            Some(v) => v == JsonValue::Number(crate::json::JsonNumber::PosInt(limit)),
        },
        match get(args, "offset"@) {
            None => offset == 0,
            Some(v) => v == JsonValue::Number(crate::json::JsonNumber::PosInt(offset)),
        },
    ensures
        relation_sql(schema, relation, args) is Ok <==> 1 <= limit <= 10000,
        relation_sql(schema, relation, args) matches Ok(sql) ==> has_suffix(
            sql,
            " LIMIT "@ + decimal(limit as nat) + " OFFSET "@ + decimal(offset as nat)
                + ") AS row_value"@,
        ),
{
    if relation_sql(schema, relation, args) is Ok {
        let sql = relation_sql(schema, relation, args)->Ok_0;
        let suffix = " LIMIT "@ + decimal(limit as nat) + " OFFSET "@ + decimal(offset as nat)
            + ") AS row_value"@;
        let head = "SELECT COALESCE(jsonb_agg(to_jsonb(row_value)), '[]'::jsonb) FROM (SELECT * FROM "@
            + quoted_identifier(schema) + seq!['.'] + quoted_identifier(relation);
        assert(sql =~= head + suffix);
        assert(sql.subrange(sql.len() - suffix.len(), sql.len() as int) =~= suffix);
    }
}

} // verus!
