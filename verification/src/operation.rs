//! Planning a generated catalog operation: the endpoint's target decides
//! whether a relation page is read or a routine is called.

use vstd::prelude::*;
use crate::binding::{BoundText, bound_views};
use crate::endpoint::{EndpointRecord, EndpointTarget, TargetModel, endpoint_target, parse_endpoint_target};
use crate::error::{PlanError, PlanFailure};
use crate::json::JsonValue;
use crate::relation::{build_relation_sql, relation_sql};
use crate::routine::{build_routine_sql, routine_sql};
use crate::text::{chars_of, eq_ignore_ascii_case, lower_seq, to_ascii_lower};

verus! {

/// The statement and bound values of a catalog operation: a relation is
/// read with `GET`, a routine is called with `POST`.
pub open spec fn operation_sql(endpoint: EndpointRecord, args: JsonValue) -> Result<(Seq<char>, Seq<Option<Seq<char>>>), PlanFailure> {
    match endpoint_target(endpoint.path@) {
        Err(e) => Err(e),
        Ok(TargetModel::Relation { schema, name }) => if eq_ignore_ascii_case(
            endpoint.method@,
            "GET"@,
        ) {
            match relation_sql(schema, name, args) {
                Ok(sql) => Ok((sql, Seq::<Option<Seq<char>>>::empty())),
                Err(e) => Err(e),
            }
        } else {
            Err(PlanFailure::RelationMethodNotGet)
        },
        Ok(TargetModel::Routine { schema, name }) => if eq_ignore_ascii_case(
            endpoint.method@,
            "POST"@,
        ) {
            routine_sql(endpoint, schema, name, args)
        } else {
            Err(PlanFailure::RoutineMethodNotPost)
        },
    }
}

/// Whether `method` equals the upper-case `word`, ignoring ASCII case.
fn method_is(method: &str, word: &str) -> (r: bool)
    ensures
        r == eq_ignore_ascii_case(method@, word@),
{
    let m = chars_of(method);
    let w = chars_of(word);
    if m.len() != w.len() {
        assert(lower_seq(method@).len() != lower_seq(word@).len());
        return false;
    }
    let mut i: usize = 0;
    while i < m.len()
        invariant
            m@ == method@,
            w@ == word@,
            m@.len() == w@.len(),
            0 <= i <= m@.len(),
            forall|k: int| 0 <= k < i ==> lower_seq(m@)[k] == lower_seq(w@)[k],
        decreases m@.len() - i,
    {
        if to_ascii_lower(m[i]) != to_ascii_lower(w[i]) {
            assert(lower_seq(m@)[i as int] != lower_seq(w@)[i as int]);
            return false;
        }
        i += 1;
    }
    assert(lower_seq(m@) =~= lower_seq(w@));
    true
}

/// The planning half of `execute_operation`: the statement to run in a
/// read-only transaction and the values bound to its parameters.
pub fn operation_statement(endpoint: &EndpointRecord, args: &JsonValue) -> (r: Result<(String, Vec<BoundText>), PlanError>)
    ensures
        match r {
            Ok((sql, values)) => operation_sql(*endpoint, *args) == Ok::<
                (Seq<char>, Seq<Option<Seq<char>>>),
                PlanFailure,
            >((sql@, bound_views(values@))),
            Err(e) => operation_sql(*endpoint, *args) == Err::<
                (Seq<char>, Seq<Option<Seq<char>>>),
                PlanFailure,
            >(e@),
        },
{
    let target = match parse_endpoint_target(endpoint.path.as_str()) {
        Ok(t) => t,
        Err(e) => return Err(e),
    };
    match target {
        EndpointTarget::Relation { schema, name } => {
            if !method_is(endpoint.method.as_str(), "GET") {
                return Err(PlanError::RelationMethodNotGet);
            }
            match build_relation_sql(schema.as_str(), name.as_str(), args) {
                Ok(sql) => {
                    let values: Vec<BoundText> = Vec::new();
                    assert(bound_views(values@) =~= Seq::<Option<Seq<char>>>::empty());
                    Ok((sql, values))
                },
                Err(e) => Err(e),
            }
        },
        EndpointTarget::Routine { schema, name } => {
            if !method_is(endpoint.method.as_str(), "POST") {
                return Err(PlanError::RoutineMethodNotPost);
            }
            build_routine_sql(endpoint, schema.as_str(), name.as_str(), args)
        },
    }
}

/// The action named in the error of a failed catalog operation.
pub open spec fn operation_failure_action(operation_id: Seq<char>) -> Seq<char> {
    "PostgreSQL operation '"@ + operation_id + "' failed"@
}

/// `PostgreSQL operation '<operation_id>' failed`.
pub fn operation_failure(operation_id: &str) -> (r: String)
    ensures
        r@ == operation_failure_action(operation_id@),
{
    let mut out = String::new();
    out.append("PostgreSQL operation '");
    out.append(operation_id);
    out.append("' failed");
    out
}

} // verus!
