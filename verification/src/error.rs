//! Why a statement could not be planned.

use vstd::prelude::*;

verus! {

/// A refusal to plan a statement; each variant is one rule of the planner.
#[derive(Debug)]
pub enum PlanError {
    /// An argument declared as a PostgreSQL array was not a JSON array.
    ArrayArgumentNotArray,
    /// The endpoint path names neither a catalog relation nor a routine.
    UnsupportedEndpointPath(String),
    /// An argument schema has no textual `x-postgres-type`.
    MissingPostgresType,
    /// An argument schema's `x-postgres-type` is empty.
    EmptyPostgresType,
    /// An argument schema's `x-postgres-type` holds a character outside the
    /// allowed type-name alphabet.
    UnsafePostgresType(String),
    /// The routine's input schema has no request-body property object.
    MissingRequestBodyProperties,
    /// `limit` was given but is not a non-negative integer.
    LimitNotInteger,
    /// `offset` was given but is not a non-negative integer.
    OffsetNotInteger,
    /// `limit` is outside `1..=10000`.
    LimitOutOfRange,
    /// The routine takes arguments but no `body` was supplied.
    BodyRequired,
    /// A positional argument was supplied after an earlier one was omitted.
    PositionalAfterOmitted(String),
    /// A relation endpoint whose method is not `GET`.
    RelationMethodNotGet,
    /// A routine endpoint whose method is not `POST`.
    RoutineMethodNotPost,
    /// The statement is empty once whitespace and a final `;` are removed.
    EmptyStatement,
    /// `max_rows` is outside `1..=10000`.
    MaxRowsOutOfRange,
    /// The connection URL is not one the PostgreSQL driver accepts.
    InvalidConnectionUrl,
}

/// The model of a `PlanError`, with its texts as character sequences.
pub enum PlanFailure {
    ArrayArgumentNotArray,
    UnsupportedEndpointPath(Seq<char>),
    MissingPostgresType,
    EmptyPostgresType,
    UnsafePostgresType(Seq<char>),
    MissingRequestBodyProperties,
    LimitNotInteger,
    OffsetNotInteger,
    LimitOutOfRange,
    BodyRequired,
    PositionalAfterOmitted(Seq<char>),
    RelationMethodNotGet,
    RoutineMethodNotPost,
    EmptyStatement,
    MaxRowsOutOfRange,
    InvalidConnectionUrl,
}

impl View for PlanError {
    type V = PlanFailure;

    open spec fn view(&self) -> PlanFailure {
        match self {
            PlanError::ArrayArgumentNotArray => PlanFailure::ArrayArgumentNotArray,
            PlanError::UnsupportedEndpointPath(p) => PlanFailure::UnsupportedEndpointPath(p@),
            PlanError::MissingPostgresType => PlanFailure::MissingPostgresType,
            PlanError::EmptyPostgresType => PlanFailure::EmptyPostgresType,
            PlanError::UnsafePostgresType(t) => PlanFailure::UnsafePostgresType(t@),
            PlanError::MissingRequestBodyProperties => PlanFailure::MissingRequestBodyProperties,
            PlanError::LimitNotInteger => PlanFailure::LimitNotInteger,
            PlanError::OffsetNotInteger => PlanFailure::OffsetNotInteger,
            PlanError::LimitOutOfRange => PlanFailure::LimitOutOfRange,
            PlanError::BodyRequired => PlanFailure::BodyRequired,
            PlanError::PositionalAfterOmitted(n) => PlanFailure::PositionalAfterOmitted(n@),
            PlanError::RelationMethodNotGet => PlanFailure::RelationMethodNotGet,
            PlanError::RoutineMethodNotPost => PlanFailure::RoutineMethodNotPost,
            PlanError::EmptyStatement => PlanFailure::EmptyStatement,
            PlanError::MaxRowsOutOfRange => PlanFailure::MaxRowsOutOfRange,
            PlanError::InvalidConnectionUrl => PlanFailure::InvalidConnectionUrl,
        }
    }
}

} // verus!

verus! {

/// The message reported for each refusal.
pub open spec fn failure_text(f: PlanFailure) -> Seq<char> {
    match f {
        PlanFailure::ArrayArgumentNotArray => "PostgreSQL array arguments must be JSON arrays"@,
        PlanFailure::UnsupportedEndpointPath(path) => "unsupported generated PostgreSQL endpoint path '"@
            + path + "'"@,
        PlanFailure::MissingPostgresType => "generated argument schema is missing x-postgres-type"@,
        PlanFailure::EmptyPostgresType => "generated PostgreSQL type is empty"@,
        PlanFailure::UnsafePostgresType(raw) => "generated PostgreSQL type contains unsafe syntax: '"@
            + raw + "'"@,
        PlanFailure::MissingRequestBodyProperties => "generated routine input schema has no request-body properties"@,
        PlanFailure::LimitNotInteger => "limit must be a positive integer"@,
        PlanFailure::OffsetNotInteger => "offset must be a non-negative integer"@,
        PlanFailure::LimitOutOfRange => "limit must be between 1 and 10000"@,
        PlanFailure::BodyRequired => "routine arguments must be supplied in the 'body' object"@,
        PlanFailure::PositionalAfterOmitted(name) => "cannot supply positional argument '"@ + name
            + "' after omitting an earlier defaulted argument"@,
        PlanFailure::RelationMethodNotGet => "Condition failed: `endpoint.method.eq_ignore_ascii_case(\"GET\")`"@,
        PlanFailure::RoutineMethodNotPost => "Condition failed: `endpoint.method.eq_ignore_ascii_case(\"POST\")`"@,
        PlanFailure::EmptyStatement => "sql must not be empty"@,
        PlanFailure::MaxRowsOutOfRange => "max_rows must be between 1 and 10000"@,
        PlanFailure::InvalidConnectionUrl => "invalid PostgreSQL connection URL; expected postgresql://host/database"@,
    }
}

impl PlanError {
    /// The message of this refusal.
    pub fn message(&self) -> (r: String)
        ensures
            r@ == failure_text(self@),
    {
        match self {
            PlanError::ArrayArgumentNotArray => String::from_str(
                "PostgreSQL array arguments must be JSON arrays",
            ),
            PlanError::UnsupportedEndpointPath(path) => {
                let mut m = String::from_str("unsupported generated PostgreSQL endpoint path '");
                m.append(path.as_str());
                m.append("'");
                m
            },
            PlanError::MissingPostgresType => String::from_str(
                "generated argument schema is missing x-postgres-type",
            ),
            PlanError::EmptyPostgresType => String::from_str("generated PostgreSQL type is empty"),
            PlanError::UnsafePostgresType(raw) => {
                let mut m = String::from_str("generated PostgreSQL type contains unsafe syntax: '");
                m.append(raw.as_str());
                m.append("'");
                m
            },
            PlanError::MissingRequestBodyProperties => String::from_str(
                "generated routine input schema has no request-body properties",
            ),
            PlanError::LimitNotInteger => String::from_str("limit must be a positive integer"),
            PlanError::OffsetNotInteger => String::from_str("offset must be a non-negative integer"),
            PlanError::LimitOutOfRange => String::from_str("limit must be between 1 and 10000"),
            PlanError::BodyRequired => String::from_str(
                "routine arguments must be supplied in the 'body' object",
            ),
            PlanError::PositionalAfterOmitted(name) => {
                let mut m = String::from_str("cannot supply positional argument '");
                m.append(name.as_str());
                m.append("' after omitting an earlier defaulted argument");
                m
            },
            PlanError::RelationMethodNotGet => String::from_str(
                "Condition failed: `endpoint.method.eq_ignore_ascii_case(\"GET\")`",
            ),
            PlanError::RoutineMethodNotPost => String::from_str(
                "Condition failed: `endpoint.method.eq_ignore_ascii_case(\"POST\")`",
            ),
            PlanError::EmptyStatement => String::from_str("sql must not be empty"),
            PlanError::MaxRowsOutOfRange => String::from_str("max_rows must be between 1 and 10000"),
            PlanError::InvalidConnectionUrl => String::from_str(
                "invalid PostgreSQL connection URL; expected postgresql://host/database",
            ),
        }
    }
}

} // verus!
