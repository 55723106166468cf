use postgres_mcp::binding::{postgres_array_literal, BoundText};
use postgres_mcp::connection::{
    connect_timeout_ms, connection_config, connection_details, execute_sql_session_settings, postgres_error_message,
    statement_timeout_setting, PostgresFailure,
};
use postgres_mcp::endpoint::{parse_endpoint_target, EndpointRecord, EndpointTarget};
use postgres_mcp::error::PlanError;
use postgres_mcp::identifier::quote_identifier;
use postgres_mcp::json::{json_text_of, pointer_of, JsonNumber, JsonValue};
use postgres_mcp::operation::{operation_failure, operation_statement};
use postgres_mcp::relation::build_relation_sql;
use postgres_mcp::routine::{build_routine_sql, parameter_sort_key, trusted_postgres_type};
use postgres_mcp::statement::{
    command_response, is_explain, is_row_query, normalized_statement, parameters_of_text, plan_sql, row_window, rows_response,
    SqlRequest,
};
use postgres_mcp::text::decimal_string;
use serde_json::Value;

fn text(value: &str) -> JsonValue {
    JsonValue::Str(value.to_string())
}

fn number(value: u64) -> JsonValue {
    JsonValue::Number(JsonNumber::PosInt(value))
}

fn object(members: Vec<(&str, JsonValue)>) -> JsonValue {
    JsonValue::Object(
        members
            .into_iter()
            .map(|(key, value)| (key.to_string(), value))
            .collect(),
    )
}

fn typed(json_type: &str, postgres_type: &str) -> JsonValue {
    object(vec![("type", text(json_type)), ("x-postgres-type", text(postgres_type))])
}

fn input(properties: Vec<(&str, JsonValue)>) -> JsonValue {
    object(vec![(
        "requestBody",
        object(vec![(
            "content",
            object(vec![(
                "application/json",
                object(vec![("schema", object(vec![("properties", object(properties))]))]),
            )]),
        )]),
    )])
}

fn output(json_type: &str) -> JsonValue {
    object(vec![(
        "200",
        object(vec![(
            "content",
            object(vec![(
                "application/json",
                object(vec![("schema", object(vec![("type", text(json_type))]))]),
            )]),
        )]),
    )])
}

fn routine(path: &str, method: &str, input_schema: JsonValue, output_schema: JsonValue) -> EndpointRecord {
    EndpointRecord {
        operation_id: "operation".to_string(),
        path: path.to_string(),
        method: method.to_string(),
        summary: None,
        description: None,
        input_schema,
        output_schema,
    }
}

fn body(members: Vec<(&str, JsonValue)>) -> JsonValue {
    object(vec![("body", object(members))])
}

#[test]
fn quoted_identifiers_double_every_quote() {
    assert_eq!(quote_identifier("pg_class"), "\"pg_class\"");
    assert_eq!(quote_identifier(""), "\"\"");
    assert_eq!(quote_identifier("\"\""), "\"\"\"\"\"\"");
    assert_eq!(quote_identifier("a\"; DROP"), "\"a\"\"; DROP\"");
}

#[test]
fn endpoint_paths_round_trip() {
    assert_eq!(
        parse_endpoint_target("/routines/pg_catalog/now/no_args").unwrap(),
        EndpointTarget::Routine {
            schema: "pg_catalog".to_string(),
            name: "now".to_string()
        }
    );
    assert_eq!(
        parse_endpoint_target("//relations/information_schema/tables//").unwrap(),
        EndpointTarget::Relation {
            schema: "information_schema".to_string(),
            name: "tables".to_string()
        }
    );
    assert!(matches!(
        parse_endpoint_target("/relations//pg_class"),
        Err(PlanError::UnsupportedEndpointPath(path)) if path == "/relations//pg_class"
    ));
    assert!(parse_endpoint_target("/routines/pg_catalog/now").is_err());
    assert!(parse_endpoint_target("/relations/pg_catalog/pg_class/extra").is_err());
}

#[test]
fn relation_pages_default_and_reject_bad_pagination() {
    assert_eq!(
        build_relation_sql("pg_catalog", "pg_class", &JsonValue::Null).unwrap(),
        "SELECT COALESCE(jsonb_agg(to_jsonb(row_value)), '[]'::jsonb) FROM (SELECT * FROM \"pg_catalog\".\"pg_class\" LIMIT 100 OFFSET 0) AS row_value"
    );
    assert!(matches!(
        build_relation_sql("s", "r", &object(vec![("limit", text("5"))])),
        Err(PlanError::LimitNotInteger)
    ));
    assert!(matches!(
        build_relation_sql("s", "r", &object(vec![("offset", JsonValue::Number(JsonNumber::NegInt(-1)))])),
        Err(PlanError::OffsetNotInteger)
    ));
    assert!(matches!(
        build_relation_sql("s", "r", &object(vec![("limit", number(0))])),
        Err(PlanError::LimitOutOfRange)
    ));
    assert!(matches!(
        build_relation_sql("s", "r", &object(vec![("limit", text("x")), ("offset", text("y"))])),
        Err(PlanError::LimitNotInteger)
    ));
    assert!(build_relation_sql("s", "r", &object(vec![("limit", number(10000))])).unwrap().contains("LIMIT 10000 OFFSET 0"));
}

#[test]
fn routine_arguments_are_ordered_positional_first() {
    let endpoint = routine(
        "/routines/public/f/sig",
        "POST",
        input(vec![
            ("zeta", typed("string", "text")),
            ("arg10", typed("integer", "integer")),
            ("arg2", typed("integer", "integer")),
            ("alpha", typed("string", "bytea")),
        ]),
        output("integer"),
    );
    let (sql, values) = build_routine_sql(
        &endpoint,
        "public",
        "f",
        &body(vec![
            ("alpha", text("AAEC")),
            ("arg2", number(2)),
            ("arg10", number(10)),
            ("zeta", JsonValue::Null),
        ]),
    )
    .unwrap();
    assert_eq!(
        sql,
        "SELECT to_jsonb(\"public\".\"f\"($1::text::integer, $2::text::integer, \"alpha\" => decode($3::text, 'base64'), \"zeta\" => $4::text::text))"
    );
    let bound: Vec<Option<&str>> = values.iter().map(|v| v.value.as_deref()).collect();
    assert_eq!(bound, vec![Some("2"), Some("10"), Some("AAEC"), None]);
}

#[test]
fn routine_sets_are_aggregated_and_values_never_change_the_statement() {
    let endpoint = routine(
        "/routines/pg_catalog/generate_series/x",
        "POST",
        input(vec![("arg1", typed("integer", "integer")), ("arg2", typed("integer", "integer"))]),
        output("array"),
    );
    let (first, _) = build_routine_sql(&endpoint, "pg_catalog", "generate_series", &body(vec![("arg1", number(1)), ("arg2", number(3))])).unwrap();
    let (second, values) = build_routine_sql(&endpoint, "pg_catalog", "generate_series", &body(vec![("arg1", text("1); DROP TABLE t; --")), ("arg2", number(9))])).unwrap();
    assert_eq!(first, second);
    assert_eq!(
        first,
        "SELECT COALESCE(jsonb_agg(to_jsonb(result)), '[]'::jsonb) FROM (SELECT \"pg_catalog\".\"generate_series\"($1::text::integer, $2::text::integer) AS result) AS routine_rows"
    );
    assert_eq!(values[0].value.as_deref(), Some("1); DROP TABLE t; --"));
}

#[test]
fn routine_refusals() {
    let no_properties = routine("/routines/s/f/x", "POST", object(vec![]), output("string"));
    assert!(matches!(
        build_routine_sql(&no_properties, "s", "f", &JsonValue::Null),
        Err(PlanError::MissingRequestBodyProperties)
    ));
    let endpoint = routine(
        "/routines/s/f/x",
        "POST",
        input(vec![("arg1", typed("integer", "integer")), ("arg2", typed("integer", "integer"))]),
        output("integer"),
    );
    assert!(matches!(
        build_routine_sql(&endpoint, "s", "f", &object(vec![])),
        Err(PlanError::BodyRequired)
    ));
    assert!(matches!(
        build_routine_sql(&endpoint, "s", "f", &body(vec![("arg2", number(1))])),
        Err(PlanError::PositionalAfterOmitted(name)) if name == "arg2"
    ));
    let (sql, values) = build_routine_sql(&endpoint, "s", "f", &body(vec![("arg1", number(1))])).unwrap();
    assert_eq!(sql, "SELECT to_jsonb(\"s\".\"f\"($1::text::integer))");
    assert_eq!(values.len(), 1);
    let empty = routine("/routines/s/g/x", "POST", input(vec![]), output("integer"));
    let (sql, values) = build_routine_sql(&empty, "s", "g", &JsonValue::Null).unwrap();
    assert_eq!(sql, "SELECT to_jsonb(\"s\".\"g\"())");
    assert!(values.is_empty());
    let array_argument = routine(
        "/routines/s/h/x",
        "POST",
        input(vec![("items", object(vec![("type", text("array")), ("x-postgres-type", text("integer"))]))]),
        output("integer"),
    );
    assert!(matches!(
        build_routine_sql(&array_argument, "s", "h", &body(vec![("items", number(1))])),
        Err(PlanError::ArrayArgumentNotArray)
    ));
    let (sql, values) = build_routine_sql(&array_argument, "s", "h", &body(vec![("items", JsonValue::Array(vec![number(1), number(2)]))])).unwrap();
    assert_eq!(sql, "SELECT to_jsonb(\"s\".\"h\"(\"items\" => $1::text::integer[]))");
    assert_eq!(values[0].value.as_deref(), Some("{\"1\",\"2\"}"));
}

#[test]
fn declared_types_are_checked_and_normalized() {
    let ok = |schema: JsonValue| trusted_postgres_type(&schema).unwrap();
    assert_eq!(ok(typed("array", "anyarray")), ("text[]".to_string(), true));
    assert_eq!(ok(typed("string", "\"AnyElement\"")), ("text".to_string(), false));
    assert_eq!(ok(typed("array", "integer")), ("integer[]".to_string(), true));
    assert_eq!(ok(typed("array", "integer[] ")), ("integer[] ".to_string(), true));
    assert_eq!(ok(typed("string", "character varying(20)")), ("character varying(20)".to_string(), false));
    assert_eq!(
        ok(object(vec![("type", JsonValue::Array(vec![text("array"), text("null")])), ("x-postgres-type", text("text"))])),
        ("text[]".to_string(), true)
    );
    assert!(matches!(trusted_postgres_type(&object(vec![])), Err(PlanError::MissingPostgresType)));
    assert!(matches!(trusted_postgres_type(&typed("string", "")), Err(PlanError::EmptyPostgresType)));
    assert!(matches!(
        trusted_postgres_type(&typed("string", "text; DROP")),
        Err(PlanError::UnsafePostgresType(raw)) if raw == "text; DROP"
    ));
}

#[test]
fn parameter_sort_keys_rank_positional_arguments() {
    assert_eq!(parameter_sort_key("arg3"), (0, 3, "arg3"));
    assert_eq!(parameter_sort_key("arg+3"), (0, 3, "arg+3"));
    assert_eq!(parameter_sort_key("argx"), (1, usize::MAX, "argx"));
    assert_eq!(parameter_sort_key("arg"), (1, usize::MAX, "arg"));
    assert_eq!(parameter_sort_key("name"), (1, usize::MAX, "name"));
}

#[test]
fn bound_text_encodes_each_json_kind() {
    let bound = |value: JsonValue, array: bool| BoundText::from_json(&value, array).unwrap().value;
    assert_eq!(bound(JsonValue::Null, true), None);
    assert_eq!(bound(JsonValue::Bool(false), false).as_deref(), Some("false"));
    assert_eq!(bound(JsonValue::Number(JsonNumber::NegInt(-42)), false).as_deref(), Some("-42"));
    assert_eq!(bound(JsonValue::Number(JsonNumber::NegInt(i64::MIN)), false).as_deref(), Some("-9223372036854775808"));
    assert_eq!(bound(JsonValue::Number(JsonNumber::Float("1.5".to_string())), false).as_deref(), Some("1.5"));
    assert_eq!(bound(text("it's"), false).as_deref(), Some("it's"));
    assert_eq!(
        bound(object(vec![("a", text("x\"y")), ("b", JsonValue::Array(vec![number(1), JsonValue::Null]))]), false).as_deref(),
        Some("{\"a\":\"x\\\"y\",\"b\":[1,null]}")
    );
    assert_eq!(
        bound(JsonValue::Array(vec![object(vec![("k", text("v"))]), text("a\\b")]), true).as_deref(),
        Some("{\"{\\\"k\\\":\\\"v\\\"}\",\"a\\\\b\"}")
    );
    assert!(matches!(postgres_array_literal(&text("x")), Err(PlanError::ArrayArgumentNotArray)));
    assert_eq!(postgres_array_literal(&JsonValue::Array(vec![])).unwrap(), "{}");
}

#[test]
fn json_text_is_compact() {
    assert_eq!(json_text_of(&text("line\nbreak")), "\"line\\nbreak\"");
    assert_eq!(json_text_of(&JsonValue::Array(vec![])), "[]");
    assert_eq!(json_text_of(&object(vec![])), "{}");
    assert_eq!(json_text_of(&number(18446744073709551615)), "18446744073709551615");
    assert_eq!(decimal_string(0), "0");
    assert_eq!(decimal_string(1000), "1000");
}

#[test]
fn json_pointers_follow_objects_and_arrays() {
    let value = object(vec![("list", JsonValue::Array(vec![text("a"), text("b")]))]);
    let found = pointer_of(&value, &["list", "1"]).unwrap();
    assert!(matches!(found, JsonValue::Str(s) if s == "b"));
    assert!(pointer_of(&value, &["list", "01"]).is_none());
    assert!(pointer_of(&value, &["list", "+1"]).is_none());
    assert!(pointer_of(&value, &["list", "2"]).is_none());
    assert!(pointer_of(&value, &["missing"]).is_none());
}

#[test]
fn statements_are_normalized_and_classified() {
    assert_eq!(normalized_statement("\n\tselect 1 ;\n").unwrap(), "select 1");
    assert_eq!(normalized_statement("SELECT 1;;").unwrap(), "SELECT 1;");
    assert!(matches!(normalized_statement("   "), Err(PlanError::EmptyStatement)));
    assert!(matches!(normalized_statement(""), Err(PlanError::EmptyStatement)));
    assert!(is_row_query("  values (1)"));
    assert!(is_row_query("Table users"));
    assert!(is_row_query("select\t1"));
    assert!(!is_row_query("SELECTED"));
    assert!(!is_row_query(""));
    assert!(!is_row_query("EXPLAIN SELECT 1"));
}

#[test]
fn sql_plans_wrap_row_queries_and_bind_parameters() {
    let plan = plan_sql(" SELECT $1::text::integer; ", &[number(7), JsonValue::Null], None).unwrap();
    match &plan.request {
        SqlRequest::Rows { query, max_rows } => {
            assert_eq!(query, "SELECT to_jsonb(query_row) FROM (SELECT $1::text::integer) AS query_row LIMIT 101");
            assert_eq!(*max_rows, 100);
        }
        _ => panic!("expected a row query"),
    }
    let bound: Vec<Option<&str>> = plan.values.iter().map(|v| v.value.as_deref()).collect();
    assert_eq!(bound, vec![Some("7"), None]);
    let plan = plan_sql("DELETE FROM t WHERE id = $1::text::integer", &[text("3")], Some(5)).unwrap();
    assert!(matches!(&plan.request, SqlRequest::Command { statement } if statement == "DELETE FROM t WHERE id = $1::text::integer"));
    assert!(matches!(plan_sql("SELECT 1", &[], Some(0)), Err(PlanError::MaxRowsOutOfRange)));
    assert!(matches!(plan_sql("SELECT 1", &[], Some(10001)), Err(PlanError::MaxRowsOutOfRange)));
    assert!(matches!(plan_sql(";", &[], Some(0)), Err(PlanError::EmptyStatement)));
    let plan = plan_sql("SELECT 1", &[], Some(10000)).unwrap();
    assert!(matches!(&plan.request, SqlRequest::Rows { query, .. } if query.ends_with("LIMIT 10001")));
}

#[test]
fn responses_report_rows_and_counts() {
    assert_eq!(row_window(3, 2), (2, true));
    assert_eq!(row_window(2, 2), (2, false));
    let response = rows_response(vec![number(1), number(2)], true);
    assert_eq!(
        json_text_of(&response),
        "{\"rows\":[1,2],\"row_count\":2,\"truncated\":true,\"affected_rows\":null}"
    );
    assert_eq!(
        json_text_of(&command_response(4)),
        "{\"rows\":[],\"row_count\":0,\"truncated\":false,\"affected_rows\":4}"
    );
    assert_eq!(
        json_text_of(&connection_details("db".to_string(), "me".to_string(), "18.0".to_string())),
        "{\"database\":\"db\",\"user\":\"me\",\"server_version\":\"18.0\"}"
    );
}

#[test]
fn session_settings_and_error_messages() {
    assert_eq!(statement_timeout_setting(0), "1");
    assert_eq!(statement_timeout_setting(30000), "30000");
    assert_eq!(connect_timeout_ms(0), 1);
    assert_eq!(connect_timeout_ms(250), 250);
    let database = PostgresFailure::Database { code: "42P01".to_string(), message: "relation does not exist".to_string() };
    assert_eq!(
        postgres_error_message("execute_sql query failed", &database),
        "execute_sql query failed: PostgreSQL 42P01: relation does not exist"
    );
    let other = PostgresFailure::Other { text: "connection refused".to_string() };
    assert_eq!(postgres_error_message("failed to connect to PostgreSQL", &other), "failed to connect to PostgreSQL: connection refused");
    assert_eq!(operation_failure("pg_class_list"), "PostgreSQL operation 'pg_class_list' failed");
}

#[test]
fn operations_choose_relation_or_routine_by_method() {
    let relation = routine("/relations/pg_catalog/pg_class", "get", JsonValue::Null, JsonValue::Null);
    let (sql, values) = operation_statement(&relation, &object(vec![("limit", number(1))])).unwrap();
    assert!(sql.contains("\"pg_catalog\".\"pg_class\" LIMIT 1 OFFSET 0"));
    assert!(values.is_empty());
    let wrong = routine("/relations/pg_catalog/pg_class", "POST", JsonValue::Null, JsonValue::Null);
    assert!(matches!(operation_statement(&wrong, &JsonValue::Null), Err(PlanError::RelationMethodNotGet)));
    let call = routine("/routines/pg_catalog/now/x", "GET", input(vec![]), output("string"));
    assert!(matches!(operation_statement(&call, &JsonValue::Null), Err(PlanError::RoutineMethodNotPost)));
    let call = routine("/routines/pg_catalog/now/x", "Post", input(vec![]), output("string"));
    assert_eq!(operation_statement(&call, &JsonValue::Null).unwrap().0, "SELECT to_jsonb(\"pg_catalog\".\"now\"())");
    let unknown = routine("/sql", "POST", JsonValue::Null, JsonValue::Null);
    assert!(matches!(operation_statement(&unknown, &JsonValue::Null), Err(PlanError::UnsupportedEndpointPath(_))));
}

#[test]
fn read_only_sessions_refuse_writes_before_any_statement() {
    let settings = execute_sql_session_settings(5000, true);
    assert_eq!(
        settings,
        vec![
            ("statement_timeout".to_string(), "5000".to_string()),
            ("default_transaction_read_only".to_string(), "on".to_string()),
        ]
    );
    assert_eq!(
        execute_sql_session_settings(0, false),
        vec![("statement_timeout".to_string(), "1".to_string())]
    );
}

#[test]
fn caller_parameters_never_change_the_request() {
    let first = plan_sql("SELECT $1::text", &[text("x")], Some(3)).unwrap();
    let second = plan_sql("SELECT $1::text", &[text("'); DROP TABLE t; --"), number(1)], Some(3)).unwrap();
    match (&first.request, &second.request) {
        (SqlRequest::Rows { query: a, max_rows: m }, SqlRequest::Rows { query: b, max_rows: n }) => {
            assert_eq!(a, b);
            assert_eq!(m, n);
            assert!(!b.contains("DROP"));
        }
        _ => panic!("expected row queries"),
    }
    assert_eq!(second.values.len(), 2);
}

#[test]
fn explain_statements_return_their_plan_rows() {
    let plan = plan_sql("EXPLAIN (FORMAT JSON) SELECT 1", &[], None).unwrap();
    match &plan.request {
        SqlRequest::Explain { statement, max_rows } => {
            assert_eq!(statement, "EXPLAIN (FORMAT JSON) SELECT 1");
            assert_eq!(*max_rows, 100);
        }
        _ => panic!("expected an EXPLAIN request"),
    }
    let plan = plan_sql("  explain analyze select $1::text::integer ; ", &[number(2)], Some(3)).unwrap();
    assert!(matches!(
        &plan.request,
        SqlRequest::Explain { statement, max_rows: 3 } if statement == "explain analyze select $1::text::integer"
    ));
    assert!(is_explain("Explain select 1"));
    assert!(!is_explain("EXPLAINED"));
    assert!(!is_explain("SELECT 1"));
    let plan_rows = vec![JsonValue::Array(vec![object(vec![("Plan", object(vec![("Node Type", text("Result"))]))])])];
    assert_eq!(
        json_text_of(&rows_response(plan_rows, false)),
        "{\"rows\":[[{\"Plan\":{\"Node Type\":\"Result\"}}]],\"row_count\":1,\"truncated\":false,\"affected_rows\":null}"
    );
}

#[test]
fn plan_errors_carry_their_messages() {
    for path in [
        "/routines/pg_catalog/set_config",
        "/relations//pg_class",
        "/relations/pg_catalog/pg_class/extra",
        "/Relations/pg_catalog/pg_class",
        "",
    ] {
        let error = parse_endpoint_target(path).unwrap_err();
        assert_eq!(error.message(), format!("unsupported generated PostgreSQL endpoint path '{path}'"));
    }
    assert_eq!(normalized_statement("  ; ").unwrap_err().message(), "sql must not be empty");
    for value in [text("abc"), object(vec![("a", number(1))]), JsonValue::Null, number(3)] {
        assert_eq!(
            postgres_array_literal(&value).unwrap_err().message(),
            "PostgreSQL array arguments must be JSON arrays"
        );
    }
    assert_eq!(plan_sql("; ", &[], None).unwrap_err().message(), "sql must not be empty");
    assert_eq!(plan_sql("SELECT 1", &[], Some(0)).unwrap_err().message(), "max_rows must be between 1 and 10000");
    assert_eq!(plan_sql("SELECT 1", &[], Some(10001)).unwrap_err().message(), "max_rows must be between 1 and 10000");

    let one = routine("/routines/s/f/x", "POST", input(vec![("arg1", typed("string", "text"))]), output("string"));
    assert_eq!(
        build_routine_sql(&one, "s", "f", &object(vec![])).unwrap_err().message(),
        "routine arguments must be supplied in the 'body' object"
    );
    let two = routine(
        "/routines/s/f/x",
        "POST",
        input(vec![("arg1", typed("string", "text")), ("arg2", typed("string", "text"))]),
        output("string"),
    );
    assert_eq!(
        build_routine_sql(&two, "s", "f", &body(vec![("arg2", text("x"))])).unwrap_err().message(),
        "cannot supply positional argument 'arg2' after omitting an earlier defaulted argument"
    );
    let (sql, values) = build_routine_sql(&two, "s", "f", &body(vec![("arg1", text("x"))])).unwrap();
    assert_eq!(sql, "SELECT to_jsonb(\"s\".\"f\"($1::text::text))");
    assert_eq!(values[0].value.as_deref(), Some("x"));
    let no_body = routine("/routines/s/f/x", "POST", object(vec![]), output("string"));
    assert_eq!(
        build_routine_sql(&no_body, "s", "f", &body(vec![])).unwrap_err().message(),
        "generated routine input schema has no request-body properties"
    );
    assert_eq!(PlanError::LimitOutOfRange.message(), "limit must be between 1 and 10000");
    assert_eq!(
        PlanError::UnsafePostgresType("int; drop".to_string()).message(),
        "generated PostgreSQL type contains unsafe syntax: 'int; drop'"
    );
}

#[test]
fn json_strings_escape_control_characters() {
    assert_eq!(json_text_of(&text("\u{1}")), "\"\\u0001\"");
    assert_eq!(json_text_of(&text("a\"b\\c")), "\"a\\\"b\\\\c\"");
    assert_eq!(json_text_of(&text("\u{8}\u{c}\r\t\u{1f}")), "\"\\b\\f\\r\\t\\u001f\"");
    assert_eq!(json_text_of(&text("\u{7f}é")), "\"\u{7f}é\"");
}

#[test]
fn array_literals_keep_nulls_strings_and_nesting() {
    let value = JsonValue::Array(vec![
        JsonValue::Array(vec![text("a\"b"), JsonValue::Null]),
        JsonValue::Array(vec![text("NULL"), text("c\\d")]),
    ]);
    assert_eq!(
        postgres_array_literal(&value).unwrap(),
        "{{\"a\\\"b\",NULL},{\"NULL\",\"c\\\\d\"}}"
    );
    let mixed = JsonValue::Array(vec![number(1), JsonValue::Bool(true), object(vec![("k", text("v"))])]);
    assert_eq!(
        postgres_array_literal(&mixed).unwrap(),
        "{\"1\",\"true\",\"{\\\"k\\\":\\\"v\\\"}\"}"
    );
}

#[test]
fn connection_urls_are_parsed_by_the_driver() {
    assert!(connection_config("postgresql://db.example/test").is_ok());
    assert!(connection_config("postgresql://db.example:5433/test?sslmode=require").is_ok());
    for url in ["not a url", "postgresql://db.example:notaport/test"] {
        assert_eq!(
            connection_config(url).unwrap_err().message(),
            "invalid PostgreSQL connection URL; expected postgresql://host/database"
        );
    }
}

#[test]
fn cli_parameters_are_read_as_a_json_array() {
    let values = parameters_of_text("[1, \"a\", null, [true], {\"k\": -2}, 1.5]").unwrap();
    assert_eq!(values.len(), 6);
    assert!(matches!(&values[0], JsonValue::Number(JsonNumber::PosInt(1))));
    assert!(matches!(&values[1], JsonValue::Str(s) if s == "a"));
    assert!(matches!(&values[2], JsonValue::Null));
    assert!(matches!(&values[3], JsonValue::Array(items) if matches!(items.as_slice(), [JsonValue::Bool(true)])));
    assert_eq!(json_text_of(&values[4]), "{\"k\":-2}");
    assert!(matches!(&values[5], JsonValue::Number(JsonNumber::Float(t)) if t == "1.5"));
    assert!(parameters_of_text("[]").unwrap().is_empty());
    for text in ["[1,", "{}", "", "[1] x"] {
        let expected = serde_json::from_str::<Vec<serde_json::Value>>(text).unwrap_err().to_string();
        assert_eq!(parameters_of_text(text).unwrap_err(), expected);
    }
}

#[test]
fn compact_json_text_matches_serde_json() {
    let mut inner = serde_json::Map::new();
    inner.insert("a\"k".to_string(), Value::from(-7i64));
    inner.insert("b".to_string(), Value::Array(vec![Value::Null, Value::Bool(false), Value::from("x\u{1}\n")]));
    let serde_value = Value::Array(vec![
        Value::Object(inner),
        Value::from(18446744073709551615u64),
        Value::from(i64::MIN),
        Value::Object(serde_json::Map::new()),
        Value::Array(vec![]),
        Value::from("tab\tquote\"slash\\"),
    ]);
    let value = JsonValue::Array(vec![
        object(vec![
            ("a\"k", JsonValue::Number(JsonNumber::NegInt(-7))),
            ("b", JsonValue::Array(vec![JsonValue::Null, JsonValue::Bool(false), text("x\u{1}\n")])),
        ]),
        number(18446744073709551615),
        JsonValue::Number(JsonNumber::NegInt(i64::MIN)),
        object(vec![]),
        JsonValue::Array(vec![]),
        text("tab\tquote\"slash\\"),
    ]);
    assert_eq!(json_text_of(&value), serde_json::to_string(&serde_value).unwrap());
}
