use postgres_mcp::binding::postgres_array_literal;
use postgres_mcp::endpoint::{parse_endpoint_target, EndpointRecord, EndpointTarget};
use postgres_mcp::identifier::quote_identifier;
use postgres_mcp::json::{JsonNumber, JsonValue};
use postgres_mcp::relation::build_relation_sql;
use postgres_mcp::routine::build_routine_sql;
use postgres_mcp::statement::{is_row_query, normalized_statement};

fn text(value: &str) -> JsonValue {
    JsonValue::Str(value.to_string())
}

fn integer(value: u64) -> JsonValue {
    JsonValue::Number(JsonNumber::PosInt(value))
}

fn object(members: Vec<(&str, JsonValue)>) -> JsonValue {
    JsonValue::Object(
        members
            .into_iter()
            .map(|(key, value)| (key.to_string(), value))
            .collect(),
    )
}

fn endpoint(path: &str, input_schema: JsonValue, output_schema: JsonValue) -> EndpointRecord {
    EndpointRecord {
        operation_id: "operation".to_string(),
        path: path.to_string(),
        method: if path.starts_with("/relations/") {
            "GET"
        } else {
            "POST"
        }
        .to_string(),
        summary: None,
        description: None,
        input_schema,
        output_schema,
    }
}

#[test]
fn quotes_identifiers_and_rejects_non_catalog_paths() {
    assert_eq!(quote_identifier("odd\"name"), "\"odd\"\"name\"");
    assert_eq!(
        parse_endpoint_target("/relations/pg_catalog/pg_class").unwrap(),
        EndpointTarget::Relation {
            schema: "pg_catalog".to_string(),
            name: "pg_class".to_string()
        }
    );
    assert!(parse_endpoint_target("/arbitrary/sql").is_err());
}

#[test]
fn relation_sql_uses_only_validated_numeric_pagination() {
    let sql = build_relation_sql(
        "pg_catalog",
        "pg_stat_activity",
        &object(vec![("limit", integer(25)), ("offset", integer(5))]),
    )
    .unwrap();
    assert!(sql.contains("\"pg_catalog\".\"pg_stat_activity\""));
    assert!(sql.contains("LIMIT 25 OFFSET 5"));
    assert!(build_relation_sql("pg_catalog", "pg_class", &object(vec![("limit", integer(10001))])).is_err());
}

#[test]
fn routine_sql_binds_values_and_quotes_named_arguments() {
    let endpoint = endpoint(
        "/routines/pg_catalog/set_config/text_text_boolean_deadbeef",
        object(vec![(
            "requestBody",
            object(vec![(
                "content",
                object(vec![(
                    "application/json",
                    object(vec![(
                        "schema",
                        object(vec![(
                            "properties",
                            object(vec![
                                (
                                    "setting_name",
                                    object(vec![("type", text("string")), ("x-postgres-type", text("text"))]),
                                ),
                                (
                                    "new_value",
                                    object(vec![("type", text("string")), ("x-postgres-type", text("text"))]),
                                ),
                                (
                                    "is_local",
                                    object(vec![("type", text("boolean")), ("x-postgres-type", text("boolean"))]),
                                ),
                            ]),
                        )]),
                    )]),
                )]),
            )]),
        )]),
        object(vec![(
            "200",
            object(vec![(
                "content",
                object(vec![(
                    "application/json",
                    object(vec![("schema", object(vec![("type", text("string"))]))]),
                )]),
            )]),
        )]),
    );
    let (sql, values) = build_routine_sql(
        &endpoint,
        "pg_catalog",
        "set_config",
        &object(vec![(
            "body",
            object(vec![
                ("setting_name", text("application_name")),
                ("new_value", text("value'); DROP TABLE users; --")),
                ("is_local", JsonValue::Bool(true)),
            ]),
        )]),
    )
    .unwrap();
    assert!(
        sql.contains("\"setting_name\" => $3::text::text")
            || sql.contains("\"setting_name\" => $")
    );
    assert!(!sql.contains("DROP TABLE"));
    assert_eq!(values.len(), 3);
    assert!(values.iter().any(|value| {
        value
            .value
            .as_deref()
            .is_some_and(|value| value.contains("DROP TABLE"))
    }));
}

#[test]
fn execute_sql_accepts_single_read_or_write_statement_shapes() {
    assert_eq!(normalized_statement(" SELECT 1; ").unwrap(), "SELECT 1");
    assert_eq!(
        normalized_statement("UPDATE users SET admin = true").unwrap(),
        "UPDATE users SET admin = true"
    );
    assert!(is_row_query(
        "WITH values AS (SELECT 1) SELECT * FROM values"
    ));
    assert!(!is_row_query("DELETE FROM users"));
    assert!(normalized_statement("; ").is_err());
}

#[test]
fn arrays_are_encoded_as_postgresql_literals_without_sql_interpolation() {
    let value = JsonValue::Array(vec![
        text("a"),
        text("b\"c"),
        JsonValue::Null,
        JsonValue::Array(vec![integer(1), integer(2)]),
    ]);
    assert_eq!(
        postgres_array_literal(&value).unwrap(),
        "{\"a\",\"b\\\"c\",NULL,{\"1\",\"2\"}}"
    );
}
