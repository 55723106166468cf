//! Session settings and reports around a PostgreSQL connection.

use vstd::prelude::*;
use crate::error::{PlanError, PlanFailure};
use crate::json::JsonValue;
use crate::text::{decimal, decimal_string};

verus! {

/// The `statement_timeout` setting for a timeout in milliseconds: at least 1.
pub open spec fn statement_timeout(timeout_ms: u64) -> Seq<char> {
    decimal(
        if timeout_ms == 0 {
            1
        } else {
            timeout_ms as nat
        },
    )
}

/// The value given to `set_config('statement_timeout', ...)`.
pub fn statement_timeout_setting(timeout_ms: u64) -> (r: String)
    ensures
        r@ == statement_timeout(timeout_ms),
{
    let t = if timeout_ms == 0 {
        1
    } else {
        timeout_ms
    };
    decimal_string(t)
}

/// The connect timeout in milliseconds: at least 1.
pub fn connect_timeout_ms(timeout_ms: u64) -> (r: u64)
    ensures
        r == if timeout_ms == 0 {
            1
        } else {
            timeout_ms
        },
{
    if timeout_ms == 0 {
        1
    } else {
        timeout_ms
    }
}

/// The PostgreSQL driver's connection settings, as parsed from a URL.
#[verifier::external_type_specification]
#[verifier::external_body]
pub struct ExPostgresConfig(tokio_postgres::Config);

/// Whether `tokio_postgres::Config`'s parser accepts a connection string
/// (a `postgresql://` URL or a key-value string). Parsing depends on the text
/// alone.
pub uninterp spec fn connection_url_accepted(url: Seq<char>) -> bool;

/// `<tokio_postgres::Config as FromStr>::from_str`: the driver's settings
/// for `url`, or nothing where the driver refuses the text. What the settings
/// hold is left to the driver and not stated here.
#[verifier::external_body]
fn parse_connection_url(url: &str) -> (r: Option<tokio_postgres::Config>)
    ensures
        r is Some <==> connection_url_accepted(url@),
{
    url.parse::<tokio_postgres::Config>().ok()
}

/// The connection settings of the configured URL; a URL the driver refuses
/// is reported as an invalid connection URL. The credentials, application
/// name and connect timeout are set on the result before connecting.
pub fn connection_config(url: &str) -> (r: Result<tokio_postgres::Config, PlanError>)
    ensures
        r is Ok <==> connection_url_accepted(url@),
        r matches Err(e) ==> e@ == PlanFailure::InvalidConnectionUrl,
{
    match parse_connection_url(url) {
        Some(config) => Ok(config),
        None => Err(PlanError::InvalidConnectionUrl),
    }
}

/// What PostgreSQL reported when a request failed.
pub enum PostgresFailure {
    /// An error raised by the database, with its SQLSTATE code and message.
    Database { code: String, message: String },
    /// Any other failure (connection, protocol), by its display text.
    Other { text: String },
}

/// The message of a failed request: the action, then the database's SQLSTATE
/// and message, or the failure's own text.
pub open spec fn failure_message(action: Seq<char>, failure: PostgresFailure) -> Seq<char> {
    match failure {
        PostgresFailure::Database { code, message } => action + ": PostgreSQL "@ + code@ + ": "@
            + message@,
        PostgresFailure::Other { text } => action + ": "@ + text@,
    }
}

/// The message reported for a failed request: the action, then the
/// database's SQLSTATE and message, or the failure's own text.
pub fn postgres_error_message(action: &str, failure: &PostgresFailure) -> (r: String)
    ensures
        r@ == failure_message(action@, *failure),
{
    let mut out = String::from_str(action);
    match failure {
        PostgresFailure::Database { code, message } => {
            out.append(": PostgreSQL ");
            out.append(code.as_str());
            out.append(": ");
            out.append(message.as_str());
        },
        PostgresFailure::Other { text } => {
            out.append(": ");
            out.append(text.as_str());
        },
    }
    out
}

/// The report of a successful connection test.
pub fn connection_details(database: String, user: String, server_version: String) -> (r: JsonValue)
    ensures
        r matches JsonValue::Object(m) && m@.len() == 3 && m@[0].0@ == "database"@ && m@[0].1
            == JsonValue::Str(database) && m@[1].0@ == "user"@ && m@[1].1 == JsonValue::Str(user)
            && m@[2].0@ == "server_version"@ && m@[2].1 == JsonValue::Str(server_version),
{
    let mut m: Vec<(String, JsonValue)> = Vec::new();
    m.push((String::from_str("database"), JsonValue::Str(database)));
    m.push((String::from_str("user"), JsonValue::Str(user)));
    m.push((String::from_str("server_version"), JsonValue::Str(server_version)));
    JsonValue::Object(m)
}

} // verus!

verus! {

/// The session settings applied before a caller statement runs: the
/// statement timeout, and PostgreSQL's own `default_transaction_read_only`
/// mode when the server is read-only, so that the database itself refuses
/// writes, including writes inside a data-modifying CTE.
pub open spec fn session_settings(timeout_ms: u64, read_only: bool) -> Seq<(Seq<char>, Seq<char>)> {
    let timeout = seq![("statement_timeout"@, statement_timeout(timeout_ms))];
    if read_only {
        timeout.push(("default_transaction_read_only"@, "on"@))
    } else {
        timeout
    }
}

pub open spec fn setting_views(settings: Seq<(String, String)>) -> Seq<(Seq<char>, Seq<char>)> {
    settings.map_values(|s: (String, String)| (s.0@, s.1@))
}

/// The settings given to `set_config(name, value, false)`, in order, before
/// a caller statement runs.
pub fn execute_sql_session_settings(timeout_ms: u64, read_only: bool) -> (r: Vec<(String, String)>)
    ensures
        setting_views(r@) == session_settings(timeout_ms, read_only),
{
    let mut settings: Vec<(String, String)> = Vec::new();
    settings.push((String::from_str("statement_timeout"), statement_timeout_setting(timeout_ms)));
    if read_only {
        settings.push((String::from_str("default_transaction_read_only"), String::from_str("on")));
    }
    assert(setting_views(settings@) =~= session_settings(timeout_ms, read_only));
    settings
}

} // verus!
