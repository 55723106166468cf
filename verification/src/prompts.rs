//! The guided workflows offered as prompts: their names, their optional
//! arguments, and the text of a prompt with its context header.

use vstd::prelude::*;
use crate::prompt_content::{
    DATA_PROFILING_WORKFLOW, EXTENSIONS_FDW_WORKFLOW, MASTER_WORKFLOW, QUERY_PERFORMANCE_WORKFLOW,
    REPLICATION_WAL_WORKFLOW, ROLES_PERMISSIONS_WORKFLOW, SCHEMA_INTROSPECTION_WORKFLOW,
    SERVER_HEALTH_CONFIG_WORKFLOW, SESSION_LOCKS_WORKFLOW, VACUUM_MAINTENANCE_WORKFLOW,
};
use crate::text::{chars_equal, chars_of};

verus! {

/// A guided workflow: the menu that routes to the others, and the nine
/// domain workflows.
#[derive(Clone, Copy, Debug, PartialEq, Eq, Structural)]
pub enum Workflow {
    Master,
    SchemaIntrospection,
    RolesPermissions,
    SessionLocks,
    ReplicationWal,
    VacuumMaintenance,
    QueryPerformance,
    ServerHealthConfig,
    ExtensionsFdw,
    DataProfiling,
}

/// Every workflow, in the order in which they are listed.
pub open spec fn all_workflows() -> Seq<Workflow> {
    seq![
        Workflow::Master,
        Workflow::SchemaIntrospection,
        Workflow::RolesPermissions,
        Workflow::SessionLocks,
        Workflow::ReplicationWal,
        Workflow::VacuumMaintenance,
        Workflow::QueryPerformance,
        Workflow::ServerHealthConfig,
        Workflow::ExtensionsFdw,
        Workflow::DataProfiling,
    ]
}

/// The prompt name of a workflow.
pub open spec fn name_of(w: Workflow) -> Seq<char> {
    match w {
        Workflow::Master => "postgres"@,
        Workflow::SchemaIntrospection => "postgres-schema-introspection"@,
        Workflow::RolesPermissions => "postgres-roles-permissions"@,
        Workflow::SessionLocks => "postgres-session-locks"@,
        Workflow::ReplicationWal => "postgres-replication-wal"@,
        Workflow::VacuumMaintenance => "postgres-vacuum-maintenance"@,
        Workflow::QueryPerformance => "postgres-query-performance"@,
        Workflow::ServerHealthConfig => "postgres-server-health-config"@,
        Workflow::ExtensionsFdw => "postgres-extensions-fdw"@,
        Workflow::DataProfiling => "postgres-data-profiling"@,
    }
}

/// The optional arguments of a workflow, in the order of its context header.
pub open spec fn arguments_of(w: Workflow) -> Seq<Seq<char>> {
    match w {
        Workflow::Master => seq!["goal"@],
        Workflow::SchemaIntrospection => seq!["schema_name"@, "table_name"@],
        Workflow::RolesPermissions => seq!["role_name"@, "schema_name"@, "table_name"@],
        Workflow::SessionLocks => seq!["pid"@, "database_name"@],
        Workflow::ReplicationWal => seq!["slot_name"@, "publication_name"@],
        Workflow::VacuumMaintenance => seq!["schema_name"@, "table_name"@],
        Workflow::QueryPerformance => seq!["query_text"@, "table_name"@],
        Workflow::ServerHealthConfig => seq!["setting_name"@],
        Workflow::ExtensionsFdw => seq!["extension_name"@, "server_name"@],
        Workflow::DataProfiling => seq!["table_name"@],
    }
}

/// The guide text of a workflow.
pub open spec fn content_of(w: Workflow) -> Seq<char> {
    match w {
        Workflow::Master => MASTER_WORKFLOW@,
        Workflow::SchemaIntrospection => SCHEMA_INTROSPECTION_WORKFLOW@,
        Workflow::RolesPermissions => ROLES_PERMISSIONS_WORKFLOW@,
        Workflow::SessionLocks => SESSION_LOCKS_WORKFLOW@,
        Workflow::ReplicationWal => REPLICATION_WAL_WORKFLOW@,
        Workflow::VacuumMaintenance => VACUUM_MAINTENANCE_WORKFLOW@,
        Workflow::QueryPerformance => QUERY_PERFORMANCE_WORKFLOW@,
        Workflow::ServerHealthConfig => SERVER_HEALTH_CONFIG_WORKFLOW@,
        Workflow::ExtensionsFdw => EXTENSIONS_FDW_WORKFLOW@,
        Workflow::DataProfiling => DATA_PROFILING_WORKFLOW@,
    }
}

/// The one-line description advertised with a workflow's prompt.
pub open spec fn description_of(w: Workflow) -> Seq<char> {
    match w {
        Workflow::Master => "Start here. Presents the available PostgreSQL catalog-introspection and diagnostic workflows, routes to the right guided sub-workflow based on the user's goal, and -- where the environment supports it -- delegates that whole sub-workflow to an isolated sub-task to spare this conversation's context window."@,
        Workflow::SchemaIntrospection => "Tables, columns, constraints, indexes, views, materialized views, and sequences across schemas -- discovering shape rather than guessing at column names."@,
        Workflow::RolesPermissions => "Roles, role membership, object-level grants (tables, columns, routines, sequences, types), and row-level security policies -- including the gated GRANT/REVOKE path via execute_sql."@,
        Workflow::SessionLocks => "Active sessions/connections, blocking chains, locks, and safely cancelling or terminating a backend."@,
        Workflow::ReplicationWal => "Physical/logical replication status, replication slots, publications/subscriptions, and WAL position/lag."@,
        Workflow::VacuumMaintenance => "Autovacuum/analyze activity, dead-tuple/bloat signals, and running VACUUM/ANALYZE manually via the gated execute_sql path."@,
        Workflow::QueryPerformance => "Diagnosing a slow query: is it running now, its EXPLAIN plan via execute_sql, and index usage -- rather than guessing at the cause."@,
        Workflow::ServerHealthConfig => "Live configuration (pg_settings), why a config-file edit didn't take effect, background writer/checkpointer/archiver stats, and physical backups."@,
        Workflow::ExtensionsFdw => "Installed vs. available extensions, and foreign data wrapper objects (foreign servers, foreign tables, user mappings)."@,
        Workflow::DataProfiling => "Ad hoc data exploration, aggregation, and row-level querying via execute_sql, safely -- identifier validation, parameter binding, and result-size limits."@,
    }
}

/// A context field: an argument's name and the value supplied for it, if any.
pub open spec fn field_view(f: (&str, Option<&str>)) -> (Seq<char>, Option<Seq<char>>) {
    (
        f.0@,
        match f.1 {
            Some(v) => Some(v@),
            None => None,
        },
    )
}

pub open spec fn fields_view(fields: Seq<(&str, Option<&str>)>) -> Seq<(Seq<char>, Option<Seq<char>>)> {
    fields.map_values(|f: (&str, Option<&str>)| field_view(f))
}

/// `- name: value` for every field that has a value, in order.
pub open spec fn provided_lines(fields: Seq<(Seq<char>, Option<Seq<char>>)>) -> Seq<char>
    decreases fields.len(),
{
    if fields.len() == 0 {
        Seq::<char>::empty()
    } else {
        provided_lines(fields.drop_last()) + match fields.last().1 {
            Some(v) => "- "@ + fields.last().0 + ": "@ + v + "\n"@,
            None => Seq::<char>::empty(),
        }
    }
}

/// `- name` for every field without a value, in order.
pub open spec fn missing_lines(fields: Seq<(Seq<char>, Option<Seq<char>>)>) -> Seq<char>
    decreases fields.len(),
{
    if fields.len() == 0 {
        Seq::<char>::empty()
    } else {
        missing_lines(fields.drop_last()) + match fields.last().1 {
            Some(_) => Seq::<char>::empty(),
            None => "- "@ + fields.last().0 + "\n"@,
        }
    }
}

/// A section's lines, or `- (none)` when it has none.
pub open spec fn section_body(lines: Seq<char>) -> Seq<char> {
    if lines.len() == 0 {
        "- (none)\n"@
    } else {
        lines
    }
}

/// The header put before a workflow's text: the arguments already supplied
/// with their values, then the ones still to be gathered.
pub open spec fn context_header(fields: Seq<(Seq<char>, Option<Seq<char>>)>) -> Seq<char> {
    "## Context already provided\n"@ + section_body(provided_lines(fields))
        + "\n## Still needed\n"@ + section_body(missing_lines(fields))
}

/// The value supplied for the argument at `i`: the one at the same position
/// of `values`, or none past its end.
pub open spec fn value_at(values: Seq<Option<&str>>, i: int) -> Option<Seq<char>> {
    if 0 <= i < values.len() {
        match values[i] {
            Some(v) => Some(v@),
            None => None,
        }
    } else {
        None
    }
}

/// The context fields of a workflow for the supplied values.
pub open spec fn workflow_fields(w: Workflow, values: Seq<Option<&str>>) -> Seq<(Seq<char>, Option<Seq<char>>)> {
    Seq::new(arguments_of(w).len(), |i: int| (arguments_of(w)[i], value_at(values, i)))
}

/// The text of a workflow's prompt: its context header, a blank line, and
/// its guide text.
pub open spec fn prompt_text_of(w: Workflow, values: Seq<Option<&str>>) -> Seq<char> {
    context_header(workflow_fields(w, values)) + "\n"@ + content_of(w)
}

/// Every workflow's prompt name begins with `postgres`, and no two workflows
/// share a name.
pub proof fn workflow_names_are_distinct(a: Workflow, b: Workflow)
    ensures
        name_of(a).len() >= 8,
        name_of(a).subrange(0, 8) == "postgres"@,
        name_of(a) == name_of(b) ==> a == b,
{
    reveal_strlit("postgres");
    reveal_strlit("postgres-schema-introspection");
    reveal_strlit("postgres-roles-permissions");
    reveal_strlit("postgres-session-locks");
    reveal_strlit("postgres-replication-wal");
    reveal_strlit("postgres-vacuum-maintenance");
    reveal_strlit("postgres-query-performance");
    reveal_strlit("postgres-server-health-config");
    reveal_strlit("postgres-extensions-fdw");
    reveal_strlit("postgres-data-profiling");
    assert(name_of(a).subrange(0, 8) =~= "postgres"@);
    if name_of(a) == name_of(b) {
        assert(name_of(a).len() == name_of(b).len());
        assert(name_of(a).len() > 10 ==> name_of(a)[9] == name_of(b)[9] && name_of(a)[10]
            == name_of(b)[10]);
    }
}

/// Every workflow, in the order in which they are listed.
pub fn workflows() -> (r: Vec<Workflow>)
    ensures
        r@ == all_workflows(),
{
    let r = vec![
        Workflow::Master,
        Workflow::SchemaIntrospection,
        Workflow::RolesPermissions,
        Workflow::SessionLocks,
        Workflow::ReplicationWal,
        Workflow::VacuumMaintenance,
        Workflow::QueryPerformance,
        Workflow::ServerHealthConfig,
        Workflow::ExtensionsFdw,
        Workflow::DataProfiling,
    ];
    assert(r@ =~= all_workflows());
    r
}

impl Workflow {
    /// The prompt name.
    pub fn name(&self) -> (r: &'static str)
        ensures
            r@ == name_of(*self),
    {
        match self {
            Workflow::Master => "postgres",
            Workflow::SchemaIntrospection => "postgres-schema-introspection",
            Workflow::RolesPermissions => "postgres-roles-permissions",
            Workflow::SessionLocks => "postgres-session-locks",
            Workflow::ReplicationWal => "postgres-replication-wal",
            Workflow::VacuumMaintenance => "postgres-vacuum-maintenance",
            Workflow::QueryPerformance => "postgres-query-performance",
            Workflow::ServerHealthConfig => "postgres-server-health-config",
            Workflow::ExtensionsFdw => "postgres-extensions-fdw",
            Workflow::DataProfiling => "postgres-data-profiling",
        }
    }

    /// The optional arguments, in the order of the context header.
    pub fn arguments(&self) -> (r: Vec<&'static str>)
        ensures
            r@.map_values(|a: &str| a@) == arguments_of(*self),
    {
        let r: Vec<&'static str> = match self {
            Workflow::Master => vec!["goal"],
            Workflow::SchemaIntrospection => vec!["schema_name", "table_name"],
            Workflow::RolesPermissions => vec!["role_name", "schema_name", "table_name"],
            Workflow::SessionLocks => vec!["pid", "database_name"],
            Workflow::ReplicationWal => vec!["slot_name", "publication_name"],
            Workflow::VacuumMaintenance => vec!["schema_name", "table_name"],
            Workflow::QueryPerformance => vec!["query_text", "table_name"],
            Workflow::ServerHealthConfig => vec!["setting_name"],
            Workflow::ExtensionsFdw => vec!["extension_name", "server_name"],
            Workflow::DataProfiling => vec!["table_name"],
        };
        assert(r@.map_values(|a: &str| a@) =~= arguments_of(*self));
        r
    }

    /// The guide text.
    pub fn content(&self) -> (r: &'static str)
        ensures
            r@ == content_of(*self),
    {
        match self {
            Workflow::Master => MASTER_WORKFLOW,
            Workflow::SchemaIntrospection => SCHEMA_INTROSPECTION_WORKFLOW,
            Workflow::RolesPermissions => ROLES_PERMISSIONS_WORKFLOW,
            Workflow::SessionLocks => SESSION_LOCKS_WORKFLOW,
            Workflow::ReplicationWal => REPLICATION_WAL_WORKFLOW,
            Workflow::VacuumMaintenance => VACUUM_MAINTENANCE_WORKFLOW,
            Workflow::QueryPerformance => QUERY_PERFORMANCE_WORKFLOW,
            Workflow::ServerHealthConfig => SERVER_HEALTH_CONFIG_WORKFLOW,
            Workflow::ExtensionsFdw => EXTENSIONS_FDW_WORKFLOW,
            Workflow::DataProfiling => DATA_PROFILING_WORKFLOW,
        }
    }

    /// The one-line description advertised with the prompt.
    pub fn description(&self) -> (r: &'static str)
        ensures
            r@ == description_of(*self),
    {
        match self {
            Workflow::Master => "Start here. Presents the available PostgreSQL catalog-introspection and diagnostic workflows, routes to the right guided sub-workflow based on the user's goal, and -- where the environment supports it -- delegates that whole sub-workflow to an isolated sub-task to spare this conversation's context window.",
            Workflow::SchemaIntrospection => "Tables, columns, constraints, indexes, views, materialized views, and sequences across schemas -- discovering shape rather than guessing at column names.",
            Workflow::RolesPermissions => "Roles, role membership, object-level grants (tables, columns, routines, sequences, types), and row-level security policies -- including the gated GRANT/REVOKE path via execute_sql.",
            Workflow::SessionLocks => "Active sessions/connections, blocking chains, locks, and safely cancelling or terminating a backend.",
            Workflow::ReplicationWal => "Physical/logical replication status, replication slots, publications/subscriptions, and WAL position/lag.",
            Workflow::VacuumMaintenance => "Autovacuum/analyze activity, dead-tuple/bloat signals, and running VACUUM/ANALYZE manually via the gated execute_sql path.",
            Workflow::QueryPerformance => "Diagnosing a slow query: is it running now, its EXPLAIN plan via execute_sql, and index usage -- rather than guessing at the cause.",
            Workflow::ServerHealthConfig => "Live configuration (pg_settings), why a config-file edit didn't take effect, background writer/checkpointer/archiver stats, and physical backups.",
            Workflow::ExtensionsFdw => "Installed vs. available extensions, and foreign data wrapper objects (foreign servers, foreign tables, user mappings).",
            Workflow::DataProfiling => "Ad hoc data exploration, aggregation, and row-level querying via execute_sql, safely -- identifier validation, parameter binding, and result-size limits.",
        }
    }
}

/// The workflow whose prompt name is `name`, if there is one.
pub fn workflow_named(name: &str) -> (r: Option<Workflow>)
    ensures
        match r {
            Some(w) => name_of(w) == name@,
            None => forall|w: Workflow| name_of(w) != name@,
        },
{
    let wanted = chars_of(name);
    let all = workflows();
    let mut i: usize = 0;
    while i < all.len()
        invariant
            all@ == all_workflows(),
            wanted@ == name@,
            0 <= i <= all@.len(),
            forall|k: int| 0 <= k < i ==> name_of(#[trigger] all@[k]) != name@,
        decreases all@.len() - i,
    {
        let w = all[i];
        let candidate = chars_of(w.name());
        if chars_equal(&candidate, &wanted) {
            return Some(w);
        }
        i += 1;
    }
    assert forall|w: Workflow| name_of(w) != name@ by {
        let k: int = match w {
            Workflow::Master => 0,
            Workflow::SchemaIntrospection => 1,
            Workflow::RolesPermissions => 2,
            Workflow::SessionLocks => 3,
            Workflow::ReplicationWal => 4,
            Workflow::VacuumMaintenance => 5,
            Workflow::QueryPerformance => 6,
            Workflow::ServerHealthConfig => 7,
            Workflow::ExtensionsFdw => 8,
            Workflow::DataProfiling => 9,
        };
        assert(all@[k] == w);
    }
    None
}

/// `render_context_header`: the context header for `fields`, each an
/// argument's name and the value supplied for it, if any.
pub fn render_context_header(fields: &[(&str, Option<&str>)]) -> (r: String)
    ensures
        r@ == context_header(fields_view(fields@)),
{
    let ghost fv = fields_view(fields@);
    let mut provided = String::new();
    let mut missing = String::new();
    let mut any_provided = false;
    let mut any_missing = false;
    let mut i: usize = 0;
    assert(fv.take(0) =~= Seq::<(Seq<char>, Option<Seq<char>>)>::empty());
    while i < fields.len()
        invariant
            fv == fields_view(fields@),
            0 <= i <= fields@.len(),
            provided@ == provided_lines(fv.take(i as int)),
            missing@ == missing_lines(fv.take(i as int)),
            any_provided == (provided@.len() > 0),
            any_missing == (missing@.len() > 0),
        decreases fields@.len() - i,
    {
        let (name, value) = fields[i];
        proof {
            reveal_strlit("- ");
            assert(fv.take(i + 1).drop_last() =~= fv.take(i as int));
            assert(fv.take(i + 1).last() == field_view(fields@[i as int]));
        }
        match value {
            Some(v) => {
                provided.append("- ");
                provided.append(name);
                provided.append(": ");
                provided.append(v);
                provided.append("\n");
                any_provided = true;
            },
            None => {
                missing.append("- ");
                missing.append(name);
                missing.append("\n");
                any_missing = true;
            },
        }
        i += 1;
    }
    assert(fv.take(fields@.len() as int) =~= fv);
    let mut out = String::from_str("## Context already provided\n");
    if !any_provided {
        out.append("- (none)\n");
    } else {
        out.append(provided.as_str());
    }
    out.append("\n## Still needed\n");
    if !any_missing {
        out.append("- (none)\n");
    } else {
        out.append(missing.as_str());
    }
    out
}

/// The text of `workflow`'s prompt for the supplied argument values, given
/// in the order of its arguments (missing trailing values count as not
/// supplied): the context header, a blank line, and the workflow's guide.
pub fn prompt_text(workflow: Workflow, values: &[Option<&str>]) -> (r: String)
    ensures
        r@ == prompt_text_of(workflow, values@),
{
    let names = workflow.arguments();
    let mut fields: Vec<(&str, Option<&str>)> = Vec::new();
    let mut i: usize = 0;
    while i < names.len()
        invariant
            names@.map_values(|a: &str| a@) == arguments_of(workflow),
            0 <= i <= names@.len(),
            fields@.len() == i,
            forall|k: int|
                0 <= k < i ==> #[trigger] field_view(fields@[k]) == (
                    arguments_of(workflow)[k],
                    value_at(values@, k),
                ),
        decreases names@.len() - i,
    {
        let value: Option<&str> = if i < values.len() {
            values[i]
        } else {
            None
        };
        proof {
            assert(names@.map_values(|a: &str| a@)[i as int] == names@[i as int]@);
        }
        fields.push((names[i], value));
        i += 1;
    }
    let header = render_context_header(fields.as_slice());
    assert(fields_view(fields@) =~= workflow_fields(workflow, values@));
    let mut out = header;
    out.append("\n");
    out.append(workflow.content());
    out
}

/// Whether `part` occurs in `s`.
pub open spec fn occurs_in(part: Seq<char>, s: Seq<char>) -> bool {
    exists|j: int| 0 <= j && j + part.len() <= s.len() && #[trigger] s.subrange(j, j + part.len()) == part
}

/// Each workflow offers exactly the arguments of its prompt, in this order:
/// the menu takes `goal`; schema introspection `schema_name`, `table_name`;
/// roles and permissions `role_name`, `schema_name`, `table_name`; sessions
/// and locks `pid`, `database_name`; replication `slot_name`,
/// `publication_name`; vacuum `schema_name`, `table_name`; query
/// performance `query_text`, `table_name`; server health `setting_name`;
/// extensions `extension_name`, `server_name`; data profiling `table_name`.
pub proof fn workflow_arguments_are_the_prompt_arguments()
    ensures
        arguments_of(Workflow::Master) == seq!["goal"@],
        arguments_of(Workflow::SchemaIntrospection) == seq!["schema_name"@, "table_name"@],
        arguments_of(Workflow::RolesPermissions) == seq!["role_name"@, "schema_name"@, "table_name"@],
        arguments_of(Workflow::SessionLocks) == seq!["pid"@, "database_name"@],
        arguments_of(Workflow::ReplicationWal) == seq!["slot_name"@, "publication_name"@],
        arguments_of(Workflow::VacuumMaintenance) == seq!["schema_name"@, "table_name"@],
        arguments_of(Workflow::QueryPerformance) == seq!["query_text"@, "table_name"@],
        arguments_of(Workflow::ServerHealthConfig) == seq!["setting_name"@],
        arguments_of(Workflow::ExtensionsFdw) == seq!["extension_name"@, "server_name"@],
        arguments_of(Workflow::DataProfiling) == seq!["table_name"@],
{
}

proof fn lemma_provided_lines_append(a: Seq<(Seq<char>, Option<Seq<char>>)>, b: Seq<(Seq<char>, Option<Seq<char>>)>)
    ensures
        provided_lines(a + b) == provided_lines(a) + provided_lines(b),
    decreases b.len(),
{
    if b.len() == 0 {
        assert(a + b =~= a);
        assert(provided_lines(a) + provided_lines(b) =~= provided_lines(a));
    } else {
        lemma_provided_lines_append(a, b.drop_last());
        assert((a + b).drop_last() =~= a + b.drop_last());
        assert((a + b).last() == b.last());
        assert(provided_lines(a + b) =~= provided_lines(a) + provided_lines(b));
    }
}

/// Every argument value supplied to a prompt is echoed in its context header
/// as `- <argument>: <value>`, for every workflow and every argument.
pub proof fn supplied_arguments_are_echoed(w: Workflow, values: Seq<Option<&str>>, i: int)
    requires
        0 <= i < arguments_of(w).len(),
        i < values.len(),
        values[i] is Some,
    ensures
        occurs_in(
            "- "@ + arguments_of(w)[i] + ": "@ + values[i]->Some_0@ + "\n"@,
            prompt_text_of(w, values),
        ),
{
    let fields = workflow_fields(w, values);
    let line = "- "@ + arguments_of(w)[i] + ": "@ + values[i]->Some_0@ + "\n"@;
    let before = fields.take(i);
    let one = seq![fields[i]];
    let after = fields.skip(i + 1);
    assert(fields =~= before + one + after);
    lemma_provided_lines_append(before + one, after);
    lemma_provided_lines_append(before, one);
    assert(one.drop_last() =~= Seq::<(Seq<char>, Option<Seq<char>>)>::empty());
    assert(fields[i] == (arguments_of(w)[i], Some(values[i]->Some_0@)));
    assert(one.last() == fields[i]);
    assert(provided_lines(one.drop_last()) =~= Seq::<char>::empty());
    assert(provided_lines(one) =~= line);
    reveal_strlit("- ");
    let p = provided_lines(fields);
    assert(p =~= provided_lines(before) + line + provided_lines(after));
    assert(p.len() > 0);
    let head = "## Context already provided\n"@;
    let text = prompt_text_of(w, values);
    let j: int = (head.len() + provided_lines(before).len()) as int;
    assert(text =~= head + p + ("\n## Still needed\n"@ + section_body(missing_lines(fields))
        + "\n"@ + content_of(w)));
    assert(text.subrange(j, j + line.len() as int) =~= line);
}

} // verus!
