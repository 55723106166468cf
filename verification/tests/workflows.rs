use postgres_mcp::prompts::{prompt_text, render_context_header, workflow_named, workflows, Workflow};

const SUB_WORKFLOWS: [&str; 9] = [
    "postgres-schema-introspection",
    "postgres-roles-permissions",
    "postgres-session-locks",
    "postgres-replication-wal",
    "postgres-vacuum-maintenance",
    "postgres-query-performance",
    "postgres-server-health-config",
    "postgres-extensions-fdw",
    "postgres-data-profiling",
];

#[test]
fn ten_prompts_all_named_postgres() {
    let names: Vec<&str> = workflows().iter().map(|w| w.name()).collect();
    assert_eq!(names.len(), 10, "expected exactly 10 prompts, got {names:?}");
    assert!(names.contains(&"postgres"));
    for expected in SUB_WORKFLOWS {
        assert!(names.contains(&expected), "missing prompt {expected}");
    }
    assert!(names.iter().all(|name| name.starts_with("postgres")));
    for w in workflows() {
        assert_eq!(workflow_named(w.name()), Some(w));
        assert!(!w.description().is_empty());
    }
    assert_eq!(workflow_named("postgres-unknown"), None);
    assert_eq!(workflow_named("Postgres"), None);
}

#[test]
fn prompt_arguments_are_listed_per_workflow() {
    assert_eq!(Workflow::SchemaIntrospection.arguments(), vec!["schema_name", "table_name"]);
    assert_eq!(Workflow::RolesPermissions.arguments(), vec!["role_name", "schema_name", "table_name"]);
    assert_eq!(Workflow::Master.arguments(), vec!["goal"]);
    assert_eq!(Workflow::SessionLocks.arguments(), vec!["pid", "database_name"]);
    assert_eq!(Workflow::DataProfiling.arguments(), vec!["table_name"]);
}

#[test]
fn master_prompt_links_every_sub_workflow() {
    let master = prompt_text(Workflow::Master, &[]);
    for expected in SUB_WORKFLOWS {
        assert!(master.contains(expected), "master prompt should mention {expected}");
    }
    for w in workflows() {
        assert!(!prompt_text(w, &[]).is_empty());
        assert!(prompt_text(w, &[]).ends_with(w.content()));
    }
}

#[test]
fn context_header_echoes_values_and_lists_missing_arguments() {
    let schema = prompt_text(Workflow::SchemaIntrospection, &[Some("public")]);
    assert!(schema.contains("schema_name: public"));
    assert!(schema.contains("- table_name"));
    assert_eq!(
        render_context_header(&[("schema_name", Some("public")), ("table_name", None)]),
        "## Context already provided\n- schema_name: public\n\n## Still needed\n- table_name\n"
    );
    assert_eq!(
        render_context_header(&[("goal", None)]),
        "## Context already provided\n- (none)\n\n## Still needed\n- goal\n"
    );
    assert_eq!(
        render_context_header(&[("pid", Some("42")), ("database_name", Some("app"))]),
        "## Context already provided\n- pid: 42\n- database_name: app\n\n## Still needed\n- (none)\n"
    );
    let text = prompt_text(Workflow::DataProfiling, &[Some("orders")]);
    assert_eq!(
        text,
        format!(
            "## Context already provided\n- table_name: orders\n\n## Still needed\n- (none)\n\n{}",
            Workflow::DataProfiling.content()
        )
    );
}

#[test]
fn prompt_descriptions_are_the_advertised_texts() {
    assert_eq!(
        Workflow::QueryPerformance.description(),
        "Diagnosing a slow query: is it running now, its EXPLAIN plan via execute_sql, and index usage -- rather than guessing at the cause."
    );
    assert_eq!(
        Workflow::SessionLocks.description(),
        "Active sessions/connections, blocking chains, locks, and safely cancelling or terminating a backend."
    );
    assert!(Workflow::Master.description().starts_with("Start here."));
    let mut descriptions: Vec<&str> = workflows().iter().map(|w| w.description()).collect();
    descriptions.sort();
    descriptions.dedup();
    assert_eq!(descriptions.len(), 10);
}
