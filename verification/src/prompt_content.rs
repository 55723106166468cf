//! The text of each guided workflow.

use vstd::prelude::*;

verus! {

pub const MASTER_WORKFLOW: &'static str = r##"# PostgreSQL catalog workflow menu

Match the user's goal to one of the guided sub-workflows below, then fetch
that prompt by name (`prompts/get`) for step-by-step instructions.

**Two live-execution paths -- pick the right one.** This server exposes
`search`/`get`/`call` for pre-validated PostgreSQL catalog operations
(`pg_catalog` and `information_schema` functions/views), plus a separate
`execute_sql` tool for exactly one parameterized raw SQL statement. Prefer
`search` -> `get` -> `call` whenever a catalog operation covers the need --
its input/output shape is already validated against a known schema. Reach for
`execute_sql` only when no catalog operation exists for the action: this
catalog has **no** operation for `EXPLAIN`, `VACUUM`, `ANALYZE`,
`GRANT`/`REVOKE`, or any DDL (`CREATE`/`ALTER`/`DROP`) -- these are SQL
commands, not catalog functions, and every sub-workflow below calls this out
explicitly wherever it applies.

**Delegate whole sub-workflows when you can.** If your environment provides a
way to run a sub-task/agent in an isolated context, delegate the entire
matched sub-workflow to it: hand the sub-task the sub-workflow's prompt name
and whatever parameters you already know, let it fetch that prompt itself and
carry out every step -- including its own `search`/`get`/`call`/`execute_sql`
traffic -- entirely in its own context, and have it report back only a short
summary (what was found/confirmed, and anything still needed from the user).
Only run a sub-workflow's steps directly in this conversation if no such
delegation mechanism is available.

## Sub-workflows

- **`postgres-schema-introspection`** -- tables, columns, types,
  constraints, indexes, views, and sequences across schemas.
- **`postgres-roles-permissions`** -- roles, role membership, object
  grants, and row-level security policies.
- **`postgres-session-locks`** -- active sessions, blocking chains,
  locks, and safely cancelling or terminating a backend.
- **`postgres-replication-wal`** -- replication status, replication
  slots, publications/subscriptions, and WAL position/lag.
- **`postgres-vacuum-maintenance`** -- autovacuum/analyze activity,
  dead-tuple/bloat signals, and running VACUUM/ANALYZE manually.
- **`postgres-query-performance`** -- diagnosing a slow query: is it
  running now, its EXPLAIN plan, and index usage.
- **`postgres-server-health-config`** -- live configuration
  (`pg_settings`), background writer/checkpointer/archiver stats, and
  physical backups.
- **`postgres-extensions-fdw`** -- installed/available extensions and
  foreign data wrapper objects.
- **`postgres-data-profiling`** -- ad hoc data exploration,
  aggregation, and row-level querying via `execute_sql`.

If the user's goal doesn't clearly match a sub-workflow above, ask a short
clarifying question rather than guessing which one they mean.
"##;

pub const SCHEMA_INTROSPECTION_WORKFLOW: &'static str = r##"# Guided workflow: schema introspection

This sub-workflow is designed to be run as an isolated sub-task where
possible -- if you were delegated here from `postgres`'s routing, or your
environment otherwise supports running this as its own sub-task, everything
you need is in this prompt's own text plus the parameters already listed
above; report back only a short summary when done rather than the full
step-by-step trace.

Every operation below is described as a capability to search for, never as a
specific `operationId` -- this server embeds catalogs for six PostgreSQL
versions (14 through 19beta2), and the exact operation and its response
schema can differ across them. Call `search` with the described capability,
`get` the operationId it resolves to, and read that operation's *current*
schema before relying on any field name in it -- never assume a column name
from memory or from a previous run.

## Step 0 -- gather what's known

Check the "Context already provided" header above first. `schema_name` and
`table_name` narrow every step below, but neither is required -- omit them to
browse broadly.

## Step 1 -- discover schemas and tables

Search for how to list schemas and tables (the SQL-standard
`information_schema.tables` view, or PostgreSQL's own `pg_tables`/`pg_class`
catalog). Filter to `schema_name` if given; otherwise list all
non-system schemas first (system schemas like `pg_catalog` and
`information_schema` are rarely what the user means by "my tables").

## Step 2 -- columns and types

Search for how to list a table's columns, data types, nullability, and
defaults (`information_schema.columns`). Confirm the table actually exists
in Step 1 before asking about its columns -- a typo'd `table_name` should
surface as "no such table" rather than an empty, misleading column list.

## Step 3 -- constraints

Primary keys, foreign keys, unique, and check constraints are split across
several catalog views rather than one: search for the operations covering
`information_schema.table_constraints` (constraint names/types),
`key_column_usage` (which columns each constraint covers),
`referential_constraints` (which foreign key points at which table), and
`check_constraints` (the actual check expression). Cross-reference them by
constraint name rather than assuming one view has everything.

## Step 4 -- indexes

Search for how to list a table's indexes (`pg_indexes` for the human-readable
`CREATE INDEX` text, `pg_index` for structured flags like uniqueness and the
indexed expression/columns). Note whether an index enforces a unique or
primary-key constraint versus existing purely for query performance --
they're not the same thing even when they cover the same columns.

## Step 5 -- views, materialized views, and sequences (as needed)

Only if the user's goal touches them: search for the operations covering
`pg_views`/`pg_matviews` (view/matview definitions -- note materialized views
need an explicit refresh and are not automatically kept in sync with their
underlying tables) and `pg_sequences` (current value, increment, and which
column owns the sequence, if any).

## Composing with other workflows

- Who can read/write what you just discovered overlaps with
  `postgres-roles-permissions`.
- Whether a query against these tables is using the indexes you found
  overlaps with `postgres-query-performance`.
- Row-count/bloat health for a specific table overlaps with
  `postgres-vacuum-maintenance`.
- Ad hoc queries against the schema you just mapped overlap with
  `postgres-data-profiling`.

Fetch those prompts by name for more detail rather than assuming their
content from this one.
"##;

pub const ROLES_PERMISSIONS_WORKFLOW: &'static str = r##"# Guided workflow: roles and permissions

This sub-workflow is designed to be run as an isolated sub-task where
possible -- if you were delegated here from `postgres`'s routing, or your
environment otherwise supports running this as its own sub-task, everything
you need is in this prompt's own text plus the parameters already listed
above; report back only a short summary when done rather than the full
step-by-step trace.

Every operation below is described as a capability to search for, never as a
specific `operationId` -- the exact operation and its response schema can
differ across the six PostgreSQL versions this server supports. Call
`search` with the described capability, `get` the operationId it resolves
to, and read that operation's *current* schema before relying on any field
name in it.

## Step 0 -- gather what's known

Check the "Context already provided" header above first. `role_name`,
`schema_name`, and `table_name` narrow the questions below, but none are
required -- omit them to browse broadly.

## Step 1 -- roles and membership

Search for how to list roles and their attributes (login capability,
superuser, ability to create roles/databases) and role membership (which
roles are members of which other roles, i.e. inherited privileges).

**Sensitivity gate:** the underlying catalog also exposes password hashes to
a superuser. Never surface a password hash in a response, even if the
connected role happens to be able to read it -- the user asking "what are
this role's attributes" almost never means "show me its hash."

## Step 2 -- object-level grants

Search for how to list grants on tables, columns, routines, sequences, and
user-defined types, scoped to `schema_name`/`table_name`/`role_name` as
given. These are split by object type across several
`information_schema.*_privileges` views -- check the one matching the
object type the user actually cares about rather than assuming table grants
cover everything.

## Step 3 -- row-level security (a separate layer)

Search for how to list row-level security policies (`pg_policies`). RLS
policies are an *additional* filter applied on top of whatever GRANT already
allows -- a role can have full SELECT/UPDATE grants on a table and still see
or modify no rows (or a restricted subset) if RLS is enabled and no policy
matches it. Don't report "this role has full access" from grants alone
without checking whether RLS is enabled on the table.

## Step 4 -- granting or revoking (gated, execute_sql)

**No catalog operation exists for `GRANT`/`REVOKE`** -- they're SQL commands,
not catalog functions. Confirm the exact role, privilege, and object with the
user, then run the statement via `execute_sql`. Object and role identifiers
can't be bound as `$1`-style parameters (parameters are for values only) --
validate the identifier against what Step 1/2 actually returned before
including it in the SQL text, rather than trusting user-supplied spelling
verbatim.

Gate: don't report the grant/revoke as done until a follow-up read of the
relevant `*_privileges` view (Step 2) confirms the change actually took
effect. A non-error response from `execute_sql` alone is not sufficient
confirmation.

## Composing with other workflows

- Finding the tables/schemas a grant question is actually about overlaps
  with `postgres-schema-introspection`.
- "What is this role doing right now" (as opposed to what it's *allowed* to
  do) overlaps with `postgres-session-locks`.

Fetch those prompts by name for more detail rather than assuming their
content from this one.
"##;

pub const SESSION_LOCKS_WORKFLOW: &'static str = r##"# Guided workflow: sessions and locks

This sub-workflow is designed to be run as an isolated sub-task where
possible -- if you were delegated here from `postgres`'s routing, or your
environment otherwise supports running this as its own sub-task, everything
you need is in this prompt's own text plus the parameters already listed
above; report back only a short summary when done rather than the full
step-by-step trace.

Every operation below is described as a capability to search for, never as a
specific `operationId` -- the exact operation and its response schema can
differ across the six PostgreSQL versions this server supports. Call
`search` with the described capability, `get` the operationId it resolves
to, and read that operation's *current* schema before relying on any field
name in it.

## Step 0 -- gather what's known

Check the "Context already provided" header above first. `pid` and
`database_name` narrow the steps below, but neither is required -- omit
them to see every active session.

## Step 1 -- what's running right now

Search for how to list active sessions/connections (`pg_stat_activity`):
their pid, database, user, current query text, and state (active, idle,
idle in transaction, etc). Filter to `database_name`/`pid` if given.

## Step 2 -- lock waits and blocking chains

Search for how to list current locks (`pg_locks`) and, separately, how to
find which pid(s) are blocking a given pid (`pg_blocking_pids`). A session
sitting in `active` state with no progress is very often waiting on a lock
held by another session -- check this before assuming a query is simply
slow. Trace the blocking chain by following the blocker's own pid back
through Step 1/2 if it, in turn, appears blocked.

## Step 3 -- cancelling or terminating a session (gated)

Two distinct operations exist, and they are not interchangeable:

- **Cancel** the session's current query (comparable to Ctrl-C) -- the
  connection stays open, only the in-flight statement is aborted.
- **Terminate** the backend entirely -- the connection itself is dropped,
  aborting any open transaction.

Search for and use the cancel operation unless the user specifically wants
the connection itself closed. Before calling either:

1. Confirm the target `pid` and the query text/session details from Step 1
   with the user -- never cancel/terminate based on a guessed or
   previous-run pid.
2. After calling, re-read `pg_stat_activity` (Step 1) to confirm the
   session is actually gone (terminate) or idle again (cancel). A
   non-error response from the call alone is not sufficient confirmation --
   the target may already have disconnected or the signal may not have been
   delivered yet.

## Step 4 -- advisory locks (a separate mechanism)

If the user's question is about an application-level lock rather than a
row/table lock, search for the advisory lock operations (session-level and
transaction-level acquire/release, shared and exclusive variants). These are
managed entirely by application code calling them explicitly -- they don't
appear in `pg_locks` the same way row/table locks do unless specifically
queried for lock type `advisory`.

## Composing with other workflows

- "Why is this specific query slow" once it's confirmed *not* to be lock-
  blocked overlaps with `postgres-query-performance`.
- Autovacuum holding locks on a table overlaps with
  `postgres-vacuum-maintenance`.

Fetch those prompts by name for more detail rather than assuming their
content from this one.
"##;

pub const REPLICATION_WAL_WORKFLOW: &'static str = r##"# Guided workflow: replication and WAL

This sub-workflow is designed to be run as an isolated sub-task where
possible -- if you were delegated here from `postgres`'s routing, or your
environment otherwise supports running this as its own sub-task, everything
you need is in this prompt's own text plus the parameters already listed
above; report back only a short summary when done rather than the full
step-by-step trace.

Every operation below is described as a capability to search for, never as a
specific `operationId` -- the exact operation and its response schema can
differ across the six PostgreSQL versions this server supports. Call
`search` with the described capability, `get` the operationId it resolves
to, and read that operation's *current* schema before relying on any field
name in it.

## Step 0 -- gather what's known

Check the "Context already provided" header above first. `slot_name` and
`publication_name` narrow the steps below, but neither is required.

## Step 1 -- primary-side status

Search for how to list replication connections from standbys
(`pg_stat_replication`: each standby's state, sent/write/flush/replay LSNs)
and replication slots (`pg_replication_slots`, filtered to `slot_name` if
given: active/inactive, and how much WAL a slot is retaining). Also search
for current WAL activity stats (`pg_stat_wal`).

## Step 2 -- standby-side status

If connected to a standby, search for how to read its WAL receiver status
(`pg_stat_wal_receiver`) and its last-received/last-replayed WAL positions,
and whether WAL replay is currently paused.

## Step 3 -- computing lag correctly

Don't eyeball raw LSN values to estimate lag -- they're not simple numbers
to subtract by hand. Search for the LSN-diff operation
(`pg_wal_lsn_diff`) and call it with the two LSNs from Steps 1/2 (e.g.
current WAL position minus the standby's last-replayed position) to get an
actual byte distance.

## Step 4 -- logical replication (as needed)

Only if the user's goal is logical (not physical) replication: search for
publications (`pg_publication`, `pg_publication_tables` -- which tables a
publication actually includes) and subscriptions
(`pg_subscription`, `pg_stat_subscription` for a subscriber's own status).
Filter to `publication_name` if given.

## Step 5 -- pausing, resuming, or advancing (gated)

Pausing/resuming WAL replay on a standby, or manually advancing a
replication slot's position, changes what a standby will and won't apply --
treat these as destructive-ish operations:

1. Confirm intent with the user before calling; state plainly what will
   change (e.g. "this standby will stop applying new WAL until resumed").
2. After calling, re-read the relevant status operation from Step 1/2 (or
   the WAL-replay-pause-state operation) to confirm the state actually
   changed -- don't assume a non-error response means the change took
   effect.

## Composing with other workflows

- Base backups (a different way of getting a copy of the primary) overlap
  with `postgres-server-health-config`.
- FDW/foreign-server setups sometimes get confused with logical replication
  -- if the user's actual goal is querying another database rather than
  streaming changes to it, see `postgres-extensions-fdw` instead.

Fetch those prompts by name for more detail rather than assuming their
content from this one.
"##;

pub const VACUUM_MAINTENANCE_WORKFLOW: &'static str = r##"# Guided workflow: vacuum and maintenance

This sub-workflow is designed to be run as an isolated sub-task where
possible -- if you were delegated here from `postgres`'s routing, or your
environment otherwise supports running this as its own sub-task, everything
you need is in this prompt's own text plus the parameters already listed
above; report back only a short summary when done rather than the full
step-by-step trace.

Every operation below is described as a capability to search for, never as a
specific `operationId` -- the exact operation and its response schema can
differ across the six PostgreSQL versions this server supports. Call
`search` with the described capability, `get` the operationId it resolves
to, and read that operation's *current* schema before relying on any field
name in it.

## Step 0 -- gather what's known

Check the "Context already provided" header above first. `schema_name` and
`table_name` narrow every step below, but neither is required -- omit them
to survey every table.

## Step 1 -- per-table health signals

Search for how to read per-table statistics (`pg_stat_user_tables`, or
`pg_stat_sys_tables` for system tables): live/dead tuple counts, and the
timestamps of the last manual and automatic vacuum/analyze. A high
`n_dead_tup` relative to `n_live_tup`, or a `last_autovacuum` far in the
past, both point at bloat or a starved autovacuum -- don't conclude a table
is "unmaintained" from one signal alone.

## Step 2 -- in-flight activity

Search for how to check whether a vacuum or analyze is currently running on
a table right now (`pg_stat_progress_vacuum`, `pg_stat_progress_analyze`).
If one is already in progress, don't kick off another -- point the user at
its current progress instead.

## Step 3 -- running VACUUM/ANALYZE manually (gated, execute_sql)

**No catalog operation exists for `VACUUM`/`ANALYZE`** -- they're SQL
commands, not catalog functions. Run them via `execute_sql` with the literal
statement text, e.g. `VACUUM (ANALYZE, VERBOSE) schema.table`. Table and
schema names can't be bound as `$1`-style parameters -- parameters are for
values only -- so validate the identifier against Step 1's own result (or
`postgres-schema-introspection`) before including it in the SQL text, rather
than trusting user-supplied spelling verbatim.

Gate: don't report the vacuum/analyze as done until a follow-up read of Step
1's stats shows `last_vacuum`/`last_analyze` updated and `n_dead_tup`
reduced. An empty command-complete result from `execute_sql` confirms the
statement ran, not that it changed anything meaningful (e.g. a table with no
dead tuples completes instantly and changes nothing).

## Composing with other workflows

- Confirming exactly which table/schema is involved overlaps with
  `postgres-schema-introspection`.
- A vacuum currently holding a lock that's blocking other queries overlaps
  with `postgres-session-locks`.
- Whether stale statistics (rather than bloat) explain a bad query plan
  overlaps with `postgres-query-performance`.

Fetch those prompts by name for more detail rather than assuming their
content from this one.
"##;

pub const QUERY_PERFORMANCE_WORKFLOW: &'static str = r##"# Guided workflow: query performance

This sub-workflow is designed to be run as an isolated sub-task where
possible -- if you were delegated here from `postgres`'s routing, or your
environment otherwise supports running this as its own sub-task, everything
you need is in this prompt's own text plus the parameters already listed
above; report back only a short summary when done rather than the full
step-by-step trace.

Every catalog operation below is described as a capability to search for,
never as a specific `operationId` -- the exact operation and its response
schema can differ across the six PostgreSQL versions this server supports.
Call `search` with the described capability, `get` the operationId it
resolves to, and read that operation's *current* schema before relying on
any field name in it.

## Step 0 -- gather what's known

Check the "Context already provided" header above first. `query_text` and
`table_name` narrow the steps below, but neither is required.

## Step 1 -- is it running right now?

Before reasoning about a plan, check whether the query is actually executing
this moment and, if so, whether it's blocked rather than slow. Fetch the
`postgres-session-locks` prompt and follow its Step 1/2 (`pg_stat_activity`,
`pg_locks`, `pg_blocking_pids`) -- a query stuck on a lock wait needs a very
different fix than a query that's genuinely doing a lot of work.

## Step 2 -- get an EXPLAIN plan (gated, execute_sql)

**No catalog operation exists for `EXPLAIN`** -- it's a SQL command, not a
catalog function. Run it via `execute_sql`:
`EXPLAIN (ANALYZE, BUFFERS, FORMAT JSON) <query>`.

**Caution:** `ANALYZE` in an `EXPLAIN` statement actually executes the
query, including any side effects. For anything that isn't a plain `SELECT`
(an `UPDATE`/`INSERT`/`DELETE`, or a `SELECT` calling a side-effecting
function), either wrap it in a transaction you roll back afterward, or drop
`ANALYZE` and use a plain `EXPLAIN` (estimated costs only, no execution) --
confirm which the user actually wants before running it.

Read the plan for: sequential scans on large tables where an index scan
would be expected, large row-estimate-vs-actual mismatches (a sign of stale
statistics), and where most of the actual time is spent (nested loops over
large row counts are a common culprit).

## Step 3 -- cross-check index usage

Search for how to list a table's indexes and their usage counts
(`pg_stat_user_indexes`'s `idx_scan`, and `pg_indexes` for the actual
`CREATE INDEX` definitions). An index that exists but has `idx_scan` near
zero either isn't a good match for this query's predicates or isn't being
chosen by the planner for another reason (e.g. stale statistics, or the
planner correctly judging a sequential scan cheaper on a small table).

## Step 4 -- aggregate query history (if available)

This server's embedded catalog does **not** include `pg_stat_statements` --
it's a contrib extension, not a built-in catalog view, so it never appears
in `search` results. If the user wants aggregate stats across many
executions (not just this one plan) rather than a one-off EXPLAIN, ask
whether `pg_stat_statements` is already installed on the target database; if
so, query its view directly via `execute_sql` (it behaves like any other
table/view once installed). If it isn't installed, installing it is a
`postgres-extensions-fdw` matter (extension install is DDL, gated there).

## Composing with other workflows

- Stale statistics from a starved autovacuum overlap with
  `postgres-vacuum-maintenance`.
- Confirming exact table/column/constraint shape overlaps with
  `postgres-schema-introspection`.
- Lock waits and blocking sessions overlap with `postgres-session-locks`.

Fetch those prompts by name for more detail rather than assuming their
content from this one.
"##;

pub const SERVER_HEALTH_CONFIG_WORKFLOW: &'static str = r##"# Guided workflow: server health and configuration

This sub-workflow is designed to be run as an isolated sub-task where
possible -- if you were delegated here from `postgres`'s routing, or your
environment otherwise supports running this as its own sub-task, everything
you need is in this prompt's own text plus the parameters already listed
above; report back only a short summary when done rather than the full
step-by-step trace.

Every operation below is described as a capability to search for, never as a
specific `operationId` -- the exact operation and its response schema can
differ across the six PostgreSQL versions this server supports, and some
catalog views (e.g. the checkpointer's own stats view) were split out of an
older, combined view in more recent PostgreSQL releases. Call `search` with
the described capability, `get` the operationId it resolves to, and read
that operation's *current* schema before relying on any field name in it.

## Step 0 -- gather what's known

Check the "Context already provided" header above first. `setting_name`
narrows Step 1, but isn't required -- omit it to browse all settings.

## Step 1 -- live configuration

Search for how to read current configuration settings (`pg_settings`),
filtered to `setting_name` if given. Pay attention to two columns beyond the
value itself: `context` (whether changing this setting needs just a config
reload, a full server restart, or can be set per-session) and
`pending_restart` (a value was changed in the config file but hasn't taken
effect yet because the required restart/reload hasn't happened).

## Step 2 -- why a config edit didn't take effect

If the user edited `postgresql.conf`/`pg_hba.conf` directly and the change
doesn't seem to be applied, search for the file-level views
(`pg_file_settings` for `postgresql.conf`, `pg_hba_file_rules` for
`pg_hba.conf`, `pg_ident_file_mappings` for user name mapping) -- they
surface parse errors and which file/line actually won for a given setting,
which is often the actual cause rather than a missing restart.

## Step 3 -- background process throughput

Search for how to read background writer, checkpointer, and archiver
statistics (`pg_stat_bgwriter`, `pg_stat_checkpointer`, `pg_stat_archiver`).
Frequent forced checkpoints or a high archiver failure count are both
signals worth surfacing even if the user only asked a general "is the server
healthy" question.

## Step 4 -- physical backups (gated)

Search for the online-backup bracket operations (backup start, backup
stop). These bracket a single backup: calling start begins an exclusive or
non-exclusive backup mode, and the backup isn't valid/complete until stop is
called. Before calling start:

1. Confirm the user has a clear plan to call stop afterward (or that their
   backup tooling does so automatically).
2. Check nothing else has already started a backup that's still in
   progress -- don't stack a second one on top.

## Composing with other workflows

- Checkpoint-triggered I/O spikes coinciding with vacuum activity overlap
  with `postgres-vacuum-maintenance`.
- Physical backups are a different mechanism from logical replication --
  see `postgres-replication-wal` if the user's actual goal is streaming
  changes rather than a point-in-time copy.

Fetch those prompts by name for more detail rather than assuming their
content from this one.
"##;

pub const EXTENSIONS_FDW_WORKFLOW: &'static str = r##"# Guided workflow: extensions and foreign data wrappers

This sub-workflow is designed to be run as an isolated sub-task where
possible -- if you were delegated here from `postgres`'s routing, or your
environment otherwise supports running this as its own sub-task, everything
you need is in this prompt's own text plus the parameters already listed
above; report back only a short summary when done rather than the full
step-by-step trace.

Every operation below is described as a capability to search for, never as a
specific `operationId` -- the exact operation and its response schema can
differ across the six PostgreSQL versions this server supports. Call
`search` with the described capability, `get` the operationId it resolves
to, and read that operation's *current* schema before relying on any field
name in it.

## Step 0 -- gather what's known

Check the "Context already provided" header above first. `extension_name`
and `server_name` narrow the steps below, but neither is required.

## Step 1 -- installed vs. available extensions

Search for how to list extensions already installed in the current database
(`pg_extension`) versus extensions available to install but not yet enabled
(`pg_available_extensions`, `pg_available_extension_versions` for which
specific versions are available). Don't conflate the two -- "is X
available" and "is X installed" are different questions with different
catalog operations.

## Step 2 -- foreign data wrapper objects

If the user's goal is querying another database/data source rather than
installing a general-purpose extension, search for the FDW object family:
foreign data wrappers, foreign servers (`server_name` narrows here), foreign
tables, and user mappings (which local role maps to which credentials on the
remote side). These exist in both `information_schema` (portable, SQL-
standard shape) and `pg_catalog` (PostgreSQL-native, more detail) -- either
covers the same objects.

## Step 3 -- installing or removing an extension (gated, execute_sql)

**No catalog operation exists for `CREATE EXTENSION`/`DROP EXTENSION`** --
they're SQL commands, not catalog functions. Run them via `execute_sql`.
Installing an extension is a schema-level change (it can add tables, types,
functions) -- confirm with the user which extension and version before
running it, and prefer specifying the version explicitly (from Step 1's
available-versions list) rather than letting it default silently.

Gate: after installing/removing, re-read `pg_extension` (Step 1) to confirm
the change actually took effect before declaring success.

## Composing with other workflows

- If the real goal turns out to be streaming changes between databases
  rather than querying across them, see `postgres-replication-wal` instead
  -- FDW and logical replication solve related but different problems and
  are easy to conflate.
- Once a foreign table exists, querying it behaves like any other table --
  see `postgres-data-profiling`.

Fetch those prompts by name for more detail rather than assuming their
content from this one.
"##;

pub const DATA_PROFILING_WORKFLOW: &'static str = r##"# Guided workflow: data profiling

This sub-workflow is designed to be run as an isolated sub-task where
possible -- if you were delegated here from `postgres`'s routing, or your
environment otherwise supports running this as its own sub-task, everything
you need is in this prompt's own text plus the parameters already listed
above; report back only a short summary when done rather than the full
step-by-step trace.

Unlike the other sub-workflows, this one is centered entirely on
`execute_sql` rather than `search`/`get`/`call` -- ad hoc row-level queries,
joins across application tables, and aggregations aren't catalog operations
at all.

## Step 0 -- gather what's known

Check the "Context already provided" header above first. `table_name`
narrows the steps below, but isn't required -- ask what the user actually
wants to learn about the data if it's unclear.

## Step 0.5 -- decide: catalog operation or execute_sql?

Before writing a query, check whether a catalog operation already answers
the question -- it's pre-validated against a known schema and cheaper to get
right. Reach for `execute_sql` specifically for: ad hoc joins/aggregations
across application tables, row-level filtering beyond what a catalog
operation's own parameters expose, or any SQL PostgreSQL only exposes as a
command (`EXPLAIN`, `VACUUM`, `ANALYZE`, `GRANT`/`REVOKE`, DDL -- see the
other sub-workflows for those specific gates).

## Step 1 -- validate identifiers before use

`execute_sql`'s `$1`/`$2`-style parameters bind *values* only -- table and
column names can never be parameterized that way. Before interpolating a
user-supplied table or column name into SQL text, validate it against
`information_schema.columns`/`tables` (fetch `postgres-schema-introspection`
for how) rather than trusting the spelling verbatim -- this is the
difference between a safe, parameterized query and one vulnerable to SQL
injection through an identifier.

## Step 2 -- bind every value as a parameter

Every caller-controlled *value* (a filter, a literal being compared, a limit
count that came from user input) must be bound as `$1`, `$2`, etc., never
string-concatenated into the SQL text -- this is what makes `execute_sql`
injection-safe. Cast non-text values explicitly where needed (parameters
arrive as text on the wire, e.g. `$1::text::integer`).

## Step 3 -- sample before you aggregate

On an unfamiliar table, prefer `SELECT ... LIMIT n` to see what the data
actually looks like before running a full `COUNT(*)` or other whole-table
aggregate -- an unbounded aggregate on a large, unfamiliar table can be
expensive and its result harder to sanity-check without having seen sample
rows first.

## Step 4 -- always bound your own result size

Always pass `max_rows` on anything that could return an unbounded result
set. Reads and writes are both allowed through `execute_sql`, and
authorization is enforced entirely by the connected role's own PostgreSQL
grants -- there's no separate statement allow-list in this tool, so use the
same judgment about destructive statements (confirm intent before any
`UPDATE`/`DELETE`/`TRUNCATE`) that you would with direct database access.

## Composing with other workflows

- Confirming table/column shape before querying overlaps with
  `postgres-schema-introspection`.
- A query that turns out to be slow, once you have real results, overlaps
  with `postgres-query-performance`.
- Whether the connected role can actually see all the rows you'd expect
  (row-level security) overlaps with `postgres-roles-permissions`.

Fetch those prompts by name for more detail rather than assuming their
content from this one.
"##;

} // verus!
