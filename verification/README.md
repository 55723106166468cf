# postgres_mcp — verified statement planning

The library plans every statement the PostgreSQL catalog server sends, and
Verus proves what each plan is:

- `text` — character classes, trimming, splitting, decimal rendering and parsing;
- `json` — the JSON values the planner reads, JSON pointers, compact JSON text;
- `identifier` — delimited identifiers, and that they read back as the name in the
  crate's model of how PostgreSQL reads a delimited identifier;
- `binding` — values bound as TEXT parameters, PostgreSQL array literals, and
  that a rectangular array's literal reads back as the JSON array's shape in
  the crate's model of PostgreSQL's array input (no whitespace, no dimension
  prefix, no check of sub-array shapes);
- `endpoint` — generated endpoint paths and the catalog object they name;
- `relation`, `routine`, `operation` — the statement of a catalog operation;
- `statement` — a single caller statement (`execute_sql`): row queries, `EXPLAIN`
  plans and other commands, and the response of each;
- `connection` — session settings, failure messages and connection reports;
- `prompts`, `prompt_content` — the guided workflows offered as prompts, and
  the context header put before each one.

`app/` holds the asynchronous client that connects with `tokio-postgres`,
sends the planned statements with their TEXT parameters, and converts
`serde_json` values to and from the planner's JSON values, and serves the
workflow prompts by name.
