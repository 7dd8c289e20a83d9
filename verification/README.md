# githubdw

A local, SQLite-based data warehouse for GitHub repositories, with its logic
verified in [Verus](https://github.com/verus-lang/verus).

It syncs pull requests (with reviews, comments, file diffs and check runs) and
issues (with labels, milestones and comments) into a star schema, and offers
querying, metrics with period-over-period deltas, full-text search, custom
groups, and an MCP server.

## Layout

- `src/` is the library. It decides and computes: it parses periods and GitHub
  responses, builds every SQL statement, plans and steers sync runs, and renders
  reports. It performs no I/O: a statement is a value, and a sync run is a chain
  of states, each of which says what to do next and takes what came of it.
  - `calendar`, `clock`, `period`: dates, instants, zones and named periods
  - `sql`, `storage`: statements, upserts, the schema, and the statements of each
    table
  - `json`, `fetch`: GitHub's responses, requests, pacing and retries
  - `ingest`: the statements that store one fetched item
  - `sync`, `walk`, `run`: windows and watermarks, page walks, and whole runs
  - `query`, `outline`, `metrics`, `search`, `groups`, `summaries`: reading the
    warehouse
  - `mcp`, `cli`: the tool calls and the command line
- `tests/` runs the library, mostly against an in-memory SQLite database.
- `app/` is the program around it: the command line, the database connection,
  the `gh` subprocess, the MCP transport and the summary agent.

Properties that relate several functions stand in `src/` as proof functions
whose names begin with `law_`.
