# agentprof

The session-log side of `agentprof`, a profiler for AI coding agents, as a
Verus-verified library.

- `src/` — the verified library: the Copilot `events.jsonl` event model and
  session assembly (`event`, `session`), session discovery and ordering
  (`paths`, `refs`), the "tools changed" notice parser (`tools_changed`),
  `mcp.json` and tool-sidecar models (`mcp_config`, `sidecar`), the
  `--since` grammar (`since`), session selection (`selector`), and the
  decisions and text output of the command-line tool (`table`, `db`,
  `config`, `serve`, `aggregate`, `mcp_waste`, `waste_report`, `exit`, `escape`,
  `model_hint`, `privacy`). Text helpers with exact contracts live in
  `text` and `order`; `pathname` wraps the `std::path` operations used.
- `tests/` — tests run against the compiled library.
- `app/` — the command-line binary: argument parsing, file-system access,
  the serde wire format of `events.jsonl`, and the float-formatted
  number helpers.
