# mcp_iot

An IoT device-management engine served over MCP: a device registry with
digital twins, telemetry ingestion that evaluates alert rules, remote
commands, fleets, OTA firmware rollouts and geofences.

The engine is written in Verus and proved against its contracts.

- `src/server.rs` — the engine (`IoTServer`), the invariant every tool
  keeps (`ServerState::wf`, held as `IoTServer`'s type invariant) and one
  method per tool, each with a contract that states the new state and the
  answer.
- `src/alerting.rs` — which rules a telemetry point fires, the alerts they
  raise, and how readings update a twin's reported state.
- `src/twins.rs` — desired-state updates and drift detection.
- `src/floats.rs` — IEEE 754 comparisons of binary64 values given by their
  bit patterns.
- `src/json.rs`, `src/fields.rs`, `src/keys.rs` — JSON values with their
  equality, and JSON objects kept in key order.
- `src/keyed.rs` — collections found by a text key.
- `src/model.rs`, `src/inputs.rs` — records and tool arguments. Real-valued
  quantities are kept as binary64 bit patterns.
- `src/ids.rs` — random short ids (`uuid`) and timestamps (`chrono`).
- `src/laws.rs`, `src/history.rs` — laws that relate the tools, and laws
  over sequences of calls.
- `app/` — the MCP server (`rmcp`, `adk-mcp-sdk`): argument decoding, JSON
  answers, and the floating-point arithmetic (the 0.001 tolerance of `eq`
  rules, haversine distances) whose outcomes it hands to the engine.
- `tests/` — executable tests of the engine.
