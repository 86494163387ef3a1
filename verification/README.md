# lot

Agent-first film tools: a show record (`show.json`) that moves through
writer, breakdown, wall, picture, stage, stills, slate, motion, dailies,
stems and finish, with an audit log, snapshots, locks, budgets and an
MCP/HTTP door for agents.

- `src/` is the library, verified with Verus: the show model and every rule
  that changes it, the screenplay parser, the importers for cork-board,
  canvas, Blockout, storyboard, slate and take files, FCPXML/EDL export,
  redaction, capabilities, the handoff between phases, the JSON-RPC and
  HTTP framing. Calls into `regex`, `serde_json`,
  `sha2` and `base64` stand behind small trusted wrappers whose contracts
  name what the crates compute.
- `tests/` runs the library on concrete values.
- `app/` is the `lot` program: command line, stdio MCP loop, HTTP twin,
  files on disk and the doctor's probes. It hands plain values to the
  library and writes back what it returns.
