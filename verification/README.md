# gemma_rust_mcp

A command-line client that launches a model rig's MCP server over stdio, asks
it one question through the rig's read-only tools, and prints every step of
the exchange.

- `src/` is the verified library: which tools a run calls (never a billed or
  destructive one), what a tool's reply means (a leading failure marker, a
  reply that holds reasoning and no answer), what a line typed in interactive
  mode asks for, the exit code, and every line of text the client prints.
  - `text.rs`: a model of strings as character sequences (`trim`, `lines`,
    `join`, padding, decimal numbers) and verified operations on them.
  - `display.rs`: section headers, fields, shortened descriptions, indented
    blocks, durations.
  - `rig.rs`: the two rigs and their tools.
  - `session.rs`: the plan of a run, interactive commands, answers, exit codes.
  - `report.rs`: what is printed about the server, its tools, each tool call
    and the server's log.
- `app/main.rs` holds the process, the terminal and the MCP transport; it
  hands the library plain values and prints what it gets back.
- `tests/` runs the library on concrete values.
