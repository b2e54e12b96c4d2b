# libtmux

Typed access to tmux, with its behaviour stated in contracts and proved by
Verus.

The library runs no process. It writes the commands that a tmux client runs and
reads the bytes that tmux answers with:

- `server` names an endpoint and holds what is asked of it: listings, options,
  hooks, environments, key bindings, buffers, channels, the access list and
  interactive commands. `server::dispatch` writes the words of an invocation,
  and `server::limits` bounds what is read and what runs at once.
- `session`, `window`, `pane` and `client` are handles over snapshots.
- `formats` is the catalog of format variables, the plans that ask for them and
  the framing of the rows that come back.
- `snapshot` decodes rows into typed snapshots and projections, and chooses
  among the edges of a window.
- `query` is the filter language: typed handles, expressions, matching, the
  JSON wire form and its schema.
- `command`, `error`, `output`, `target`, `version`, `text`, `decimal` and
  `json` are what the others are made of.

Every module states its meaning in spec functions over sequences, integers and
options. Public proof functions whose names start with `law_` state what holds
across calls: that written expressions are read back and accept what they
accepted, that framing loses no byte, that renderings show no payload, that a pane stands under one window.

What the proofs rest on besides Verus stands in `query/outside.rs`, `output.rs`
and `server.rs`: UTF-8 decoding, strict (`read_utf8`) and lossy (`read_lossy`,
named `lossy_text`); case folding (`fold_case`, named `case_folded`); regular
expressions (`compiles` and `finds`, named `pattern_compiles` and
`pattern_found`); and how the standard library writes quoted text (`quote`,
named `debug_quoted`) and durations (`render_duration`, named `duration_text`).

`app/` runs the commands with tokio, reads the environment of the process, and
carries expressions through serde and schemars.
