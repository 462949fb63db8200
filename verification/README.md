# Server API generator for Wayland protocols

This crate generates the Rust source of the server side of a Wayland
protocol: the enum of requests of the protocol, the dispatcher that queues
decoded requests, one resource type per interface, the decoding of each
request from the raw argument array, and one `send_` method per event.

## Layout

- `src/protocol.rs` — the parts of a protocol description that generation
  reads, and what generation asks of them (a `new_id` argument names its
  interface; requests have no `destructor` argument), with `is_generable`
  to test it.
- `src/names.rs` — conversions of protocol names into Rust names
  (`snake_to_camel`, `dotted_snake_to_camel`, `snake_to_screaming`), decimal
  numbers and small string utilities, with their laws (no separator survives
  in a camel-case name, each of the three conversions is idempotent, and so
  on).
- `src/output.rs` — the generated file as a sequence of pieces. Text pieces
  are produced here; the other pieces name a section that comes from the code
  generation shared with the client side (enum definitions, opcode
  constants, request enums, doc comments, the Rust type of a wire type).
- `src/server_gen.rs` — the generator. Every function's contract gives the
  exact pieces it appends, as spec functions over the protocol; the laws at
  the end state which interfaces get which shared sections.
- `src/server_laws.rs` — laws over whole files and pairs of files: where the
  comment of each interface stands, for which interfaces request decoding is
  wired up, the layout of the request machinery, and what the output does
  not depend on.
- `app/` — writes the pieces to an `io::Write`, calling the shared code
  generation for the non-text pieces.
