# wsdf

A framework for writing Wireshark dissectors in Rust, with its core verified by Verus.

- `src/` is the verified library: building protocol descriptions (header fields, subtree
  types, expert infos) and recording the handles Wireshark assigns them; the plugin's
  table of protocols and the dissector-table registrations made at handoff; the packet
  buffer with its read cursor and the placement of tree items and subtrees; and the
  code-generating macros (the source text of `version!`, `protocol!`,
  `#[derive(Dissect)]` and `#[derive(Proto)]`, from the plan of each field's
  dissection and the spellings of identifiers).
- `app/` holds what talks to Wireshark's C API through `epan_sys`, the plugin's
  per-thread state, and the macro front ends that read Rust syntax with `syn` and hand
  the library's source text to the compiler.
- `tests/` exercises the library.
