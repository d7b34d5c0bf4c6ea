# cotim

Generates the glue that lets a SystemVerilog module be implemented in Rust
through DPI-C: from a module declaration it writes a SystemVerilog include
file with the DPI-C imports and the `always` block that calls the Rust tick
function, and a Rust file with the `Inputs`/`Outputs` structs and the
`extern "C"` functions that SystemVerilog calls.

The instance is created with the module's hierarchical path and the text of
the plusarg `+{module}=...` (empty when it is not given). Every element is
passed through DPI-C as a `bit[N-1:0]` vector, a pointer to its 32-bit words
in Rust. Single-bit ports appear in the Rust structs as `bool` (inputs, the
lowest bit of the word) and `&mut bool` (outputs), wider ports as bit slices.
Escape sequences in the module's `trigger` string are replaced as in
SystemVerilog string literals. The Rust file is pretty printed; a module or
port name that holds ASCII punctuation or space is no Rust identifier, and
code in which such a name still parses is refused rather than printed.

Layout:

- `src/syntax.rs` — the part of a SystemVerilog syntax tree that the analysis
  reads, as plain values.
- `src/parser.rs` — the analysis of the module declarations (`analyze_defs`),
  string literal decoding, and `validate`.
- `src/generator.rs` — generation of the SystemVerilog and Rust text
  (`generate_sv`, `generate_rs`, `generate`); pretty printing goes through
  `syn` and `prettyplease`.
- `src/text.rs` — decimal formatting and parsing of `u64`, comparison,
  substring search, joining of texts, and escape sequences.
- `src/properties.rs` — properties that relate the functions above.
- `src/runtime.rs` — the `ArcWake` trait.
- `src/lib.rs` — `build_output`: validation followed by generation.
- `app/` — the command line program: reads the `.sv` file with `sv-parser`,
  hands its module declarations to the library, writes the outputs.

Every function in `src/` is verified with Verus against its contract, except
three small trusted wrappers whose contracts are assumed: `parse_rust_file`
(`syn::parse_str`), `unparse` (`prettyplease::unparse`) and
`string_from_chars` (`String::from_iter`).
