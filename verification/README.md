# rustpython

A verified core for a Python interpreter, in two parts.

- The parser turns source text into an abstract syntax tree. `parse_program`, `parse_statement`
  and `parse_expression` in `src/parser.rs` are the ways in. The contracts speak of
  `src/lexical.rs`, which says what the tokens of a text are, and of `src/grammar.rs`, which says
  what tokens are parsed as.
- A frame runs compiled code on a machine. `Frame::run_frame` in `src/frame.rs` runs it to a
  return, a yield or an exception. The machine is a `VirtualMachine`: it owns the objects, and
  nothing is promised of its answers. It keeps a record of what it was asked and what it answered.
  The contracts speak of that record, and `src/semantics.rs` says what each instruction does with
  the answers. Where the code or an object is not what an instruction needs, the run ends with a
  `Fault`.

`src/replay.rs` holds a machine that answers from a list, with a proof that it keeps its record.

`src/laws.rs` and `src/syntax_laws.rs` prove what holds of all runs and of all texts.

`app/` reads files. `tests/` runs the library: `tests/frame.rs` holds a small machine.

What is trusted:

- `String::push` adds the character at the end.
- The debug texts of `lalrpop_util::ParseError` depend on the error alone.
- A `VirtualMachine` that is written outside this library, in ordinary Rust, keeps the record that
  the trait asks for. The record is never computed, so this holds of any machine that answers at
  all: it says what the record is.
