# yugolang

A verified front end for Yugolang, a language in which every operator and
keyword is a function that consumes the expression on its preferred side, and
in which the functions of a statement are resolved in order of decreasing
priority.

## Layout

- `src/lexer.rs`: the lexer, a character-by-character state machine with two
  characters of lookahead. `spec_tokenize` states the whole run; `tokenize` is
  proved to compute it.
- `src/parser.rs`: tokens to scopes, statements and expressions. `parse` is
  proved to compute `spec_parse`; the three kinds of brace are shown to be
  interchangeable.
- `src/typing.rs`, `src/typing/`: values, types, function types and their
  priorities. Priorities form a total order (reflexive, antisymmetric,
  transitive), with the infinities at its ends.
- `src/state.rs`, `src/global.rs`: the interpreter's frames of variables and
  the global frame holding the arithmetic operators.
- `src/interpreter.rs`: the choice of the next function to evaluate in a
  statement: the one of highest priority, ties going to the rightmost leftwards
  function, else to the leftmost rightwards one.
- `app/`: the command-line program and the code that turns a parsed program
  into Rust tokens.
