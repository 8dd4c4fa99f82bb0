# loretta

Lua syntax options, lexer diagnostics and minifier building blocks, written
in Verus with their behaviour stated as contracts and proved.

- `src/` — the library, verified but for a few trusted wrappers round std
  and the parser crate:
  - `luasyntaxoptions`, `luaparseoptions`, presets and their equality;
  - `errors` — error codes, their facts and messages, the lexer's
    diagnostic rules (`errors/lexerdiagnostics`), stated as a scan over the
    source's characters, and the statement rules of the parser diagnostics;
  - `experimental` — expression flags and the folder's reading of them,
    the folding decisions for unary and binary expressions (`binaryfold`),
    string-literal decoding, number shapes, and the minifier's parts:
    naming strategies, slot allocators, the rename table and the trivia
    rewriter's token separation;
  - `commandline` — the console's argument, value and tree-dump helpers;
  - `differential` — JSON rendering, token kind names and the harness
    operations;
  - `fuzzing` — the pseudo-random inputs of the fuzz soak runs and their
    hex reporting;
  - `operations`, `scoping`, `text`.
- `tests/` — tests run against the compiled library.
- `app/` — the programs: the differential harness, the interactive
  console and the fuzz soak runs, which read files, call the Lua parser
  crate and print; and the constant folder's walk over the parser's tree,
  which asks the library what to fold and does the floating-point
  arithmetic itself.
