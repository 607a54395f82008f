# Intelligence

Intelligence is a backend-independent categorical base language: spaces,
typed flows, composition, product wiring, feedback traces, gradients and
effects. This crate is its verified library; every function in `src/` carries
a contract that Verus proves.

## Layout

- `src/language.rs`: the semantic model (spaces, signatures, flows), the
  checker `typecheck` with its specification `check_flow`, lowering to text,
  and laws such as the associativity of `Space::product`.
- `src/syntax.rs`: the surface syntax, a lexer specified by `lex` and a
  recursive-descent parser specified by `program_spec`; `parse_program`
  ties them to the checker.
- `src/backend.rs`: the contract that backends implement.
- `src/names.rs`: `NameMap`, a finite map from names to values whose view is
  a `Map`.
- `src/text.rs`: character and string helpers and the decimal and `Debug`
  texts quoted in error messages.
- `src/bootstrap/`: the bootstrap compiler, with its own spaces and flows, a
  primitive registry, lexer, parser, type inference (`infer`) and a C99
  emitter.
- `app/main.rs`: the command-line driver, which reads a program, checks it,
  writes `payload.c` and runs clang.
- `tests/`: executable tests of the library.

Run `verus` on `src/lib.rs` to check the proofs.
