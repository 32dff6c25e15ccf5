# llvm_compiler (verified front end)

The front end of a small compiled language, written in Verus: token modules
and positions, the symbol tree, the matchers and the grammar that read
symbols from tokens, operator precedence parsing, conflict resolution
between competing readings, and the error messages.

Layout:

- `src/module.rs` – tokens, modules (nested through bracketed groups), positions and ranges.
- `src/ast/symbol.rs` – the symbols and expressions of the language.
- `src/ast/matchtype.rs` – matches and the generic matchers (optional, mapped, repeated, choices).
- `src/ast/matchers.rs` – one-token rules: keywords, names, literals, `break`, `import`, declarations.
- `src/ast/grammar.rs` – the recursive grammar, stated as relations between a position and the outcome of reading a rule there.
- `src/ast/parser.rs`, `src/ast/statementparser.rs` – the parser, proved to give exactly the outcomes of the grammar.
- `src/ast/rules.rs` – the matchers of the recursive rules.
- `src/ast/operatorexpr.rs` – turning a flat list of operators and operands into a tree by precedence.
- `src/ast/conflictresolution.rs` – choosing among several readings of the same tokens.
- `src/ast/error.rs`, `src/compiler.rs` – errors and their messages.
- `app/` – the command line driver, the message logger and the type descriptions.

Conflict errors (`MultipleConflict`, `EliminatedConflict`) list the competing
readings as `ConflictOption` values: the tokens each reading covers, their
source text, a description of each token, and the kind of symbol the reading
gives. The readings' values themselves are not copied into the error.

Not part of this crate: the tokenizer and the name resolver, whose sources are
not available, and the LLVM back end (code emission, bitcode output and
linking), which needs the LLVM C bindings and the resolver's output. The
driver in `app/` checks for the linker and reads the sources, and reports that
these stages are absent.
