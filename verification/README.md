# lox

A front end for the Lox language, verified with Verus: a symbol table, a
lexer and a recursive-descent parser with panic-mode error recovery.

- `src/` is the verified library.
  - `symbols.rs`: the symbol table, modelled as a sequence of distinct
    strings; interning laws. The table is a `Vec<String>` searched
    linearly rather than a hash map keyed by strings: with `String` keys,
    vstd's map specifications let nothing about interning be proved, so
    interning costs time linear in the table's size.
  - `spans.rs`, `text.rs`: byte positions and spans, and the UTF-8 byte
    offsets of characters.
  - `lex/`: the scanner, the lexical grammar as spec functions
    (`lex/grammar.rs`), and the lexer, whose `next_token` is proved to follow
    that grammar exactly, diagnostics included.
  - `tokens/`, `diagnostics.rs`, `log.rs`, `ast.rs`: the data the lexer and
    parser produce, with spec views.
  - `parse/`: the grammar and the error recovery as spec functions over the
    parser's state (`parse/grammar.rs`), operator precedence
    (`parse/infix.rs`), the shape of parsed trees (`parse/tree.rs`: every
    infix operation respects precedence and associativity), and the parser,
    each of whose functions is proved to compute its spec function.
  - `diagnostics.rs`: diagnostics and their messages, as parts.
  - `ast_dump.rs`: the tree structure used to print an AST.
- `app/` is the command line: reading files and lines, printing trees and
  diagnostics, and turning number lexemes into floating-point values (it
  keeps copies of the tree types whose `Debug` output shows them).
- `tests/` runs the library on concrete inputs.
