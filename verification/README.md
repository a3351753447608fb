# tol

A front end for `tol`, a small language with Tagalog keywords, written in
Verus. Each phase is stated against a functional model and proved to follow
it:

- `lexer`: source text to tokens, with byte spans, `--` comments and `;`
  inferred at line breaks outside brackets (`lex_spec`).
- `parser`: a Pratt parser from tokens to statements and expressions,
  collecting diagnostics in the module (`spec_parse_expr`, `spec_parse_program`).
- `sema::name_resolver`, `sema::analyzer_ctx`: scopes, declarations and the
  binding of every name to its symbol (`spec_resolve_block`).
- `sema::type_checker`: type inference and checks of declarations,
  assignments and arithmetic (`spec_check_block`).
- `ast::pretty_printer`: the indented printout of a syntax tree.
- `module`: a source file with its syntax tree, symbol table and diagnostics.

`app/` holds the command-line program: it reads a file, prints tokens and
the syntax tree, and reports diagnostics with `miette`.
