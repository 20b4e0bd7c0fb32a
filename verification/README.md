# musubu

The front end of the Musubu language, verified with Verus.

- `src/lexer`: cuts source text into raw tokens; the tokens spell the text.
- `src/parser`: turns raw tokens into the parser's tokens (keywords, literals,
  operators of up to three symbols), and a packrat parser with a Pratt parser for
  operators that builds the syntax tree of `src/ast.rs`. Every rule is proved to
  terminate, to keep the memo table well formed, and to answer again what it
  recorded. What a rule builds is stated from the tokens for items, fields, path
  segments, patterns and generic arguments; for expression rules only the kind
  of expression is stated. Success is proved for a few inputs only: a lone
  literal expression, `< >`, `fn NAME ( ) ;` and `struct NAME { }`.
- `src/scope`, `src/name_space`, `src/resolve`: scopes of variables and types,
  module trees of items, the name resolver over both, and the resolution of
  expressions: names looked up, types checked and the result lowered, as the
  relation `resolves` states; and the resolution of a module's items, whose
  lowered functions hold, in order, what `resolves` gives for each body.
- `src/type_check`: the type checker's rules for operators, statements and
  calls.
- `src/hir.rs`, `src/desugar.rs`: the desugared program and the lowering of
  operators, loops and literals into it.
- `src/ir.rs`, `src/ir_compiler`: the virtual machine's instructions, and the
  compiler from the desugared program to them, proved to emit exactly the code
  of a specification of the compilation, jumps included; the register
  allocator.
- `src/primitive.rs`, `src/cache.rs`: primitive types and their names, and the
  caches of types and of compiled functions.
- `app/`: the command-line front end (file reading, printing, floating-point
  literal values and the values of the virtual machine).
