# codegraph

A library that reads the facts of a code graph from source files: what a file
defines, what it refers to, which scopes it opens and which names it binds. It
reads C, C++, C#, Dart, Go, HCL, Java, Kotlin and Lua. Parsing is done by
tree-sitter; everything that is decided about the parsed nodes is verified with
Verus.

## Layout

- `src/parse.rs`: the calls into tree-sitter, from plain values to plain values.
- `src/syntax.rs`: the nodes of a file in document order, and the ways through
  them.
- `src/text.rs`, `src/items.rs`, `src/symbol.rs`, `src/graph/`, `src/lang.rs`,
  `src/ffi.rs`, `src/error.rs`: texts, sequences, identities, the types of the
  facts, languages, exported functions, errors.
- `src/extract/`: what the facts of a file are, and how they are read. The module
  itself holds what the languages share; each language has a module of its own.
- `src/laws/`: what holds of the facts of every file.
- `tests/`: tests on concrete files.

## Contracts

Each language has a function `facts_of` that says what the facts of a file are,
as a function of its nodes and of the matches of the queries on calls. The
function `file_facts` computes them, and the extractor of the language puts the
two together with the parser: what it reads from a text are the facts of a tree
that the text was parsed into. What a tree holds has names (`tree_nodes`,
`tree_matches`) of which nothing else is assumed. That one text is always parsed
into the same nodes is not assumed either: some grammars ask the locale of the
process what characters beyond ASCII are.

A Kotlin text with an `@` behind its last line feed is not parsed, since the
scanner of that grammar does not return on some of these.
