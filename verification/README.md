# egbo

A parser for the egbo language, a model of parsed programs, and a JSON dump of that model,
written in Verus and verified.

- `src/peg_parser.rs`: the cursor over the source text (character index and byte position),
  character classes, and the contract every grammar rule keeps (`rule_ok`, `spans`).
- `src/parser.rs`: the grammar. Lexical rules (identifiers, keywords, numbers, strings,
  space and comments) are specified exactly, values included. For the composite rules the
  contracts state where each rule ends, whether it succeeds, and what it builds: every
  expression rule states the tree it returns and the range of it and of each of its parts
  (`expr_tree`, `expr_span` and their companions: nesting by precedence, operators, call
  arguments, indexes, names and literals at the leaves). The statement rules state their
  statement kinds, their tests, initializers and switch items, the statements of every
  block and of the file, each with its value and range, and the ranges of their bodies and
  branches. A string literal that is not closed leaves the cursor after the text it read,
  up to the member expression, which goes back to where it started.
- `src/ast.rs`: the syntax tree.
- `src/model.rs`, `src/model_builder.rs`, `src/lowering.rs`: the model of a program (item
  tables, source files, the span table) and its construction from a syntax tree. The builder
  is proved to hold the tree's values exactly (`lowering.rs`), to only grow the model, to
  record the span of the file, of each of its items and of every statement they hold
  (`file_item_spans`, `stmt_spans`), and to return the last item of each collection it adds
  to. Spans of expression items are not stated.
- `src/model_json.rs`: a JSON value with an exact rendering (valid JSON strings, control
  characters escaped), and the dump of model items, stated node by node down to the fuel.
- `src/text.rs`: the few calls into std that build strings and characters.
- `app/main.rs`: the command line (`egbo parse FILE [--span]`).
