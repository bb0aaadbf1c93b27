# mini-roxygen-core

The core of a static roxygen documentation generator for R packages, verified
with Verus. It reads the facts of a package (DESCRIPTION, top-level R
expressions, roxygen tags, S3 registrations), merges documented blocks into Rd
topics, builds NAMESPACE text and converts Markdown prose to Rd nodes. No R code
is evaluated.

- `src/package.rs` reads package metadata from a DESCRIPTION text.
- `src/authors.rs` reads the people of an `Authors@R` field without running it;
  `src/marc_roles.rs` holds the terms of their roles.
- `src/r_parse.rs` relates documented expressions to the objects they define.
- `src/model/` merges documented blocks into topics; `model/merge/laws.rs` states
  what holds of every merge.
- `src/namespace/` validates namespace requests, classifies S3 methods and
  writes NAMESPACE.
- `src/markdown_conversion/` converts Markdown to Rd nodes and keeps the source
  position of every node.
- `src/pipeline.rs` runs the stages over a whole package; `src/runs.rs` states what
  holds of several runs.
- `app/` reads packages from disk and serializes Rd nodes.
- `tests/` runs the library on concrete packages and texts.

Calls into other crates stand behind small functions whose contracts are trusted:
`arity-parser` reads DESCRIPTION and R source, `pulldown-cmark` reads Markdown,
and `rd-ast` with `rd-writer` decides what can be written as Rd code.
