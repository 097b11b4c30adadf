# entrycore

A translator between a small Rust-like script language and Entry block
projects (`.ent`), written in Verus: the functions of the library carry
`requires`/`ensures` contracts that Verus proves.

## Layout

- `src/` — the verified library.
  - `json` — JSON documents (numbers kept as text, members in order) and
    the calls into `serde_json` that read and write JSON text.
  - `ir`, `var` — the intermediate program form and the variable table.
  - `syntax`, `parse` — Rust source text read with `syn` into a plain
    syntax tree, and from that tree to the program form.
  - `block` — Entry blocks: the table of fixed-shape blocks (`kinds`),
    dropdown names (`names`), lowering statements to blocks (`lower`),
    writing blocks as JSON (`encode`, `assets`) and the schema-dump check
    (`registry`).
  - `deparse`, `raise`, `script` — reading block JSON back into blocks and
    blocks back into statements; `unmapped` counts the blocks that cannot be
    read.
  - `codegen`, `compile` — building project documents from source files.
  - `decodegen` — printing a program as Rust-like text.
  - `roundtrip` — the law that a written block reads back as itself.
  - `project`, `extract` — the `.ent` archive (a gzip-compressed tar)
    written from a project and read back into one source text per object.
  - `cli`, `asset`, `text`, `error` — argument parsing, asset ids, text
    helpers and errors.
- `tests/` — tests run against the compiled library.
- `app/` — the `entryc` command line: file I/O for `build` and `extract`,
  and readers of sprite directories and schema dumps.

Outside crates are reached only through the small trusted wrappers marked
`#[verifier::external_body]`; each states what the library assumes of it.
