# rskim-search

A lexical code-search index, written in Verus: files are cut into
field-classified byte regions, the regions into weighted byte bigrams, and
the bigrams' postings are stored in a sorted lookup table beside a postings
file. A delta segment and a tombstone set let an index be updated between
rebuilds.

## Layout

- `src/` — the verified library.
  - `types/` — search fields and queries, file identifiers, the file table
    (path normalisation and the path ↔ id map), errors.
  - `fields/` — field classification: Markdown by lines, syntax trees by
    per-language node tables.
  - `lexical/` — n-gram extraction, the index builder, the on-disk format
    (`index_format/`: header, lookup entries, postings, delta, tombstones,
    with their readers) and the gathering of a term's documents for a query.
  - `cmd/` — the decisions of the command line: flag handling, output
    framing, the index directory and the steps of a search.
  - `fx_map.rs` — the trusted wrappers around the Fx hash map and set.
- `tests/` — tests of the library, run against the compiled crate.
- `app/` — the `skim` program: argument parsing, file-system walking and
  I/O, BM25 scoring (floating point) and output, around the library.

## Checking

Every function under `src/` is verified by Verus; the contracts are stated
over spec functions and views, and the laws that span several functions
(reading back what was written, registering the same path twice, delta
appends, tombstone round trips, …) are public proof functions beside the
code they speak of.
