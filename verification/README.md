# Project memory

A rebuildable memory of a project: what its specifications, approved outcomes, archives and runtime
records say, kept as entities and relationships under immutable revisions, linked to snapshots of the
repository, and answered within budgets of number, size and time.

- `src/` is the library. A function states what it returns over a mathematical model of its
  arguments, and Verus proves it. What others decide, such as the clock, a file or a backend, it states
  for everything that they may say. Public proof functions state what holds across functions and calls.
- `app/` is the project on disk: the SQLite file, the workspace, the log.
- `tests/` runs the library.

## Modules

| Module | What it holds |
| --- | --- |
| `text`, `order`, `sort`, `value`, `record` | texts, ordered maps, stable sorting, bounded values |
| `json`, `digest` | canonical JSON and SHA-256 digests of it |
| `members` | the members of a JSON object, read with their repetitions |
| `domain`, `diagnostics`, `repository`, `query`, `policy`, `manifest` | the records and their identities |
| `documents`, `extractors` | reading specifications, and the facts of every kind of source |
| `workspace`, `source`, `content` | the current workspace, finding authorized sources, and reading them verified |
| `store`, `ledger` | what a store decides, and a store in memory |
| `links` | links from entities to files and symbols of a snapshot |
| `index` | one indexing run, from sources to a published revision |
| `reindexing` | what a second run finds of the first |
| `budget`, `deadline`, `cursor`, `scope`, `status` | bounds, pages and revisions of a query |
| `search`, `seeds`, `traversal`, `reach`, `context`, `service`, `paging` | queries of one memory |
| `federation` | queries of memory and repository together |
| `runtime`, `kept` | backends that may be absent, and backends in memory |
