# search_bench

Query serving and index building for full-text search benchmark engines
(infino and tantivy), with the decisions made in a verified library.

`src/` (verified with Verus):

- `text` — whitespace, trimming, word splitting, `u32` parsing over a
  string's characters.
- `request` — splitting `COMMAND<TAB>query` lines; queries with no positive term.
- `command` — what each engine does for a command, and the line it prints.
- `phrase` — wildcard phrase queries (`"ab* c"~3`): words, slop, regex terms.
- `top_scores` — the `n` best scores and their least one, the pruning threshold.
- `checkpoints` — pruned and unpruned top-`n` walks over scored documents.
- `counting` — a hit-by-hit count collector.
- `ingest` — batching documents for the index writer, with progress reports.
- `threads` — the writer's thread count.

`app/` holds the programs: reading stdin, running the engines, printing.
The infino programs need the `infino` crate, which is not among the
dependencies (together with tantivy its dependency tree is too large to
bring in), so they do not build as they stand; the tantivy program does.
