# capscan-leaderboard

Tracks a curated list of crates.io crates over time and publishes which
capability signals (unsafe, FFI, process, network and filesystem access, build
scripts, proc-macros) their latest releases carry, and which crates just gained
or lost some. Scanning and comparing reports is the work of
[capscan](https://crates.io/crates/capscan).

## Layout

- `src/` is the library, verified with Verus. It decides which crates need a
  scan, records changes, and writes the page, the feed and the alerts, all on
  plain values.
- `app/` is the scheduled job around it: files, the registry, the scanner,
  `curl`, and the stored form of the library's types.
- `tests/` runs the library with the real outside crates.

| Module | Holds |
|---|---|
| `text`, `lines`, `escape`, `json`, `occurrences` | texts as sequences of characters: order, numbers, lines, escaping, JSON strings, counting |
| `crate_list` | the list of crates to track |
| `report` | scan reports, severities, and the difference between two reports |
| `snapshot` | the last known state of every crate |
| `history`, `record` | the append-only log of version changes, and how an entry is stored |
| `run` | one run over the crates |
| `page`, `feed`, `alert` | what is published |
| `clock` | timestamps |

Public proof functions named `law_..` state what holds across functions.

## What is trusted

Outside calls stand behind small functions whose contracts are not proved:
`report::scanner_severity` and `report::scanner_diff` (capscan),
`clock::now_iso` (chrono), `json::object_to_json` and `json::text_to_json`
(serde_json), and the specification of `String::push` in `text`. Each says in
its comment what it claims of the outside code.
