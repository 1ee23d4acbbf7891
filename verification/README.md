# playlist_core

The rules of a desktop music manager, written in Verus and proved against
their contracts: the play queue and the player's state machine, smart
playlist SQL, M3U reading and writing, device detection and sync planning,
metadata enrichment and duplicate cleanup, and the small text rules around
them.

- `src/` is the verified library. Each public function states what it
  returns in `ensures`; the `law_*` proof functions state properties that
  span several calls (the queue never loses an entry, an exported playlist
  reads back, values never reach smart-playlist SQL, ...).
- `tests/` runs the library on concrete values.
- `app/` is the unverified glue: the SQLite store, the JSON form of smart
  rules, floating-point loudness figures and serializable copies of the
  library's records.

Outside crates the library calls, each through one function whose contract is
taken on trust: `rand` (shuffling the play order) and `serde_json`
(reading and writing tag lists).
