# mde

The logic of the Mackes desktop's daemons, bus and panel applets, written in
Verus: each function states what it computes in its `requires` / `ensures`
contract and Verus proves it.

Layout:

- `src/` — the verified library.
  - `text` — character-sequence helpers (trim, split, lines, decimal
    rendering, ordering) proved against spec functions.
  - `keyed` — vectors kept sorted by a text key, read as maps; upsert,
    remove and the laws relating them.
  - `sway` — the compositor's container tree and the walks over it.
  - `alert_emit` — alert events and their deterministic, time-ordered ULIDs.
  - `applets` — the panel applets: manifests and discovery, rows, chips and
    strips.
  - `bus` — the message bus: command line, hook configuration, correlation,
    do-not-disturb, the message store's checks, surface dispatch, audit log.
  - `clipd` — the clipboard daemon: pins, blob collection, session events.
  - `workers` — the daemon's workers: their command lines, parsers and
    decisions.
- `tests/` — tests of the library on concrete values.
- `app/` — the command-line front end: environment, files, processes and
  sockets around the library, and the serialized forms of its types.
