# phi_launcher

The verified logic of a launcher for Phigros simulators.

- `src/` — the library, verified with Verus: simulator repositories and
  their releases (`github`), download records and install locations
  (`table`, `download`, `path`), byte counts for display (`size`), the
  account data and the `data.json` document synced into installed versions
  (`auth`, `json`), asset and font locations (`assets`), the decisions
  behind the screens (`ui`), and text helpers (`text`).
- `app/` — the desktop program around it: the egui interface, HTTP
  requests, file and archive I/O, sound, and the serialized forms of the
  library's records.
- `tests/` — tests of the library.
