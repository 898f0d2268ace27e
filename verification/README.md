# synth_desktop

The decisions of the Synth desktop host as a Verus-verified library: how an
evaluation request becomes one canonical, digested execution specification and
is approved and dispatched; the run and rollout state machines; the model
catalog; migration of a legacy database; container sources and hydration;
optimizer recipes on local and hosted services; annotation campaigns and their
paid lane; artifact indexing and byte ranges; and the smaller rules of the
desktop's commands.

Layout:

- `src/` — the verified library. Every public function states its result in
  `ensures` over spec functions and views; the properties that span several
  functions are public proof functions named `law_*`.
- `tests/` — tests of the library, run against the compiled crate.
- `app/` — the host around it: SQLite, files, processes, environment, wire
  types with serde derives, and floating-point conversions. It reads, writes
  and converts; the library decides.

Outside code the library trusts is confined to a few wrappers, each with a doc
comment saying what is assumed of it: SHA-256 (`sha2`), RFC 3339 and calendar
date parsing (`chrono`), base64 (`base64`), the compact text `serde_json` prints
for a legacy JSON column, `String::push` and `str`'s `Debug` rendering.
