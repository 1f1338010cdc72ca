# seedmedic

The verified core of SeedMedic, which detects hit-and-run warnings on private
trackers and repairs them from media that is already there: it finds the files
in the library, rebuilds the layout that the torrent expects in a staging area,
hands the torrent to the download client paused, forces a hash check, and starts
seeding only when the data has been verified and the policy allows it.

What the library decides is stated in contracts and proved with Verus. The
priorities are, in this order: never damage the library, never claim something
that did not happen, then repair the hit-and-run.

## Layout

- `src/repair`: the lifecycle of a repair, the rules that decide when automation
  may act, the steps, the worker, startup reconciliation, and how a job is kept.
- `src/torrent`: safe relative paths, info-hashes, and reading a `.torrent`.
- `src/library`: candidates for a torrent's files, and how they are matched.
- `src/staging`: where files are staged, how, and what must never happen there.
- `src/seeding`, `src/tracker.rs`: the download client and the tracker.
- `src/config`: settings, what can be wrong with them, secrets, and the config
  file as a document.
- `src/bootstrap.rs`, `src/runtime.rs`, `src/check.rs`, `src/connectivity.rs`,
  `src/diagnostics.rs`, `src/events.rs`, `src/metrics.rs`, `src/notify.rs`: what
  is around the repairs.
- `src/text.rs`, `src/paths.rs`, `src/clock.rs`, `src/json.rs`, `src/table.rs`,
  `src/sorting.rs`, `src/urls.rs`: what everything else is built from.
- `tests`: the library, run.
- `app`: the program. It reads and writes files, talks to the database and the
  network, and hands the library plain values.

## How to read it

Work that needs the outside world is split from what is decided about it. A
function that only decides takes what was found out as an argument. Where
looking and deciding alternate, there is a small machine: it says which action
comes next, and whoever runs it hands back the event that came of it.

An error has a `message`; what it says is its `sentence`. Public proof functions
state what holds across several functions. Functions marked
`#[verifier::external_body]` call another crate; their contracts are believed,
and each one's comment says what it claims.
