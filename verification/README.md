# av_mesh_node

The rules of one node of an audio/video mesh, as a Verus library: what a node makes of the
datagrams, payloads, commands, telemetry and requests that reach it. The functions of the
library state in their contracts what they return or change, and Verus proves it; of the two
that read the time of day nothing can be stated, and `clock::unix_units` says what becomes of a
reading. Sockets, files and servers are left to the program in `app/`, which performs what the
library decides.

## Layout

- `src/text.rs`, `bytes.rs`, `addr.rs`, `table.rs`, `order.rs`, `clock.rs`: texts, bytes,
  addresses, small tables, stable ordering and the time of day.
- `src/media.rs`, `live_state.rs`, `commit.rs`, `window.rs`, `playlist.rs`, `access_unit.rs`:
  what slots hold, how payloads are committed stream by stream, the window of retained parts,
  low-latency playlists, and access units.
- `src/audio.rs`, `ingest.rs`: audio sessions, and where each datagram of a socket goes.
- `src/warm.rs`, `forwarder.rs`, `failover.rs`, `relay_snapshot.rs`, `histogram.rs`: relaying to
  children, the warm replay of a secondary, leased failover, and the counters of all that.
- `src/mesh.rs`, `streams.rs`, `edge.rs`, `telemetry.rs`, `api.rs`, `alerts.rs`, `metrics.rs`:
  what nodes tell of themselves, the view of a whole mesh, its alerts and its metrics.
- `src/control.rs`, `replicas.rs`, `provision.rs`, `protocol.rs`: commands, replicas, new nodes,
  and what nodes and operators say to each other.
- `src/paths.rs`, `router.rs`: the paths that an edge serves, and its answers.
- `src/args.rs`, `endpoints.rs`: the configuration of a node.
- `tests/`: the library on concrete values.
- `app/`: the program around the library. It also needs the crates `av_mesh` (the receivers of
  relayed objects and of coded payloads, and the replica planner) and `web_service` (the
  server).

Laws that relate several functions stand as public proof functions beside the functions they
are about, such as `commit::commits_go_on_in_order`, `failover::promotion_needs_a_warm_secondary`,
`paths::listed_media_are_served` or `metrics::label_reads_back`.

What is believed without proof are the wrappers marked `#[verifier::external_body]`; each names
the outside function that it calls and says what is claimed of it.
