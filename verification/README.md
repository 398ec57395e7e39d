# agora

The Agora server: a headless grid simulation, the client protocol's types, and the
server's decisions about connections, sessions, and runs, written in Verus with their
contracts proved.

## Layout

- `src/sim/`: the simulation of one run. A bounded grid, agents spawned during setup,
  action collection, and steps whose execution order is drawn from the run's shuffle
  stream. The world never puts two agents on one cell.
- `src/protocol/`: identifiers with their allowed ranges, protocol versions and their
  text form, error codes, and the client and server messages.
- `src/server/`: the bundled catalog, request-number admission and result retention,
  each run's sessions and lifetimes, and each connection's handshake and requests. A
  connection step either answers a frame directly or names the run call to perform.
- `src/text.rs`: decimal and hexadecimal numerals and string helpers.
- `app/`: the executable. It reads and writes JSON over WebSockets, keeps the table of
  live runs, runs each run as a task with its timers, and performs the run calls that
  the library's connection steps ask for.
- `tests/`: the library's tests, run with the real random streams.

## Design notes

- The run's random streams are kept as plain values: the seed, the stream number, and the
  position in the stream. Each draw rebuilds the ChaCha8 generator at that position, so
  the values drawn are those of a generator kept across draws, and every operation's
  outcome is a function of the world, the streams, and its arguments.
- Agents are numbered 1, 2, … in spawn order and are never removed, so the simulation keeps
  positions and pending actions in vectors indexed by agent number instead of maps keyed by
  agent ID, and observations are a vector of (agent, observation) pairs in ID order. Runs
  keep their sessions in a vector with distinct IDs instead of a map keyed by session ID.
  Vectors have a full specification, so these invariants are proved; maps keyed by structs
  would carry no proved facts.

## Running

`agora-server --listen 127.0.0.1:7878 --session-expiry-secs 120 --run-release-secs 300`
