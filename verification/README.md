# fukanzen_shogi

A simultaneous-move variant of shogi — both camps fix their action for the turn
at the same time, and the two actions are then resolved together — with its
text formats and the commit-reveal protocol that keeps a camp's action secret
until both are fixed. The library is written in Verus: each public function
states what it returns in its `requires` / `ensures`, and Verus proves it.

## Layout

- `src/` — the verified library.
  - `types`, `board`: squares, pieces, hands, positions.
  - `movegen`: attacks and the legal actions of a camp.
  - `resolve`: the resolution of one turn; `rules` and `census` state its laws
    (captures, escapes, clashes, kings, the pieces kept across a turn).
  - `kifu`, `terminate`: game records, replay, and the end of a game.
  - `serialize`, `archive`, `roundtrip`, `notation`: SFEN, USI, the record and
    archive text formats with their round-trip laws, Japanese notation.
  - `protocol`: hashing, commitments, version negotiation, the turn session and
    the client session of the commit-reveal protocol.
  - `console`, `desk`, `portal`, `online`, `link`, `browser`: the decisions of
    the console tool, the board desk, the start menu, a game against another
    machine, the network framing, and the browser front end, each as steps from
    a state and an event to the next state and what to send or show.
- `tests/` — tests run against the compiled library.
- `app/` — the console program around the library: reading input, files and
  the network, and printing. `online host <port>` / `online join <address>`
  play a game against another machine over TCP.

Outside crates: `sha2` (SHA-256, behind one trusted wrapper), `getrandom`
(nonces), `serde` / `serde_json` (JSON forms, in `app/` only).
