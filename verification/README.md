# ethproofs_client

A client that proves Ethereum blocks with ZisK and reports the proofs to
EthProofs, together with the input generator server that feeds it.

- `src/` is the verified library:
  - `protocol`: the WebSocket protocol between server and client: broadcast
    commands, text commands, the binary frame that carries an input file, and
    the block number named by an input file path; with laws that what one side
    writes the other reads back.
  - `text`, `path`: characters, decimal numbers, whitespace-separated words,
    path joining and file stems.
  - `prove`: the `cargo-zisk` command lines, file layout, prover status lines,
    judgement of a run, and the Base64 form of a proof.
  - `api`: EthProofs endpoints, request bodies and the retry policy.
  - `reconnect`: the client's reconnection backoff.
  - `blocks`: which block the server waits for, chain IDs, and the parent state
    root among witness headers.
  - `server`: the server's block listener and client handler as step
    functions, with laws that only multiples of the modulus are sent and that
    every frame answers its command.
- `app/` holds the programs: the proving client, and the input generator
  server when run under the name `input-gen-server`.
- `tests/` runs the library on concrete values.
