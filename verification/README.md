# redstone

The logic of a proof-of-concept node for the Redstone protocol, a pair of
proof-of-work chains, written in Verus and proved against its contracts.

- `src/block.rs`: blocks and their proof of work (the search for the first
  nonce whose SHA-256 digest begins with four hexadecimal zeros).
- `src/encoding.rs`: the bincode layout of a block's proof-of-work input.
- `src/digest.rs`, `src/text.rs`: SHA-256, hexadecimal and UTF-8 text.
- `src/clock.rs`: the wall clock in milliseconds.
- `src/command.rs`: the 12-byte command field that opens every message.
- `src/message.rs`: the messages between nodes.
- `src/server.rs`: a node's state (known nodes, blocks in transit, mempool)
  and its answer to each message.
- `src/transaction.rs`, `src/cli.rs`: transactions as the node carries them,
  and the command-line handle.
- `app/`: the program around the library: command line, TCP networking,
  the wire encoding of messages, and the interface to chain storage.
