# kamichain

A small proof-of-work blockchain — blocks, transactions, Merkle roots,
Ed25519 wallets, a fee-ordered mempool, a miner, a node's request and peer
handlers, and a demo HTTP bridge — written in Verus, with the behaviour of
every library function stated in `requires`/`ensures` and proved.

Layout:

- `src/` — the verified library. `codec` (SHA-256, hex and decimal
  encodings), `transaction`, `merkle`, `block`, `pow`, `chain`, `wallet`,
  `mempool`, `state` (balances), `miner`, `config` (node flags), `rpc`
  (request dispatch), `p2p` (peer messages), `storage`, `bridge` (the demo
  bridge's rules) and `cli` (the requests each client command makes).
  Outside crates (`sha2`, `hex`, `ed25519-dalek`, `rand`, `rayon`) are
  reached only through small trusted wrappers whose contracts are spelled
  out next to them. The transaction pool, the balance ledger and the
  bridge's per-client request times are kept in vectors under a
  distinct-key (or last-entry-wins) rule rather than in hash maps keyed by
  strings, whose contracts are too weak to prove anything about lookups.
- `tests/` — scenario tests run against the compiled library.
- `app/` — the programs around the library: the node process (TCP RPC and
  P2P servers, chain file, mining loop), the `kami` command-line client and
  the axum bridge. They parse and print, and hand the decisions to `src/`;
  what stays there is reading the client address from an HTTP header into
  `std::net::IpAddr`, and the sockets, files, processes and clocks.
