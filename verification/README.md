# op_succinct_host_utils

Host-side logic for preparing the native host program of an OP Stack proving pipeline,
written in Verus and verified.

- `src/search.rs` — binary search for the L1 block with a target timestamp, as a state
  machine driven by the caller, with its correctness laws.
- `src/batches.rs` — the batches in which a range of L1 headers is requested, and the
  choice of the earliest L1 head.
- `src/blocks.rs` — per-block summaries over a range.
- `src/config.rs` — RPC endpoints and modes, and the fetcher that holds them.
- `src/output.rs` — L2 output encoding and output roots (Keccak-256 through
  `alloy-primitives`, ABI encoding through `alloy-sol-types`), and the message passer
  address.
- `src/host_args.rs` — range checks, data and program directories, and the assembly of the
  host's arguments.
- `src/text.rs` — decimal text of numbers.
- `app/lib.rs` — the JSON-RPC, file-system and environment side, which fetches data and
  calls the library.
