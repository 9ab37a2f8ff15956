# strapped_core

The verified core of Strapped, a craps-like dice game played on the Fuel chain: an
indexer that folds the game contract's events into snapshots and answers queries about
them, the game's own arithmetic (payouts, rewards, modifier triggers, strap ids), the
deployment records, and the decisions of the terminal client. Verus proves every
function's contract, except those of the few functions marked
`#[verifier::external_body]` that call outside crates (`hex` for hexadecimal, `sha2` for
SHA-256, and `fuel-tx` for asset ids and contract ids): their contracts restate what those
crates do and are trusted, not proved.

Layout of `src/`:

- `types`, `events`, `abi_events`, `snapshot`: the game's values, the contract's events
  and the snapshots the indexer keeps.
- `contract_math`: payouts, strap and modifier draws, VRF numbers, strap costs.
- `table`, `storage`: keyed tables, paging, and the in-memory snapshot and metadata stores.
- `indexer`, `game_indexer`, `query`: the indexer's event handlers and its query answers.
- `indexer_start`: how the indexer service starts: contract ids, the record it follows and
  its start heights.
- `crypto`, `deployments`, `wallets`: asset ids, bytecode hashes and deployment records.
- `deploy_plan`: what the deployment tool decides before it deploys, queries a balance or
  withdraws.
- `client_config`, `client_state`, `client_history`, `client_loop`, `strap_inventory`:
  the terminal client's command line, bookkeeping, finished games and main-loop decisions.
- `ui_state`, `labels`, `modal_text`: how keys move the client's dialogs, and the text of
  its panels and dialogs.

`app/` is a small command-line front end for the deployment records, the client's command
line and the indexer's start-up; it does the file I/O and JSON that the library leaves to its caller.
