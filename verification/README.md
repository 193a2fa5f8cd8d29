# memo_sync

Verified logic of a client for an on-chain memo board, written in Verus.

- `src/account.rs` — program error codes and the Borsh field encoding (calls `borsh`).
- `src/state.rs` — the `Memo` and `MemoCounter` accounts and their byte layout.
- `src/program.rs` — the `store_memo` instruction: size constraint, account space, handler, instruction data.
- `src/wrapped.rs` — a stream wrapper that hands out injected slots before the wrapped stream's items.
- `src/ctx.rs` — the client's slot state and start-up configuration checks.
- `src/persist.rs` — cache records, keys, the commands that store a batch of memos, and how a load is paired.
- `src/chain.rs` — program-derived addresses (calls `solana-pubkey`), the next memo count, which fetched accounts are memos, retry delays.
- `app/` — the program around the library: Redis, the RPC and websocket client, the terminal interface.
