//! Client-side logic of a memo board kept on chain: the account format of
//! the memo program, the rules of its `store_memo` instruction, the stream
//! of slot notifications with injected slots, the slot bookkeeping of the
//! client, and the plans by which memos are cached and reloaded.
pub mod account;
pub mod chain;
pub mod ctx;
pub mod persist;
pub mod program;
pub mod state;
pub mod wrapped;
