//! The client's context: the last slot it has caught up with, and the
//! configuration it needs before it can start.
use vstd::prelude::*;

verus! {

/// The state the client tasks share: the slot up to which memos have been
/// fetched. It starts at zero.
pub struct Ctx {
    slot: u64,
}

impl Ctx {
    pub closed spec fn spec_slot(&self) -> u64 {
        self.slot
    }

    pub fn new() -> (c: Ctx)
        ensures
            c.spec_slot() == 0,
    {
        Ctx { slot: 0 }
    }

    pub fn slot(&self) -> (s: u64)
        ensures
            s == self.spec_slot(),
    {
        self.slot
    }

    /// Records `slot`; the result says whether it must also be written to
    /// the cache, which is the case exactly when `store` is set.
    pub fn set_slot(&mut self, slot: u64, store: bool) -> (persist: bool)
        ensures
            final(self).spec_slot() == slot,
            persist == store,
    {
        self.slot = slot;
        store
    }
}

/// Why the client cannot start.
#[derive(Clone, Copy, Debug, PartialEq, Eq, Structural)]
pub enum ConfigError {
    MissingRedisUrl,
    MissingHeliusKey,
    MissingPayerKeypair,
}

pub open spec fn config_error_message(e: ConfigError) -> Seq<char> {
    match e {
        ConfigError::MissingRedisUrl => "Missing REDIS_URL env var."@,
        ConfigError::MissingHeliusKey => "Missing HELIUS_KEY env var."@,
        ConfigError::MissingPayerKeypair => "Missing payer keypair at ~/.config/solana/id.json"@,
    }
}

impl ConfigError {
    /// The line printed before the client exits.
    pub fn message(&self) -> (m: String)
        ensures
            m@ == config_error_message(*self),
    {
        match self {
            ConfigError::MissingRedisUrl => "Missing REDIS_URL env var.".to_owned(),
            ConfigError::MissingHeliusKey => "Missing HELIUS_KEY env var.".to_owned(),
            ConfigError::MissingPayerKeypair => "Missing payer keypair at ~/.config/solana/id.json".to_owned(),
        }
    }
}

/// Where the payer's keypair is read from, before `~` is expanded.
pub fn payer_keypair_path() -> (p: String)
    ensures
        p@ == "~/.config/solana/id.json"@,
{
    "~/.config/solana/id.json".to_owned()
}

/// The settings the client reads from its environment, in the order it
/// checks them: the cache's URL first, then the RPC provider's key.
pub fn check_env(redis_url: Option<String>, helius_key: Option<String>) -> (r: Result<
    (String, String),
    ConfigError,
>)
    ensures
        redis_url is None ==> r == Err::<(String, String), ConfigError>(ConfigError::MissingRedisUrl),
        redis_url is Some && helius_key is None ==> r == Err::<(String, String), ConfigError>(
            ConfigError::MissingHeliusKey,
        ),
        redis_url is Some && helius_key is Some ==> r == Ok::<(String, String), ConfigError>(
            (redis_url->0, helius_key->0),
        ),
{
    match redis_url {
        None => Err(ConfigError::MissingRedisUrl),
        Some(u) => match helius_key {
            None => Err(ConfigError::MissingHeliusKey),
            Some(k) => Ok((u, k)),
        },
    }
}

/// The payer's keypair must have been found.
pub fn check_payer(found: bool) -> (r: Result<(), ConfigError>)
    ensures
        found ==> r is Ok,
        !found ==> r == Err::<(), ConfigError>(ConfigError::MissingPayerKeypair),
{
    if found {
        Ok(())
    } else {
        Err(ConfigError::MissingPayerKeypair)
    }
}

} // verus!
