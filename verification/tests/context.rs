use memo_sync::ctx::{check_env, check_payer, payer_keypair_path, ConfigError, Ctx};

#[test]
fn slot_starts_at_zero_and_follows_set_slot() {
    let mut ctx = Ctx::new();
    assert_eq!(ctx.slot(), 0);
    assert!(ctx.set_slot(100, true));
    assert_eq!(ctx.slot(), 100);
    assert!(!ctx.set_slot(90, false));
    assert_eq!(ctx.slot(), 90);
}

#[test]
fn env_checked_in_order() {
    assert_eq!(check_env(None, None), Err(ConfigError::MissingRedisUrl));
    assert_eq!(check_env(None, Some("k".to_string())), Err(ConfigError::MissingRedisUrl));
    assert_eq!(
        check_env(Some("redis://x".to_string()), None),
        Err(ConfigError::MissingHeliusKey)
    );
    assert_eq!(
        check_env(Some("redis://x".to_string()), Some("k".to_string())),
        Ok(("redis://x".to_string(), "k".to_string()))
    );
}

#[test]
fn config_messages() {
    assert_eq!(ConfigError::MissingRedisUrl.message(), "Missing REDIS_URL env var.");
    assert_eq!(ConfigError::MissingHeliusKey.message(), "Missing HELIUS_KEY env var.");
    assert_eq!(
        ConfigError::MissingPayerKeypair.message(),
        "Missing payer keypair at ~/.config/solana/id.json"
    );
    assert_eq!(payer_keypair_path(), "~/.config/solana/id.json");
    assert_eq!(check_payer(true), Ok(()));
    assert_eq!(check_payer(false), Err(ConfigError::MissingPayerKeypair));
}
