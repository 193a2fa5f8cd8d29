use memo_sync::account::ErrorCode;
use memo_sync::program::{
    decode_store_memo_instruction, handler, memo_account_space, store_memo,
    store_memo_instruction_data, StoreMemo, MAX_MEMO_SIZE,
};
use sha2::{Digest, Sha256};
use memo_sync::state::Memo;

#[test]
fn stored_memo_reads_back_with_its_text() {
    let text = "hello there".to_string();
    let data = store_memo(text.clone(), 1_700_000_000_123).unwrap();
    assert_eq!(data.len(), memo_account_space(text.len()));
    let memo = Memo::try_deserialize(&data).unwrap();
    assert_eq!(memo.memo, text);
    assert_eq!(memo.timestamp, 1_700_000_000_123);
    assert_ne!(memo.timestamp, 0);
}

#[test]
fn timestamp_is_milliseconds_cut_to_64_bits() {
    let now: u128 = (1u128 << 64) + 42;
    let data = store_memo("t".to_string(), now).unwrap();
    assert_eq!(Memo::try_deserialize(&data).unwrap().timestamp, 42);
}

#[test]
fn oversized_memo_violates_raw_constraint() {
    let text = String::from_utf8(vec![b'!'; MAX_MEMO_SIZE + 1]).unwrap();
    let result = store_memo(text, 1);
    let Err(e) = result else {
        panic!("Expected an error.");
    };
    assert_eq!(e, ErrorCode::ConstraintRaw);
    assert!(e.message().contains("A raw constraint was violated"));
}

#[test]
fn memo_of_exactly_max_size_is_accepted() {
    let text = String::from_utf8(vec![b'a'; MAX_MEMO_SIZE]).unwrap();
    let data = store_memo(text.clone(), 1).unwrap();
    assert_eq!(data.len(), 8 + 4 + MAX_MEMO_SIZE + 8);
    assert_eq!(Memo::try_deserialize(&data).unwrap().memo, text);
}

#[test]
fn size_limit_counts_bytes_not_chars() {
    // 400 two-byte characters: 800 bytes, accepted; one more is 802 bytes.
    assert!(store_memo("é".repeat(400), 1).is_ok());
    assert_eq!(store_memo("é".repeat(401), 1), Err(ErrorCode::ConstraintRaw));
}

#[test]
fn account_space_formula() {
    assert_eq!(memo_account_space(0), 20);
    assert_eq!(memo_account_space(11), 31);
}

#[test]
fn accounts_start_zeroed_and_handler_writes_text() {
    let text = "gm".to_string();
    let mut ctx = StoreMemo::try_accounts(&text).unwrap();
    assert_eq!(ctx.memo, Memo { memo: String::new(), timestamp: 0 });
    assert_eq!(ctx.space, 22);
    assert_eq!(handler(&mut ctx, text, 1234), Ok(()));
    assert_eq!(ctx.memo, Memo { memo: "gm".to_string(), timestamp: 1234 });
}

fn global_discriminator(name: &str) -> Vec<u8> {
    Sha256::digest(format!("global:{name}").as_bytes())[..8].to_vec()
}

#[test]
fn instruction_data_layout() {
    let data = store_memo_instruction_data(&"gm".to_string()).unwrap();
    let mut expected = global_discriminator("store_memo");
    expected.extend_from_slice(&[2, 0, 0, 0, b'g', b'm']);
    assert_eq!(data, expected);
}

#[test]
fn instruction_data_round_trip() {
    let text = "hello there ✓".to_string();
    let data = store_memo_instruction_data(&text).unwrap();
    assert_eq!(decode_store_memo_instruction(&data), Some(Ok(text)));
}

#[test]
fn instruction_data_that_is_not_store_memo_or_is_unreadable() {
    assert_eq!(decode_store_memo_instruction(&[94, 69, 188]), None);
    let mut other = global_discriminator("other");
    other.extend_from_slice(&[0, 0, 0, 0]);
    assert_eq!(decode_store_memo_instruction(&other), None);
    let mut bad = global_discriminator("store_memo");
    bad.extend_from_slice(&[5, 0, 0, 0, b'a']);
    assert_eq!(
        decode_store_memo_instruction(&bad),
        Some(Err(ErrorCode::InstructionDidNotDeserialize))
    );
    assert_eq!(ErrorCode::InstructionDidNotDeserialize.number(), 102);
}
