use memo_sync::account::ErrorCode;
use memo_sync::state::{Memo, MemoCounter};
use sha2::{Digest, Sha256};

fn discriminator(name: &str) -> Vec<u8> {
    Sha256::digest(format!("account:{name}").as_bytes())[..8].to_vec()
}

fn memo_bytes(text: &[u8], timestamp: u64) -> Vec<u8> {
    let mut b = discriminator("Memo");
    b.extend_from_slice(&(text.len() as u32).to_le_bytes());
    b.extend_from_slice(text);
    b.extend_from_slice(&timestamp.to_le_bytes());
    b
}

#[test]
fn memo_serializes_to_discriminator_and_borsh_fields() {
    let memo = Memo { memo: "hello there".to_string(), timestamp: 1_700_000_000_123 };
    let bytes = memo.try_serialize().unwrap();
    assert_eq!(bytes, memo_bytes(b"hello there", 1_700_000_000_123));
    assert_eq!(bytes.len(), 8 + 4 + 11 + 8);
}

#[test]
fn memo_round_trip() {
    let memo = Memo { memo: "héllo ✓".to_string(), timestamp: 5 };
    let bytes = memo.try_serialize().unwrap();
    assert_eq!(Memo::try_deserialize(&bytes), Ok(memo));
}

#[test]
fn memo_reads_known_bytes() {
    let bytes = memo_bytes(b"gm", 11);
    assert_eq!(Memo::try_deserialize(&bytes), Ok(Memo { memo: "gm".to_string(), timestamp: 11 }));
}

#[test]
fn memo_ignores_trailing_bytes() {
    let mut bytes = memo_bytes(b"gm", 11);
    bytes.extend_from_slice(&[0, 0, 0, 9]);
    assert_eq!(Memo::try_deserialize(&bytes), Ok(Memo { memo: "gm".to_string(), timestamp: 11 }));
}

#[test]
fn memo_short_buffer_has_no_discriminator() {
    assert_eq!(Memo::try_deserialize(&[161, 231, 183]), Err(ErrorCode::AccountDiscriminatorNotFound));
    assert_eq!(Memo::try_deserialize(&[]), Err(ErrorCode::AccountDiscriminatorNotFound));
}

#[test]
fn memo_wrong_discriminator() {
    let mut bytes = memo_bytes(b"gm", 11);
    bytes[3] ^= 1;
    assert_eq!(Memo::try_deserialize(&bytes), Err(ErrorCode::AccountDiscriminatorMismatch));
    let counter = MemoCounter { count: 1 }.try_serialize();
    assert_eq!(Memo::try_deserialize(&counter), Err(ErrorCode::AccountDiscriminatorMismatch));
}

#[test]
fn memo_truncated_fields_do_not_deserialize() {
    let bytes = memo_bytes(b"gm", 11);
    for cut in 8..bytes.len() {
        assert_eq!(
            Memo::try_deserialize(&bytes[..cut]),
            Err(ErrorCode::AccountDidNotDeserialize),
            "cut at {cut}"
        );
    }
}

#[test]
fn memo_invalid_utf8_does_not_deserialize() {
    let bytes = memo_bytes(&[0xff, 0xfe], 1);
    assert_eq!(Memo::try_deserialize(&bytes), Err(ErrorCode::AccountDidNotDeserialize));
}

#[test]
fn counter_round_trip_and_layout() {
    let bytes = MemoCounter { count: 0x0102 }.try_serialize();
    let mut expected = discriminator("MemoCounter");
    expected.extend_from_slice(&0x0102u64.to_le_bytes());
    assert_eq!(bytes, expected);
    assert_eq!(MemoCounter::try_deserialize(&bytes), Ok(MemoCounter { count: 0x0102 }));
    assert_eq!(
        MemoCounter::try_deserialize(&bytes[..12]),
        Err(ErrorCode::AccountDidNotDeserialize)
    );
    assert_eq!(MemoCounter::try_deserialize(&bytes[..5]), Err(ErrorCode::AccountDiscriminatorNotFound));
}

#[test]
fn error_numbers_and_messages() {
    assert_eq!(ErrorCode::ConstraintRaw.number(), 2003);
    assert_eq!(ErrorCode::AccountDiscriminatorNotFound.number(), 3001);
    assert_eq!(ErrorCode::AccountDiscriminatorMismatch.number(), 3002);
    assert_eq!(ErrorCode::AccountDidNotDeserialize.number(), 3003);
    assert_eq!(ErrorCode::AccountDidNotSerialize.number(), 3004);
    assert_eq!(ErrorCode::ConstraintRaw.message(), "A raw constraint was violated");
    assert_eq!(
        ErrorCode::AccountDiscriminatorMismatch.message(),
        "Account discriminator did not match what was expected"
    );
}
