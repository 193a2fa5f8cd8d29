use memo_sync::chain::{
    collect_memos, counter_address, memo_address, memos_program_id, next_count,
    publish_retry_delay, stream_step, StreamAction, StreamEvent, StreamState, STREAM_RETRY_SECS,
};
use memo_sync::state::{Memo, MemoCounter};
use solana_pubkey::Pubkey;
use std::str::FromStr;

fn program() -> Pubkey {
    Pubkey::from_str("DffF8iBBZwgq991CCkTcEAkhwBsvbihVd3Ch1r661C4A").unwrap()
}

#[test]
fn program_id_matches_declared_id() {
    assert_eq!(memos_program_id(), program().to_bytes());
}

#[test]
fn counter_address_is_the_program_derived_address() {
    let payer = [7u8; 32];
    let (expected, _) = Pubkey::find_program_address(&[&payer, b"counter"], &program());
    let got = counter_address(&payer).unwrap();
    assert_eq!(got, expected.to_bytes());
    assert_ne!(got, payer);
}

#[test]
fn memo_address_depends_on_count() {
    let payer = [3u8; 32];
    let (expected, _) =
        Pubkey::find_program_address(&[&payer, b"memo", &5u64.to_le_bytes()], &program());
    assert_eq!(memo_address(&payer, 5).unwrap(), expected.to_bytes());
    assert_ne!(memo_address(&payer, 5), memo_address(&payer, 6));
}

#[test]
fn next_count_reads_counter_or_defaults_to_zero() {
    assert_eq!(next_count(None), 0);
    assert_eq!(next_count(Some(MemoCounter { count: 12 }.try_serialize())), 12);
    assert_eq!(next_count(Some(vec![1, 2, 3])), 0);
    let memo_account = Memo { memo: "x".to_string(), timestamp: 0 }.try_serialize().unwrap();
    assert_eq!(next_count(Some(memo_account)), 0);
}

#[test]
fn collect_memos_skips_accounts_that_are_not_memos() {
    let a = Memo { memo: "first".to_string(), timestamp: 0 }.try_serialize().unwrap();
    let c = Memo { memo: "third".to_string(), timestamp: 0 }.try_serialize().unwrap();
    let accounts = vec![
        ("A".to_string(), a),
        ("B".to_string(), vec![0u8; 4]),
        ("C".to_string(), c),
        ("D".to_string(), MemoCounter { count: 1 }.try_serialize()),
    ];
    assert_eq!(
        collect_memos(&accounts),
        vec![
            ("A".to_string(), Memo { memo: "first".to_string(), timestamp: 0 }),
            ("C".to_string(), Memo { memo: "third".to_string(), timestamp: 0 }),
        ]
    );
}

#[test]
fn retry_delays() {
    assert_eq!(STREAM_RETRY_SECS, 1);
    assert_eq!(publish_retry_delay(1), 2);
    assert_eq!(publish_retry_delay(5), 6);
}

#[test]
fn notification_loop_fetches_then_records() {
    let (s, a) = stream_step(StreamState::Waiting, StreamEvent::Notified(77));
    assert_eq!((s, a), (StreamState::Fetching(77), Some(StreamAction::FetchMemos)));
    let (s, a) = stream_step(s, StreamEvent::FetchDone);
    assert_eq!((s, a), (StreamState::Waiting, Some(StreamAction::RecordSlot(77))));
    assert_eq!(
        stream_step(StreamState::Fetching(5), StreamEvent::FetchFailed),
        (StreamState::Finished, Some(StreamAction::Fail))
    );
    assert_eq!(
        stream_step(StreamState::Waiting, StreamEvent::StreamEnded),
        (StreamState::Finished, Some(StreamAction::Stop))
    );
    assert_eq!(stream_step(StreamState::Waiting, StreamEvent::FetchDone), (StreamState::Waiting, None));
}

#[test]
fn publish_rounds() {
    assert_eq!(memo_sync::chain::publish_step(0, true), None);
    assert_eq!(memo_sync::chain::publish_step(0, false), Some((1, 2)));
    assert_eq!(memo_sync::chain::publish_step(4, false), Some((5, 6)));
}
