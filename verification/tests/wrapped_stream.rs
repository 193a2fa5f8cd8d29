use memo_sync::wrapped::{GiveSlot, Item, TransactionNotification, WrappedStream};

#[test]
fn item_slot() {
    let injected: Item<TransactionNotification> = Item::Injected(5);
    assert_eq!(injected.slot(), 5);
    let notified = Item::FromStream(TransactionNotification { slot: 7 });
    assert_eq!(notified.slot(), 7);
    assert_eq!(TransactionNotification { slot: 9 }.slot(), 9);
}

#[test]
fn injected_slots_come_out_first_in_order() {
    let mut stream = WrappedStream::new(vec![10u64, 11]);
    stream.inject(1);
    stream.inject(2);
    assert_eq!(stream.poll_injected::<u64>(), Some(Item::Injected(1)));
    stream.inject(3);
    assert_eq!(stream.poll_injected::<u64>(), Some(Item::Injected(2)));
    assert_eq!(stream.poll_injected::<u64>(), Some(Item::Injected(3)));
    assert_eq!(stream.poll_injected::<u64>(), None);
    assert_eq!(stream.inner_mut(), &mut vec![10u64, 11]);
}

#[test]
fn new_stream_has_nothing_injected() {
    let mut stream = WrappedStream::new(());
    assert_eq!(stream.poll_injected::<u64>(), None);
}

#[test]
fn inner_stream_is_reachable_and_kept() {
    let mut stream = WrappedStream::new(vec![1u64]);
    stream.inner_mut().push(2);
    stream.inject(4);
    assert_eq!(stream.inner_mut(), &mut vec![1u64, 2]);
    assert_eq!(stream.poll_injected::<u64>(), Some(Item::Injected(4)));
}
