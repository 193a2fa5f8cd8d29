use memo_sync::ctx::Ctx;
use memo_sync::persist::{
    load_memos, load_slot, memo_index_key, memo_key, plan_memo_load, set_slot, slot_key,
    store_memos, MemoSave, StoreCommand,
};
use memo_sync::state::Memo;
use std::collections::{BTreeSet, HashMap};

fn memo(text: &str, timestamp: u64) -> Memo {
    Memo { memo: text.to_string(), timestamp }
}

#[test]
fn keys() {
    assert_eq!(memo_key(&"Abc123".to_string()), "memo:Abc123");
    assert_eq!(memo_index_key(), "memos:index");
    assert_eq!(slot_key(), "slot");
}

#[test]
fn memo_save_conversions() {
    let m = Memo { memo: "hi".to_string(), timestamp: 99 };
    let save: MemoSave = (&m).into();
    assert_eq!(save, MemoSave { memo: "hi".to_string(), count: 99 });
    let back: Memo = save.clone().into();
    assert_eq!(back, m);
    let owned: MemoSave = m.clone().into();
    assert_eq!(owned, save);
}

#[test]
fn store_commands_set_key_then_index() {
    let entries = vec![
        ("pda1".to_string(), "{\"memo\":\"a\",\"count\":0}".to_string()),
        ("pda2".to_string(), "{\"memo\":\"b\",\"count\":1}".to_string()),
    ];
    let cmds = store_memos(&entries);
    assert_eq!(
        cmds,
        vec![
            StoreCommand::SetString {
                key: "memo:pda1".to_string(),
                value: "{\"memo\":\"a\",\"count\":0}".to_string()
            },
            StoreCommand::AddToSet { key: "memos:index".to_string(), member: "pda1".to_string() },
            StoreCommand::SetString {
                key: "memo:pda2".to_string(),
                value: "{\"memo\":\"b\",\"count\":1}".to_string()
            },
            StoreCommand::AddToSet { key: "memos:index".to_string(), member: "pda2".to_string() },
        ]
    );
    assert!(store_memos(&vec![]).is_empty());
}

#[test]
fn nothing_to_load_without_cached_addresses() {
    assert_eq!(plan_memo_load(&vec![]), None);
    assert_eq!(
        plan_memo_load(&vec!["a".to_string(), "b".to_string()]),
        Some(vec!["memo:a".to_string(), "memo:b".to_string()])
    );
}

#[test]
fn loading_skips_missing_records() {
    let pdas = vec!["a".to_string(), "b".to_string(), "c".to_string()];
    let saves = vec![
        Some(MemoSave { memo: "x".to_string(), count: 1 }),
        None,
        Some(MemoSave { memo: "z".to_string(), count: 3 }),
    ];
    assert_eq!(
        load_memos(&pdas, &saves),
        vec![("a".to_string(), memo("x", 1)), ("c".to_string(), memo("z", 3))]
    );
}

#[test]
fn loading_stops_at_shorter_list() {
    let pdas = vec!["a".to_string(), "b".to_string()];
    let saves = vec![Some(MemoSave { memo: "x".to_string(), count: 1 })];
    assert_eq!(load_memos(&pdas, &saves), vec![("a".to_string(), memo("x", 1))]);
}

#[test]
fn slot_cache_round_trip() {
    let mut ctx = Ctx::new();
    ctx.set_slot(321, false);
    let (key, value) = set_slot(&ctx);
    assert_eq!(key, "slot");
    assert_eq!(value, 321);
    let mut fresh = Ctx::new();
    load_slot(&mut fresh, Some(value));
    assert_eq!(fresh.slot(), 321);
    load_slot(&mut fresh, None);
    assert_eq!(fresh.slot(), 321);
}

#[test]
fn stored_batch_loads_back_as_same_pairs() {
    let entries = vec![
        ("p2".to_string(), "b|1".to_string()),
        ("p1".to_string(), "a|0".to_string()),
    ];
    let mut strings: HashMap<String, String> = HashMap::new();
    let mut index: BTreeSet<String> = BTreeSet::new();
    for cmd in store_memos(&entries) {
        match cmd {
            StoreCommand::SetString { key, value } => {
                strings.insert(key, value);
            }
            StoreCommand::AddToSet { key, member } => {
                assert_eq!(key, "memos:index");
                index.insert(member);
            }
        }
    }
    let pdas: Vec<String> = index.into_iter().collect();
    let keys = plan_memo_load(&pdas).unwrap();
    let saves: Vec<Option<MemoSave>> = keys
        .iter()
        .map(|k| {
            strings.get(k).map(|v| {
                let (text, count) = v.split_once('|').unwrap();
                MemoSave { memo: text.to_string(), count: count.parse().unwrap() }
            })
        })
        .collect();
    assert_eq!(
        load_memos(&pdas, &saves),
        vec![("p1".to_string(), memo("a", 0)), ("p2".to_string(), memo("b", 1))]
    );
}
