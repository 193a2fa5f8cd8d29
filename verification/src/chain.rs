//! The decisions of the chain tasks: where the memo program keeps an
//! author's counter and next memo, which count a new memo gets, which
//! fetched accounts are memos, and how long to wait before retrying.
use crate::persist::pairs_view;
use crate::account::{borsh_string_encodable, ErrorCode};
use crate::state::{
    decode_memo, decode_memo_counter, encode_memo, encode_memo_counter, law_memo_counter_round_trip,
    law_memo_round_trip, Memo, MemoCounter, MemoView,
};
use vstd::bytes::*;
use vstd::prelude::*;
use vstd::slice::slice_to_vec;

verus! {

/// Seconds to wait before the notification stream is opened again after it
/// failed.
pub const STREAM_RETRY_SECS: u64 = 1;

/// Seconds to wait before the next attempt to publish a memo, after the
/// `failures`-th failed attempt: one second more each time, starting at two.
pub fn publish_retry_delay(failures: u64) -> (secs: u64)
    requires
        failures < u64::MAX,
    ensures
        secs == failures + 1,
{
    failures + 1
}

/// One round of publishing a memo, after `failures` failed attempts: when
/// the attempt succeeded, publishing is over (`None`); otherwise it is
/// retried, with the new number of failures and the seconds to wait first.
pub fn publish_step(failures: u64, published: bool) -> (r: Option<(u64, u64)>)
    requires
        failures < u64::MAX - 1,
    ensures
        published ==> r is None,
        !published ==> r == Some(((failures + 1) as u64, (failures + 2) as u64)),
{
    if published {
        None
    } else {
        let failures = failures + 1;
        Some((failures, publish_retry_delay(failures)))
    }
}

// ---------------------------------------------------------------------
// The notification loop

/// Where the loop over notifications stands.
#[derive(Clone, Copy, Debug, PartialEq, Eq, Structural)]
pub enum StreamState {
    /// Waiting for the next notification.
    Waiting,
    /// Fetching memos for a notification at this slot.
    Fetching(u64),
    /// The loop is over.
    Finished,
}

/// What the loop learnt last.
#[derive(Clone, Copy, Debug, PartialEq, Eq, Structural)]
pub enum StreamEvent {
    /// A notification, carrying its slot, arrived.
    Notified(u64),
    /// The notification stream ended.
    StreamEnded,
    /// The memos were fetched.
    FetchDone,
    /// Fetching the memos failed.
    FetchFailed,
}

/// What the loop does next.
#[derive(Clone, Copy, Debug, PartialEq, Eq, Structural)]
pub enum StreamAction {
    /// Fetch all memos, requiring the response to reflect state at or after
    /// the recorded slot.
    FetchMemos,
    /// Record this slot, store it in the cache, and wait for the next
    /// notification.
    RecordSlot(u64),
    /// End the loop successfully.
    Stop,
    /// End the loop with the fetch's error.
    Fail,
}

/// One step of the loop: each notification first has the memos fetched,
/// then its slot recorded and stored; a failed fetch ends the loop with its
/// error before the slot is recorded; the end of the stream ends the loop.
/// An event that cannot happen in a state leaves it unchanged, with nothing
/// to do.
pub open spec fn spec_stream_step(state: StreamState, event: StreamEvent) -> (
    StreamState,
    Option<StreamAction>,
) {
    match (state, event) {
        (StreamState::Waiting, StreamEvent::Notified(slot)) => (
            StreamState::Fetching(slot),
            Some(StreamAction::FetchMemos),
        ),
        (StreamState::Waiting, StreamEvent::StreamEnded) => (
            StreamState::Finished,
            Some(StreamAction::Stop),
        ),
        (StreamState::Fetching(slot), StreamEvent::FetchDone) => (
            StreamState::Waiting,
            Some(StreamAction::RecordSlot(slot)),
        ),
        (StreamState::Fetching(_), StreamEvent::FetchFailed) => (
            StreamState::Finished,
            Some(StreamAction::Fail),
        ),
        _ => (state, None),
    }
}

/// A notification's slot is recorded only after its memos were fetched,
/// and not at all when the fetch failed.
pub proof fn law_slot_recorded_after_fetch(slot: u64)
    ensures
        spec_stream_step(
            spec_stream_step(StreamState::Waiting, StreamEvent::Notified(slot)).0,
            StreamEvent::FetchDone,
        ) == (StreamState::Waiting, Some(StreamAction::RecordSlot(slot))),
        spec_stream_step(
            spec_stream_step(StreamState::Waiting, StreamEvent::Notified(slot)).0,
            StreamEvent::FetchFailed,
        ) == (StreamState::Finished, Some(StreamAction::Fail)),
{
}

pub fn stream_step(state: StreamState, event: StreamEvent) -> (r: (StreamState, Option<StreamAction>))
    ensures
        r == spec_stream_step(state, event),
{
    match (state, event) {
        (StreamState::Waiting, StreamEvent::Notified(slot)) => (
            StreamState::Fetching(slot),
            Some(StreamAction::FetchMemos),
        ),
        (StreamState::Waiting, StreamEvent::StreamEnded) => (
            StreamState::Finished,
            Some(StreamAction::Stop),
        ),
        (StreamState::Fetching(slot), StreamEvent::FetchDone) => (
            StreamState::Waiting,
            Some(StreamAction::RecordSlot(slot)),
        ),
        (StreamState::Fetching(_), StreamEvent::FetchFailed) => (
            StreamState::Finished,
            Some(StreamAction::Fail),
        ),
        _ => (state, None),
    }
}

// ---------------------------------------------------------------------
// Program derived addresses

/// The program-derived address and bump seed that
/// `Pubkey::try_find_program_address` finds for `seeds` and `program_id`,
/// if it finds one.
pub uninterp spec fn spec_find_program_address(seeds: Seq<Seq<u8>>, program_id: Seq<u8>) -> Option<
    (Seq<u8>, u8),
>;

pub open spec fn seeds_view(seeds: Seq<Vec<u8>>) -> Seq<Seq<u8>> {
    seeds.map_values(|s: Vec<u8>| s@)
}

/// `solana_pubkey::Pubkey::try_find_program_address`: searches the bump
/// seeds from 255 down for the first that makes the seeds hash to a point off
/// the ed25519 curve. The result is named, not stated; `None` when no bump
/// seed works or the seeds are out of bounds.
#[verifier::external_body]
fn try_find_program_address(seeds: &Vec<Vec<u8>>, program_id: &[u8; 32]) -> (r: Option<
    ([u8; 32], u8),
>)
    ensures
        match r {
            Some((address, bump)) => spec_find_program_address(seeds_view(seeds@), program_id@)
                == Some((address@, bump)),
            None => spec_find_program_address(seeds_view(seeds@), program_id@) is None,
        },
{
    let seed_refs: Vec<&[u8]> = seeds.iter().map(|s| s.as_slice()).collect();
    let program = solana_pubkey::Pubkey::new_from_array(*program_id);
    solana_pubkey::Pubkey::try_find_program_address(&seed_refs, &program).map(
        |(address, bump)| (address.to_bytes(), bump),
    )
}

/// The address of the memo program, `DffF8iBBZwgq991CCkTcEAkhwBsvbihVd3Ch1r661C4A`.
pub open spec fn spec_memos_program_id() -> Seq<u8> {
    seq![
        188u8, 51u8, 142u8, 93u8, 191u8, 63u8, 162u8, 175u8, 28u8, 94u8, 167u8, 125u8, 189u8, 170u8,
        3u8, 206u8, 172u8, 242u8, 109u8, 81u8, 43u8, 154u8, 171u8, 242u8, 126u8, 27u8, 200u8, 66u8,
        250u8, 145u8, 158u8, 243u8,
    ]
}

pub fn memos_program_id() -> (id: [u8; 32])
    ensures
        id@ == spec_memos_program_id(),
{
    let id: [u8; 32] = [
        188, 51, 142, 93, 191, 63, 162, 175, 28, 94, 167, 125, 189, 170, 3, 206, 172, 242, 109, 81,
        43, 154, 171, 242, 126, 27, 200, 66, 250, 145, 158, 243,
    ];
    assert(id@ =~= spec_memos_program_id());
    id
}

/// The bytes of `counter`.
pub open spec fn counter_seed() -> Seq<u8> {
    seq![99u8, 111u8, 117u8, 110u8, 116u8, 101u8, 114u8]
}

/// The bytes of `memo`.
pub open spec fn memo_seed() -> Seq<u8> {
    seq![109u8, 101u8, 109u8, 111u8]
}

/// The seeds of an author's counter account: the author, then `counter`.
pub open spec fn counter_seeds(payer: Seq<u8>) -> Seq<Seq<u8>> {
    seq![payer, counter_seed()]
}

/// The seeds of an author's memo number `count`: the author, `memo`, then
/// the count as eight little-endian bytes.
pub open spec fn memo_seeds(payer: Seq<u8>, count: u64) -> Seq<Seq<u8>> {
    seq![payer, memo_seed(), spec_u64_to_le_bytes(count)]
}

/// The address a seed list derives under the memo program, if there is one.
pub open spec fn memos_address(seeds: Seq<Seq<u8>>) -> Option<Seq<u8>> {
    match spec_find_program_address(seeds, spec_memos_program_id()) {
        Some((address, _)) => Some(address),
        None => None,
    }
}

fn derive_address(seeds: &Vec<Vec<u8>>) -> (r: Option<[u8; 32]>)
    ensures
        match r {
            Some(a) => memos_address(seeds_view(seeds@)) == Some(a@),
            None => memos_address(seeds_view(seeds@)) is None,
        },
{
    let program = memos_program_id();
    match try_find_program_address(seeds, &program) {
        Some((address, _bump)) => Some(address),
        None => None,
    }
}

/// The address of the counter of memos that `payer` has published.
pub fn counter_address(payer: &[u8; 32]) -> (r: Option<[u8; 32]>)
    ensures
        match r {
            Some(a) => memos_address(counter_seeds(payer@)) == Some(a@),
            None => memos_address(counter_seeds(payer@)) is None,
        },
{
    let mut seeds: Vec<Vec<u8>> = Vec::new();
    seeds.push(slice_to_vec(payer.as_slice()));
    seeds.push(vec![99u8, 111, 117, 110, 116, 101, 114]);
    assert(seeds_view(seeds@) =~= counter_seeds(payer@));
    derive_address(&seeds)
}

/// The address of the memo that `payer` publishes as its number `count`.
pub fn memo_address(payer: &[u8; 32], count: u64) -> (r: Option<[u8; 32]>)
    ensures
        match r {
            Some(a) => memos_address(memo_seeds(payer@, count)) == Some(a@),
            None => memos_address(memo_seeds(payer@, count)) is None,
        },
{
    let mut seeds: Vec<Vec<u8>> = Vec::new();
    seeds.push(slice_to_vec(payer.as_slice()));
    seeds.push(vec![109u8, 101, 109, 111]);
    seeds.push(u64_to_le_bytes(count));
    assert(seeds_view(seeds@) =~= memo_seeds(payer@, count));
    derive_address(&seeds)
}

/// The count the next memo gets: what the author's counter account holds,
/// or zero when the account could not be fetched or read.
pub open spec fn spec_next_count(counter_account: Option<Seq<u8>>) -> u64 {
    match counter_account {
        Some(data) => match decode_memo_counter(data) {
            Ok(count) => count,
            Err(_) => 0,
        },
        None => 0,
    }
}

pub fn next_count(counter_account: Option<Vec<u8>>) -> (count: u64)
    ensures
        count == spec_next_count(
            match counter_account {
                Some(d) => Some(d@),
                None => None,
            },
        ),
{
    match counter_account {
        Some(data) => match MemoCounter::try_deserialize(data.as_slice()) {
            Ok(counter) => counter.count,
            Err(_) => 0,
        },
        None => 0,
    }
}

// ---------------------------------------------------------------------
// Fetched accounts

pub open spec fn accounts_view(accounts: Seq<(String, Vec<u8>)>) -> Seq<(Seq<char>, Seq<u8>)> {
    accounts.map_values(|a: (String, Vec<u8>)| (a.0@, a.1@))
}

/// The memos among fetched `(address, data)` accounts, in order; an account
/// whose data does not read as a memo is skipped.
pub open spec fn fetched_memos(accounts: Seq<(Seq<char>, Seq<u8>)>) -> Seq<(Seq<char>, MemoView)>
    decreases accounts.len(),
{
    if accounts.len() == 0 {
        Seq::empty()
    } else {
        let prev = fetched_memos(accounts.drop_last());
        match decode_memo(accounts.last().1) {
            Ok(m) => prev.push((accounts.last().0, m)),
            Err(_) => prev,
        }
    }
}

/// Reads the memos among the accounts the memo program owns.
pub fn collect_memos(accounts: &Vec<(String, Vec<u8>)>) -> (memos: Vec<(String, Memo)>)
    ensures
        pairs_view(memos@) == fetched_memos(accounts_view(accounts@)),
{
    let mut memos: Vec<(String, Memo)> = Vec::new();
    let mut i: usize = 0;
    while i < accounts.len()
        invariant
            i <= accounts@.len(),
            pairs_view(memos@) == fetched_memos(accounts_view(accounts@.subrange(0, i as int))),
        decreases accounts@.len() - i,
    {
        let ghost before = memos@;
        let ghost prefix = accounts_view(accounts@.subrange(0, i + 1));
        assert(prefix.drop_last() =~= accounts_view(accounts@.subrange(0, i as int)));
        match Memo::try_deserialize(accounts[i].1.as_slice()) {
            Ok(memo) => {
                memos.push((accounts[i].0.clone(), memo));
                assert(pairs_view(memos@) =~= pairs_view(before).push(
                    (prefix.last().0, memos@.last().1@),
                ));
            },
            Err(_) => {},
        }
        i = i + 1;
    }
    assert(accounts@.subrange(0, i as int) =~= accounts@);
    memos
}

/// Accounts holding the bytes the memo program writes for some memos.
pub open spec fn stored_accounts(memos: Seq<(Seq<char>, MemoView)>) -> Seq<(Seq<char>, Seq<u8>)> {
    memos.map_values(|p: (Seq<char>, MemoView)| (p.0, encode_memo(p.1)))
}

/// Every memo account the program has written is read back by a fetch,
/// with its address, text and timestamp, in the order the accounts came in.
pub proof fn law_fetch_reads_stored_memos(memos: Seq<(Seq<char>, MemoView)>)
    requires
        forall|i: int| 0 <= i < memos.len() ==> borsh_string_encodable(#[trigger] memos[i].1.memo),
    ensures
        fetched_memos(stored_accounts(memos)) == memos,
    decreases memos.len(),
{
    if memos.len() > 0 {
        let prev = memos.drop_last();
        assert(stored_accounts(memos).drop_last() =~= stored_accounts(prev));
        assert(forall|i: int| 0 <= i < prev.len() ==> prev[i] == memos[i]);
        law_fetch_reads_stored_memos(prev);
        law_memo_round_trip(memos.last().1);
        assert(fetched_memos(stored_accounts(memos)) =~= prev.push(memos.last()));
        assert(prev.push(memos.last()) =~= memos);
    }
}

proof fn lemma_fetched_concat(xs: Seq<(Seq<char>, Seq<u8>)>, ys: Seq<(Seq<char>, Seq<u8>)>)
    ensures
        fetched_memos(xs + ys) == fetched_memos(xs) + fetched_memos(ys),
    decreases ys.len(),
{
    if ys.len() == 0 {
        assert(xs + ys =~= xs);
        assert(fetched_memos(xs) + fetched_memos(ys) =~= fetched_memos(xs));
    } else {
        lemma_fetched_concat(xs, ys.drop_last());
        assert((xs + ys).drop_last() =~= xs + ys.drop_last());
        assert((xs + ys).last() == ys.last());
        let f = fetched_memos(xs);
        let g = fetched_memos(ys.drop_last());
        match decode_memo(ys.last().1) {
            Ok(m) => {
                assert((f + g).push((ys.last().0, m)) =~= f + g.push((ys.last().0, m)));
            },
            Err(_) => {},
        }
    }
}

proof fn lemma_fetched_single(a: (Seq<char>, Seq<u8>))
    ensures
        fetched_memos(seq![a]) == (match decode_memo(a.1) {
            Ok(m) => seq![(a.0, m)],
            Err(_) => Seq::<(Seq<char>, MemoView)>::empty(),
        }),
{
    let e = Seq::<(Seq<char>, Seq<u8>)>::empty();
    assert(seq![a].drop_last() =~= e);
    assert(seq![a].last() == a);
    assert(fetched_memos(e) == Seq::<(Seq<char>, MemoView)>::empty());
    assert(fetched_memos(seq![a]) == (match decode_memo(a.1) {
        Ok(m) => fetched_memos(e).push((a.0, m)),
        Err(_) => fetched_memos(e),
    }));
    match decode_memo(a.1) {
        Ok(m) => {
            assert(Seq::<(Seq<char>, MemoView)>::empty().push((a.0, m)) =~= seq![(a.0, m)]);
        },
        Err(_) => {},
    }
}

/// Fetching is done account by account: what a fetch gives for two runs
/// of accounts is what it gives for the first run followed by what it gives
/// for the second.
pub proof fn law_fetch_concatenates(xs: Seq<(Seq<char>, Seq<u8>)>, ys: Seq<(Seq<char>, Seq<u8>)>)
    ensures
        fetched_memos(xs + ys) == fetched_memos(xs) + fetched_memos(ys),
{
    lemma_fetched_concat(xs, ys);
}

/// An account that does not read as a memo (another account type, or bytes
/// that do not deserialize) is skipped without affecting the accounts
/// before or after it.
pub proof fn law_fetch_skips_non_memos(
    xs: Seq<(Seq<char>, Seq<u8>)>,
    a: (Seq<char>, Seq<u8>),
    ys: Seq<(Seq<char>, Seq<u8>)>,
)
    requires
        decode_memo(a.1) is Err,
    ensures
        fetched_memos(xs + seq![a] + ys) == fetched_memos(xs) + fetched_memos(ys),
{
    lemma_fetched_concat(xs, seq![a]);
    lemma_fetched_concat(xs + seq![a], ys);
    lemma_fetched_single(a);
    assert(fetched_memos(xs) + Seq::<(Seq<char>, MemoView)>::empty() =~= fetched_memos(xs));
}

/// An account that reads as a memo gives exactly one pair, its address and
/// that memo, in its place among the others.
pub proof fn law_fetch_keeps_memos(
    xs: Seq<(Seq<char>, Seq<u8>)>,
    a: (Seq<char>, Seq<u8>),
    ys: Seq<(Seq<char>, Seq<u8>)>,
    m: MemoView,
)
    requires
        decode_memo(a.1) == Ok::<MemoView, ErrorCode>(m),
    ensures
        fetched_memos(xs + seq![a] + ys) == fetched_memos(xs) + seq![(a.0, m)] + fetched_memos(ys),
{
    lemma_fetched_concat(xs, seq![a]);
    lemma_fetched_concat(xs + seq![a], ys);
    lemma_fetched_single(a);
}

/// A counter account that reads as count `c` makes `c` the next memo's
/// count; in particular, the bytes the program writes for a counter of `c`
/// give `c`, for every `c`.
pub proof fn law_next_count_is_counter(data: Seq<u8>, c: u64)
    ensures
        decode_memo_counter(data) == Ok::<u64, ErrorCode>(c) ==> spec_next_count(Some(data)) == c,
        spec_next_count(Some(encode_memo_counter(c))) == c,
        spec_next_count(None) == 0,
{
    law_memo_counter_round_trip(c);
}

} // verus!
