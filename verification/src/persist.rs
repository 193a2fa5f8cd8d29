//! How memos and the slot are cached: the record kept per memo, the keys it
//! is kept under, the commands that store a batch of memos, and how a batch
//! read back is paired with the addresses it was read for.
use crate::ctx::Ctx;
use crate::state::{Memo, MemoView};
use vstd::prelude::*;
use vstd::string::*;

verus! {

/// The cached record of a memo; it keeps the memo's `u64` (its timestamp)
/// under the name `count`.
#[derive(Clone, Debug, PartialEq)]
pub struct MemoSave {
    pub memo: String,
    pub count: u64,
}

/// The mathematical value of a [`MemoSave`].
pub struct MemoSaveView {
    pub memo: Seq<char>,
    pub count: u64,
}

impl View for MemoSave {
    type V = MemoSaveView;

    open spec fn view(&self) -> MemoSaveView {
        MemoSaveView { memo: self.memo@, count: self.count }
    }
}

/// The memo a cached record turns back into.
pub open spec fn memo_of_save(save: MemoSaveView) -> MemoView {
    MemoView { memo: save.memo, timestamp: save.count }
}

impl From<Memo> for MemoSave {
    fn from(memo: Memo) -> (r: Self) {
        MemoSave { memo: memo.memo, count: memo.timestamp }
    }
}

impl vstd::std_specs::convert::FromSpecImpl<Memo> for MemoSave {
    open spec fn obeys_from_spec() -> bool {
        true
    }

    open spec fn from_spec(memo: Memo) -> Self {
        MemoSave { memo: memo.memo, count: memo.timestamp }
    }
}

impl<'a> From<&'a Memo> for MemoSave {
    fn from(memo: &'a Memo) -> (r: Self) {
        MemoSave { memo: memo.memo.clone(), count: memo.timestamp }
    }
}

impl<'a> vstd::std_specs::convert::FromSpecImpl<&'a Memo> for MemoSave {
    open spec fn obeys_from_spec() -> bool {
        true
    }

    open spec fn from_spec(memo: &'a Memo) -> Self {
        MemoSave { memo: memo.memo, count: memo.timestamp }
    }
}

impl From<MemoSave> for Memo {
    fn from(save: MemoSave) -> (r: Self) {
        Memo { memo: save.memo, timestamp: save.count }
    }
}

impl vstd::std_specs::convert::FromSpecImpl<MemoSave> for Memo {
    open spec fn obeys_from_spec() -> bool {
        true
    }

    open spec fn from_spec(save: MemoSave) -> Self {
        Memo { memo: save.memo, timestamp: save.count }
    }
}

/// A memo that is cached and read back is the memo that was cached, and a
/// record that is turned into a memo and cached again is the same record.
pub proof fn law_memo_save_round_trip(memo: Memo, save: MemoSave)
    ensures
        <Memo as vstd::std_specs::convert::FromSpec<MemoSave>>::from_spec(
            <MemoSave as vstd::std_specs::convert::FromSpec<Memo>>::from_spec(memo),
        ) == memo,
        <MemoSave as vstd::std_specs::convert::FromSpec<Memo>>::from_spec(
            <Memo as vstd::std_specs::convert::FromSpec<MemoSave>>::from_spec(save),
        ) == save,
{
}

/// A memo that is cached, whether given by value or borrowed, and loaded
/// back is that memo: its record turns back into the same text and the
/// same `u64`. Converting a borrowed memo gives the same record as
/// converting the memo itself.
pub proof fn law_cached_memo_loads_back(m: Memo)
    ensures
        <MemoSave as vstd::std_specs::convert::FromSpec<&Memo>>::from_spec(&m)
            == <MemoSave as vstd::std_specs::convert::FromSpec<Memo>>::from_spec(m),
        memo_of_save(<MemoSave as vstd::std_specs::convert::FromSpec<Memo>>::from_spec(m)@) == m@,
        memo_of_save(<MemoSave as vstd::std_specs::convert::FromSpec<&Memo>>::from_spec(&m)@)
            == m@,
{
}

/// In a load, a record turns into the memo that converting it gives.
pub proof fn law_record_turns_into_its_memo(save: MemoSave)
    ensures
        memo_of_save(save@) == (<Memo as vstd::std_specs::convert::FromSpec<MemoSave>>::from_spec(
            save,
        ))@,
        memo_of_save(save@).memo == save.memo@,
        memo_of_save(save@).timestamp == save.count,
{
}

// ---------------------------------------------------------------------
// Keys

pub open spec fn spec_memo_key(pda: Seq<char>) -> Seq<char> {
    "memo:"@ + pda
}

pub open spec fn spec_memo_index_key() -> Seq<char> {
    "memos:index"@
}

pub open spec fn spec_slot_key() -> Seq<char> {
    "slot"@
}

/// The key a memo is cached under: `memo:` and the memo's address.
pub fn memo_key(pda: &String) -> (k: String)
    ensures
        k@ == spec_memo_key(pda@),
{
    let mut k = "memo:".to_owned();
    k.append(pda.as_str());
    k
}

/// The key of the set of addresses of cached memos.
pub fn memo_index_key() -> (k: String)
    ensures
        k@ == spec_memo_index_key(),
{
    "memos:index".to_owned()
}

/// The key the slot is cached under.
pub fn slot_key() -> (k: String)
    ensures
        k@ == spec_slot_key(),
{
    "slot".to_owned()
}

proof fn lemma_memo_key_injective(a: Seq<char>, b: Seq<char>)
    requires
        spec_memo_key(a) == spec_memo_key(b),
    ensures
        a == b,
{
    reveal_strlit("memo:");
    let p = "memo:"@;
    assert(a =~= spec_memo_key(a).subrange(p.len() as int, spec_memo_key(a).len() as int));
    assert(b =~= spec_memo_key(b).subrange(p.len() as int, spec_memo_key(b).len() as int));
}

// ---------------------------------------------------------------------
// Storing a batch of memos

/// A command of the cache.
#[derive(Clone, Debug, PartialEq)]
pub enum StoreCommand {
    /// Set a string key to a value.
    SetString { key: String, value: String },
    /// Add a member to the set under a key.
    AddToSet { key: String, member: String },
}

pub enum StoreCommandView {
    SetString { key: Seq<char>, value: Seq<char> },
    AddToSet { key: Seq<char>, member: Seq<char> },
}

impl View for StoreCommand {
    type V = StoreCommandView;

    open spec fn view(&self) -> StoreCommandView {
        match self {
            StoreCommand::SetString { key, value } => StoreCommandView::SetString { key: key@, value: value@ },
            StoreCommand::AddToSet { key, member } => StoreCommandView::AddToSet {
                key: key@,
                member: member@,
            },
        }
    }
}

pub open spec fn commands_view(cmds: Seq<StoreCommand>) -> Seq<StoreCommandView> {
    cmds.map_values(|c: StoreCommand| c@)
}

pub open spec fn entries_view(entries: Seq<(String, String)>) -> Seq<(Seq<char>, Seq<char>)> {
    entries.map_values(|e: (String, String)| (e.0@, e.1@))
}

/// The commands that cache a batch of `(address, record)` pairs: for each
/// pair in order, set its key to the record and add the address to the index.
pub open spec fn store_plan(entries: Seq<(Seq<char>, Seq<char>)>) -> Seq<StoreCommandView>
    decreases entries.len(),
{
    if entries.len() == 0 {
        Seq::empty()
    } else {
        let (pda, record) = entries.last();
        store_plan(entries.drop_last()) + seq![
            StoreCommandView::SetString { key: spec_memo_key(pda), value: record },
            StoreCommandView::AddToSet { key: spec_memo_index_key(), member: pda },
        ]
    }
}

/// The commands, run as one transaction, that cache a batch of memos given
/// as their addresses and serialized records.
pub fn store_memos(entries: &Vec<(String, String)>) -> (cmds: Vec<StoreCommand>)
    ensures
        commands_view(cmds@) == store_plan(entries_view(entries@)),
{
    let mut cmds: Vec<StoreCommand> = Vec::new();
    let mut i: usize = 0;
    while i < entries.len()
        invariant
            i <= entries@.len(),
            commands_view(cmds@) == store_plan(entries_view(entries@.subrange(0, i as int))),
        decreases entries@.len() - i,
    {
        let pda = &entries[i].0;
        let record = &entries[i].1;
        let ghost before = cmds@;
        cmds.push(StoreCommand::SetString { key: memo_key(pda), value: record.clone() });
        cmds.push(StoreCommand::AddToSet { key: memo_index_key(), member: pda.clone() });
        i = i + 1;
        proof {
            let prefix = entries_view(entries@.subrange(0, i as int));
            assert(prefix.drop_last() =~= entries_view(entries@.subrange(0, i - 1)));
            assert(commands_view(cmds@) =~= commands_view(before) + seq![
                StoreCommandView::SetString { key: spec_memo_key(prefix.last().0), value: prefix.last().1 },
                StoreCommandView::AddToSet { key: spec_memo_index_key(), member: prefix.last().0 },
            ]);
        }
    }
    assert(entries@.subrange(0, i as int) =~= entries@);
    cmds
}

/// A model of the cache: string keys and set keys.
pub struct StoreModel {
    pub strings: Map<Seq<char>, Seq<char>>,
    pub sets: Map<Seq<char>, Set<Seq<char>>>,
}

/// The members of the set under `key`; none if there is no such set.
pub open spec fn set_members(st: StoreModel, key: Seq<char>) -> Set<Seq<char>> {
    if st.sets.contains_key(key) {
        st.sets[key]
    } else {
        Set::empty()
    }
}

pub open spec fn apply_command(st: StoreModel, cmd: StoreCommandView) -> StoreModel {
    match cmd {
        StoreCommandView::SetString { key, value } => StoreModel {
            strings: st.strings.insert(key, value),
            sets: st.sets,
        },
        StoreCommandView::AddToSet { key, member } => StoreModel {
            strings: st.strings,
            sets: st.sets.insert(key, set_members(st, key).insert(member)),
        },
    }
}

pub open spec fn apply_commands(st: StoreModel, cmds: Seq<StoreCommandView>) -> StoreModel
    decreases cmds.len(),
{
    if cmds.len() == 0 {
        st
    } else {
        apply_command(apply_commands(st, cmds.drop_last()), cmds.last())
    }
}

/// No address occurs twice in a batch.
pub open spec fn distinct_addresses(entries: Seq<(Seq<char>, Seq<char>)>) -> bool {
    forall|i: int, j: int|
        0 <= i < entries.len() && 0 <= j < entries.len() && i != j ==> entries[i].0 != entries[j].0
}

/// What caching a batch leaves in the cache: each memo's key holds its
/// record, and its address is in the index; an address that was in the
/// index stays there.
pub open spec fn batch_stored(
    before: StoreModel,
    after: StoreModel,
    entries: Seq<(Seq<char>, Seq<char>)>,
) -> bool {
    &&& forall|i: int|
        0 <= i < entries.len() ==> {
            &&& #[trigger] after.strings.contains_key(spec_memo_key(entries[i].0))
            &&& after.strings[spec_memo_key(entries[i].0)] == entries[i].1
            &&& set_members(after, spec_memo_index_key()).contains(entries[i].0)
        }
    &&& set_members(before, spec_memo_index_key()).subset_of(
        set_members(after, spec_memo_index_key()),
    )
}

/// After the commands of [`store_memos`] have run on any cache, reading a
/// memo's key gives back the record that was stored for it, and the index
/// holds its address, so a later load finds it.
pub proof fn law_store_then_read(st: StoreModel, entries: Seq<(Seq<char>, Seq<char>)>)
    requires
        distinct_addresses(entries),
    ensures
        batch_stored(st, apply_commands(st, store_plan(entries)), entries),
    decreases entries.len(),
{
    if entries.len() > 0 {
        let prev = entries.drop_last();
        let (pda, record) = entries.last();
        assert(distinct_addresses(prev));
        law_store_then_read(st, prev);
        let set_cmd = StoreCommandView::SetString { key: spec_memo_key(pda), value: record };
        let add_cmd = StoreCommandView::AddToSet { key: spec_memo_index_key(), member: pda };
        let plan = store_plan(entries);
        assert(plan =~= store_plan(prev) + seq![set_cmd, add_cmd]);
        let p1 = plan.drop_last();
        assert(p1 =~= store_plan(prev) + seq![set_cmd]);
        assert(p1.drop_last() =~= store_plan(prev));
        assert(plan.last() == add_cmd);
        assert(p1.last() == set_cmd);
        let mid = apply_commands(st, store_plan(prev));
        assert(apply_commands(st, p1) == apply_command(mid, set_cmd));
        let after = apply_commands(st, plan);
        assert(after == apply_command(apply_command(mid, set_cmd), add_cmd));
        assert(set_members(after, spec_memo_index_key()) == set_members(
            mid,
            spec_memo_index_key(),
        ).insert(pda));
        assert forall|i: int| 0 <= i < entries.len() implies {
            &&& #[trigger] after.strings.contains_key(spec_memo_key(entries[i].0))
            &&& after.strings[spec_memo_key(entries[i].0)] == entries[i].1
            &&& set_members(after, spec_memo_index_key()).contains(entries[i].0)
        } by {
            if i < entries.len() - 1 {
                assert(entries[i] == prev[i]);
                assert(mid.strings.contains_key(spec_memo_key(prev[i].0)));
                assert(set_members(mid, spec_memo_index_key()).contains(prev[i].0));
                assert(entries[i].0 != pda);
                if spec_memo_key(entries[i].0) == spec_memo_key(pda) {
                    lemma_memo_key_injective(entries[i].0, pda);
                }
            }
        }
    }
}

// ---------------------------------------------------------------------
// Loading the cached memos

/// The keys to read for the cached addresses; `None` when there are none,
/// in which case nothing is read and nothing is reported.
pub fn plan_memo_load(pdas: &Vec<String>) -> (keys: Option<Vec<String>>)
    ensures
        pdas@.len() == 0 <==> keys is None,
        keys matches Some(k) ==> k@.len() == pdas@.len() && forall|i: int|
            0 <= i < pdas@.len() ==> #[trigger] k@[i]@ == spec_memo_key(pdas@[i]@),
{
    if pdas.len() == 0 {
        return None;
    }
    let mut keys: Vec<String> = Vec::new();
    let mut i: usize = 0;
    while i < pdas.len()
        invariant
            i <= pdas@.len(),
            keys@.len() == i,
            forall|j: int| 0 <= j < i ==> #[trigger] keys@[j]@ == spec_memo_key(pdas@[j]@),
        decreases pdas@.len() - i,
    {
        keys.push(memo_key(&pdas[i]));
        i = i + 1;
    }
    Some(keys)
}

pub open spec fn saves_view(saves: Seq<Option<MemoSave>>) -> Seq<Option<MemoSaveView>> {
    saves.map_values(
        |s: Option<MemoSave>|
            match s {
                Some(save) => Some(save@),
                None => None,
            },
    )
}

/// The first `n` addresses paired with their records, skipping those whose
/// record is missing.
pub open spec fn loaded_prefix(
    pdas: Seq<Seq<char>>,
    saves: Seq<Option<MemoSaveView>>,
    n: nat,
) -> Seq<(Seq<char>, MemoView)>
    decreases n,
{
    if n == 0 {
        Seq::empty()
    } else {
        let prev = loaded_prefix(pdas, saves, (n - 1) as nat);
        match saves[n - 1] {
            Some(m) => prev.push((pdas[n - 1], memo_of_save(m))),
            None => prev,
        }
    }
}

/// The addresses paired, in order, with the records read for them; an
/// address whose record is missing or unreadable is left out, and pairing
/// stops at the shorter of the two lists.
pub open spec fn loaded_memos(pdas: Seq<Seq<char>>, saves: Seq<Option<MemoSaveView>>) -> Seq<
    (Seq<char>, MemoView),
> {
    let n: nat = if pdas.len() <= saves.len() {
        pdas.len()
    } else {
        saves.len()
    };
    loaded_prefix(pdas, saves, n)
}

pub open spec fn pairs_view(pairs: Seq<(String, Memo)>) -> Seq<(Seq<char>, MemoView)> {
    pairs.map_values(|p: (String, Memo)| (p.0@, p.1@))
}

pub open spec fn strings_view(v: Seq<String>) -> Seq<Seq<char>> {
    v.map_values(|s: String| s@)
}

/// Pairs the cached addresses with the records read back for them.
pub fn load_memos(pdas: &Vec<String>, saves: &Vec<Option<MemoSave>>) -> (memos: Vec<(String, Memo)>)
    ensures
        pairs_view(memos@) == loaded_memos(strings_view(pdas@), saves_view(saves@)),
{
    let n: usize = if pdas.len() <= saves.len() {
        pdas.len()
    } else {
        saves.len()
    };
    let ghost ps = strings_view(pdas@);
    let ghost ss = saves_view(saves@);
    let mut memos: Vec<(String, Memo)> = Vec::new();
    let mut i: usize = 0;
    while i < n
        invariant
            i <= n <= pdas@.len(),
            n <= saves@.len(),
            ps == strings_view(pdas@),
            ss == saves_view(saves@),
            pairs_view(memos@) == loaded_prefix(ps, ss, i as nat),
        decreases n - i,
    {
        let ghost before = memos@;
        match &saves[i] {
            Some(save) => {
                let memo = Memo::from(MemoSave { memo: save.memo.clone(), count: save.count });
                memos.push((pdas[i].clone(), memo));
                assert(pairs_view(memos@) =~= pairs_view(before).push((ps[i as int], memo_of_save(ss[i as int]->0))));
            },
            None => {},
        }
        i = i + 1;
    }
    memos
}

/// When a record is read back for every cached address, loading pairs
/// each address with its record, in order.
pub proof fn law_load_all_present(pdas: Seq<Seq<char>>, memos: Seq<MemoSaveView>)
    requires
        pdas.len() == memos.len(),
    ensures
        loaded_memos(pdas, memos.map_values(|m: MemoSaveView| Some(m))) == Seq::new(
            pdas.len(),
            |i: int| (pdas[i], memo_of_save(memos[i])),
        ),
{
    let saves = memos.map_values(|m: MemoSaveView| Some(m));
    lemma_loaded_prefix_all_present(pdas, memos, pdas.len());
    assert(loaded_memos(pdas, saves) == loaded_prefix(pdas, saves, pdas.len()));
}

proof fn lemma_loaded_prefix_all_present(pdas: Seq<Seq<char>>, memos: Seq<MemoSaveView>, n: nat)
    requires
        pdas.len() == memos.len(),
        n <= pdas.len(),
    ensures
        loaded_prefix(pdas, memos.map_values(|m: MemoSaveView| Some(m)), n) == Seq::new(
            n,
            |i: int| (pdas[i], memo_of_save(memos[i])),
        ),
    decreases n,
{
    let saves = memos.map_values(|m: MemoSaveView| Some(m));
    if n == 0 {
        assert(Seq::new(0, |i: int| (pdas[i], memo_of_save(memos[i]))) =~= Seq::<(Seq<char>, MemoView)>::empty());
    } else {
        lemma_loaded_prefix_all_present(pdas, memos, (n - 1) as nat);
        assert(saves[n - 1] == Some(memos[n - 1]));
        assert(Seq::new((n - 1) as nat, |i: int| (pdas[i], memo_of_save(memos[i]))).push((pdas[n - 1], memo_of_save(memos[n - 1])))
            =~= Seq::new(n, |i: int| (pdas[i], memo_of_save(memos[i]))));
    }
}

// ---------------------------------------------------------------------
// A batch stored, then loaded

/// A cache holding nothing.
pub open spec fn empty_store() -> StoreModel {
    StoreModel { strings: Map::empty(), sets: Map::empty() }
}

/// The addresses of a batch, in order.
pub open spec fn batch_addresses(entries: Seq<(Seq<char>, Seq<char>)>) -> Seq<Seq<char>> {
    entries.map_values(|e: (Seq<char>, Seq<char>)| e.0)
}

/// What a load reads from cache `st` for `pdas`: each address's record as
/// `parse` reads it, or nothing when the key is missing or the record does
/// not parse.
pub open spec fn read_records(
    st: StoreModel,
    pdas: Seq<Seq<char>>,
    parse: spec_fn(Seq<char>) -> Option<MemoSaveView>,
) -> Seq<Option<MemoSaveView>> {
    Seq::new(
        pdas.len(),
        |k: int|
            if st.strings.contains_key(spec_memo_key(pdas[k])) {
                parse(st.strings[spec_memo_key(pdas[k])])
            } else {
                None
            },
    )
}

proof fn lemma_index_after_store(st: StoreModel, entries: Seq<(Seq<char>, Seq<char>)>)
    ensures
        set_members(apply_commands(st, store_plan(entries)), spec_memo_index_key()) == set_members(
            st,
            spec_memo_index_key(),
        ).union(batch_addresses(entries).to_set()),
    decreases entries.len(),
{
    let idx = spec_memo_index_key();
    if entries.len() == 0 {
        assert(batch_addresses(entries).to_set() =~= Set::empty());
        assert(set_members(st, idx).union(Set::empty()) =~= set_members(st, idx));
    } else {
        let prev = entries.drop_last();
        let (pda, record) = entries.last();
        lemma_index_after_store(st, prev);
        let set_cmd = StoreCommandView::SetString { key: spec_memo_key(pda), value: record };
        let add_cmd = StoreCommandView::AddToSet { key: idx, member: pda };
        let plan = store_plan(entries);
        assert(plan =~= store_plan(prev) + seq![set_cmd, add_cmd]);
        let p1 = plan.drop_last();
        assert(p1 =~= store_plan(prev) + seq![set_cmd]);
        assert(p1.drop_last() =~= store_plan(prev));
        let mid = apply_commands(st, store_plan(prev));
        assert(apply_commands(st, p1) == apply_command(mid, set_cmd));
        let after = apply_commands(st, plan);
        assert(after == apply_command(apply_command(mid, set_cmd), add_cmd));
        assert(set_members(after, idx) == set_members(mid, idx).insert(pda));
        let a = batch_addresses(entries);
        let ap = batch_addresses(prev);
        assert(a =~= ap.push(pda));
        assert forall|x: Seq<char>| a.to_set().contains(x) <==> ap.to_set().insert(pda).contains(x) by {
            if a.contains(x) {
                let i = choose|i: int| 0 <= i < a.len() && a[i] == x;
                if i < ap.len() {
                    assert(ap[i] == x);
                }
            }
            if ap.contains(x) {
                let i = choose|i: int| 0 <= i < ap.len() && ap[i] == x;
                assert(a[i] == x);
            }
            if x == pda {
                assert(a[a.len() - 1] == x);
            }
        }
        assert(a.to_set() =~= ap.to_set().insert(pda));
        assert(set_members(after, idx) =~= set_members(st, idx).union(a.to_set()));
    }
}

/// A batch of memos stored in an empty cache and then loaded comes back as
/// the same pairs: whatever order the index lists the addresses in, the
/// load gives one pair per stored memo, each address with the memo its
/// record reads as, and nothing else. `parse` is how a record is read
/// back; each stored record must read back as its memo.
pub proof fn law_store_then_load(
    entries: Seq<(Seq<char>, Seq<char>)>,
    saves: Seq<MemoSaveView>,
    parse: spec_fn(Seq<char>) -> Option<MemoSaveView>,
    pdas: Seq<Seq<char>>,
)
    requires
        entries.len() == saves.len(),
        distinct_addresses(entries),
        forall|i: int| 0 <= i < entries.len() ==> parse(#[trigger] entries[i].1) == Some(saves[i]),
        pdas.no_duplicates(),
        pdas.to_set() == set_members(
            apply_commands(empty_store(), store_plan(entries)),
            spec_memo_index_key(),
        ),
    ensures
        ({
            let ls = loaded_memos(
                pdas,
                read_records(apply_commands(empty_store(), store_plan(entries)), pdas, parse),
            );
            &&& ls.len() == entries.len()
            &&& forall|k: int|
                0 <= k < ls.len() ==> exists|i: int|
                    0 <= i < entries.len() && #[trigger] ls[k] == (entries[i].0, memo_of_save(
                        saves[i],
                    ))
            &&& forall|i: int|
                0 <= i < entries.len() ==> exists|k: int|
                    0 <= k < ls.len() && ls[k] == (#[trigger] entries[i].0, memo_of_save(saves[i]))
        }),
{
    let idx = spec_memo_index_key();
    let after = apply_commands(empty_store(), store_plan(entries));
    let a = batch_addresses(entries);
    lemma_index_after_store(empty_store(), entries);
    assert(set_members(empty_store(), idx) =~= Set::empty());
    assert(Set::<Seq<char>>::empty().union(a.to_set()) =~= a.to_set());
    assert(pdas.to_set() == a.to_set());
    law_store_then_read(empty_store(), entries);
    let n = pdas.len();
    let read = read_records(after, pdas, parse);
    // every listed address is one of the batch's, and reads back as its record
    assert forall|k: int| 0 <= k < n implies exists|i: int|
        0 <= i < entries.len() && entries[i].0 == pdas[k] && #[trigger] read[k] == Some(
            saves[i],
        ) by {
        assert(pdas.to_set().contains(pdas[k]));
        assert(a.contains(pdas[k]));
        let i = choose|i: int| 0 <= i < a.len() && a[i] == pdas[k];
        assert(entries[i].0 == pdas[k]);
        assert(after.strings.contains_key(spec_memo_key(entries[i].0)));
    }
    let ms = Seq::new(n, |k: int| read[k]->0);
    assert(read =~= ms.map_values(|m: MemoSaveView| Some(m)));
    law_load_all_present(pdas, ms);
    let ls = loaded_memos(pdas, read);
    assert(ls == Seq::new(n, |k: int| (pdas[k], memo_of_save(ms[k]))));
    // lengths
    pdas.unique_seq_to_set();
    assert(a.no_duplicates());
    a.unique_seq_to_set();
    assert(ls.len() == entries.len());
    assert forall|k: int| 0 <= k < ls.len() implies exists|i: int|
        0 <= i < entries.len() && #[trigger] ls[k] == (entries[i].0, memo_of_save(saves[i])) by {
        assert(read[k] == read[k]);
        let i = choose|i: int|
            0 <= i < entries.len() && entries[i].0 == pdas[k] && #[trigger] read[k] == Some(
                saves[i],
            );
        assert(ls[k] == (entries[i].0, memo_of_save(saves[i])));
    }
    assert forall|i: int| 0 <= i < entries.len() implies exists|k: int|
        0 <= k < ls.len() && ls[k] == (#[trigger] entries[i].0, memo_of_save(saves[i])) by {
        assert(a[i] == entries[i].0);
        assert(a.to_set().contains(entries[i].0));
        assert(pdas.contains(entries[i].0));
        let k = choose|k: int| 0 <= k < pdas.len() && pdas[k] == entries[i].0;
        assert(read[k] == read[k]);
        let j = choose|j: int|
            0 <= j < entries.len() && entries[j].0 == pdas[k] && #[trigger] read[k] == Some(
                saves[j],
            );
        assert(j == i);
        assert(ls[k] == (entries[i].0, memo_of_save(saves[i])));
    }
}

// ---------------------------------------------------------------------
// The slot

/// The slot after a load from the cache found `stored`.
pub open spec fn slot_after_load(current: u64, stored: Option<u64>) -> u64 {
    match stored {
        Some(s) => s,
        None => current,
    }
}

/// Restores the slot read from the cache, if there was one; the restored
/// slot is not written back.
pub fn load_slot(ctx: &mut Ctx, stored: Option<u64>)
    ensures
        final(ctx).spec_slot() == slot_after_load(old(ctx).spec_slot(), stored),
{
    if let Some(slot) = stored {
        let _ = ctx.set_slot(slot, false);
    }
}

/// The key and value that cache the current slot.
pub fn set_slot(ctx: &Ctx) -> (w: (String, u64))
    ensures
        w.0@ == spec_slot_key(),
        w.1 == ctx.spec_slot(),
{
    (slot_key(), ctx.slot())
}

/// A slot that is cached and loaded back is the slot the context had.
pub proof fn law_slot_round_trip(saved: u64, current: u64)
    ensures
        slot_after_load(current, Some(saved)) == saved,
        slot_after_load(current, None) == current,
{
}

} // verus!
