//! The `store_memo` instruction of the memo program: its account
//! constraints, the space it allocates, and what it writes.
use crate::account::{
    borsh_read_string, borsh_string_bytes, borsh_string_encodable, borsh_string_readable,
    borsh_string_value, borsh_write_string, ErrorCode,
};
use vstd::slice::slice_subrange;
use crate::state::{decode_memo, encode_memo, law_memo_round_trip, Memo, MemoView};
use vstd::bytes::*;
use vstd::prelude::*;
use vstd::utf8::*;

verus! {

broadcast use {encode_utf8_valid_utf8, encode_utf8_decode_utf8};

/// The longest memo text, in bytes, that `store_memo` accepts.
pub const MAX_MEMO_SIZE: usize = 800;

/// The size of a new memo account for a text of `text_len` bytes:
/// discriminator, length prefix, text, timestamp.
pub open spec fn memo_space(text_len: nat) -> nat {
    8 + 4 + text_len + 8
}

/// The length of a text in bytes.
pub open spec fn text_bytes(text: Seq<char>) -> nat {
    encode_utf8(text).len()
}

pub fn memo_account_space(text_len: usize) -> (space: usize)
    requires
        text_len <= usize::MAX - 20,
    ensures
        space == memo_space(text_len as nat),
{
    8 + 4 + text_len + 8
}

/// The accounts of a validated `store_memo` instruction: the memo account
/// it creates and the space allocated for it.
pub struct StoreMemo {
    pub memo: Memo,
    pub space: usize,
}

impl StoreMemo {
    /// Validates the instruction's accounts for `text`: the text may be at
    /// most [`MAX_MEMO_SIZE`] bytes long, and the new memo account is sized
    /// for it and starts out zeroed (an empty text and a timestamp of zero).
    pub fn try_accounts(text: &String) -> (r: Result<StoreMemo, ErrorCode>)
        requires
            text_bytes(text@) <= usize::MAX,
        ensures
            text_bytes(text@) <= MAX_MEMO_SIZE ==> (r matches Ok(a) && a.memo@ == MemoView {
                memo: Seq::<char>::empty(),
                timestamp: 0,
            } && a.space == memo_space(text_bytes(text@))),
            text_bytes(text@) > MAX_MEMO_SIZE ==> r == Err::<StoreMemo, ErrorCode>(
                ErrorCode::ConstraintRaw,
            ),
    {
        let len: usize = text.as_str().len();
        if len <= MAX_MEMO_SIZE {
            Ok(StoreMemo { memo: Memo { memo: String::new(), timestamp: 0 }, space: memo_account_space(len) })
        } else {
            Err(ErrorCode::ConstraintRaw)
        }
    }
}

/// The timestamp a memo stored at `now_ms` milliseconds after the Unix
/// epoch gets: the milliseconds cut to 64 bits.
pub open spec fn timestamp_of(now_ms: u128) -> u64 {
    now_ms as u64
}

/// Writes the text into the new memo account, and the time it is stored at,
/// `now_ms` milliseconds after the Unix epoch, as its timestamp.
pub fn handler(ctx: &mut StoreMemo, text: String, now_ms: u128) -> (r: Result<(), ErrorCode>)
    ensures
        r is Ok,
        final(ctx).memo@ == (MemoView {
            memo: text@,
            timestamp: timestamp_of(now_ms),
        }),
        final(ctx).space == old(ctx).space,
{
    ctx.memo.memo = text;
    ctx.memo.timestamp = #[verifier::truncate] (now_ms as u64);
    Ok(())
}

/// The `store_memo` instruction, run at `now_ms` milliseconds after the Unix
/// epoch: validates the accounts, runs the handler and gives back the bytes
/// the new memo account holds afterwards, which fill its allocated space.
pub fn store_memo(text: String, now_ms: u128) -> (r: Result<Vec<u8>, ErrorCode>)
    requires
        text_bytes(text@) <= usize::MAX,
    ensures
        text_bytes(text@) <= MAX_MEMO_SIZE ==> (r matches Ok(data) && data@ == encode_memo(
            MemoView { memo: text@, timestamp: timestamp_of(now_ms) },
        ) && data@.len() == memo_space(text_bytes(text@))),
        text_bytes(text@) > MAX_MEMO_SIZE ==> r == Err::<Vec<u8>, ErrorCode>(
            ErrorCode::ConstraintRaw,
        ),
{
    let mut ctx = StoreMemo::try_accounts(&text)?;
    handler(&mut ctx, text, now_ms)?;
    proof {
        lemma_auto_spec_u32_to_from_le_bytes();
        lemma_auto_spec_u64_to_from_le_bytes();
    }
    let data = ctx.memo.try_serialize();
    match data {
        Ok(d) => Ok(d),
        Err(e) => Err(e),
    }
}

/// A memo account written by `store_memo` at `now_ms` reads back with the
/// text that was stored and the time it was stored at.
pub proof fn law_stored_memo_reads_back(text: Seq<char>, now_ms: u128)
    requires
        text_bytes(text) <= MAX_MEMO_SIZE,
    ensures
        decode_memo(encode_memo(MemoView { memo: text, timestamp: timestamp_of(now_ms) }))
            == Ok::<MemoView, ErrorCode>(
            MemoView { memo: text, timestamp: timestamp_of(now_ms) },
        ),
{
    law_memo_round_trip(MemoView { memo: text, timestamp: timestamp_of(now_ms) });
}

// ---------------------------------------------------------------------
// The instruction's data

/// The discriminator of the `store_memo` instruction: the first eight
/// bytes of the SHA-256 digest of `global:store_memo`.
pub open spec fn store_memo_discriminator() -> Seq<u8> {
    seq![94u8, 69u8, 188u8, 160u8, 194u8, 184u8, 95u8, 153u8]
}

/// The data of a `store_memo` instruction: its discriminator, then the text
/// as a Borsh string.
pub open spec fn encode_store_memo_ix(text: Seq<char>) -> Seq<u8> {
    store_memo_discriminator() + borsh_string_bytes(text)
}

/// How the program reads instruction data: `None` when it is not a
/// `store_memo` instruction; otherwise the text, or an error when the
/// arguments cannot be read. Bytes after the text are ignored.
pub open spec fn decode_store_memo_ix(data: Seq<u8>) -> Option<Result<Seq<char>, ErrorCode>> {
    if data.len() < 8 || data.subrange(0, 8) != store_memo_discriminator() {
        None
    } else {
        let args = data.subrange(8, data.len() as int);
        if borsh_string_readable(args) {
            Some(Ok(borsh_string_value(args)))
        } else {
            Some(Err(ErrorCode::InstructionDidNotDeserialize))
        }
    }
}

fn store_memo_discriminator_bytes() -> (d: [u8; 8])
    ensures
        d@ == store_memo_discriminator(),
{
    let d: [u8; 8] = [94, 69, 188, 160, 194, 184, 95, 153];
    assert(d@ =~= store_memo_discriminator());
    d
}

/// The instruction data a client sends to store `text`; `None` when the
/// text is too long for a Borsh string.
pub fn store_memo_instruction_data(text: &String) -> (r: Option<Vec<u8>>)
    ensures
        borsh_string_encodable(text@) ==> (r matches Some(d) && d@ == encode_store_memo_ix(text@)),
        !borsh_string_encodable(text@) ==> r is None,
{
    let disc = store_memo_discriminator_bytes();
    match borsh_write_string(text) {
        None => None,
        Some(args) => {
            let mut data: Vec<u8> = Vec::new();
            let mut i: usize = 0;
            while i < 8
                invariant
                    i <= 8,
                    disc@ == store_memo_discriminator(),
                    data@ == disc@.subrange(0, i as int),
                decreases 8 - i,
            {
                data.push(disc[i]);
                i = i + 1;
                assert(disc@.subrange(0, i as int) =~= disc@.subrange(0, i - 1).push(disc@[i - 1]));
            }
            let mut j: usize = 0;
            while j < args.len()
                invariant
                    j <= args@.len(),
                    data@ == disc@ + args@.subrange(0, j as int),
                decreases args@.len() - j,
            {
                data.push(args[j]);
                j = j + 1;
                assert(args@.subrange(0, j as int) =~= args@.subrange(0, j - 1).push(args@[j - 1]));
            }
            assert(args@.subrange(0, j as int) =~= args@);
            Some(data)
        },
    }
}

/// Reads the text out of `store_memo` instruction data.
pub fn decode_store_memo_instruction(data: &[u8]) -> (r: Option<Result<String, ErrorCode>>)
    ensures
        match decode_store_memo_ix(data@) {
            None => r is None,
            Some(Ok(text)) => r matches Some(Ok(t)) && t@ == text,
            Some(Err(e)) => r == Some(Err::<String, ErrorCode>(e)),
        },
{
    if data.len() < 8 {
        return None;
    }
    let disc = store_memo_discriminator_bytes();
    let mut i: usize = 0;
    while i < 8
        invariant
            i <= 8 <= data@.len(),
            disc@ == store_memo_discriminator(),
            forall|k: int| 0 <= k < i ==> data@[k] == disc@[k],
        decreases 8 - i,
    {
        if data[i] != disc[i] {
            assert(data@.subrange(0, 8)[i as int] != disc@[i as int]);
            assert(data@.subrange(0, 8) != store_memo_discriminator());
            return None;
        }
        i = i + 1;
    }
    assert(data@.subrange(0, 8) =~= disc@);
    match borsh_read_string(slice_subrange(data, 8, data.len())) {
        Some((text, _rest)) => Some(Ok(text)),
        None => Some(Err(ErrorCode::InstructionDidNotDeserialize)),
    }
}

/// The instruction data a client builds for a text is read by the program
/// as that text.
pub proof fn law_instruction_round_trip(text: Seq<char>)
    requires
        borsh_string_encodable(text),
    ensures
        decode_store_memo_ix(encode_store_memo_ix(text)) == Some(Ok::<Seq<char>, ErrorCode>(text)),
{
    lemma_auto_spec_u32_to_from_le_bytes();
    let data = encode_store_memo_ix(text);
    let u = encode_utf8(text);
    assert(data.subrange(0, 8) =~= store_memo_discriminator());
    let args = data.subrange(8, data.len() as int);
    assert(args =~= borsh_string_bytes(text));
    assert(args.subrange(0, 4) =~= spec_u32_to_le_bytes(u.len() as u32));
    assert(args.subrange(4, 4 + u.len() as int) =~= u);
}

} // verus!
