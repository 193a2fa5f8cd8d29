//! The accounts of the memo program and their byte layout.
use crate::account::{
    borsh_read_string, borsh_read_u64, borsh_string_bytes, borsh_string_encodable, borsh_string_end, borsh_string_len,
    borsh_string_readable, borsh_string_value, borsh_write_string, ErrorCode,
};
use vstd::bytes::*;
use vstd::prelude::*;
use vstd::slice::slice_subrange;
use vstd::utf8::*;

verus! {

broadcast use {encode_utf8_valid_utf8, encode_utf8_decode_utf8};

/// A stored memo: its text, and when it was stored, in milliseconds since
/// the Unix epoch. The account holds one `u64` after the text, the number
/// the `store_memo` handler writes; clients order memos by it.
#[derive(Clone, Debug, PartialEq)]
pub struct Memo {
    pub memo: String,
    pub timestamp: u64,
}

/// The mathematical value of a [`Memo`].
pub struct MemoView {
    pub memo: Seq<char>,
    pub timestamp: u64,
}

impl View for Memo {
    type V = MemoView;

    open spec fn view(&self) -> MemoView {
        MemoView { memo: self.memo@, timestamp: self.timestamp }
    }
}

/// The per-author counter of published memos.
#[derive(Clone, Copy, Debug, PartialEq, Eq, Structural)]
pub struct MemoCounter {
    pub count: u64,
}

/// The discriminator of a `Memo` account: the first eight bytes of the
/// SHA-256 digest of `account:Memo`.
pub open spec fn memo_discriminator() -> Seq<u8> {
    seq![161u8, 231u8, 183u8, 96u8, 66u8, 120u8, 3u8, 80u8]
}

/// The discriminator of a `MemoCounter` account: the first eight bytes of
/// the SHA-256 digest of `account:MemoCounter`.
pub open spec fn memo_counter_discriminator() -> Seq<u8> {
    seq![190u8, 126u8, 91u8, 1u8, 241u8, 185u8, 43u8, 52u8]
}

/// The error, if any, of checking that `b` starts with `disc`.
pub open spec fn discriminator_error(b: Seq<u8>, disc: Seq<u8>) -> Option<ErrorCode> {
    if b.len() < disc.len() {
        Some(ErrorCode::AccountDiscriminatorNotFound)
    } else if b.subrange(0, disc.len() as int) != disc {
        Some(ErrorCode::AccountDiscriminatorMismatch)
    } else {
        None
    }
}

/// The fields of a `Memo` account: a Borsh string, then a Borsh `u64`, the
/// timestamp. Bytes after them are ignored.
pub open spec fn decode_memo_fields(data: Seq<u8>) -> Option<MemoView> {
    if !borsh_string_readable(data) {
        None
    } else {
        let rest = data.subrange(borsh_string_end(data), data.len() as int);
        if rest.len() < 8 {
            None
        } else {
            Some(
                MemoView {
                    memo: borsh_string_value(data),
                    timestamp: spec_u64_from_le_bytes(rest.subrange(0, 8)),
                },
            )
        }
    }
}

/// What reading a `Memo` account from its bytes gives.
pub open spec fn decode_memo(b: Seq<u8>) -> Result<MemoView, ErrorCode> {
    match discriminator_error(b, memo_discriminator()) {
        Some(e) => Err(e),
        None => match decode_memo_fields(b.subrange(8, b.len() as int)) {
            Some(m) => Ok(m),
            None => Err(ErrorCode::AccountDidNotDeserialize),
        },
    }
}

/// The bytes of a `Memo` account.
pub open spec fn encode_memo(m: MemoView) -> Seq<u8> {
    memo_discriminator() + borsh_string_bytes(m.memo) + spec_u64_to_le_bytes(m.timestamp)
}

/// What reading a `MemoCounter` account from its bytes gives.
pub open spec fn decode_memo_counter(b: Seq<u8>) -> Result<u64, ErrorCode> {
    match discriminator_error(b, memo_counter_discriminator()) {
        Some(e) => Err(e),
        None => if b.len() < 16 {
            Err(ErrorCode::AccountDidNotDeserialize)
        } else {
            Ok(spec_u64_from_le_bytes(b.subrange(8, 16)))
        },
    }
}

/// The bytes of a `MemoCounter` account.
pub open spec fn encode_memo_counter(count: u64) -> Seq<u8> {
    memo_counter_discriminator() + spec_u64_to_le_bytes(count)
}

/// A `Memo` account as the program writes it reads back as the same memo.
pub proof fn law_memo_round_trip(m: MemoView)
    requires
        borsh_string_encodable(m.memo),
    ensures
        decode_memo(encode_memo(m)) == Ok::<MemoView, ErrorCode>(m),
{
    lemma_auto_spec_u32_to_from_le_bytes();
    lemma_auto_spec_u64_to_from_le_bytes();
    let b = encode_memo(m);
    let u = encode_utf8(m.memo);
    let lenb = spec_u32_to_le_bytes(u.len() as u32);
    let tb = spec_u64_to_le_bytes(m.timestamp);
    assert(b.subrange(0, 8) =~= memo_discriminator());
    let data = b.subrange(8, b.len() as int);
    assert(data =~= lenb + u + tb);
    assert(data.subrange(0, 4) =~= lenb);
    assert(borsh_string_len(data) == u.len());
    assert(data.subrange(4, 4 + u.len() as int) =~= u);
    let rest = data.subrange(4 + u.len() as int, data.len() as int);
    assert(rest =~= tb);
    assert(rest.subrange(0, 8) =~= tb);
}

/// A `MemoCounter` account as the program writes it reads back as the same count.
pub proof fn law_memo_counter_round_trip(count: u64)
    ensures
        decode_memo_counter(encode_memo_counter(count)) == Ok::<u64, ErrorCode>(count),
{
    lemma_auto_spec_u64_to_from_le_bytes();
    let b = encode_memo_counter(count);
    assert(b.subrange(0, 8) =~= memo_counter_discriminator());
    assert(b.subrange(8, 16) =~= spec_u64_to_le_bytes(count));
}

fn memo_discriminator_bytes() -> (d: [u8; 8])
    ensures
        d@ == memo_discriminator(),
{
    let d: [u8; 8] = [161, 231, 183, 96, 66, 120, 3, 80];
    assert(d@ =~= memo_discriminator());
    d
}

fn memo_counter_discriminator_bytes() -> (d: [u8; 8])
    ensures
        d@ == memo_counter_discriminator(),
{
    let d: [u8; 8] = [190, 126, 91, 1, 241, 185, 43, 52];
    assert(d@ =~= memo_counter_discriminator());
    d
}

/// Checks the discriminator at the front of an account's bytes.
fn check_discriminator(buf: &[u8], disc: &[u8; 8]) -> (r: Option<ErrorCode>)
    ensures
        r == discriminator_error(buf@, disc@),
{
    if buf.len() < 8 {
        return Some(ErrorCode::AccountDiscriminatorNotFound);
    }
    let mut i: usize = 0;
    while i < 8
        invariant
            i <= 8 <= buf@.len(),
            disc@.len() == 8,
            forall|j: int| 0 <= j < i ==> buf@[j] == disc@[j],
        decreases 8 - i,
    {
        if buf[i] != disc[i] {
            assert(buf@.subrange(0, 8)[i as int] != disc@[i as int]);
            return Some(ErrorCode::AccountDiscriminatorMismatch);
        }
        i = i + 1;
    }
    assert(buf@.subrange(0, 8) =~= disc@);
    None
}

fn append_bytes(out: &mut Vec<u8>, bytes: &[u8])
    ensures
        final(out)@ == old(out)@ + bytes@,
{
    let mut i: usize = 0;
    while i < bytes.len()
        invariant
            i <= bytes@.len(),
            out@ == old(out)@ + bytes@.subrange(0, i as int),
        decreases bytes@.len() - i,
    {
        out.push(bytes[i]);
        i = i + 1;
        assert(bytes@.subrange(0, i as int) =~= bytes@.subrange(0, i - 1) + seq![bytes@[i - 1]]);
    }
    assert(bytes@.subrange(0, i as int) =~= bytes@);
}

impl Memo {
    /// Reads a `Memo` account: the discriminator, then the fields.
    pub fn try_deserialize(buf: &[u8]) -> (r: Result<Memo, ErrorCode>)
        ensures
            match decode_memo(buf@) {
                Ok(m) => r matches Ok(memo) && memo@ == m,
                Err(e) => r == Err::<Memo, ErrorCode>(e),
            },
    {
        let disc = memo_discriminator_bytes();
        if let Some(e) = check_discriminator(buf, &disc) {
            return Err(e);
        }
        let data = slice_subrange(buf, 8, buf.len());
        match borsh_read_string(data) {
            None => Err(ErrorCode::AccountDidNotDeserialize),
            Some((memo, rest)) => match borsh_read_u64(rest) {
                None => Err(ErrorCode::AccountDidNotDeserialize),
                Some(timestamp) => Ok(Memo { memo, timestamp }),
            },
        }
    }

    /// Writes a `Memo` account: the discriminator, then the fields. Fails
    /// when the text is too long for a Borsh string.
    pub fn try_serialize(&self) -> (r: Result<Vec<u8>, ErrorCode>)
        ensures
            borsh_string_encodable(self.memo@) ==> (r matches Ok(b) && b@ == encode_memo(self@)),
            !borsh_string_encodable(self.memo@) ==> r == Err::<Vec<u8>, ErrorCode>(
                ErrorCode::AccountDidNotSerialize,
            ),
    {
        let disc = memo_discriminator_bytes();
        let mut out: Vec<u8> = Vec::new();
        append_bytes(&mut out, disc.as_slice());
        match borsh_write_string(&self.memo) {
            None => Err(ErrorCode::AccountDidNotSerialize),
            Some(text) => {
                append_bytes(&mut out, text.as_slice());
                let timestamp = u64_to_le_bytes(self.timestamp);
                append_bytes(&mut out, timestamp.as_slice());
                Ok(out)
            },
        }
    }
}

impl MemoCounter {
    /// Reads a `MemoCounter` account: the discriminator, then the count.
    pub fn try_deserialize(buf: &[u8]) -> (r: Result<MemoCounter, ErrorCode>)
        ensures
            match decode_memo_counter(buf@) {
                Ok(c) => r == Ok::<MemoCounter, ErrorCode>(MemoCounter { count: c }),
                Err(e) => r == Err::<MemoCounter, ErrorCode>(e),
            },
    {
        let disc = memo_counter_discriminator_bytes();
        if let Some(e) = check_discriminator(buf, &disc) {
            return Err(e);
        }
        let data = slice_subrange(buf, 8, buf.len());
        match borsh_read_u64(data) {
            None => Err(ErrorCode::AccountDidNotDeserialize),
            Some(count) => {
                assert(data@.subrange(0, 8) =~= buf@.subrange(8, 16));
                Ok(MemoCounter { count })
            },
        }
    }

    /// Writes a `MemoCounter` account: the discriminator, then the count.
    pub fn try_serialize(&self) -> (r: Vec<u8>)
        ensures
            r@ == encode_memo_counter(self.count),
    {
        let disc = memo_counter_discriminator_bytes();
        let mut out: Vec<u8> = Vec::new();
        append_bytes(&mut out, disc.as_slice());
        let count = u64_to_le_bytes(self.count);
        append_bytes(&mut out, count.as_slice());
        out
    }
}

} // verus!
