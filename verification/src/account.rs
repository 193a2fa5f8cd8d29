//! The byte layout of the memo program's accounts: an eight-byte
//! discriminator followed by the Borsh encoding of the account's fields.
use vstd::bytes::*;
use vstd::prelude::*;
use vstd::slice::slice_subrange;
use vstd::utf8::*;

verus! {

broadcast use {encode_utf8_valid_utf8, encode_utf8_decode_utf8};

/// The program errors that the account layer and the `store_memo`
/// instruction can raise, numbered as the program reports them.
#[derive(Clone, Copy, Debug, PartialEq, Eq, Structural)]
pub enum ErrorCode {
    InstructionDidNotDeserialize,
    ConstraintRaw,
    AccountDiscriminatorNotFound,
    AccountDiscriminatorMismatch,
    AccountDidNotDeserialize,
    AccountDidNotSerialize,
}

pub open spec fn error_number(e: ErrorCode) -> u32 {
    match e {
        ErrorCode::InstructionDidNotDeserialize => 102,
        ErrorCode::ConstraintRaw => 2003,
        ErrorCode::AccountDiscriminatorNotFound => 3001,
        ErrorCode::AccountDiscriminatorMismatch => 3002,
        ErrorCode::AccountDidNotDeserialize => 3003,
        ErrorCode::AccountDidNotSerialize => 3004,
    }
}

pub open spec fn error_message(e: ErrorCode) -> Seq<char> {
    match e {
        ErrorCode::InstructionDidNotDeserialize => "The program could not deserialize the given instruction"@,
        ErrorCode::ConstraintRaw => "A raw constraint was violated"@,
        ErrorCode::AccountDiscriminatorNotFound => "No discriminator was found on the account"@,
        ErrorCode::AccountDiscriminatorMismatch => "Account discriminator did not match what was expected"@,
        ErrorCode::AccountDidNotDeserialize => "Failed to deserialize the account"@,
        ErrorCode::AccountDidNotSerialize => "Failed to serialize the account"@,
    }
}

impl ErrorCode {
    pub fn number(&self) -> (n: u32)
        ensures
            n == error_number(*self),
    {
        match self {
            ErrorCode::InstructionDidNotDeserialize => 102,
            ErrorCode::ConstraintRaw => 2003,
            ErrorCode::AccountDiscriminatorNotFound => 3001,
            ErrorCode::AccountDiscriminatorMismatch => 3002,
            ErrorCode::AccountDidNotDeserialize => 3003,
            ErrorCode::AccountDidNotSerialize => 3004,
        }
    }

    pub fn message(&self) -> (m: String)
        ensures
            m@ == error_message(*self),
    {
        match self {
            ErrorCode::InstructionDidNotDeserialize => "The program could not deserialize the given instruction".to_owned(),
            ErrorCode::ConstraintRaw => "A raw constraint was violated".to_owned(),
            ErrorCode::AccountDiscriminatorNotFound => "No discriminator was found on the account".to_owned(),
            ErrorCode::AccountDiscriminatorMismatch => "Account discriminator did not match what was expected".to_owned(),
            ErrorCode::AccountDidNotDeserialize => "Failed to deserialize the account".to_owned(),
            ErrorCode::AccountDidNotSerialize => "Failed to serialize the account".to_owned(),
        }
    }
}

// ---------------------------------------------------------------------
// Borsh encoding of the field types

/// The length prefix of a Borsh string at the front of `b`.
pub open spec fn borsh_string_len(b: Seq<u8>) -> nat {
    spec_u32_from_le_bytes(b.subrange(0, 4)) as nat
}

/// Where a Borsh string at the front of `b` ends.
pub open spec fn borsh_string_end(b: Seq<u8>) -> int {
    4 + borsh_string_len(b) as int
}

/// `b` starts with a length prefix, that many bytes follow, and they are UTF-8.
pub open spec fn borsh_string_readable(b: Seq<u8>) -> bool {
    &&& b.len() >= 4
    &&& borsh_string_end(b) <= b.len()
    &&& valid_utf8(b.subrange(4, borsh_string_end(b)))
}

/// The characters of the Borsh string at the front of `b`.
pub open spec fn borsh_string_value(b: Seq<u8>) -> Seq<char> {
    decode_utf8(b.subrange(4, borsh_string_end(b)))
}

/// The Borsh encoding of a string: its UTF-8 length as a little-endian
/// `u32`, then its UTF-8 bytes.
pub open spec fn borsh_string_bytes(s: Seq<char>) -> Seq<u8> {
    spec_u32_to_le_bytes(encode_utf8(s).len() as u32) + encode_utf8(s)
}

/// A string has a Borsh encoding when its UTF-8 length fits in a `u32`.
pub open spec fn borsh_string_encodable(s: Seq<char>) -> bool {
    encode_utf8(s).len() <= u32::MAX
}

/// `<String as borsh::BorshDeserialize>::deserialize`: reads a `u32`
/// little-endian length, that many bytes, and checks that they are UTF-8;
/// fails when the bytes run out or are not UTF-8. The slice returned is
/// what follows the string.
#[verifier::external_body]
pub(crate) fn borsh_read_string<'a>(buf: &'a [u8]) -> (r: Option<(String, &'a [u8])>)
    ensures
        r is Some <==> borsh_string_readable(buf@),
        r matches Some((s, rest)) ==> s@ == borsh_string_value(buf@) && rest@ == buf@.subrange(
            borsh_string_end(buf@),
            buf@.len() as int,
        ),
{
    let mut rest: &'a [u8] = buf;
    match <String as borsh::BorshDeserialize>::deserialize(&mut rest) {
        Ok(s) => Some((s, rest)),
        Err(_) => None,
    }
}

/// `borsh::to_vec` on a `String`: the UTF-8 length as a little-endian `u32`
/// followed by the UTF-8 bytes; fails when the length does not fit in a `u32`.
#[verifier::external_body]
pub(crate) fn borsh_write_string(s: &String) -> (r: Option<Vec<u8>>)
    ensures
        r is Some <==> borsh_string_encodable(s@),
        r matches Some(b) ==> b@ == borsh_string_bytes(s@),
{
    borsh::to_vec(s).ok()
}

/// Borsh reads a `u64` as the next eight bytes, little-endian.
pub(crate) fn borsh_read_u64(buf: &[u8]) -> (r: Option<u64>)
    ensures
        r is Some <==> buf@.len() >= 8,
        r matches Some(v) ==> v == spec_u64_from_le_bytes(buf@.subrange(0, 8)),
{
    if buf.len() < 8 {
        None
    } else {
        Some(u64_from_le_bytes(slice_subrange(buf, 0, 8)))
    }
}

} // verus!
