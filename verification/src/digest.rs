//! SHA-1 digests and their hexadecimal notation.

use sha1::Digest;
use vstd::prelude::*;

verus! {

/// The SHA-1 digest of `data`.
pub uninterp spec fn sha1_of(data: Seq<u8>) -> Seq<u8>;

/// The lowercase hexadecimal digit of a value below sixteen.
pub open spec fn hex_char(d: int) -> char {
    if d < 10 {
        (48 + d) as char
    } else {
        (87 + d) as char
    }
}

/// Two lowercase hexadecimal digits for each byte, the high half first.
pub open spec fn hex_of(data: Seq<u8>) -> Seq<char> {
    Seq::new(
        2 * data.len(),
        |i: int|
            if i % 2 == 0 {
                hex_char(data[i / 2] as int / 16)
            } else {
                hex_char(data[i / 2] as int % 16)
            },
    )
}

/// The SHA-1 digest of `data` in hexadecimal: forty lowercase digits.
pub open spec fn sha1_hex(data: Seq<u8>) -> Seq<char> {
    hex_of(sha1_of(data))
}

/// `sha1::Sha1`: a hasher that is fed `data` and finalized yields the twenty
/// bytes of its SHA-1 digest.
#[verifier::external_body]
pub(crate) fn sha1_digest(data: &[u8]) -> (res: Vec<u8>)
    ensures
        res@ == sha1_of(data@),
        res@.len() == 20,
{
    let mut hasher = sha1::Sha1::new();
    hasher.update(data);
    hasher.finalize().to_vec()
}

/// `hex::encode` writes two lowercase hexadecimal digits for each byte.
#[verifier::external_body]
pub(crate) fn hex_encode(data: &[u8]) -> (res: String)
    requires
        2 * data@.len() <= usize::MAX,
    ensures
        res@ == hex_of(data@),
{
    hex::encode(data)
}

/// The hexadecimal SHA-1 digest of `data`.
pub fn sha1_hex_of(data: &[u8]) -> (res: String)
    ensures
        res@ == sha1_hex(data@),
        res@.len() == 40,
{
    let digest = sha1_digest(data);
    hex_encode(digest.as_slice())
}

pub fn hex_char_of(d: u8) -> (c: char)
    requires
        d < 16,
    ensures
        c == hex_char(d as int),
{
    if d < 10 {
        (48 + d) as char
    } else {
        (87 + d) as char
    }
}

/// Hexadecimal notation is ASCII.
pub proof fn lemma_hex_is_ascii(data: Seq<u8>)
    ensures
        forall|i: int| 0 <= i < hex_of(data).len() ==> (#[trigger] hex_of(data)[i] as u32) < 128,
{
}

/// The notation of bytes: two digits out of `0123456789abcdef` for each, whose values
/// give the byte.
pub proof fn law_hexadecimal(data: Seq<u8>)
    ensures
        hex_of(data).len() == 2 * data.len(),
        forall|i: int|
            0 <= i < data.len() ==> {
                &&& #[trigger] hex_of(data)[2 * i] == "0123456789abcdef"@[data[i] as int / 16]
                &&& hex_of(data)[2 * i + 1] == "0123456789abcdef"@[data[i] as int % 16]
            },
        forall|bytes: Seq<u8>|
            sha1_hex(bytes).len() == 2 * sha1_of(bytes).len() && #[trigger] sha1_hex(bytes)
                == hex_of(sha1_of(bytes)),
{
    reveal_strlit("0123456789abcdef");
    assert forall|i: int| 0 <= i < data.len() implies {
        &&& #[trigger] hex_of(data)[2 * i] == "0123456789abcdef"@[data[i] as int / 16]
        &&& hex_of(data)[2 * i + 1] == "0123456789abcdef"@[data[i] as int % 16]
    } by {
        assert((2 * i) / 2 == i && (2 * i) % 2 == 0);
        assert((2 * i + 1) / 2 == i && (2 * i + 1) % 2 == 1);
        lemma_hex_digits(data[i] as int / 16);
        lemma_hex_digits(data[i] as int % 16);
    }
}

proof fn lemma_hex_digits(d: int)
    requires
        0 <= d < 16,
    ensures
        hex_char(d) == "0123456789abcdef"@[d],
{
    reveal_strlit("0123456789abcdef");
}

}
