//! Content hashes: SHA-256, written out in lowercase hexadecimal.

use sha2::Digest;
use vstd::prelude::*;

verus! {

/// The SHA-256 digest of `data`, as the `sha2` crate computes it.
pub uninterp spec fn sha256(data: Seq<u8>) -> Seq<u8>;

/// The lowercase hexadecimal digit of value `nibble`.
pub open spec fn hex_digit(nibble: int) -> char {
    seq!['0', '1', '2', '3', '4', '5', '6', '7', '8', '9', 'a', 'b', 'c', 'd', 'e', 'f'][nibble]
}

/// `bytes` in lowercase hexadecimal: two digits for each byte, the high one first.
pub open spec fn hex_lower(bytes: Seq<u8>) -> Seq<char>
    decreases bytes.len(),
{
    if bytes.len() == 0 {
        Seq::empty()
    } else {
        hex_lower(bytes.drop_last()).push(hex_digit(bytes.last() as int / 16)).push(
            hex_digit(bytes.last() as int % 16),
        )
    }
}

/// Computes the SHA-256 digest of `data` with `sha2::Sha256::digest`. The
/// digest is a function of the data alone and has 32 bytes; what it is, is
/// left to `sha2`.
#[verifier::external_body]
pub(crate) fn sha256_digest(data: &[u8]) -> (digest: Vec<u8>)
    ensures
        digest@ == sha256(data@),
        digest@.len() == 32,
{
    sha2::Sha256::digest(data).to_vec()
}

/// Writes `bytes` in hexadecimal with `hex::encode`, which gives each byte two
/// lowercase digits, the high one first.
#[verifier::external_body]
pub(crate) fn hex_encode(bytes: &[u8]) -> (text: String)
    ensures
        text@ == hex_lower(bytes@),
{
    hex::encode(bytes)
}

/// Hexadecimal takes two characters for each byte.
pub proof fn lemma_hex_lower_len(bytes: Seq<u8>)
    ensures
        hex_lower(bytes).len() == 2 * bytes.len(),
    decreases bytes.len(),
{
    if bytes.len() > 0 {
        lemma_hex_lower_len(bytes.drop_last());
    }
}

/// The SHA-256 digest of `data` in lowercase hexadecimal: 64 characters.
pub fn hex_digest(data: &[u8]) -> (hash: String)
    ensures
        hash@ == hex_lower(sha256(data@)),
        hash@.len() == 64,
{
    let digest = sha256_digest(data);
    proof {
        lemma_hex_lower_len(digest@);
    }
    hex_encode(digest.as_slice())
}

/// The hash under which content is filed: the SHA-256 digest of `content`, in
/// lowercase hexadecimal.
pub fn file_hash(content: &[u8]) -> (hash: String)
    ensures
        hash@ == hex_lower(sha256(content@)),
        hash@.len() == 64,
{
    hex_digest(content)
}

} // verus!
