//! Window digests: the two 256-bit hash functions an engine can be built
//! with, and the lowercase hexadecimal rendering under which digests are
//! stored and looked up.

use sha2::{Digest, Sha256};
use vstd::prelude::*;
use vstd::string::*;

verus! {

/// Number of bytes in a digest of either hash function.
pub const DIGEST_LEN: usize = 32;

/// Number of characters in the hexadecimal rendering of a digest.
pub const DIGEST_HEX_LEN: usize = 64;

/// The BLAKE3 hash of `data`, as the `blake3` crate computes it.
pub uninterp spec fn blake3_hash(data: Seq<u8>) -> Seq<u8>;

/// The SHA-256 hash of `data`, as the `sha2` crate computes it.
pub uninterp spec fn sha256_hash(data: Seq<u8>) -> Seq<u8>;

/// The sixteen lowercase hexadecimal digits, in order of value.
pub open spec fn hex_alphabet() -> Seq<char> {
    seq!['0', '1', '2', '3', '4', '5', '6', '7', '8', '9', 'a', 'b', 'c', 'd', 'e', 'f']
}

/// The value of the `i`-th hexadecimal digit of `bytes`: byte `i / 2`, its
/// high half at even `i` and its low half at odd `i`.
pub open spec fn nibble(bytes: Seq<u8>, i: int) -> int {
    if i % 2 == 0 {
        bytes[i / 2] as int / 16
    } else {
        bytes[i / 2] as int % 16
    }
}

/// Lowercase hexadecimal rendering of `bytes`: two digits per byte, the high
/// half first.
pub open spec fn hex_string(bytes: Seq<u8>) -> Seq<char> {
    Seq::new(2 * bytes.len(), |i: int| hex_alphabet()[nibble(bytes, i)])
}

/// The lookup key of a window: the hexadecimal rendering of its BLAKE3 hash
/// when `use_blake3` is set, of its SHA-256 hash otherwise.
pub open spec fn digest_hex(use_blake3: bool, data: Seq<u8>) -> Seq<char> {
    if use_blake3 {
        hex_string(blake3_hash(data))
    } else {
        hex_string(sha256_hash(data))
    }
}

/// Trusted: calls `blake3::hash` and copies the 32 bytes of the `Hash` it
/// returns. The contract names that result and states its length, which the
/// crate fixes as `OUT_LEN`.
#[verifier::external_body]
fn blake3_bytes(data: &[u8]) -> (out: Vec<u8>)
    ensures
        out@ == blake3_hash(data@),
        out@.len() == DIGEST_LEN,
{
    blake3::hash(data).as_bytes().to_vec()
}

/// Trusted: calls `Digest::digest` of the `sha2` crate on `Sha256` and copies
/// the output array. The contract names that result and states its length,
/// which the crate fixes as 32 bytes for this hasher.
#[verifier::external_body]
fn sha256_bytes(data: &[u8]) -> (out: Vec<u8>)
    ensures
        out@ == sha256_hash(data@),
        out@.len() == DIGEST_LEN,
{
    Sha256::digest(data).to_vec()
}

/// Renders `bytes` in lowercase hexadecimal: two digits per byte, the high
/// half first.
pub fn hex_encode(bytes: &[u8]) -> (text: String)
    ensures
        text@ == hex_string(bytes@),
{
    let digits = "0123456789abcdef";
    proof {
        reveal_strlit("0123456789abcdef");
    }
    let mut text = String::new();
    let mut i: usize = 0;
    while i < bytes.len()
        invariant
            i <= bytes@.len(),
            digits@ == hex_alphabet(),
            digits.is_ascii(),
            text@ == hex_string(bytes@.take(i as int)),
        decreases bytes@.len() - i,
    {
        let byte = bytes[i];
        let high = (byte / 16) as usize;
        let low = (byte % 16) as usize;
        text.append(digits.substring_ascii(high, high + 1));
        text.append(digits.substring_ascii(low, low + 1));
        proof {
            let done = bytes@.take(i as int);
            let next = bytes@.take(i + 1);
            assert forall|j: int| 0 <= j < 2 * i implies nibble(next, j) == nibble(done, j) by {
                assert(next[j / 2] == done[j / 2]);
            }
            assert(text@ =~= hex_string(next));
        }
        i += 1;
    }
    assert(bytes@.take(bytes@.len() as int) =~= bytes@);
    text
}

/// Hashes `data` with the selected function and renders the digest as the
/// lowercase hexadecimal lookup key.
pub fn hash_hex(use_blake3: bool, data: &[u8]) -> (key: String)
    ensures
        key@ == digest_hex(use_blake3, data@),
        key@.len() == DIGEST_HEX_LEN,
        is_lower_hex(key@),
{
    let raw = if use_blake3 {
        blake3_bytes(data)
    } else {
        sha256_bytes(data)
    };
    proof {
        lemma_hex_string_shape(raw@);
    }
    hex_encode(raw.as_slice())
}

/// Whether every character of `text` is a lowercase hexadecimal digit.
pub open spec fn is_lower_hex(text: Seq<char>) -> bool {
    forall|i: int| 0 <= i < text.len() ==> hex_alphabet().contains(#[trigger] text[i])
}

/// A rendering has two characters per byte, all of them lowercase
/// hexadecimal digits.
pub proof fn lemma_hex_string_shape(bytes: Seq<u8>)
    ensures
        hex_string(bytes).len() == 2 * bytes.len(),
        is_lower_hex(hex_string(bytes)),
{
    let text = hex_string(bytes);
    assert forall|i: int| 0 <= i < text.len() implies hex_alphabet().contains(
        #[trigger] text[i],
    ) by {
        assert(0 <= nibble(bytes, i) < 16);
    }
}

/// Hashing is a function of the window and the selected hash function:
/// equal windows have equal lookup keys.
pub proof fn lemma_digest_deterministic(use_blake3: bool, first: Seq<u8>, second: Seq<u8>)
    requires
        first =~= second,
    ensures
        digest_hex(use_blake3, first) == digest_hex(use_blake3, second),
{
}

/// The rendering loses nothing: byte strings with the same rendering are
/// the same.
pub proof fn lemma_hex_string_injective(a: Seq<u8>, b: Seq<u8>)
    requires
        hex_string(a) == hex_string(b),
    ensures
        a == b,
{
    assert(2 * a.len() == hex_string(a).len());
    assert(2 * b.len() == hex_string(b).len());
    assert forall|k: int| 0 <= k < a.len() implies a[k] == b[k] by {
        let hi_a = nibble(a, 2 * k);
        let lo_a = nibble(a, 2 * k + 1);
        let hi_b = nibble(b, 2 * k);
        let lo_b = nibble(b, 2 * k + 1);
        assert(hex_string(a)[2 * k] == hex_alphabet()[hi_a]);
        assert(hex_string(b)[2 * k] == hex_alphabet()[hi_b]);
        assert(hex_string(a)[2 * k + 1] == hex_alphabet()[lo_a]);
        assert(hex_string(b)[2 * k + 1] == hex_alphabet()[lo_b]);
        lemma_alphabet_distinct(hi_a, hi_b);
        lemma_alphabet_distinct(lo_a, lo_b);
    }
    assert(a =~= b);
}

/// No digit occurs twice in the alphabet.
proof fn lemma_alphabet_distinct(m: int, n: int)
    requires
        0 <= m < 16,
        0 <= n < 16,
        hex_alphabet()[m] == hex_alphabet()[n],
    ensures
        m == n,
{
}

} // verus!
