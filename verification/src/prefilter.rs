//! The pre-scan heuristic: buffers that are too short, or that hold little
//! besides zero bytes and spaces, are not worth hashing.

use vstd::prelude::*;

verus! {

/// Shortest buffer that is scanned.
pub const MIN_SCAN_SIZE: usize = 128;

/// Fewest informative bytes that a scanned buffer holds.
pub const MIN_INFORMATIVE: usize = MIN_SCAN_SIZE / 2;

/// The space character.
pub const SPACE: u8 = 0x20;

/// A byte is informative unless it is a zero byte or a space.
pub open spec fn is_informative(byte: u8) -> bool {
    byte != 0 && byte != SPACE
}

/// `is_informative` as a predicate value.
pub open spec fn informative() -> spec_fn(u8) -> bool {
    |byte: u8| is_informative(byte)
}

/// The number of informative bytes in `buffer`.
pub open spec fn informative_count(buffer: Seq<u8>) -> nat {
    buffer.filter(informative()).len()
}

/// Whether `buffer` is scanned: it has the minimum length and at least
/// `MIN_INFORMATIVE` informative bytes.
pub open spec fn passes_prefilter(buffer: Seq<u8>) -> bool {
    buffer.len() >= MIN_SCAN_SIZE && informative_count(buffer) >= MIN_INFORMATIVE
}

/// Appending a byte raises the count by one if the byte is informative and
/// leaves it as it was otherwise.
pub proof fn lemma_count_push(prefix: Seq<u8>, byte: u8)
    ensures
        informative_count(prefix.push(byte)) == informative_count(prefix) + if is_informative(
            byte,
        ) {
            1nat
        } else {
            0nat
        },
{
    reveal(Seq::filter);
    let longer = prefix.push(byte);
    assert(longer.drop_last() =~= prefix);
}

/// A buffer has at least as many informative bytes as any of its prefixes,
/// and no more than it has bytes.
pub proof fn lemma_count_bounds(buffer: Seq<u8>, n: int)
    requires
        0 <= n <= buffer.len(),
    ensures
        informative_count(buffer.take(n)) <= informative_count(buffer) <= buffer.len(),
{
    assert(buffer =~= buffer.take(n) + buffer.skip(n));
    Seq::filter_distributes_over_add(buffer.take(n), buffer.skip(n), informative());
    buffer.lemma_filter_len(informative());
}

/// A buffer shorter than `MIN_SCAN_SIZE` is never scanned.
pub proof fn lemma_small_buffer_rejected(buffer: Seq<u8>)
    requires
        buffer.len() < MIN_SCAN_SIZE,
    ensures
        !passes_prefilter(buffer),
{
}

/// A buffer of zero bytes and spaces only has no informative byte, so it is
/// not scanned, however long it is.
pub proof fn lemma_padding_rejected(buffer: Seq<u8>)
    requires
        forall|i: int| 0 <= i < buffer.len() ==> buffer[i] == 0 || buffer[i] == SPACE,
    ensures
        informative_count(buffer) == 0,
        !passes_prefilter(buffer),
    decreases buffer.len(),
{
    reveal(Seq::filter);
    if buffer.len() > 0 {
        lemma_padding_rejected(buffer.drop_last());
    }
}

} // verus!
