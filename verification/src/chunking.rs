//! Window geometry: fixed-size windows that start every half window, so that
//! consecutive windows overlap by half and every byte between the first and
//! the last half window lies in two of them.

use vstd::prelude::*;

verus! {

/// Length of a window, in bytes.
pub const CHUNK_SIZE: usize = 64;

/// Distance between the starts of consecutive windows: half a window.
pub const STRIDE: usize = 32;

/// Consecutive windows overlap by half: two strides make one window.
pub proof fn lemma_stride_is_half_window()
    ensures
        2 * STRIDE == CHUNK_SIZE,
{
}

/// Whether a window of a buffer of `len` bytes starts at `offset`: the
/// offset is a multiple of the stride and a full window fits behind it.
pub open spec fn is_window_start(len: nat, offset: int) -> bool {
    &&& 0 <= offset
    &&& offset % (STRIDE as int) == 0
    &&& offset + CHUNK_SIZE <= len
}

/// The window of `buffer` that starts at `offset`.
pub open spec fn window(buffer: Seq<u8>, offset: int) -> Seq<u8>
    recommends
        is_window_start(buffer.len(), offset),
{
    buffer.subrange(offset, offset + CHUNK_SIZE)
}

/// How many windows a buffer of `len` bytes has. A tail shorter than a
/// window is not one.
pub open spec fn window_count(len: nat) -> nat {
    if len < CHUNK_SIZE {
        0
    } else {
        ((len - CHUNK_SIZE) / (STRIDE as int) + 1) as nat
    }
}

/// The starts of all windows of a buffer of `len` bytes, in ascending order.
pub open spec fn window_starts(len: nat) -> Seq<int> {
    Seq::new(window_count(len), |i: int| i * STRIDE)
}

/// `window_starts` lists exactly the window starts: each of its elements is
/// one, and each window start is the element at index `offset / STRIDE`.
pub proof fn lemma_window_starts_exact(len: nat)
    ensures
        forall|i: int|
            0 <= i < window_count(len) ==> is_window_start(len, #[trigger] window_starts(len)[i]),
        forall|offset: int| #[trigger]
            is_window_start(len, offset) ==> {
                &&& 0 <= offset / (STRIDE as int) < window_count(len)
                &&& window_starts(len)[offset / (STRIDE as int)] == offset
            },
{
    assert forall|i: int| 0 <= i < window_count(len) implies is_window_start(
        len,
        #[trigger] window_starts(len)[i],
    ) by {
        lemma_start_of_index(len, i);
    }
    assert forall|offset: int| #[trigger] is_window_start(len, offset) implies {
        &&& 0 <= offset / (STRIDE as int) < window_count(len)
        &&& window_starts(len)[offset / (STRIDE as int)] == offset
    } by {
        lemma_index_of_start(len, offset);
    }
}

/// The `i`-th window of a buffer starts at `i * STRIDE`, and a full window
/// fits there.
pub proof fn lemma_start_of_index(len: nat, i: int)
    requires
        0 <= i < window_count(len),
    ensures
        window_starts(len)[i] == i * STRIDE,
        is_window_start(len, i * STRIDE),
{
    assert(len >= CHUNK_SIZE);
    assert(i <= (len - 64) / 32);
    assert(32 * ((len - 64) / 32) <= len - 64);
    assert((i * 32) % 32 == 0) by (nonlinear_arith);
}

/// A window start `offset` is the start of window number `offset / STRIDE`.
pub proof fn lemma_index_of_start(len: nat, offset: int)
    requires
        is_window_start(len, offset),
    ensures
        0 <= offset / (STRIDE as int) < window_count(len),
        (offset / (STRIDE as int)) * STRIDE == offset,
        window_starts(len)[offset / (STRIDE as int)] == offset,
{
    let i = offset / 32;
    assert(i * 32 == offset);
    assert(i <= (len - 64) / 32) by (nonlinear_arith)
        requires
            i * 32 <= len - 64,
    ;
}

/// Window starts ascend strictly with the window number.
pub proof fn lemma_window_starts_ascend(len: nat, i: int, j: int)
    requires
        0 <= i < j < window_count(len),
    ensures
        window_starts(len)[i] < window_starts(len)[j],
{
}

/// A window has exactly `CHUNK_SIZE` bytes, and they are the bytes of the
/// buffer from the window's start on.
pub proof fn lemma_window_bytes(buffer: Seq<u8>, offset: int)
    requires
        is_window_start(buffer.len(), offset),
    ensures
        window(buffer, offset).len() == CHUNK_SIZE,
        forall|j: int|
            0 <= j < CHUNK_SIZE ==> #[trigger] window(buffer, offset)[j] == buffer[offset + j],
{
}

/// Half overlap: a byte that lies neither in the first half window nor
/// behind the first half of the last window lies in two windows, the ones
/// that start at the two multiples of the stride at or just below it.
pub proof fn lemma_every_byte_in_two_windows(len: nat, position: int)
    requires
        len >= CHUNK_SIZE,
        STRIDE <= position < window_starts(len).last() + STRIDE,
    ensures
        ({
            let upper = (position / (STRIDE as int)) * STRIDE;
            let lower = upper - STRIDE;
            &&& is_window_start(len, lower)
            &&& is_window_start(len, upper)
            &&& lower <= position < lower + CHUNK_SIZE
            &&& upper <= position < upper + CHUNK_SIZE
        }),
{
    let n = window_count(len);
    lemma_start_of_index(len, n - 1);
    let q = position / 32;
    assert(1 <= q <= n - 1);
    assert((q * 32) % 32 == 0) by (nonlinear_arith);
    assert(((q - 1) * 32) % 32 == 0) by (nonlinear_arith);
    assert((q - 1) * 32 == q * 32 - 32) by (nonlinear_arith);
    assert(q * 32 == 32 * q) by (nonlinear_arith);
}

/// A stretch of `CHUNK_SIZE + STRIDE - 1` bytes or more that lies in the
/// buffer holds a whole window, wherever it starts: the window at the first
/// multiple of the stride at or behind its start.
pub proof fn lemma_long_stretch_holds_window(len: nat, start: int, stretch: int)
    requires
        0 <= start,
        stretch >= CHUNK_SIZE + STRIDE - 1,
        start + stretch <= len,
    ensures
        ({
            let offset = ((start + STRIDE - 1) / (STRIDE as int)) * STRIDE;
            &&& is_window_start(len, offset)
            &&& start <= offset
            &&& offset + CHUNK_SIZE <= start + stretch
        }),
{
    let q = (start + 31) / 32;
    assert((q * 32) % 32 == 0) by (nonlinear_arith);
    assert(q * 32 == 32 * q) by (nonlinear_arith);
}

} // verus!
