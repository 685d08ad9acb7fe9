//! What a scan finds, as a mathematical statement: the windows of the buffer
//! whose digest the store knows, in ascending order of their start, each with
//! the record that the store holds for it.

use crate::chunking::{
    is_window_start, lemma_index_of_start, lemma_start_of_index, window, window_count,
    window_starts, STRIDE,
};
use crate::digest::digest_hex;
use crate::prefilter::{passes_prefilter, MIN_SCAN_SIZE};
use crate::severity::Severity;
use crate::store::Records;
use vstd::prelude::*;

verus! {

/// A match as a mathematical value: strings stand by their characters.
pub struct MatchView {
    /// Identifier of the rule that the fingerprint belongs to.
    pub rule_id: Seq<char>,
    /// Severity stored with the fingerprint.
    pub severity: Severity,
    /// The digest that was found in the store.
    pub matched_hash: Seq<char>,
    /// Byte offset in the buffer at which the matching window starts.
    pub offset: nat,
}

/// What a scan works on: the buffer, the records of the store at the time
/// of the call, and the hash function of the engine.
pub struct Scan {
    /// The bytes that are scanned.
    pub buffer: Seq<u8>,
    /// The records of the store.
    pub store: Records,
    /// Whether windows are hashed with BLAKE3, else with SHA-256.
    pub use_blake3: bool,
}

impl Scan {
    /// Whether a window of the buffer starts at `offset`.
    pub open spec fn starts_window(self, offset: int) -> bool {
        is_window_start(self.buffer.len(), offset)
    }

    /// The key under which the window at `offset` is looked up.
    pub open spec fn lookup_key(self, offset: int) -> Seq<char> {
        digest_hex(self.use_blake3, window(self.buffer, offset))
    }

    /// Whether the store knows the digest of the window at `offset`.
    pub open spec fn is_hit(self, offset: int) -> bool {
        self.store.contains_key(self.lookup_key(offset))
    }

    /// `is_hit` as a predicate on offsets.
    pub open spec fn hit_at(self) -> spec_fn(int) -> bool {
        |offset: int| self.is_hit(offset)
    }

    /// The match that a hit at `offset` gives: the record that the store
    /// holds under the window's digest, that digest, and the offset itself.
    pub open spec fn match_at(self, offset: int) -> MatchView {
        let key = self.lookup_key(offset);
        MatchView {
            rule_id: self.store[key].0,
            severity: self.store[key].1,
            matched_hash: key,
            offset: offset as nat,
        }
    }

    /// `match_at` as a function on offsets.
    pub open spec fn match_of(self) -> spec_fn(int) -> MatchView {
        |offset: int| self.match_at(offset)
    }

    /// The starts of the windows that hit, in ascending order.
    pub open spec fn hit_offsets(self) -> Seq<int> {
        window_starts(self.buffer.len()).filter(self.hit_at())
    }

    /// The result of the scan: nothing if the buffer does not pass the
    /// pre-filter, else one match per window that hits, in ascending order
    /// of offset. Windows with equal digests at different offsets all give
    /// a match.
    pub open spec fn matches(self) -> Seq<MatchView> {
        if passes_prefilter(self.buffer) {
            self.hit_offsets().map_values(self.match_of())
        } else {
            Seq::empty()
        }
    }

    /// The hits among the first `n` windows.
    spec fn hits_among(self, n: int) -> Seq<int> {
        window_starts(self.buffer.len()).take(n).filter(self.hit_at())
    }

    /// The matches among the first `n` windows of a buffer that is scanned:
    /// what a scan has found when it has looked at that many windows.
    pub closed spec fn matches_among(self, n: int) -> Seq<MatchView> {
        self.hits_among(n).map_values(self.match_of())
    }
}

/// Taking one more window into account appends its start to the hits if it
/// hits and changes nothing otherwise.
proof fn lemma_hits_among_step(scan: Scan, n: int)
    requires
        0 <= n < window_count(scan.buffer.len()),
    ensures
        scan.hits_among(n + 1) == if scan.is_hit(n * STRIDE) {
            scan.hits_among(n).push(n * STRIDE)
        } else {
            scan.hits_among(n)
        },
{
    reveal(Seq::filter);
    let starts = window_starts(scan.buffer.len());
    assert(starts.take(n + 1).drop_last() =~= starts.take(n));
}

/// Among no windows there is no hit, and the hits among all windows are
/// the hits of the buffer.
proof fn lemma_hits_among_ends(scan: Scan)
    ensures
        scan.hits_among(0) == Seq::<int>::empty(),
        scan.hits_among(window_count(scan.buffer.len()) as int) == scan.hit_offsets(),
{
    reveal(Seq::filter);
    let starts = window_starts(scan.buffer.len());
    assert(starts.take(window_count(scan.buffer.len()) as int) =~= starts);
}

/// What the hits among the first `n` windows are: starts of windows below
/// the `n`-th that hit, in strictly ascending order, none left out.
proof fn lemma_hits_among_exact(scan: Scan, n: int)
    requires
        0 <= n <= window_count(scan.buffer.len()),
    ensures
        forall|i: int|
            0 <= i < scan.hits_among(n).len() ==> {
                &&& 0 <= #[trigger] scan.hits_among(n)[i] < n * STRIDE
                &&& scan.hits_among(n)[i] % (STRIDE as int) == 0
                &&& scan.is_hit(scan.hits_among(n)[i])
            },
        forall|i: int, j: int|
            0 <= i < j < scan.hits_among(n).len() ==> scan.hits_among(n)[i] < scan.hits_among(
                n,
            )[j],
        forall|offset: int|
            0 <= offset < n * STRIDE && offset % (STRIDE as int) == 0 && #[trigger] scan.is_hit(
                offset,
            ) ==> scan.hits_among(n).contains(offset),
    decreases n,
{
    if n == 0 {
        lemma_hits_among_ends(scan);
    } else {
        let before = scan.hits_among(n - 1);
        let hits = scan.hits_among(n);
        let newest = (n - 1) * STRIDE;
        lemma_hits_among_exact(scan, n - 1);
        lemma_hits_among_step(scan, n - 1);
        assert(newest % (STRIDE as int) == 0) by (nonlinear_arith)
            requires
                newest == (n - 1) * 32,
        ;
        assert(newest + STRIDE == n * STRIDE) by (nonlinear_arith)
            requires
                newest == (n - 1) * 32,
        ;
        assert forall|offset: int|
            0 <= offset < n * STRIDE && offset % (STRIDE as int) == 0 && #[trigger] scan.is_hit(
                offset,
            ) implies hits.contains(offset) by {
            if offset < newest {
                let i = choose|i: int| 0 <= i < before.len() && before[i] == offset;
                assert(hits[i] == offset);
            } else {
                assert(hits[hits.len() - 1] == newest);
            }
        }
    }
}

/// A multiple of the stride below `window_count(len) * STRIDE` is a window
/// start.
proof fn lemma_below_count_fits(len: nat, offset: int)
    requires
        0 <= offset < window_count(len) * STRIDE,
        offset % (STRIDE as int) == 0,
    ensures
        is_window_start(len, offset),
{
    let n = window_count(len) as int;
    let i = offset / 32;
    assert(i < n) by (nonlinear_arith)
        requires
            32 * i < n * 32,
    ;
    lemma_start_of_index(len, i);
    assert(i * 32 == 32 * i) by (nonlinear_arith);
}

/// Taking one more window into account appends its match if it hits and
/// changes nothing otherwise.
pub proof fn lemma_matches_among_step(scan: Scan, n: int)
    requires
        0 <= n < window_count(scan.buffer.len()),
    ensures
        scan.matches_among(n + 1) == if scan.is_hit(n * STRIDE) {
            scan.matches_among(n).push(scan.match_at(n * STRIDE))
        } else {
            scan.matches_among(n)
        },
{
    lemma_hits_among_step(scan, n);
    if scan.is_hit(n * STRIDE) {
        assert(scan.matches_among(n + 1) =~= scan.matches_among(n).push(
            scan.match_at(n * STRIDE),
        ));
    }
}

/// Among no windows there is no match, and the matches among all windows
/// of a buffer that is scanned are the result of the scan.
pub proof fn lemma_matches_among_ends(scan: Scan)
    ensures
        scan.matches_among(0) == Seq::<MatchView>::empty(),
        passes_prefilter(scan.buffer) ==> scan.matches_among(
            window_count(scan.buffer.len()) as int,
        ) == scan.matches(),
{
    lemma_hits_among_ends(scan);
}

/// The hits of a buffer are exactly the window starts whose window the
/// store knows, each once and in ascending order.
pub proof fn lemma_hit_offsets_exact(scan: Scan)
    ensures
        forall|i: int|
            0 <= i < scan.hit_offsets().len() ==> {
                &&& scan.starts_window(#[trigger] scan.hit_offsets()[i])
                &&& scan.is_hit(scan.hit_offsets()[i])
            },
        forall|i: int, j: int|
            0 <= i < j < scan.hit_offsets().len() ==> scan.hit_offsets()[i]
                < scan.hit_offsets()[j],
        forall|offset: int|
            scan.starts_window(offset) && #[trigger] scan.is_hit(offset)
                ==> scan.hit_offsets().contains(offset),
{
    let len = scan.buffer.len();
    let n = window_count(len) as int;
    let hits = scan.hit_offsets();
    lemma_hits_among_ends(scan);
    lemma_hits_among_exact(scan, n);
    assert forall|i: int| 0 <= i < hits.len() implies scan.starts_window(#[trigger] hits[i]) by {
        lemma_below_count_fits(len, hits[i]);
    }
    assert forall|offset: int|
        scan.starts_window(offset) && #[trigger] scan.is_hit(offset) implies hits.contains(
        offset,
    ) by {
        lemma_index_of_start(len, offset);
        assert(offset < n * STRIDE) by (nonlinear_arith)
            requires
                0 <= offset / 32 < n,
                (offset / 32) * 32 == offset,
        ;
    }
}

/// Nothing is found in a buffer that the pre-filter rejects; in particular
/// nothing is found in a buffer shorter than `MIN_SCAN_SIZE`.
pub proof fn lemma_scan_rejected_is_empty(scan: Scan)
    ensures
        !passes_prefilter(scan.buffer) ==> scan.matches() == Seq::<MatchView>::empty(),
        scan.buffer.len() < MIN_SCAN_SIZE ==> scan.matches() == Seq::<MatchView>::empty(),
{
}

/// Every match is true: it stands at the start of a window of a buffer that
/// passes the pre-filter, carries the digest of that window, and carries
/// the record that the store holds under that digest.
pub proof fn lemma_scan_sound(scan: Scan, i: int)
    requires
        0 <= i < scan.matches().len(),
    ensures
        passes_prefilter(scan.buffer),
        scan.starts_window(scan.matches()[i].offset as int),
        scan.matches()[i].matched_hash == scan.lookup_key(scan.matches()[i].offset as int),
        scan.store.contains_key(scan.matches()[i].matched_hash),
        scan.store[scan.matches()[i].matched_hash] == (
            scan.matches()[i].rule_id,
            scan.matches()[i].severity,
        ),
{
    lemma_hit_offsets_exact(scan);
}

/// Exact match: if the buffer is scanned at all, every window at a multiple
/// of the stride whose digest the store knows is reported, at its own
/// offset and with the rule and severity stored under its digest.
pub proof fn lemma_scan_finds(scan: Scan, offset: int)
    requires
        passes_prefilter(scan.buffer),
        scan.starts_window(offset),
        scan.store.contains_key(scan.lookup_key(offset)),
    ensures
        exists|i: int|
            0 <= i < scan.matches().len() && #[trigger] scan.matches()[i] == scan.match_at(offset),
        scan.match_at(offset).offset == offset,
        scan.match_at(offset).matched_hash == scan.lookup_key(offset),
        scan.match_at(offset).rule_id == scan.store[scan.lookup_key(offset)].0,
        scan.match_at(offset).severity == scan.store[scan.lookup_key(offset)].1,
{
    lemma_hit_offsets_exact(scan);
    let hits = scan.hit_offsets();
    assert(scan.is_hit(offset));
    let i = choose|i: int| 0 <= i < hits.len() && hits[i] == offset;
    assert(scan.matches()[i] == scan.match_at(offset));
}

/// Matches come in strictly ascending order of offset, so no window is
/// reported twice.
pub proof fn lemma_scan_ordered(scan: Scan, i: int, j: int)
    requires
        0 <= i < j < scan.matches().len(),
    ensures
        scan.matches()[i].offset < scan.matches()[j].offset,
{
    lemma_hit_offsets_exact(scan);
}

/// No false positives: if the store knows the digest of no window of the
/// buffer, nothing is found.
pub proof fn lemma_scan_empty_without_hits(scan: Scan)
    requires
        forall|offset: int| scan.starts_window(offset) ==> !#[trigger] scan.is_hit(offset),
    ensures
        scan.matches() == Seq::<MatchView>::empty(),
{
    lemma_hit_offsets_exact(scan);
    let hits = scan.hit_offsets();
    if hits.len() > 0 {
        assert(scan.is_hit(hits[0]));
    }
}

/// An empty store gives no match, whatever the buffer.
pub proof fn lemma_scan_empty_store(scan: Scan)
    requires
        scan.store == Records::empty(),
    ensures
        scan.matches() == Seq::<MatchView>::empty(),
{
    lemma_scan_empty_without_hits(scan);
}

/// Several patterns: two windows of a scanned buffer, the first starting
/// before the second, whose digests the store knows are both reported,
/// each at its own offset and with its own record, the first before the
/// second.
pub proof fn lemma_scan_finds_both(scan: Scan, first: int, second: int)
    requires
        passes_prefilter(scan.buffer),
        scan.starts_window(first),
        scan.starts_window(second),
        first < second,
        scan.store.contains_key(scan.lookup_key(first)),
        scan.store.contains_key(scan.lookup_key(second)),
    ensures
        exists|i: int, j: int|
            {
                &&& 0 <= i < j < scan.matches().len()
                &&& #[trigger] scan.matches()[i] == scan.match_at(first)
                &&& #[trigger] scan.matches()[j] == scan.match_at(second)
            },
{
    lemma_hit_offsets_exact(scan);
    let hits = scan.hit_offsets();
    assert(scan.is_hit(first));
    assert(scan.is_hit(second));
    let i = choose|i: int| 0 <= i < hits.len() && hits[i] == first;
    let j = choose|j: int| 0 <= j < hits.len() && hits[j] == second;
    assert(i < j) by {
        if j < i {
            assert(hits[j] < hits[i]);
        }
    }
    assert(scan.matches()[i] == scan.match_at(first));
    assert(scan.matches()[j] == scan.match_at(second));
}

/// The scan `scan` after the record `(rule_id, severity)` has been inserted
/// under the digest of the window at `offset`.
pub open spec fn after_insert(
    scan: Scan,
    offset: int,
    rule_id: Seq<char>,
    severity: Severity,
) -> Scan {
    Scan {
        buffer: scan.buffer,
        store: scan.store.insert(scan.lookup_key(offset), (rule_id, severity)),
        use_blake3: scan.use_blake3,
    }
}

/// Scanning reads the store as it is: a record inserted under the digest of
/// a window of a scanned buffer is found by the next scan at that window,
/// with the rule and severity of that insert, whatever the store held
/// before.
pub proof fn lemma_scan_after_insert(scan: Scan, offset: int, rule_id: Seq<char>, severity: Severity)
    requires
        passes_prefilter(scan.buffer),
        scan.starts_window(offset),
    ensures
        exists|i: int|
            {
                &&& 0 <= i < after_insert(scan, offset, rule_id, severity).matches().len()
                &&& #[trigger] after_insert(scan, offset, rule_id, severity).matches()[i] == (
                MatchView {
                    rule_id,
                    severity,
                    matched_hash: scan.lookup_key(offset),
                    offset: offset as nat,
                })
            },
{
    lemma_scan_finds(after_insert(scan, offset, rule_id, severity), offset);
}

/// The number of matches is at most the number of windows.
pub proof fn lemma_scan_len_bound(scan: Scan)
    ensures
        scan.matches().len() <= window_count(scan.buffer.len()),
{
    window_starts(scan.buffer.len()).lemma_filter_len(scan.hit_at());
}

} // verus!
