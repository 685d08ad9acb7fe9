//! The scan engine: exact data match by cryptographic fingerprints.
//!
//! An engine owns a fingerprint store and the choice of hash function, both
//! fixed when it is built. Scanning and the pre-filter take the engine by
//! `&`, so any number of callers may scan at once; adding fingerprints takes
//! it by `&mut`.

use crate::chunking::{CHUNK_SIZE, STRIDE};
use crate::digest::{digest_hex, hash_hex, is_lower_hex, DIGEST_HEX_LEN};
use crate::prefilter::{
    informative_count, lemma_count_bounds, lemma_count_push, passes_prefilter, MIN_INFORMATIVE,
    MIN_SCAN_SIZE, SPACE,
};
use crate::scan::{lemma_matches_among_ends, lemma_matches_among_step, MatchView, Scan};
use crate::severity::Severity;
use crate::store::{FingerprintStore, Records};
use vstd::prelude::*;

verus! {

/// A window of a scanned buffer whose digest the store knows.
///
/// A match owns its strings: it refers neither to the buffer nor to the
/// store.
#[derive(Debug, Clone)]
pub struct DlpMatch {
    /// Identifier of the rule that the fingerprint belongs to.
    pub rule_id: String,
    /// Severity stored with the fingerprint when it was looked up.
    pub severity: Severity,
    /// The digest that was found in the store.
    pub matched_hash: String,
    /// Byte offset in the buffer at which the matching window starts.
    pub offset: usize,
}

impl View for DlpMatch {
    type V = MatchView;

    open spec fn view(&self) -> MatchView {
        MatchView {
            rule_id: self.rule_id@,
            severity: self.severity,
            matched_hash: self.matched_hash@,
            offset: self.offset as nat,
        }
    }
}

/// The views of a sequence of matches, in the same order.
pub open spec fn match_views(matches: Seq<DlpMatch>) -> Seq<MatchView> {
    matches.map_values(|found: DlpMatch| found@)
}

/// Appending a match appends its view.
proof fn lemma_match_views_push(matches: Seq<DlpMatch>, found: DlpMatch)
    ensures
        match_views(matches.push(found)) == match_views(matches).push(found@),
{
    assert(match_views(matches.push(found)) =~= match_views(matches).push(found@));
}

/// Digest under which the first built-in fingerprint is stored.
pub const BUILTIN_SSN_DIGEST: &'static str = "deadbeef0000";

/// Rule identifier of the first built-in fingerprint.
pub const BUILTIN_SSN_RULE: &'static str = "TEST_SSN";

/// Digest under which the second built-in fingerprint is stored.
pub const BUILTIN_CCN_DIGEST: &'static str = "cafebabe0000";

/// Rule identifier of the second built-in fingerprint.
pub const BUILTIN_CCN_RULE: &'static str = "TEST_CCN";

/// The store after the built-in fingerprints have been added to `store`.
pub open spec fn with_builtin_fingerprints(store: Records) -> Records {
    store.insert(BUILTIN_SSN_DIGEST@, (BUILTIN_SSN_RULE@, Severity::High)).insert(
        BUILTIN_CCN_DIGEST@,
        (BUILTIN_CCN_RULE@, Severity::Critical),
    )
}

/// Exact-data-match engine over a store of fingerprints.
pub struct DlpEngine {
    fingerprints: FingerprintStore,
    use_blake3: bool,
}

impl DlpEngine {
    /// The records of the engine's store.
    pub closed spec fn fingerprints(&self) -> Records {
        self.fingerprints@
    }

    /// Whether the engine hashes with BLAKE3; it hashes with SHA-256
    /// otherwise.
    pub closed spec fn uses_blake3(&self) -> bool {
        self.use_blake3
    }

    /// The scan of `buffer` that the engine performs: against its own
    /// records and with its own hash function.
    pub open spec fn scan_of(&self, buffer: Seq<u8>) -> Scan {
        Scan { buffer, store: self.fingerprints(), use_blake3: self.uses_blake3() }
    }

    /// The lookup key that the engine computes for `chunk`.
    pub open spec fn digest_of(&self, chunk: Seq<u8>) -> Seq<char> {
        digest_hex(self.uses_blake3(), chunk)
    }

    /// An engine with an empty store that hashes with BLAKE3.
    pub fn new() -> (engine: DlpEngine)
        ensures
            engine.fingerprints() == Records::empty(),
            engine.uses_blake3(),
    {
        DlpEngine { fingerprints: FingerprintStore::new(), use_blake3: true }
    }

    /// An engine with an empty store that hashes with SHA-256, for
    /// deployments that must use a standardized hash function.
    pub fn with_sha256() -> (engine: DlpEngine)
        ensures
            engine.fingerprints() == Records::empty(),
            !engine.uses_blake3(),
    {
        DlpEngine { fingerprints: FingerprintStore::new(), use_blake3: false }
    }

    /// Adds the built-in fingerprints to the store, replacing what was
    /// stored under their digests. The policy path is not read.
    pub fn load_fingerprints_from_policy(&mut self, _policy_path: &str)
        ensures
            final(self).fingerprints() == with_builtin_fingerprints(old(self).fingerprints()),
            final(self).uses_blake3() == old(self).uses_blake3(),
    {
        self.add_fingerprint(BUILTIN_SSN_DIGEST, BUILTIN_SSN_RULE.to_owned(), Severity::High);
        self.add_fingerprint(BUILTIN_CCN_DIGEST, BUILTIN_CCN_RULE.to_owned(), Severity::Critical);
    }

    /// Adds the fingerprint `hash` for the rule `rule_id`, replacing the
    /// record that `hash` had. The digest is taken as it is: a digest that
    /// the engine's hash function cannot produce is stored and never found.
    pub fn add_fingerprint(&mut self, hash: &str, rule_id: String, severity: Severity)
        ensures
            final(self).fingerprints() == old(self).fingerprints().insert(
                hash@,
                (rule_id@, severity),
            ),
            final(self).uses_blake3() == old(self).uses_blake3(),
    {
        self.fingerprints.insert(hash, rule_id, severity);
    }

    /// The number of distinct digests in the store.
    pub fn fingerprint_count(&self) -> (n: usize)
        ensures
            self.fingerprints().dom().finite(),
            n == self.fingerprints().len(),
    {
        self.fingerprints.count()
    }

    /// The lookup key of `chunk`: its digest under the engine's hash
    /// function, in lowercase hexadecimal.
    pub fn hash_chunk(&self, chunk: &[u8]) -> (digest: String)
        ensures
            digest@ == self.digest_of(chunk@),
            digest@.len() == DIGEST_HEX_LEN,
            is_lower_hex(digest@),
    {
        hash_hex(self.use_blake3, chunk)
    }

    /// Looks `digest` up for the window that starts at `offset`: a match
    /// with the stored record if the store knows the digest, nothing
    /// otherwise.
    pub fn match_window(&self, digest: String, offset: usize) -> (found: Option<DlpMatch>)
        ensures
            found is Some <==> self.fingerprints().contains_key(digest@),
            found matches Some(hit) ==> hit@ == (MatchView {
                rule_id: self.fingerprints()[digest@].0,
                severity: self.fingerprints()[digest@].1,
                matched_hash: digest@,
                offset: offset as nat,
            }),
    {
        match self.fingerprints.lookup(digest.as_str()) {
            Some(record) => Some(
                DlpMatch { rule_id: record.0, severity: record.1, matched_hash: digest, offset },
            ),
            None => None,
        }
    }

    /// Whether `buffer` is worth scanning: it has at least `MIN_SCAN_SIZE`
    /// bytes, of which at least `MIN_INFORMATIVE` are neither zero bytes nor
    /// spaces.
    pub fn should_scan(&self, buffer: &[u8]) -> (scan: bool)
        ensures
            scan == passes_prefilter(buffer@),
            buffer@.len() < MIN_SCAN_SIZE ==> !scan,
    {
        let len = buffer.len();
        if len < MIN_SCAN_SIZE {
            return false;
        }
        let mut informative: usize = 0;
        let mut i: usize = 0;
        while i < len
            invariant
                len == buffer@.len(),
                len >= MIN_SCAN_SIZE,
                i <= len,
                informative == informative_count(buffer@.take(i as int)),
                informative < MIN_INFORMATIVE,
            decreases len - i,
        {
            let byte = buffer[i];
            proof {
                lemma_count_push(buffer@.take(i as int), byte);
                assert(buffer@.take(i + 1) =~= buffer@.take(i as int).push(byte));
            }
            if byte != 0 && byte != SPACE {
                informative += 1;
                if informative >= MIN_INFORMATIVE {
                    proof {
                        lemma_count_bounds(buffer@, i + 1);
                    }
                    return true;
                }
            }
            i += 1;
        }
        assert(buffer@.take(len as int) =~= buffer@);
        false
    }

    /// Scans `buffer` for windows whose digest the store knows.
    ///
    /// A buffer that `should_scan` rejects gives no match and is not hashed.
    /// Otherwise every window is hashed and looked up, and each hit gives a
    /// match at the window's start, in ascending order of offset.
    pub fn scan_buffer(&self, buffer: &[u8]) -> (matches: Vec<DlpMatch>)
        ensures
            match_views(matches@) == self.scan_of(buffer@).matches(),
            !passes_prefilter(buffer@) ==> matches@.len() == 0,
            buffer@.len() < MIN_SCAN_SIZE ==> matches@.len() == 0,
    {
        let mut matches: Vec<DlpMatch> = Vec::new();
        if !self.should_scan(buffer) {
            return matches;
        }
        let len = buffer.len();
        let last_start = len - CHUNK_SIZE;
        let mut offset: usize = 0;
        let ghost scan = self.scan_of(buffer@);
        proof {
            lemma_matches_among_ends(scan);
        }
        while offset <= last_start
            invariant
                len == buffer@.len(),
                last_start == len - CHUNK_SIZE,
                offset % STRIDE == 0,
                offset <= last_start + STRIDE,
                scan == self.scan_of(buffer@),
                match_views(matches@) == scan.matches_among(offset as int / (STRIDE as int)),
            decreases last_start + STRIDE - offset,
        {
            proof {
                lemma_matches_among_step(scan, offset as int / (STRIDE as int));
            }
            let chunk = &buffer[offset..offset + CHUNK_SIZE];
            let digest = self.hash_chunk(chunk);
            match self.match_window(digest, offset) {
                Some(hit) => {
                    proof {
                        lemma_match_views_push(matches@, hit);
                    }
                    matches.push(hit);
                },
                None => {},
            }
            offset += STRIDE;
        }
        matches
    }
}

impl Default for DlpEngine {
    fn default() -> (engine: DlpEngine)
        ensures
            engine.fingerprints() == Records::empty(),
            engine.uses_blake3(),
    {
        DlpEngine::new()
    }
}

} // verus!
