//! Ledger core: the append-only sequence of sealed entries, its hash chain,
//! and the verification passes that make tampering evident.
use crate::digest::{
    bytes_eq, clone_bytes, combine, combine_spec, genesis_root, genesis_root_spec,
};
use vstd::prelude::*;

verus! {

/// Outcome classification carried by a sealed entry.
#[derive(Clone, Copy, PartialEq, Eq, Structural, Debug)]
pub enum EntryType {
    Standard,
    Refusal,
}

/// The unit of recorded work to be sealed, produced externally. `timestamp_micros`
/// holds the capture time in whole microseconds; callers that measure in
/// fractional seconds convert at the boundary.
pub struct FrameCapture {
    pub scene_id: String,
    pub payload: Vec<u8>,
    pub entry_type: EntryType,
    pub timestamp_micros: u64,
}

/// A sealed, immutable record. `frame_commitment` is the digest of the frame
/// payload; `merkle_root` chains that commitment to the previous entry's root.
/// The committed bytes are the payload alone, so identical payload sequences
/// always reproduce identical root sequences, whatever their timestamps.
pub struct LedgerEntry {
    pub sequence_id: u64,
    pub entry_type: EntryType,
    pub timestamp_micros: u64,
    pub scene_id: String,
    pub frame_commitment: Vec<u8>,
    pub merkle_root: Vec<u8>,
}

/// The append-only aggregate of sealed entries, in sequence order.
///
/// Appends go through an exclusive `&mut` receiver, so Rust's borrow rules
/// are the mutual-exclusion discipline: at most one append runs at a time,
/// and no two entries can chain to the same predecessor. Callers sharing a
/// ledger across threads wrap it in a lock and keep the append inside the
/// critical section. Reads (verification, iteration by index) take `&self`
/// and see a snapshot of the length at the moment they start; entries
/// appended later need not be visible to a pass already under way.
pub struct WindchillLedger {
    pub entries: Vec<LedgerEntry>,
}

/// A single entry's own invariant: a present scene identity and digests of
/// the fixed 32-byte size.
pub open spec fn entry_wf(e: LedgerEntry) -> bool {
    &&& e.scene_id@.len() > 0
    &&& e.frame_commitment@.len() == 32
    &&& e.merkle_root@.len() == 32
}

/// The root an entry at position `i` must chain to: the predecessor's root,
/// or the genesis constant for the first entry.
pub open spec fn prev_root(entries: Seq<LedgerEntry>, i: int) -> Seq<u8> {
    if i == 0 {
        genesis_root_spec()
    } else {
        entries[i - 1].merkle_root@
    }
}

/// The chain rule at position `i`: the stored root is the combination of the
/// stored commitment with the predecessor's root.
pub open spec fn chain_ok_at(entries: Seq<LedgerEntry>, i: int) -> bool {
    entries[i].merkle_root@ == combine_spec(entries[i].frame_commitment@, prev_root(entries, i))
}

/// The whole chain recomputes: every stored root obeys the chain rule.
pub open spec fn chain_valid(entries: Seq<LedgerEntry>) -> bool {
    forall|i: int| 0 <= i < entries.len() ==> chain_ok_at(entries, i)
}

/// The root that the next appended entry must chain to.
pub open spec fn last_root(entries: Seq<LedgerEntry>) -> Seq<u8> {
    if entries.len() == 0 {
        genesis_root_spec()
    } else {
        entries.last().merkle_root@
    }
}

/// Ledger invariant: every entry is well formed, sequence ids are exactly the
/// positions (contiguous from 0, no gaps), and the hash chain recomputes.
pub open spec fn ledger_wf(l: WindchillLedger) -> bool {
    &&& forall|i: int| 0 <= i < l.entries@.len() ==> entry_wf(#[trigger] l.entries@[i])
    &&& forall|i: int|
        0 <= i < l.entries@.len() ==> (#[trigger] l.entries@[i]).sequence_id == i
    &&& chain_valid(l.entries@)
}

/// Value equality of entries up to the views of their byte fields.
pub open spec fn entry_equal(a: LedgerEntry, b: LedgerEntry) -> bool {
    &&& a.sequence_id == b.sequence_id
    &&& a.entry_type == b.entry_type
    &&& a.timestamp_micros == b.timestamp_micros
    &&& a.scene_id@ == b.scene_id@
    &&& a.frame_commitment@ == b.frame_commitment@
    &&& a.merkle_root@ == b.merkle_root@
}

/// A verification pass found the stored ledger inconsistent, or was asked
/// about an entry the ledger does not hold.
#[derive(Debug)]
pub enum IntegrityError {
    /// The stored root at `sequence_id` is not what the chain rule recomputes.
    RootMismatch { sequence_id: u64, expected: Vec<u8>, actual: Vec<u8> },
    /// No entry carries this sequence id.
    UnknownSequence { sequence_id: u64 },
    /// A reloaded entry at this position breaks the ledger invariant: an
    /// empty scene identity, a digest of the wrong size, or a sequence id
    /// that does not match its position.
    MalformedEntry { sequence_id: u64 },
}

impl WindchillLedger {
    /// Create an empty ledger.
    pub fn new() -> (r: WindchillLedger)
        ensures
            r.entries@.len() == 0,
            ledger_wf(r),
    {
        WindchillLedger { entries: Vec::new() }
    }

    /// Reconstruct a ledger from a previously persisted entry sequence,
    /// re-verifying everything on load: each entry's own invariant, the
    /// contiguity of sequence ids, and the whole hash chain from genesis.
    /// Reports the earliest offending position.
    pub fn from_entries(entries: Vec<LedgerEntry>) -> (r: Result<WindchillLedger, IntegrityError>)
        ensures
            r matches Ok(l) ==> ledger_wf(l) && l.entries@ == entries@,
            r is Ok <==> ((forall|i: int|
                0 <= i < entries@.len() ==> entry_wf(#[trigger] entries@[i])
                    && entries@[i].sequence_id == i) && chain_valid(entries@)),
            r matches Err(IntegrityError::MalformedEntry { sequence_id }) ==> (sequence_id
                < entries@.len() && !(entry_wf(entries@[sequence_id as int])
                && entries@[sequence_id as int].sequence_id == sequence_id) && (forall|j: int|
                0 <= j < sequence_id ==> entry_wf(#[trigger] entries@[j])
                    && entries@[j].sequence_id == j)),
            r matches Err(IntegrityError::RootMismatch { sequence_id, expected, actual }) ==> (
            sequence_id < entries@.len() && !chain_ok_at(entries@, sequence_id as int)
                && (forall|j: int| 0 <= j < sequence_id ==> chain_ok_at(entries@, j))
                && expected@ == combine_spec(
                entries@[sequence_id as int].frame_commitment@,
                prev_root(entries@, sequence_id as int),
            ) && actual@ == entries@[sequence_id as int].merkle_root@),
            r matches Err(e) ==> !(e matches IntegrityError::UnknownSequence { .. }),
    {
        let mut i: usize = 0;
        while i < entries.len()
            invariant
                i <= entries@.len(),
                forall|j: int|
                    0 <= j < i ==> entry_wf(#[trigger] entries@[j]) && entries@[j].sequence_id
                        == j,
            decreases entries@.len() - i,
        {
            let e = &entries[i];
            if e.scene_id.as_str().is_empty() || e.frame_commitment.len() != 32
                || e.merkle_root.len() != 32 || e.sequence_id != i as u64 {
                return Err(IntegrityError::MalformedEntry { sequence_id: i as u64 });
            }
            i = i + 1;
        }
        let l = WindchillLedger { entries };
        match l.verify_chain() {
            Ok(()) => Ok(l),
            Err(e) => Err(e),
        }
    }

    /// Number of sealed entries.
    pub fn len(&self) -> (n: usize)
        ensures
            n == self.entries@.len(),
    {
        self.entries.len()
    }

    /// Read access to a single entry by its sequence id.
    pub fn entry_at(&self, sequence_id: u64) -> (r: Option<&LedgerEntry>)
        ensures
            r is Some <==> sequence_id < self.entries@.len(),
            r matches Some(e) ==> *e == self.entries@[sequence_id as int],
    {
        let n = self.entries.len();
        if sequence_id < n as u64 {
            Some(&self.entries[sequence_id as usize])
        } else {
            None
        }
    }

    /// Append a sealed entry. This is the only mutation the ledger offers:
    /// the new entry chains to the previous root, takes the next sequence id,
    /// and every existing entry is left exactly as it was.
    pub fn append(
        &mut self,
        frame_commitment: Vec<u8>,
        scene_id: String,
        entry_type: EntryType,
        timestamp_micros: u64,
    ) -> (r: LedgerEntry)
        requires
            ledger_wf(*old(self)),
            frame_commitment@.len() == 32,
            scene_id@.len() > 0,
            old(self).entries@.len() < u64::MAX,
        ensures
            ledger_wf(*final(self)),
            final(self).entries@.len() == old(self).entries@.len() + 1,
            forall|i: int|
                0 <= i < old(self).entries@.len() ==> final(self).entries@[i] == old(
                    self,
                ).entries@[i],
            ({
                let e = final(self).entries@.last();
                &&& e.sequence_id == old(self).entries@.len()
                &&& e.entry_type == entry_type
                &&& e.timestamp_micros == timestamp_micros
                &&& e.scene_id == scene_id
                &&& e.frame_commitment == frame_commitment
                &&& e.merkle_root@ == combine_spec(frame_commitment@, last_root(old(self).entries@))
                &&& entry_equal(r, e)
            }),
    {
        let n = self.entries.len();
        let root = if n == 0 {
            let g = genesis_root();
            combine(&frame_commitment, &g)
        } else {
            combine(&frame_commitment, &self.entries[n - 1].merkle_root)
        };
        let returned = LedgerEntry {
            sequence_id: n as u64,
            entry_type,
            timestamp_micros,
            scene_id: scene_id.clone(),
            frame_commitment: clone_bytes(&frame_commitment),
            merkle_root: clone_bytes(&root),
        };
        let stored = LedgerEntry {
            sequence_id: n as u64,
            entry_type,
            timestamp_micros,
            scene_id,
            frame_commitment,
            merkle_root: root,
        };
        self.entries.push(stored);
        proof {
            let es = self.entries@;
            let m = es.len() - 1;
            assert(forall|i: int| 0 <= i < m ==> es[i] == old(self).entries@[i]);
            assert(forall|i: int| 0 <= i < m ==> prev_root(es, i) == prev_root(
                old(self).entries@,
                i,
            ));
            assert forall|i: int| 0 <= i < m implies chain_ok_at(es, i) by {
                assert(chain_ok_at(old(self).entries@, i));
                assert(es[i] == old(self).entries@[i]);
                assert(prev_root(es, i) == prev_root(old(self).entries@, i));
            }
            assert(chain_ok_at(es, m));
        }
        returned
    }

    /// Recompute every entry's expected root from the stored commitments and
    /// the chain rule, in one linear pass from genesis. Succeeds exactly when
    /// the whole chain recomputes; otherwise reports the earliest sequence id
    /// whose stored root diverges, with the expected and the stored root.
    pub fn verify_chain(&self) -> (r: Result<(), IntegrityError>)
        ensures
            r is Ok <==> chain_valid(self.entries@),
            r matches Err(e) ==> (e matches IntegrityError::RootMismatch {
                sequence_id,
                expected,
                actual,
            } && sequence_id < self.entries@.len() && !chain_ok_at(
                self.entries@,
                sequence_id as int,
            ) && (forall|j: int| 0 <= j < sequence_id ==> chain_ok_at(self.entries@, j))
                && expected@ == combine_spec(
                self.entries@[sequence_id as int].frame_commitment@,
                prev_root(self.entries@, sequence_id as int),
            ) && actual@ == self.entries@[sequence_id as int].merkle_root@),
    {
        let genesis = genesis_root();
        let mut i: usize = 0;
        while i < self.entries.len()
            invariant
                i <= self.entries@.len(),
                genesis@ == genesis_root_spec(),
                forall|j: int| 0 <= j < i ==> chain_ok_at(self.entries@, j),
            decreases self.entries@.len() - i,
        {
            let prev: &Vec<u8> = if i == 0 {
                &genesis
            } else {
                &self.entries[i - 1].merkle_root
            };
            let expected = combine(&self.entries[i].frame_commitment, prev);
            if !bytes_eq(&expected, &self.entries[i].merkle_root) {
                let actual = clone_bytes(&self.entries[i].merkle_root);
                proof {
                    assert(!chain_ok_at(self.entries@, i as int));
                }
                return Err(
                    IntegrityError::RootMismatch { sequence_id: i as u64, expected, actual },
                );
            }
            i = i + 1;
        }
        Ok(())
    }

    /// Spot-check a single entry against its immediate predecessor only, in
    /// constant time with respect to the ledger length. A success here does
    /// not prove the whole ledger is untampered: a mid-chain entry could be
    /// replaced consistently with a forged predecessor, and only
    /// `verify_chain`, which recomputes from genesis, rules that out.
    pub fn verify_entry(&self, sequence_id: u64) -> (r: Result<(), IntegrityError>)
        ensures
            r is Ok <==> (sequence_id < self.entries@.len() && chain_ok_at(
                self.entries@,
                sequence_id as int,
            )),
            r matches Err(IntegrityError::UnknownSequence { sequence_id: s }) ==> (s == sequence_id
                && sequence_id >= self.entries@.len()),
            r matches Err(IntegrityError::RootMismatch { sequence_id: s, expected, actual }) ==> (s
                == sequence_id && sequence_id < self.entries@.len() && !chain_ok_at(
                self.entries@,
                sequence_id as int,
            ) && expected@ == combine_spec(
                self.entries@[sequence_id as int].frame_commitment@,
                prev_root(self.entries@, sequence_id as int),
            ) && actual@ == self.entries@[sequence_id as int].merkle_root@),
    {
        let n = self.entries.len();
        if sequence_id >= n as u64 {
            return Err(IntegrityError::UnknownSequence { sequence_id });
        }
        let i = sequence_id as usize;
        let prev: Vec<u8> = if i == 0 {
            genesis_root()
        } else {
            clone_bytes(&self.entries[i - 1].merkle_root)
        };
        let expected = combine(&self.entries[i].frame_commitment, &prev);
        if bytes_eq(&expected, &self.entries[i].merkle_root) {
            Ok(())
        } else {
            let actual = clone_bytes(&self.entries[i].merkle_root);
            Err(IntegrityError::RootMismatch { sequence_id, expected, actual })
        }
    }
}

/// Law: a well-formed ledger always passes chain verification. `new` makes a
/// well-formed ledger and sealing preserves well-formedness, so any ledger
/// built solely through sealing satisfies `chain_valid`, which is exactly
/// when `verify_chain` returns success.
pub proof fn lemma_wf_ledger_verifies(l: WindchillLedger)
    requires
        ledger_wf(l),
    ensures
        chain_valid(l.entries@),
{
}

/// Law: if a stored root is mutated out of band — the ledgers agree
/// everywhere except that entry `k` keeps its commitment and changes its
/// root — the chain rule fails at `k` and holds at every earlier position,
/// so `verify_chain` reports `k` as the first divergent sequence id.
pub proof fn lemma_root_mutation_detected(l: WindchillLedger, t: WindchillLedger, k: int)
    requires
        ledger_wf(l),
        t.entries@.len() == l.entries@.len(),
        0 <= k < l.entries@.len(),
        forall|j: int| 0 <= j < l.entries@.len() && j != k ==> t.entries@[j] == l.entries@[j],
        t.entries@[k].frame_commitment@ == l.entries@[k].frame_commitment@,
        t.entries@[k].merkle_root@ != l.entries@[k].merkle_root@,
    ensures
        !chain_ok_at(t.entries@, k),
        forall|j: int| 0 <= j < k ==> chain_ok_at(t.entries@, j),
        !chain_valid(t.entries@),
{
    assert(prev_root(t.entries@, k) == prev_root(l.entries@, k));
    assert(chain_ok_at(l.entries@, k));
    assert forall|j: int| 0 <= j < k implies chain_ok_at(t.entries@, j) by {
        assert(chain_ok_at(l.entries@, j));
        assert(t.entries@[j] == l.entries@[j]);
        assert(prev_root(t.entries@, j) == prev_root(l.entries@, j));
    }
    assert(!chain_valid(t.entries@)) by {
        assert(!chain_ok_at(t.entries@, k));
    }
}

/// Law: sealing the identical sequence of frames twice yields identical root
/// sequences. The roots of a valid chain are determined by the frame
/// commitments alone — no timestamp or other hidden input enters the chain —
/// and each commitment is itself a function of the payload bytes alone.
pub proof fn lemma_chain_determinism(a: Seq<LedgerEntry>, b: Seq<LedgerEntry>)
    requires
        chain_valid(a),
        chain_valid(b),
        a.len() == b.len(),
        forall|i: int| 0 <= i < a.len() ==> a[i].frame_commitment@ == b[i].frame_commitment@,
    ensures
        forall|i: int| 0 <= i < a.len() ==> a[i].merkle_root@ == b[i].merkle_root@,
{
    lemma_chain_determinism_upto(a, b, a.len() as int);
}

proof fn lemma_chain_determinism_upto(a: Seq<LedgerEntry>, b: Seq<LedgerEntry>, n: int)
    requires
        chain_valid(a),
        chain_valid(b),
        a.len() == b.len(),
        0 <= n <= a.len(),
        forall|i: int| 0 <= i < a.len() ==> a[i].frame_commitment@ == b[i].frame_commitment@,
    ensures
        forall|i: int| 0 <= i < n ==> a[i].merkle_root@ == b[i].merkle_root@,
    decreases n,
{
    if n > 0 {
        lemma_chain_determinism_upto(a, b, n - 1);
        assert(chain_ok_at(a, n - 1));
        assert(chain_ok_at(b, n - 1));
        assert(prev_root(a, n - 1) == prev_root(b, n - 1));
    }
}

} // verus!
