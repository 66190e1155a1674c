//! Seal orchestrator: validates the scene identity, commits the frame
//! payload, and delegates the chained append to the ledger core.
use crate::digest::{combine_spec, commit, commit_spec};
use crate::ledger::{
    entry_equal, last_root, ledger_wf, FrameCapture, LedgerEntry, WindchillLedger,
};
use vstd::prelude::*;

verus! {

/// A seal request was rejected before any ledger mutation.
#[derive(Clone, Copy, PartialEq, Eq, Structural, Debug)]
pub enum SealError {
    /// The frame arrived with an empty scene identity.
    IdentityBreach,
}

/// Seal a capture frame into the ledger, enforcing scene identity.
///
/// A frame with an empty `scene_id` is rejected with `IdentityBreach` strictly
/// before any mutation: a rejected seal never advances a sequence id nor
/// touches the hash chain. Otherwise the payload is committed, the entry is
/// chained onto the previous root, and a copy of the finalized entry is
/// returned.
pub fn seal_frame_into_ledger(cap: &FrameCapture, ledger: &mut WindchillLedger) -> (r: Result<
    LedgerEntry,
    SealError,
>)
    requires
        ledger_wf(*old(ledger)),
        old(ledger).entries@.len() < u64::MAX,
    ensures
        ledger_wf(*final(ledger)),
        cap.scene_id@.len() == 0 ==> (r matches Err(e) && e == SealError::IdentityBreach
            && *final(ledger) == *old(ledger)),
        cap.scene_id@.len() > 0 ==> (r matches Ok(entry) && {
            let e = final(ledger).entries@.last();
            &&& final(ledger).entries@.len() == old(ledger).entries@.len() + 1
            &&& (forall|i: int|
                0 <= i < old(ledger).entries@.len() ==> final(ledger).entries@[i] == old(
                    ledger,
                ).entries@[i])
            &&& e.sequence_id == old(ledger).entries@.len()
            &&& e.entry_type == cap.entry_type
            &&& e.timestamp_micros == cap.timestamp_micros
            &&& e.scene_id@ == cap.scene_id@
            &&& e.frame_commitment@ == commit_spec(cap.payload@)
            &&& e.merkle_root@ == combine_spec(
                commit_spec(cap.payload@),
                last_root(old(ledger).entries@),
            )
            &&& entry_equal(entry, e)
        }),
{
    if cap.scene_id.as_str().is_empty() {
        return Err(SealError::IdentityBreach);
    }
    let frame_commitment = commit(&cap.payload);
    let scene_id = cap.scene_id.clone();
    let entry = ledger.append(frame_commitment, scene_id, cap.entry_type, cap.timestamp_micros);
    Ok(entry)
}

} // verus!
