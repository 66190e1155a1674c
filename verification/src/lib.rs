//! Windchill: an append-only, tamper-evident ledger of sealed capture frames.
//!
//! Each sealed entry carries a cryptographic commitment over the frame's
//! payload and a chained root combining that commitment with the previous
//! entry's root, so that any retroactive edit is detectable by recomputing
//! the chain from its fixed genesis constant.
pub mod digest;
pub mod ledger;
pub mod seal;
