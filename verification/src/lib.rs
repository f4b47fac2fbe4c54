//! Core logic of a clip-trimming workstation: byte-range streaming plans,
//! collision-safe file naming, the clip lifecycle state machine, and the
//! segment-export job pipeline.

pub mod clips;
pub mod clock;
pub mod encoder;
pub mod export;
pub mod ids;
pub mod media;
pub mod naming;
pub mod numeric;
pub mod probe;
pub mod range;
pub mod segments;
pub mod text;
pub mod workdir;

use vstd::prelude::*;

verus! {

/// Largest number of bytes a single streaming response may carry.
pub const MAX_CHUNK: u64 = 5 * 1024 * 1024;

} // verus!
