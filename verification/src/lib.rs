//! Verified core of the AURELIS audio pipeline: PCM buffers and their
//! bounded queue, the chunking state machine of the streaming decoder,
//! the validation and channel (de)interleaving around the sample-rate
//! converter, and the playback queue drain of the output device.
//!
//! PCM samples are 32-bit IEEE-754 floats in the pipeline. The library
//! moves them around but never computes with them, so it carries each
//! sample as its bit pattern (`f32::to_bits`), a plain `u32`.
pub mod audio;

use vstd::prelude::*;

verus! {

/// Name of the player.
pub const NAME: &'static str = "AURELIS";

/// Version of the core, as the package states it.
pub const VERSION: &'static str = "0.1.0";

} // verus!
