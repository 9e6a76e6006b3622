use vstd::prelude::*;

use super::types::AudioSpec;

verus! {

/// How one decoded chunk goes to the device.
#[derive(Debug, Clone, Copy, PartialEq, Eq, Structural)]
pub enum ChunkRoute {
    /// Played as decoded: source and device rates match.
    Direct,
    /// Converted as a full-size chunk.
    Resample,
    /// Converted as the short final chunk of the stream.
    ResampleFinal,
}

/// The playback protocol between decoder, converter and device: convert
/// only when the rates differ, route each chunk, and drain the converter
/// once after the final chunk.
#[derive(Debug)]
pub struct Playback {
    resampling: bool,
    drained: bool,
}

impl Playback {
    pub closed spec fn spec_resampling(&self) -> bool {
        self.resampling
    }

    pub closed spec fn spec_drained(&self) -> bool {
        self.drained
    }

    /// Start playing audio of `source` format on a device of `device`
    /// format: conversion is needed exactly when the rates differ.
    pub fn new(source: AudioSpec, device: AudioSpec) -> (playback: Self)
        ensures
            playback.spec_resampling() == (source.sample_rate != device.sample_rate),
            !playback.spec_drained(),
    {
        Playback { resampling: source.sample_rate != device.sample_rate, drained: false }
    }

    /// Whether the chunks go through the converter.
    pub fn is_resampling(&self) -> (resampling: bool)
        ensures
            resampling == self.spec_resampling(),
    {
        self.resampling
    }

    /// Route a chunk of `frames` frames from a decoder whose chunks hold
    /// `chunk_frames` frames: a shorter chunk is the final one.
    pub fn route(&self, frames: usize, chunk_frames: usize) -> (route: ChunkRoute)
        ensures
            !self.spec_resampling() ==> route == ChunkRoute::Direct,
            self.spec_resampling() && frames < chunk_frames ==> route == ChunkRoute::ResampleFinal,
            self.spec_resampling() && frames >= chunk_frames ==> route == ChunkRoute::Resample,
    {
        if !self.resampling {
            ChunkRoute::Direct
        } else if frames < chunk_frames {
            ChunkRoute::ResampleFinal
        } else {
            ChunkRoute::Resample
        }
    }

    /// The stream has ended: whether the converter must be drained now.
    /// It is drained once, and only when converting.
    pub fn end_of_stream(&mut self) -> (drain: bool)
        ensures
            drain == (old(self).spec_resampling() && !old(self).spec_drained()),
            final(self).spec_resampling() == old(self).spec_resampling(),
            final(self).spec_drained() == (old(self).spec_drained() || old(
                self,
            ).spec_resampling()),
    {
        let drain = self.resampling && !self.drained;
        if self.resampling {
            self.drained = true;
        }
        drain
    }
}

/// The converter is drained at most once: after the first end of stream
/// has asked for the drain, no later one does.
pub proof fn law_drain_at_most_once(before: Playback, after_first: Playback, second: bool)
    requires
        after_first.spec_resampling() == before.spec_resampling(),
        after_first.spec_drained() == (before.spec_drained() || before.spec_resampling()),
        second == (after_first.spec_resampling() && !after_first.spec_drained()),
    ensures
        !second,
{
}

} // verus!
