use vstd::prelude::*;

verus! {

/// Sample rate and channel count of a PCM signal.
#[derive(Debug, Clone, Copy, PartialEq, Eq, Structural)]
pub struct AudioSpec {
    pub sample_rate: u32,
    pub channels: usize,
}

impl AudioSpec {
    pub fn new(sample_rate: u32, channels: usize) -> (spec: Self)
        ensures
            spec.sample_rate == sample_rate,
            spec.channels == channels,
    {
        AudioSpec { sample_rate, channels }
    }
}

/// Number of whole frames held by `len` interleaved samples of
/// `channels` channels; no channels means no frames.
pub open spec fn frames_in(channels: nat, len: nat) -> nat {
    if channels == 0 {
        0
    } else {
        len / channels
    }
}

/// The frames of interleaved samples are the whole frames they hold:
/// they fit in the samples, and one more frame would not.
pub proof fn law_frames_are_whole(channels: nat, len: nat)
    requires
        channels > 0,
    ensures
        frames_in(channels, len) * channels <= len < (frames_in(channels, len) + 1) * channels,
{
    vstd::arithmetic::div_mod::lemma_fundamental_div_mod(len as int, channels as int);
    vstd::arithmetic::div_mod::lemma_mod_bound(len as int, channels as int);
    let q = len / channels;
    assert(q * channels <= len < (q + 1) * channels) by (nonlinear_arith)
        requires
            len == channels * q + len % channels,
            0 <= len % channels < channels,
    ;
}

/// Interleaved PCM audio: sample `c` of frame `f` is at index
/// `f * channels + c`. Each sample is the bit pattern of an `f32`.
#[derive(Debug)]
pub struct PcmBuffer {
    pub spec: AudioSpec,
    pub samples: Vec<u32>,
}

impl PcmBuffer {
    /// Number of whole frames in the buffer.
    pub open spec fn frames(&self) -> nat {
        frames_in(self.spec.channels as nat, self.samples@.len())
    }

    pub fn new(spec: AudioSpec, samples: Vec<u32>) -> (buffer: Self)
        ensures
            buffer.spec == spec,
            buffer.samples@ == samples@,
    {
        PcmBuffer { spec, samples }
    }

    pub fn frame_count(&self) -> (frames: usize)
        ensures
            frames == self.frames(),
            self.spec.channels > 0 ==> frames * self.spec.channels <= self.samples@.len()
                < (frames + 1) * self.spec.channels,
            self.spec.channels == 0 ==> frames == 0,
    {
        proof {
            if self.spec.channels > 0 {
                law_frames_are_whole(self.spec.channels as nat, self.samples@.len());
            }
        }
        if self.spec.channels == 0 {
            return 0;
        }
        self.samples.len() / self.spec.channels
    }
}

} // verus!
