use vstd::prelude::*;

use super::types::{AudioSpec, PcmBuffer};

verus! {

/// Chunk size, in input frames, that the sample-rate converter is
/// configured with (`FixedSync::Input`): every full call consumes
/// exactly this many frames.
pub const RESAMPLER_CHUNK_FRAMES: usize = 4096;

/// Why a conversion was refused.
#[derive(Debug, Clone, Copy, PartialEq, Eq, Structural)]
pub enum ResamplerError {
    /// An input or output sample rate is zero.
    ZeroSampleRate,
    /// An input or output channel count is zero.
    ZeroChannels,
    /// Input and output channel counts differ; channel conversion is not
    /// performed here.
    ChannelConversion { input: usize, output: usize },
    /// Input and output sample rates are identical.
    IdenticalSampleRates,
    /// A buffer's specification does not match the resampler's input.
    SpecMismatch,
    /// A buffer's sample count is not a multiple of its channel count.
    MisalignedSamples,
    /// A final chunk holds more frames than one full chunk.
    OversizedFinalChunk { frames: usize, limit: usize },
}

/// The error, if any, with which a converter from `input` to `output`
/// is refused. The conditions are tested in this order.
pub open spec fn config_error(input: AudioSpec, output: AudioSpec) -> Option<ResamplerError> {
    if input.sample_rate == 0 || output.sample_rate == 0 {
        Some(ResamplerError::ZeroSampleRate)
    } else if input.channels == 0 || output.channels == 0 {
        Some(ResamplerError::ZeroChannels)
    } else if input.channels != output.channels {
        Some(ResamplerError::ChannelConversion { input: input.channels, output: output.channels })
    } else if input.sample_rate == output.sample_rate {
        Some(ResamplerError::IdenticalSampleRates)
    } else {
        None
    }
}

/// A conversion is refused exactly for a zero rate, zero channels,
/// differing channel counts or identical rates; any two different
/// non-zero rates over the same non-zero channel count are accepted, and
/// each refusal names its reason.
pub proof fn law_config_refusals(input: AudioSpec, output: AudioSpec)
    ensures
        config_error(input, output) is None <==> (input.sample_rate > 0 && output.sample_rate > 0
            && input.channels > 0 && input.channels == output.channels && input.sample_rate
            != output.sample_rate),
        (input.sample_rate == 0 || output.sample_rate == 0) ==> config_error(input, output)
            == Some(ResamplerError::ZeroSampleRate),
        input.sample_rate > 0 && output.sample_rate > 0 && (input.channels == 0
            || output.channels == 0) ==> config_error(input, output) == Some(
            ResamplerError::ZeroChannels,
        ),
        config_error(input, output) == Some(ResamplerError::IdenticalSampleRates) ==> input.sample_rate
            == output.sample_rate,
{
}

/// Planar view of interleaved samples: channel `c` holds sample `c` of
/// every whole frame, in frame order.
pub open spec fn deinterleaved(samples: Seq<u32>, channels: nat) -> Seq<Seq<u32>> {
    Seq::new(
        channels,
        |c: int| Seq::new(samples.len() / channels, |f: int| samples[f * channels + c]),
    )
}

/// Interleaved view of the first `frames` frames of planar channels:
/// position `f * channels + c` holds frame `f` of channel `c`.
pub open spec fn interleaved(planes: Seq<Seq<u32>>, frames: nat) -> Seq<u32> {
    Seq::new(frames * planes.len(), |i: int| planes[i % planes.len() as int][i / planes.len() as int])
}

/// `channels` planes that hold no frame.
pub open spec fn silent_planes(channels: nat) -> Seq<Seq<u32>> {
    Seq::new(channels, |c: int| Seq::<u32>::empty())
}

proof fn lemma_frame_index(f: int, c: int, frames: int, channels: int)
    requires
        0 <= f < frames,
        0 <= c < channels,
    ensures
        f * channels + c < frames * channels,
        0 <= f * channels,
{
    assert(f * channels + c < frames * channels) by (nonlinear_arith)
        requires
            0 <= f < frames,
            0 <= c < channels,
    ;
    assert(0 <= f * channels) by (nonlinear_arith)
        requires
            0 <= f,
            0 <= c < channels,
    ;
}

/// The deep view of per-channel vectors is the sequence of their views.
proof fn lemma_planes_deep_view(planes: &Vec<Vec<u32>>)
    ensures
        planes.deep_view().len() == planes@.len(),
        forall|j: int| 0 <= j < planes@.len() ==> #[trigger] planes.deep_view()[j] == planes@[j]@,
{
    assert forall|j: int| 0 <= j < planes@.len() implies #[trigger] planes.deep_view()[j]
        == planes@[j]@ by {
        assert(planes@[j].deep_view() =~= planes@[j]@);
    }
}

/// Split interleaved samples into one vector per channel.
pub fn deinterleave(samples: &Vec<u32>, channels: usize) -> (planes: Vec<Vec<u32>>)
    requires
        channels > 0,
        samples@.len() % (channels as nat) == 0,
    ensures
        planes.deep_view() == deinterleaved(samples@, channels as nat),
{
    let frames = samples.len() / channels;
    proof {
        vstd::arithmetic::div_mod::lemma_fundamental_div_mod(
            samples@.len() as int,
            channels as int,
        );
        let len = samples@.len() as int;
        let d = channels as int;
        assert(frames * channels == samples@.len()) by (nonlinear_arith)
            requires
                len == d * (len / d) + len % d,
                len % d == 0,
                frames == len / d,
                d == channels,
                len == samples@.len(),
        ;
    }
    let ghost spec_planes = deinterleaved(samples@, channels as nat);
    let mut planes: Vec<Vec<u32>> = Vec::new();
    let mut c: usize = 0;
    while c < channels
        invariant
            c <= channels,
            frames == samples@.len() / (channels as nat),
            frames * channels == samples@.len(),
            samples@.len() <= usize::MAX,
            spec_planes == deinterleaved(samples@, channels as nat),
            planes@.len() == c,
            forall|j: int| 0 <= j < c ==> (#[trigger] planes@[j])@ == spec_planes[j],
        decreases channels - c,
    {
        let mut plane: Vec<u32> = Vec::new();
        let mut f: usize = 0;
        while f < frames
            invariant
                f <= frames,
                frames == samples@.len() / (channels as nat),
                frames * channels == samples@.len(),
                samples@.len() <= usize::MAX,
                c < channels,
                plane@ == Seq::new(f as nat, |k: int| samples@[k * channels + c]),
            decreases frames - f,
        {
            proof {
                lemma_frame_index(f as int, c as int, frames as int, channels as int);
            }
            plane.push(samples[f * channels + c]);
            assert(plane@ =~= Seq::new((f + 1) as nat, |k: int| samples@[k * channels + c]));
            f = f + 1;
        }
        assert(plane@ =~= spec_planes[c as int]);
        planes.push(plane);
        c = c + 1;
    }
    proof {
        lemma_planes_deep_view(&planes);
    }
    assert(planes.deep_view() =~= spec_planes);
    planes
}

/// Merge the first `frames` frames of per-channel vectors into one
/// interleaved vector.
pub fn interleave(planes: &Vec<Vec<u32>>, frames: usize) -> (samples: Vec<u32>)
    requires
        forall|c: int| 0 <= c < planes@.len() ==> (#[trigger] planes@[c])@.len() >= frames,
        frames * planes@.len() <= usize::MAX,
    ensures
        samples@ == interleaved(planes.deep_view(), frames as nat),
{
    let channels = planes.len();
    let ghost deep = planes.deep_view();
    proof {
        lemma_planes_deep_view(planes);
    }
    let mut samples: Vec<u32> = Vec::new();
    let mut f: usize = 0;
    assert(samples@ =~= Seq::new((0 * channels) as nat, |i: int| deep[i % channels as int][i / channels as int]));
    while f < frames
        invariant
            f <= frames,
            channels == planes@.len(),
            deep == planes.deep_view(),
            deep.len() == channels,
            forall|j: int| 0 <= j < channels ==> #[trigger] deep[j] == planes@[j]@,
            frames * channels <= usize::MAX,
            forall|c: int| 0 <= c < planes@.len() ==> (#[trigger] planes@[c])@.len() >= frames,
            samples@ == Seq::new((f * channels) as nat, |i: int| deep[i % channels as int][i / channels as int]),
        decreases frames - f,
    {
        let mut c: usize = 0;
        while c < channels
            invariant
                c <= channels,
                channels == planes@.len(),
                deep.len() == channels,
                forall|j: int| 0 <= j < channels ==> #[trigger] deep[j] == planes@[j]@,
                f < frames,
                frames * channels <= usize::MAX,
                forall|c: int| 0 <= c < planes@.len() ==> (#[trigger] planes@[c])@.len() >= frames,
                samples@ == Seq::new((f * channels + c) as nat, |i: int| deep[i % channels as int][i / channels as int]),
            decreases channels - c,
        {
            proof {
                lemma_frame_index(f as int, c as int, frames as int, channels as int);
                vstd::arithmetic::div_mod::lemma_fundamental_div_mod_converse(
                    f * channels + c,
                    channels as int,
                    f as int,
                    c as int,
                );
            }
            let v = planes[c][f];
            samples.push(v);
            assert(samples@ =~= Seq::new((f * channels + c + 1) as nat, |i: int| deep[i % channels as int][i / channels as int]));
            c = c + 1;
        }
        assert((f + 1) * channels == f * channels + channels) by (nonlinear_arith);
        f = f + 1;
    }
    assert(samples@ =~= interleaved(deep, frames as nat));
    samples
}

/// `channels` empty per-channel vectors.
fn silent_channels(channels: usize) -> (planes: Vec<Vec<u32>>)
    ensures
        planes.deep_view() == silent_planes(channels as nat),
{
    let mut planes: Vec<Vec<u32>> = Vec::new();
    let mut c: usize = 0;
    while c < channels
        invariant
            c <= channels,
            planes@.len() == c,
            forall|j: int| 0 <= j < c ==> (#[trigger] planes@[j])@ == Seq::<u32>::empty(),
        decreases channels - c,
    {
        planes.push(Vec::new());
        c = c + 1;
    }
    proof {
        lemma_planes_deep_view(&planes);
    }
    assert(planes.deep_view() =~= silent_planes(channels as nat));
    planes
}

/// Deinterleaving then interleaving the same frames gives back the
/// input samples: the resampler's channel plumbing loses and reorders
/// nothing.
pub proof fn law_interleave_undoes_deinterleave(samples: Seq<u32>, channels: nat)
    requires
        channels > 0,
        samples.len() % channels == 0,
    ensures
        interleaved(deinterleaved(samples, channels), samples.len() / channels) == samples,
{
    let planes = deinterleaved(samples, channels);
    let frames = samples.len() / channels;
    let c = channels as int;
    vstd::arithmetic::div_mod::lemma_fundamental_div_mod(samples.len() as int, c);
    assert(frames * channels == samples.len()) by (nonlinear_arith)
        requires
            samples.len() as int == c * (samples.len() as int / c) + samples.len() as int % c,
            samples.len() as int % c == 0,
            frames == samples.len() as int / c,
            c == channels,
    ;
    let out = interleaved(planes, frames);
    assert forall|i: int| 0 <= i < samples.len() implies out[i] == samples[i] by {
        vstd::arithmetic::div_mod::lemma_fundamental_div_mod(i, c);
        vstd::arithmetic::div_mod::lemma_mod_bound(i, c);
        assert(0 <= i / c) by {
            vstd::arithmetic::div_mod::lemma_div_pos_is_pos(i, c);
        }
        assert(i / c < frames) by {
            vstd::arithmetic::div_mod::lemma_div_is_ordered(i, samples.len() - 1, c);
            vstd::arithmetic::div_mod::lemma_div_is_ordered(i, frames * c - 1, c);
            assert((i / c) * c <= i) by (nonlinear_arith)
                requires
                    i == c * (i / c) + i % c,
                    0 <= i % c,
            ;
            assert(i / c < frames) by (nonlinear_arith)
                requires
                    (i / c) * c <= i,
                    i < frames * c,
                    c > 0,
            ;
        }
        assert((i / c) * c + i % c == i) by (nonlinear_arith)
            requires
                i == c * (i / c) + i % c,
        ;
    }
    assert(out =~= samples);
}

/// What the converter hands back, interleaved, is whole frames: one
/// sample per output channel for each frame produced.
pub proof fn law_collected_output_is_whole_frames(
    planes: Seq<Seq<u32>>,
    produced: nat,
    channels: nat,
)
    requires
        planes.len() == channels,
        channels > 0,
    ensures
        interleaved(planes, produced).len() == produced * channels,
        interleaved(planes, produced).len() % channels == 0,
        interleaved(planes, produced).len() / channels == produced,
{
    vstd::arithmetic::div_mod::lemma_fundamental_div_mod_converse(
        (produced * channels) as int,
        channels as int,
        produced as int,
        0,
    );
}

/// A validated sample-rate conversion: input and output formats with
/// non-zero rates, equal non-zero channel counts and different rates.
///
/// The conversion itself runs elsewhere; this type decides what is fed
/// to it, in which layout, and what comes back.
#[derive(Debug)]
pub struct AudioResampler {
    input_spec: AudioSpec,
    output_spec: AudioSpec,
}

/// The work a conversion call hands to the converter: one vector per
/// channel, the number of frames that they hold, and, for a final or
/// draining call, how many of those frames are real (the converter pads
/// the rest of its chunk with silence).
#[derive(Debug)]
pub struct ResampleRequest {
    pub channels: Vec<Vec<u32>>,
    pub frames: usize,
    pub partial_len: Option<usize>,
}

/// Outcome of planning a full-size conversion call.
#[derive(Debug)]
pub enum ResampleStep {
    /// The result is known without running the converter.
    Ready(PcmBuffer),
    /// The converter must run on this request.
    Run(ResampleRequest),
}

impl AudioResampler {
    pub closed spec fn spec_input(&self) -> AudioSpec {
        self.input_spec
    }

    pub closed spec fn spec_output(&self) -> AudioSpec {
        self.output_spec
    }

    /// The formats were accepted by [`AudioResampler::new`].
    pub open spec fn wf(&self) -> bool {
        config_error(self.spec_input(), self.spec_output()) is None
    }

    /// An accepted conversion keeps the channel layout: input and output
    /// have the same, non-zero, number of channels, and different rates.
    pub proof fn lemma_wf_formats(&self)
        requires
            self.wf(),
        ensures
            self.spec_input().channels == self.spec_output().channels,
            self.spec_input().channels > 0,
            self.spec_input().sample_rate > 0,
            self.spec_output().sample_rate > 0,
            self.spec_input().sample_rate != self.spec_output().sample_rate,
    {
    }

    /// Create a new sample-rate converter.
    ///
    /// Channel conversion is intentionally not performed here: input and
    /// output must have the same number of channels.
    pub fn new(input_spec: AudioSpec, output_spec: AudioSpec) -> (result: Result<
        Self,
        ResamplerError,
    >)
        ensures
            match result {
                Ok(resampler) => {
                    &&& config_error(input_spec, output_spec) is None
                    &&& resampler.spec_input() == input_spec
                    &&& resampler.spec_output() == output_spec
                    &&& resampler.wf()
                },
                Err(error) => config_error(input_spec, output_spec) == Some(error),
            },
            result is Ok <==> (input_spec.sample_rate > 0 && output_spec.sample_rate > 0
                && input_spec.channels > 0 && input_spec.channels == output_spec.channels
                && input_spec.sample_rate != output_spec.sample_rate),
    {
        if input_spec.sample_rate == 0 || output_spec.sample_rate == 0 {
            return Err(ResamplerError::ZeroSampleRate);
        }
        if input_spec.channels == 0 || output_spec.channels == 0 {
            return Err(ResamplerError::ZeroChannels);
        }
        if input_spec.channels != output_spec.channels {
            return Err(
                ResamplerError::ChannelConversion {
                    input: input_spec.channels,
                    output: output_spec.channels,
                },
            );
        }
        if input_spec.sample_rate == output_spec.sample_rate {
            return Err(ResamplerError::IdenticalSampleRates);
        }
        Ok(AudioResampler { input_spec, output_spec })
    }

    /// Return the input specification.
    pub fn input_spec(&self) -> (spec: AudioSpec)
        ensures
            spec == self.spec_input(),
    {
        self.input_spec
    }

    /// Return the output specification.
    pub fn output_spec(&self) -> (spec: AudioSpec)
        ensures
            spec == self.spec_output(),
    {
        self.output_spec
    }

    fn validate_alignment(&self, input: &PcmBuffer, channels: usize) -> (result: Result<
        (),
        ResamplerError,
    >)
        requires
            channels > 0,
        ensures
            result is Ok <==> input.samples@.len() % (channels as nat) == 0,
            result is Err ==> result == Err::<(), ResamplerError>(ResamplerError::MisalignedSamples),
    {
        if input.samples.len() % channels != 0 {
            return Err(ResamplerError::MisalignedSamples);
        }
        Ok(())
    }

    /// Plan the conversion of one *full-size* PCM buffer.
    ///
    /// The buffer must match the input format; an empty buffer converts
    /// to an empty buffer of the output format without running the
    /// converter; otherwise its samples must form whole frames and are
    /// split per channel for a full (unpadded) call.
    pub fn process(&self, input: &PcmBuffer) -> (result: Result<ResampleStep, ResamplerError>)
        requires
            self.wf(),
        ensures
            input.spec != self.spec_input() ==> result == Err::<ResampleStep, ResamplerError>(
                ResamplerError::SpecMismatch,
            ),
            input.spec == self.spec_input() && input.samples@.len() == 0 ==> (result matches Ok(
                ResampleStep::Ready(out),
            ) && out.spec == self.spec_output() && out.samples@.len() == 0),
            input.spec == self.spec_input() && input.samples@.len() > 0 && input.samples@.len()
                % (self.spec_input().channels as nat) != 0 ==> result == Err::<
                ResampleStep,
                ResamplerError,
            >(ResamplerError::MisalignedSamples),
            input.spec == self.spec_input() && input.samples@.len() > 0 && input.samples@.len()
                % (self.spec_input().channels as nat) == 0 ==> (result matches Ok(
                ResampleStep::Run(request),
            ) && request.channels.deep_view() == deinterleaved(
                input.samples@,
                self.spec_input().channels as nat,
            ) && request.frames as nat == input.frames() && request.partial_len is None),
    {
        if input.spec != self.input_spec {
            return Err(ResamplerError::SpecMismatch);
        }
        if input.samples.len() == 0 {
            return Ok(ResampleStep::Ready(PcmBuffer::new(self.output_spec, Vec::new())));
        }
        let channels = self.input_spec.channels;
        self.validate_alignment(input, channels)?;
        let input_frames = input.frame_count();
        let input_channels = deinterleave(&input.samples, channels);
        Ok(
            ResampleStep::Run(
                ResampleRequest { channels: input_channels, frames: input_frames, partial_len: None },
            ),
        )
    }

    /// Plan the conversion of the final, possibly short, chunk of a
    /// stream, given the number of frames a full call takes.
    ///
    /// The chunk may hold fewer frames than a full call (the converter
    /// pads the missing frames with silence), but not more. An empty
    /// chunk is planned like [`AudioResampler::flush`].
    pub fn process_final(&self, input: &PcmBuffer, expected_frames: usize) -> (result: Result<
        ResampleRequest,
        ResamplerError,
    >)
        requires
            self.wf(),
        ensures
            input.spec != self.spec_input() ==> result == Err::<ResampleRequest, ResamplerError>(
                ResamplerError::SpecMismatch,
            ),
            input.spec == self.spec_input() && input.samples@.len() == 0 ==> (result matches Ok(
                request,
            ) && request.channels.deep_view() == silent_planes(
                self.spec_input().channels as nat,
            ) && request.frames == 0 && request.partial_len == Some(0usize)),
            input.spec == self.spec_input() && input.samples@.len() > 0 && input.samples@.len()
                % (self.spec_input().channels as nat) != 0 ==> result == Err::<
                ResampleRequest,
                ResamplerError,
            >(ResamplerError::MisalignedSamples),
            input.spec == self.spec_input() && input.samples@.len() > 0 && input.samples@.len()
                % (self.spec_input().channels as nat) == 0 && input.frames() > expected_frames
                ==> result == Err::<ResampleRequest, ResamplerError>(
                ResamplerError::OversizedFinalChunk {
                    frames: input.frames() as usize,
                    limit: expected_frames,
                },
            ),
            input.spec == self.spec_input() && input.samples@.len() > 0 && input.samples@.len()
                % (self.spec_input().channels as nat) == 0 && input.frames() <= expected_frames
                ==> (result matches Ok(request) && request.channels.deep_view() == deinterleaved(
                input.samples@,
                self.spec_input().channels as nat,
            ) && request.frames as nat == input.frames() && request.partial_len == Some(
                request.frames,
            )),
    {
        if input.spec != self.input_spec {
            return Err(ResamplerError::SpecMismatch);
        }
        let channels = self.input_spec.channels;
        if input.samples.len() == 0 {
            return Ok(
                ResampleRequest {
                    channels: silent_channels(channels),
                    frames: 0,
                    partial_len: Some(0),
                },
            );
        }
        self.validate_alignment(input, channels)?;
        let input_frames = input.frame_count();
        if input_frames > expected_frames {
            return Err(
                ResamplerError::OversizedFinalChunk { frames: input_frames, limit: expected_frames },
            );
        }
        let input_channels = deinterleave(&input.samples, channels);
        Ok(
            ResampleRequest {
                channels: input_channels,
                frames: input_frames,
                partial_len: Some(input_frames),
            },
        )
    }

    /// Plan the draining call made once after the final chunk: no real
    /// frames, so the converter pushes silence through its delay line.
    pub fn flush(&self) -> (request: ResampleRequest)
        ensures
            request.channels.deep_view() == silent_planes(self.spec_output().channels as nat),
            request.channels@.len() == self.spec_output().channels,
            request.frames == 0,
            request.partial_len == Some(0usize),
    {
        ResampleRequest {
            channels: silent_channels(self.output_spec.channels),
            frames: 0,
            partial_len: Some(0),
        }
    }

    /// Interleave the first `produced` frames of the converter's
    /// per-channel output into a buffer of the output format.
    pub fn collect_output(&self, output_channels: &Vec<Vec<u32>>, produced: usize) -> (buffer:
        PcmBuffer)
        requires
            self.wf(),
            output_channels@.len() == self.spec_output().channels,
            forall|c: int|
                0 <= c < output_channels@.len() ==> (#[trigger] output_channels@[c])@.len()
                    >= produced,
            produced * output_channels@.len() <= usize::MAX,
        ensures
            buffer.spec == self.spec_output(),
            buffer.samples@ == interleaved(output_channels.deep_view(), produced as nat),
            buffer.samples@.len() == produced * self.spec_output().channels,
            buffer.frames() == produced,
    {
        let interleaved = interleave(output_channels, produced);
        let buffer = PcmBuffer::new(self.output_spec, interleaved);
        proof {
            law_collected_output_is_whole_frames(
                output_channels.deep_view(),
                produced as nat,
                self.output_spec.channels as nat,
            );
        }
        buffer
    }
}

} // verus!
