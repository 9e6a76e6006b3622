use aurelis::audio::resampler::{
    deinterleave, interleave, ResampleRequest, ResampleStep, ResamplerError,
    RESAMPLER_CHUNK_FRAMES,
};
use aurelis::audio::{AudioResampler, AudioSpec, PcmBuffer};
use rubato::audioadapter_buffers::direct::SequentialSliceOfVecs;
use rubato::{Fft, FixedSync, Indexing, Resampler};

/// The verified plan of a conversion, driven through the real converter.
struct Converter {
    plan: AudioResampler,
    fft: Fft<f32>,
}

impl Converter {
    fn new(input: AudioSpec, output: AudioSpec) -> Result<Self, String> {
        let plan = AudioResampler::new(input, output).map_err(|e| format!("{e:?}"))?;
        let fft = Fft::<f32>::new(
            input.sample_rate as usize,
            output.sample_rate as usize,
            RESAMPLER_CHUNK_FRAMES,
            input.channels,
            FixedSync::Input,
        )
        .map_err(|e| e.to_string())?;
        Ok(Self { plan, fft })
    }

    fn input_frames_next(&self) -> usize {
        self.fft.input_frames_next()
    }

    fn run(&mut self, request: ResampleRequest) -> Result<PcmBuffer, String> {
        let channels = self.plan.input_spec().channels;
        let input: Vec<Vec<f32>> = request
            .channels
            .iter()
            .map(|plane| plane.iter().map(|&s| f32::from_bits(s)).collect())
            .collect();
        let input_adapter = SequentialSliceOfVecs::new(&input, channels, request.frames)
            .map_err(|e| e.to_string())?;
        let output_frames = self.fft.output_frames_next();
        let mut output = vec![vec![0.0f32; output_frames]; channels];
        let produced = {
            let mut output_adapter =
                SequentialSliceOfVecs::new_mut(&mut output, channels, output_frames)
                    .map_err(|e| e.to_string())?;
            let indexing = request.partial_len.map(|len| Indexing::new().partial_len(len));
            let (_, produced) = self
                .fft
                .process_into_buffer(&input_adapter, &mut output_adapter, indexing.as_ref())
                .map_err(|e| e.to_string())?;
            produced
        };
        let bits: Vec<Vec<u32>> = output
            .iter()
            .map(|plane| plane.iter().map(|s| s.to_bits()).collect())
            .collect();
        Ok(self.plan.collect_output(&bits, produced))
    }

    fn process(&mut self, input: &PcmBuffer) -> Result<PcmBuffer, String> {
        match self.plan.process(input).map_err(|e| format!("{e:?}"))? {
            ResampleStep::Ready(buffer) => Ok(buffer),
            ResampleStep::Run(request) => self.run(request),
        }
    }

    fn process_final(&mut self, input: &PcmBuffer) -> Result<PcmBuffer, String> {
        let expected = self.input_frames_next();
        let request = self
            .plan
            .process_final(input, expected)
            .map_err(|e| format!("{e:?}"))?;
        self.run(request)
    }

    fn flush(&mut self) -> Result<PcmBuffer, String> {
        let request = self.plan.flush();
        self.run(request)
    }
}

fn test_buffer(spec: AudioSpec, frames: usize) -> PcmBuffer {
    let samples = vec![0.0f32.to_bits(); frames * spec.channels];
    PcmBuffer::new(spec, samples)
}

#[test]
fn resampler_accepts_44100_to_48000() {
    let input = AudioSpec::new(44_100, 2);
    let output = AudioSpec::new(48_000, 2);

    let mut resampler = Converter::new(input, output).unwrap();

    let buffer = test_buffer(input, resampler.input_frames_next());
    let result = resampler.process(&buffer).unwrap();

    assert_eq!(result.spec, output);
    assert!(!result.samples.is_empty());
}

#[test]
fn resampler_accepts_88200_to_48000() {
    let input = AudioSpec::new(88_200, 2);
    let output = AudioSpec::new(48_000, 2);

    let mut resampler = Converter::new(input, output).unwrap();

    let buffer = test_buffer(input, resampler.input_frames_next());
    let result = resampler.process(&buffer).unwrap();

    assert_eq!(result.spec, output);
    assert!(!result.samples.is_empty());
}

#[test]
fn resampler_accepts_96000_to_48000() {
    let input = AudioSpec::new(96_000, 2);
    let output = AudioSpec::new(48_000, 2);

    let mut resampler = Converter::new(input, output).unwrap();

    let buffer = test_buffer(input, resampler.input_frames_next());
    let result = resampler.process(&buffer).unwrap();

    assert_eq!(result.spec, output);
    assert!(!result.samples.is_empty());
}

#[test]
fn resampler_accepts_192000_to_48000() {
    let input = AudioSpec::new(192_000, 2);
    let output = AudioSpec::new(48_000, 2);

    let mut resampler = Converter::new(input, output).unwrap();

    let buffer = test_buffer(input, resampler.input_frames_next());
    let result = resampler.process(&buffer).unwrap();

    assert_eq!(result.spec, output);
    assert!(!result.samples.is_empty());
}

#[test]
fn resampler_rejects_channel_conversion() {
    let input = AudioSpec::new(96_000, 2);
    let output = AudioSpec::new(48_000, 1);

    assert!(AudioResampler::new(input, output).is_err());
}

#[test]
fn resampler_rejects_identical_sample_rate() {
    let input = AudioSpec::new(48_000, 2);
    let output = AudioSpec::new(48_000, 2);

    assert!(AudioResampler::new(input, output).is_err());
}

#[test]
fn resampler_rejects_mismatched_input_spec() {
    let input = AudioSpec::new(96_000, 2);
    let output = AudioSpec::new(48_000, 2);
    let wrong = AudioSpec::new(44_100, 2);

    let resampler = AudioResampler::new(input, output).unwrap();

    let buffer = test_buffer(wrong, RESAMPLER_CHUNK_FRAMES);

    assert!(resampler.process(&buffer).is_err());
}

/// A 96 kHz -> 48 kHz stream whose final decoder chunk is far shorter
/// than the converter's chunk size (47 frames vs 4096).
#[test]
fn process_final_handles_short_trailing_chunk() {
    let input = AudioSpec::new(96_000, 2);
    let output = AudioSpec::new(48_000, 2);

    let mut resampler = Converter::new(input, output).unwrap();

    // A few normal full-size chunks first, like real playback.
    let full = test_buffer(input, resampler.input_frames_next());
    for _ in 0..3 {
        resampler.process(&full).unwrap();
    }

    let tail = test_buffer(input, 47);
    let result = resampler.process_final(&tail);

    assert!(
        result.is_ok(),
        "process_final should accept a short final chunk, got {:?}",
        result.err()
    );

    let result = result.unwrap();
    assert_eq!(result.spec, output);
}

#[test]
fn process_final_rejects_oversized_chunk() {
    let input = AudioSpec::new(96_000, 2);
    let output = AudioSpec::new(48_000, 2);

    let mut resampler = Converter::new(input, output).unwrap();

    let too_big = test_buffer(input, resampler.input_frames_next() + 1);

    assert!(resampler.process_final(&too_big).is_err());
}

#[test]
fn flush_drains_without_error_after_final_chunk() {
    let input = AudioSpec::new(96_000, 2);
    let output = AudioSpec::new(48_000, 2);

    let mut resampler = Converter::new(input, output).unwrap();

    let tail = test_buffer(input, 47);
    resampler.process_final(&tail).unwrap();

    let flushed = resampler.flush();

    assert!(
        flushed.is_ok(),
        "flush should never error, got {:?}",
        flushed.err()
    );
    assert_eq!(flushed.unwrap().spec, output);
}

#[test]
fn flush_is_safe_with_no_prior_processing() {
    let input = AudioSpec::new(96_000, 2);
    let output = AudioSpec::new(48_000, 2);

    let mut resampler = Converter::new(input, output).unwrap();

    assert!(resampler.flush().is_ok());
}

#[test]
fn resampler_new_reports_each_refusal() {
    let ok = AudioSpec::new(48_000, 2);
    assert_eq!(
        AudioResampler::new(AudioSpec::new(0, 2), ok).unwrap_err(),
        ResamplerError::ZeroSampleRate
    );
    assert_eq!(
        AudioResampler::new(AudioSpec::new(44_100, 0), ok).unwrap_err(),
        ResamplerError::ZeroChannels
    );
    assert_eq!(
        AudioResampler::new(AudioSpec::new(96_000, 2), AudioSpec::new(48_000, 1)).unwrap_err(),
        ResamplerError::ChannelConversion { input: 2, output: 1 }
    );
    assert_eq!(
        AudioResampler::new(ok, ok).unwrap_err(),
        ResamplerError::IdenticalSampleRates
    );
    let resampler = AudioResampler::new(AudioSpec::new(44_100, 2), ok).unwrap();
    assert_eq!(resampler.input_spec(), AudioSpec::new(44_100, 2));
    assert_eq!(resampler.output_spec(), ok);
}

#[test]
fn deinterleave_splits_channels() {
    let planes = deinterleave(&vec![1, 2, 3, 4, 5, 6], 2);
    assert_eq!(planes, vec![vec![1, 3, 5], vec![2, 4, 6]]);

    let planes = deinterleave(&vec![1, 2, 3, 4, 5, 6], 3);
    assert_eq!(planes, vec![vec![1, 4], vec![2, 5], vec![3, 6]]);
}

#[test]
fn interleave_merges_first_frames() {
    let planes = vec![vec![1, 3, 5, 7], vec![2, 4, 6, 8]];
    assert_eq!(interleave(&planes, 3), vec![1, 2, 3, 4, 5, 6]);
    assert_eq!(interleave(&planes, 0), Vec::<u32>::new());
}

#[test]
fn interleave_undoes_deinterleave() {
    let samples: Vec<u32> = (0..30).collect();
    let planes = deinterleave(&samples, 3);
    assert_eq!(interleave(&planes, 10), samples);
}

#[test]
fn process_plans_deinterleaved_full_call() {
    let input = AudioSpec::new(96_000, 2);
    let resampler = AudioResampler::new(input, AudioSpec::new(48_000, 2)).unwrap();
    match resampler.process(&PcmBuffer::new(input, vec![1, 2, 3, 4])).unwrap() {
        ResampleStep::Run(request) => {
            assert_eq!(request.channels, vec![vec![1, 3], vec![2, 4]]);
            assert_eq!(request.frames, 2);
            assert_eq!(request.partial_len, None);
        }
        ResampleStep::Ready(_) => panic!("expected a converter call"),
    }
}

#[test]
fn process_empty_buffer_needs_no_conversion() {
    let input = AudioSpec::new(96_000, 2);
    let output = AudioSpec::new(48_000, 2);
    let resampler = AudioResampler::new(input, output).unwrap();
    match resampler.process(&PcmBuffer::new(input, Vec::new())).unwrap() {
        ResampleStep::Ready(buffer) => {
            assert_eq!(buffer.spec, output);
            assert!(buffer.samples.is_empty());
        }
        ResampleStep::Run(_) => panic!("expected no converter call"),
    }
}

#[test]
fn process_rejects_misaligned_samples() {
    let input = AudioSpec::new(96_000, 2);
    let resampler = AudioResampler::new(input, AudioSpec::new(48_000, 2)).unwrap();
    assert_eq!(
        resampler.process(&PcmBuffer::new(input, vec![1, 2, 3])).unwrap_err(),
        ResamplerError::MisalignedSamples
    );
    assert_eq!(
        resampler.process_final(&PcmBuffer::new(input, vec![1, 2, 3]), 10).unwrap_err(),
        ResamplerError::MisalignedSamples
    );
    assert_eq!(
        resampler.process(&PcmBuffer::new(AudioSpec::new(96_000, 1), vec![1])).unwrap_err(),
        ResamplerError::SpecMismatch
    );
}

#[test]
fn process_final_plans_partial_call() {
    let input = AudioSpec::new(96_000, 2);
    let resampler = AudioResampler::new(input, AudioSpec::new(48_000, 2)).unwrap();

    let request = resampler.process_final(&PcmBuffer::new(input, vec![1, 2, 3, 4, 5, 6]), 3).unwrap();
    assert_eq!(request.channels, vec![vec![1, 3, 5], vec![2, 4, 6]]);
    assert_eq!(request.frames, 3);
    assert_eq!(request.partial_len, Some(3));

    assert_eq!(
        resampler.process_final(&PcmBuffer::new(input, vec![1, 2, 3, 4, 5, 6]), 2).unwrap_err(),
        ResamplerError::OversizedFinalChunk { frames: 3, limit: 2 }
    );

    let empty = resampler.process_final(&PcmBuffer::new(input, Vec::new()), 2).unwrap();
    assert_eq!(empty.channels, vec![Vec::<u32>::new(), Vec::new()]);
    assert_eq!(empty.frames, 0);
    assert_eq!(empty.partial_len, Some(0));
}

#[test]
fn flush_plans_silent_call() {
    let resampler =
        AudioResampler::new(AudioSpec::new(96_000, 3), AudioSpec::new(48_000, 3)).unwrap();
    let request = resampler.flush();
    assert_eq!(request.channels.len(), 3);
    assert!(request.channels.iter().all(|plane| plane.is_empty()));
    assert_eq!(request.frames, 0);
    assert_eq!(request.partial_len, Some(0));
}

#[test]
fn collect_output_interleaves_produced_frames() {
    let output = AudioSpec::new(48_000, 2);
    let resampler = AudioResampler::new(AudioSpec::new(96_000, 2), output).unwrap();
    let buffer = resampler.collect_output(&vec![vec![10, 11, 12], vec![20, 21, 22]], 2);
    assert_eq!(buffer.spec, output);
    assert_eq!(buffer.samples, vec![10, 20, 11, 21]);
    assert_eq!(buffer.frame_count(), 2);
}

#[test]
fn flush_output_is_whole_frames() {
    let input = AudioSpec::new(96_000, 2);
    let output = AudioSpec::new(48_000, 2);
    let mut resampler = Converter::new(input, output).unwrap();
    let full = test_buffer(input, resampler.input_frames_next());
    resampler.process(&full).unwrap();
    let flushed = resampler.flush().unwrap();
    assert_eq!(flushed.spec, output);
    assert_eq!(flushed.samples.len() % output.channels, 0);
    assert_eq!(resampler.plan.flush().channels.len(), output.channels);
}

#[test]
fn conversion_keeps_constant_signal_length_sensible() {
    let input = AudioSpec::new(96_000, 1);
    let output = AudioSpec::new(48_000, 1);
    let mut resampler = Converter::new(input, output).unwrap();
    let full = PcmBuffer::new(input, vec![0.5f32.to_bits(); resampler.input_frames_next()]);
    let mut produced = 0;
    for _ in 0..4 {
        produced += resampler.process(&full).unwrap().frame_count();
    }
    // Four chunks of 4096 frames at half the rate give at most 8192 frames.
    assert!(produced > 0 && produced <= 4 * 4096 / 2);
}
