use aurelis::audio::{AudioSpec, PcmBuffer};
use aurelis::NAME;

#[test]
fn frame_count_divides_samples_by_channels() {
    let buffer = PcmBuffer::new(AudioSpec::new(44_100, 2), vec![0; 7]);
    assert_eq!(buffer.frame_count(), 3);

    let mono = PcmBuffer::new(AudioSpec::new(44_100, 1), vec![0; 7]);
    assert_eq!(mono.frame_count(), 7);
}

#[test]
fn frame_count_without_channels_is_zero() {
    let buffer = PcmBuffer::new(AudioSpec::new(44_100, 0), vec![0; 8]);
    assert_eq!(buffer.frame_count(), 0);
}

#[test]
fn audio_spec_new_keeps_fields() {
    let spec = AudioSpec::new(96_000, 6);
    assert_eq!(spec.sample_rate, 96_000);
    assert_eq!(spec.channels, 6);
    assert_eq!(spec, AudioSpec { sample_rate: 96_000, channels: 6 });
}

#[test]
fn player_name() {
    assert_eq!(NAME, "AURELIS");
}

#[test]
fn core_version_is_stated() {
    assert_eq!(aurelis::VERSION, "0.1.0");
}
