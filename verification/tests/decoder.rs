use aurelis::audio::decoder::append_decoded;
use aurelis::audio::decoder_stream::AudioDecoder;
use aurelis::audio::stream::DEFAULT_CHUNK_FRAMES;
use aurelis::audio::track::{
    classify_read, select_track, signal_spec, track_spec, DecoderError, PacketRead, ReadAction,
    TrackInfo,
};
use aurelis::audio::{AudioSpec, PcmBuffer};

const STEREO: u32 = 0b11;

fn stereo_track() -> TrackInfo {
    TrackInfo { id: 7, sample_rate: Some(48_000), channel_mask: Some(STEREO) }
}

fn stereo_decoder(chunk_frames: usize) -> AudioDecoder {
    AudioDecoder::open_with_chunk_size("song.flac".to_string(), chunk_frames, Some(stereo_track()))
        .unwrap()
}

#[test]
fn rejects_zero_chunk_size() {
    let result = AudioDecoder::open_with_chunk_size("nonexistent.flac".to_string(), 0, None);

    assert!(result.is_err());
}

#[test]
fn zero_chunk_size_is_checked_first() {
    let result =
        AudioDecoder::open_with_chunk_size("a.flac".to_string(), 0, Some(stereo_track()));
    assert_eq!(result.err(), Some(DecoderError::ZeroChunkSize));
    assert_eq!(AudioDecoder::validate_chunk_frames(0), Err(DecoderError::ZeroChunkSize));
    assert_eq!(AudioDecoder::validate_chunk_frames(1), Ok(()));
}

#[test]
fn open_reports_missing_track_information() {
    let open = |track| AudioDecoder::open("a.flac".to_string(), track).err();
    assert_eq!(open(None), Some(DecoderError::NoAudioTrack));
    assert_eq!(
        open(Some(TrackInfo { id: 1, sample_rate: None, channel_mask: None })),
        Some(DecoderError::MissingSampleRate)
    );
    assert_eq!(
        open(Some(TrackInfo { id: 1, sample_rate: Some(44_100), channel_mask: None })),
        Some(DecoderError::MissingChannels)
    );
}

#[test]
fn open_takes_format_from_track() {
    let decoder = AudioDecoder::open("song.flac".to_string(), Some(stereo_track())).unwrap();
    assert_eq!(decoder.spec(), AudioSpec::new(48_000, 2));
    assert_eq!(decoder.chunk_frames(), DEFAULT_CHUNK_FRAMES);
    assert_eq!(decoder.path(), "song.flac");
    assert!(!decoder.is_finished());
    assert_eq!(decoder.pending_samples(), 0);
    assert_eq!(decoder.chunk_samples(), Some(2 * DEFAULT_CHUNK_FRAMES));
}

#[test]
fn channel_mask_counts_positions() {
    assert_eq!(signal_spec(44_100, 0b1).channels, 1);
    assert_eq!(signal_spec(44_100, 0b1011).channels, 3);
    // 5.1: front left/right/centre, LFE, rear left/right.
    assert_eq!(signal_spec(48_000, 0x3F), AudioSpec::new(48_000, 6));
    // Bits above the defined positions are not channels.
    assert_eq!(signal_spec(48_000, 0xFC00_0003).channels, 2);
}

#[test]
fn track_selection_and_format() {
    assert_eq!(select_track(None), Err(DecoderError::NoAudioTrack));
    assert_eq!(select_track(Some(stereo_track())), Ok(stereo_track()));
    assert_eq!(track_spec(&stereo_track()), Ok(AudioSpec::new(48_000, 2)));
}

#[test]
fn packet_reads_are_classified() {
    assert_eq!(classify_read(PacketRead::Packet { track_id: 7 }, 7), ReadAction::Decode);
    assert_eq!(classify_read(PacketRead::Packet { track_id: 3 }, 7), ReadAction::Skip);
    assert_eq!(
        classify_read(PacketRead::ResetRequired, 7),
        ReadAction::Fail(DecoderError::ResetRequired)
    );
    assert_eq!(classify_read(PacketRead::EndOfStream, 7), ReadAction::Stop);
    assert_eq!(classify_read(PacketRead::Failed, 7), ReadAction::Propagate);
}

#[test]
fn end_of_stream_finishes_decoder() {
    let mut decoder = stereo_decoder(2);
    assert!(decoder.wants_packet());
    assert_eq!(decoder.on_read(PacketRead::Packet { track_id: 9 }), ReadAction::Skip);
    assert!(!decoder.is_finished());
    assert_eq!(decoder.on_read(PacketRead::EndOfStream), ReadAction::Stop);
    assert!(decoder.is_finished());
    assert!(!decoder.wants_packet());
    assert!(decoder.take_chunk().is_none());
}

#[test]
fn chunks_keep_samples_across_boundaries() {
    // Chunks of 2 stereo frames = 4 samples.
    let mut decoder = stereo_decoder(2);
    decoder.push_decoded(48_000, STEREO, vec![1, 2, 3, 4, 5, 6]).unwrap();
    assert!(!decoder.wants_packet());

    let first = decoder.take_chunk().unwrap();
    assert_eq!(first.samples, vec![1, 2, 3, 4]);
    assert_eq!(first.spec, AudioSpec::new(48_000, 2));
    assert_eq!(decoder.pending_samples(), 2);
    assert!(decoder.wants_packet());

    decoder.push_decoded(48_000, STEREO, vec![7, 8, 9, 10, 11, 12]).unwrap();
    assert_eq!(decoder.take_chunk().unwrap().samples, vec![5, 6, 7, 8]);

    assert_eq!(decoder.on_read(PacketRead::EndOfStream), ReadAction::Stop);
    let last = decoder.take_chunk().unwrap();
    assert_eq!(last.samples, vec![9, 10, 11, 12]);
    assert!(decoder.take_chunk().is_none());
}

#[test]
fn last_chunk_may_be_short() {
    let mut decoder = stereo_decoder(4);
    decoder.push_decoded(48_000, STEREO, vec![1, 2]).unwrap();
    decoder.on_read(PacketRead::EndOfStream);
    let last = decoder.take_chunk().unwrap();
    assert_eq!(last.samples, vec![1, 2]);
    assert!(decoder.is_final_chunk(&last));
}

#[test]
fn format_change_is_refused() {
    let mut decoder = stereo_decoder(2);
    assert_eq!(
        decoder.push_decoded(44_100, STEREO, vec![1, 2]),
        Err(DecoderError::FormatChanged)
    );
    assert_eq!(
        decoder.push_decoded(48_000, 0b111, vec![1, 2, 3]),
        Err(DecoderError::FormatChanged)
    );
    assert_eq!(decoder.pending_samples(), 0);
}

#[test]
fn full_chunk_is_not_final() {
    let decoder = stereo_decoder(2);
    let full = PcmBuffer::new(AudioSpec::new(48_000, 2), vec![0; 4]);
    let short = PcmBuffer::new(AudioSpec::new(48_000, 2), vec![0; 2]);
    assert!(!decoder.is_final_chunk(&full));
    assert!(decoder.is_final_chunk(&short));
}

#[test]
fn whole_file_takes_last_packet_format() {
    let mut decoded = PcmBuffer::new(AudioSpec::new(44_100, 2), Vec::new());
    append_decoded(&mut decoded, 48_000, STEREO, vec![1, 2]);
    append_decoded(&mut decoded, 96_000, 0b1, vec![3]);
    assert_eq!(decoded.spec, AudioSpec::new(96_000, 1));
    assert_eq!(decoded.samples, vec![1, 2, 3]);
}

#[test]
fn decoder_is_exhausted_only_after_end_and_drain() {
    let mut decoder = stereo_decoder(2);
    assert!(!decoder.is_exhausted());
    decoder.push_decoded(48_000, STEREO, vec![1, 2]).unwrap();
    decoder.on_read(PacketRead::EndOfStream);
    assert!(!decoder.is_exhausted());
    assert_eq!(decoder.take_chunk().unwrap().samples, vec![1, 2]);
    assert!(decoder.is_exhausted());
}

#[test]
fn streaming_chunks_match_whole_file_decode() {
    let packets: Vec<Vec<u32>> = vec![vec![1, 2, 3, 4, 5, 6], vec![7, 8], vec![9, 10, 11, 12, 13, 14]];

    let spec = track_spec(&stereo_track()).unwrap();
    let mut whole = PcmBuffer::new(spec, Vec::new());
    for packet in &packets {
        append_decoded(&mut whole, 48_000, STEREO, packet.clone());
    }

    let mut decoder = stereo_decoder(2);
    let mut streamed = Vec::new();
    let mut next = packets.into_iter();
    loop {
        while decoder.wants_packet() {
            match next.next() {
                Some(packet) => decoder.push_decoded(48_000, STEREO, packet).unwrap(),
                None => {
                    decoder.on_read(PacketRead::EndOfStream);
                }
            }
        }
        match decoder.take_chunk() {
            Some(chunk) => {
                assert_eq!(chunk.spec, decoder.spec());
                streamed.extend(chunk.samples);
            }
            None => break,
        }
    }

    assert_eq!(streamed, whole.samples);
    assert_eq!(decoder.spec(), whole.spec);
    assert!(decoder.is_exhausted());
}
