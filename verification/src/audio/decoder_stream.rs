use std::collections::VecDeque;

use vstd::prelude::*;

use super::decoder::{decoded_format, decoded_samples, law_uniform_packets_keep_format, DecodedPacket};
use super::stream::DEFAULT_CHUNK_FRAMES;
use super::track::{
    classify_read,
    read_action,
    select_track,
    signal_format,
    signal_spec,
    track_error,
    track_spec,
    DecoderError,
    PacketRead,
    ReadAction,
    TrackInfo,
};
use super::types::{AudioSpec, PcmBuffer};

verus! {

/// The chunking state of a streaming audio decoder.
///
/// Packets are decoded progressively and their samples cut into PCM
/// chunks of a fixed number of frames. Samples that do not fit into the
/// current chunk are retained and returned by the next one; nothing is
/// dropped or repeated.
///
/// Reading and decoding packets is done by the caller, which reports
/// each outcome here and is told what to do next.
pub struct AudioDecoder {
    path: String,
    track_id: u32,
    spec: AudioSpec,
    chunk_frames: usize,
    pending_samples: VecDeque<u32>,
    finished: bool,
    received: Ghost<Seq<u32>>,
    emitted: Ghost<Seq<u32>>,
}

/// The error, if any, with which opening a decoder with this chunk size
/// on this default track is refused. The conditions are tested in this order.
pub open spec fn open_error(chunk_frames: usize, track: Option<TrackInfo>) -> Option<DecoderError> {
    if chunk_frames == 0 {
        Some(DecoderError::ZeroChunkSize)
    } else {
        match track {
            None => Some(DecoderError::NoAudioTrack),
            Some(t) => track_error(t),
        }
    }
}

/// Samples in the next chunk: a full chunk, or all that is pending when
/// less is.
pub open spec fn chunk_len(pending: nat, target: nat) -> nat {
    if pending < target {
        pending
    } else {
        target
    }
}

/// Opening succeeds exactly for a non-zero chunk size and a default
/// track that states its rate and channels.
pub proof fn law_open_succeeds(chunk_frames: usize, track: Option<TrackInfo>)
    ensures
        open_error(chunk_frames, track) is None <==> (chunk_frames > 0 && track is Some
            && track->0.sample_rate is Some && track->0.channel_mask is Some),
        chunk_frames == 0 ==> open_error(chunk_frames, track) == Some(DecoderError::ZeroChunkSize),
{
}

impl AudioDecoder {
    pub closed spec fn spec_path(&self) -> Seq<char> {
        self.path@
    }

    pub closed spec fn spec_track_id(&self) -> u32 {
        self.track_id
    }

    pub closed spec fn spec_format(&self) -> AudioSpec {
        self.spec
    }

    pub closed spec fn spec_chunk_frames(&self) -> nat {
        self.chunk_frames as nat
    }

    pub closed spec fn spec_finished(&self) -> bool {
        self.finished
    }

    /// Samples decoded but not yet handed out, oldest first.
    pub closed spec fn pending(&self) -> Seq<u32> {
        self.pending_samples@
    }

    /// All samples decoded so far, in order.
    pub closed spec fn received(&self) -> Seq<u32> {
        self.received@
    }

    /// All samples handed out in chunks so far, in order.
    pub closed spec fn emitted(&self) -> Seq<u32> {
        self.emitted@
    }

    /// Samples in a full chunk.
    pub open spec fn target(&self) -> nat {
        self.spec_chunk_frames() * (self.spec_format().channels as nat)
    }

    /// The chunk size in samples fits in a `usize`.
    pub open spec fn target_fits(&self) -> bool {
        self.target() <= usize::MAX
    }

    pub closed spec fn wf(&self) -> bool {
        &&& self.chunk_frames > 0
        &&& self.emitted@ + self.pending_samples@ == self.received@
    }

    /// Whether more packets are wanted before the next chunk is cut: the
    /// pending samples do not yet fill a chunk and the stream goes on.
    pub open spec fn spec_wants_packet(&self) -> bool {
        self.pending().len() < self.target() && !self.spec_finished()
    }

    /// Refuse a chunk size of zero frames.
    pub fn validate_chunk_frames(chunk_frames: usize) -> (result: Result<(), DecoderError>)
        ensures
            result is Ok <==> chunk_frames > 0,
            result is Err ==> result == Err::<(), DecoderError>(DecoderError::ZeroChunkSize),
    {
        if chunk_frames == 0 {
            return Err(DecoderError::ZeroChunkSize);
        }
        Ok(())
    }

    /// Open the decoding of a file, given what its container reports of
    /// its default track, with a custom PCM chunk size.
    pub fn open_with_chunk_size(path: String, chunk_frames: usize, track: Option<TrackInfo>) -> (result:
        Result<Self, DecoderError>)
        ensures
            match result {
                Ok(decoder) => {
                    &&& open_error(chunk_frames, track) is None
                    &&& decoder.opened_from(path@, chunk_frames as nat, track->0)
                },
                Err(error) => open_error(chunk_frames, track) == Some(error),
            },
    {
        Self::validate_chunk_frames(chunk_frames)?;
        let track = select_track(track)?;
        let spec = track_spec(&track)?;
        let decoder = AudioDecoder {
            path,
            track_id: track.id,
            spec,
            chunk_frames,
            pending_samples: VecDeque::new(),
            finished: false,
            received: Ghost(Seq::empty()),
            emitted: Ghost(Seq::empty()),
        };
        assert(decoder.emitted@ + decoder.pending_samples@ =~= decoder.received@);
        Ok(decoder)
    }

    /// Open the decoding of a file with the default chunk size.
    pub fn open(path: String, track: Option<TrackInfo>) -> (result: Result<Self, DecoderError>)
        ensures
            match result {
                Ok(decoder) => {
                    &&& open_error(DEFAULT_CHUNK_FRAMES, track) is None
                    &&& decoder.opened_from(path@, DEFAULT_CHUNK_FRAMES as nat, track->0)
                },
                Err(error) => open_error(DEFAULT_CHUNK_FRAMES, track) == Some(error),
            },
    {
        Self::open_with_chunk_size(path, DEFAULT_CHUNK_FRAMES, track)
    }

    /// A freshly opened decoder of `track` of the file at `path`.
    pub open spec fn opened_from(&self, path: Seq<char>, chunk_frames: nat, track: TrackInfo) -> bool {
        &&& self.wf()
        &&& self.spec_chunk_frames() > 0
        &&& self.spec_path() == path
        &&& self.spec_track_id() == track.id
        &&& self.spec_format() == signal_format(track.sample_rate->0, track.channel_mask->0)
        &&& self.spec_chunk_frames() == chunk_frames
        &&& !self.spec_finished()
        &&& self.pending().len() == 0
        &&& self.received().len() == 0
        &&& self.emitted().len() == 0
    }

    /// Return the source file path.
    pub fn path(&self) -> (path: &str)
        ensures
            path@ == self.spec_path(),
    {
        self.path.as_str()
    }

    /// Return the audio specification.
    pub fn spec(&self) -> (spec: AudioSpec)
        ensures
            spec == self.spec_format(),
    {
        self.spec
    }

    /// Return the configured chunk size in frames.
    pub fn chunk_frames(&self) -> (frames: usize)
        ensures
            frames == self.spec_chunk_frames(),
    {
        self.chunk_frames
    }

    /// Return whether the decoder has reached the end of the file.
    pub fn is_finished(&self) -> (finished: bool)
        ensures
            finished == self.spec_finished(),
    {
        self.finished
    }

    /// Return the number of samples currently waiting to be emitted.
    pub fn pending_samples(&self) -> (count: usize)
        ensures
            count == self.pending().len(),
    {
        self.pending_samples.len()
    }

    /// Whether the decoder has nothing more to give: the stream has
    /// ended and no sample is pending.
    pub fn is_exhausted(&self) -> (exhausted: bool)
        ensures
            exhausted == (self.spec_finished() && self.pending().len() == 0),
    {
        self.finished && self.pending_samples.len() == 0
    }

    /// Whether a chunk is the short last one of its stream: it holds
    /// fewer frames than the chunk size.
    pub fn is_final_chunk(&self, chunk: &PcmBuffer) -> (last: bool)
        ensures
            last == (chunk.frames() < self.spec_chunk_frames()),
    {
        chunk.frame_count() < self.chunk_frames
    }

    /// The number of samples in a full chunk, or `None` when it does not
    /// fit in a `usize`.
    pub fn chunk_samples(&self) -> (samples: Option<usize>)
        ensures
            match samples {
                Some(n) => self.target_fits() && n == self.target(),
                None => !self.target_fits(),
            },
    {
        self.chunk_frames.checked_mul(self.spec.channels)
    }

    /// Whether another packet must be read before the next chunk is cut.
    pub fn wants_packet(&self) -> (wants: bool)
        requires
            self.target_fits(),
        ensures
            wants == self.spec_wants_packet(),
    {
        let target_samples = self.chunk_frames * self.spec.channels;
        self.pending_samples.len() < target_samples && !self.finished
    }

    /// Take in the outcome of a packet read and say what to do with it.
    /// The end of the stream marks the decoder finished.
    pub fn on_read(&mut self, read: PacketRead) -> (action: ReadAction)
        requires
            old(self).wf(),
        ensures
            final(self).wf(),
            final(self).emitted() + final(self).pending() == final(self).received(),
            action == read_action(read, old(self).spec_track_id()),
            final(self).spec_finished() == (old(self).spec_finished() || read
                == PacketRead::EndOfStream),
            final(self).spec_path() == old(self).spec_path(),
            final(self).spec_track_id() == old(self).spec_track_id(),
            final(self).spec_format() == old(self).spec_format(),
            final(self).spec_chunk_frames() == old(self).spec_chunk_frames(),
            final(self).pending() == old(self).pending(),
            final(self).received() == old(self).received(),
            final(self).emitted() == old(self).emitted(),
    {
        let action = classify_read(read, self.track_id);
        if let PacketRead::EndOfStream = read {
            self.finished = true;
        }
        action
    }

    /// Take in the samples of a decoded packet. A packet whose format
    /// differs from the track's is refused and changes nothing.
    pub fn push_decoded(&mut self, sample_rate: u32, channel_mask: u32, samples: Vec<u32>) -> (result:
        Result<(), DecoderError>)
        requires
            old(self).wf(),
        ensures
            final(self).wf(),
            final(self).emitted() + final(self).pending() == final(self).received(),
            final(self).spec_path() == old(self).spec_path(),
            final(self).spec_track_id() == old(self).spec_track_id(),
            final(self).spec_format() == old(self).spec_format(),
            final(self).spec_chunk_frames() == old(self).spec_chunk_frames(),
            final(self).spec_finished() == old(self).spec_finished(),
            final(self).emitted() == old(self).emitted(),
            signal_format(sample_rate, channel_mask) != old(self).spec_format() ==> {
                &&& result == Err::<(), DecoderError>(DecoderError::FormatChanged)
                &&& final(self).pending() == old(self).pending()
                &&& final(self).received() == old(self).received()
            },
            signal_format(sample_rate, channel_mask) == old(self).spec_format() ==> {
                &&& result is Ok
                &&& final(self).pending() == old(self).pending() + samples@
                &&& final(self).received() == old(self).received() + samples@
            },
    {
        let actual_spec = signal_spec(sample_rate, channel_mask);
        if actual_spec != self.spec {
            return Err(DecoderError::FormatChanged);
        }
        let ghost old_pending = self.pending_samples@;
        let mut i: usize = 0;
        while i < samples.len()
            invariant
                i <= samples@.len(),
                self.pending_samples@ == old_pending + samples@.take(i as int),
                old_pending == old(self).pending_samples@,
                self.path == old(self).path,
                self.track_id == old(self).track_id,
                self.spec == old(self).spec,
                self.chunk_frames == old(self).chunk_frames,
                self.finished == old(self).finished,
                self.received == old(self).received,
                self.emitted == old(self).emitted,
                old(self).wf(),
            decreases samples@.len() - i,
        {
            self.pending_samples.push_back(samples[i]);
            assert(samples@.take(i + 1) =~= samples@.take(i as int).push(samples@[i as int]));
            i = i + 1;
        }
        assert(samples@.take(samples@.len() as int) =~= samples@);
        self.received = Ghost(self.received@ + samples@);
        assert(self.emitted@ + self.pending_samples@ =~= self.received@);
        Ok(())
    }

    /// Cut the next PCM chunk from the pending samples: a full chunk, or
    /// whatever is left once the stream has ended; `None` when nothing is
    /// pending.
    pub fn take_chunk(&mut self) -> (chunk: Option<PcmBuffer>)
        requires
            old(self).wf(),
            old(self).target_fits(),
        ensures
            final(self).wf(),
            final(self).emitted() + final(self).pending() == final(self).received(),
            final(self).spec_path() == old(self).spec_path(),
            final(self).spec_track_id() == old(self).spec_track_id(),
            final(self).spec_format() == old(self).spec_format(),
            final(self).spec_chunk_frames() == old(self).spec_chunk_frames(),
            final(self).spec_finished() == old(self).spec_finished(),
            final(self).received() == old(self).received(),
            old(self).pending().len() == 0 ==> chunk is None && final(self).pending() == old(
                self,
            ).pending() && final(self).emitted() == old(self).emitted(),
            old(self).pending().len() > 0 ==> (chunk matches Some(buffer) && {
                let n = chunk_len(old(self).pending().len(), old(self).target());
                &&& buffer.spec == old(self).spec_format()
                &&& buffer.samples@ == old(self).pending().take(n as int)
                &&& final(self).pending() == old(self).pending().skip(n as int)
                &&& final(self).emitted() == old(self).emitted() + buffer.samples@
            }),
            old(self).pending().len() > 0 && old(self).pending().len() <= old(self).target() ==> (
            chunk matches Some(buffer) && buffer.samples@ == old(self).pending()
                && final(self).pending().len() == 0),
            old(self).pending().len() >= old(self).target() ==> (chunk matches Some(buffer)
                ==> buffer.samples@ == old(self).pending().subrange(0, old(self).target() as int)
                && final(self).pending() == old(self).pending().subrange(
                old(self).target() as int,
                old(self).pending().len() as int,
            )),
            chunk matches Some(buffer) ==> buffer.samples@.len() <= old(self).target()
                && buffer.samples@.len() <= old(self).pending().len(),
            old(self).pending().len() > 0 && old(self).target() > 0 ==> (chunk matches Some(buffer)
                && buffer.samples@.len() > 0),
    {
        if self.pending_samples.len() == 0 {
            return None;
        }
        let target_samples = self.chunk_frames * self.spec.channels;
        let samples_to_take = if self.pending_samples.len() < target_samples {
            self.pending_samples.len()
        } else {
            target_samples
        };
        let ghost old_pending = self.pending_samples@;
        let mut samples: Vec<u32> = Vec::new();
        while samples.len() < samples_to_take
            invariant
                samples_to_take <= old_pending.len(),
                samples@.len() <= samples_to_take,
                samples@ == old_pending.take(samples@.len() as int),
                self.pending_samples@ == old_pending.skip(samples@.len() as int),
                old_pending == old(self).pending_samples@,
                self.path == old(self).path,
                self.track_id == old(self).track_id,
                self.spec == old(self).spec,
                self.chunk_frames == old(self).chunk_frames,
                self.finished == old(self).finished,
                self.received == old(self).received,
                self.emitted == old(self).emitted,
                old(self).wf(),
            decreases samples_to_take - samples@.len(),
        {
            let ghost k = samples@.len() as int;
            let sample = self.pending_samples.pop_front();
            match sample {
                Some(s) => {
                    samples.push(s);
                },
                None => {
                    assert(false);
                },
            }
            assert(samples@ =~= old_pending.take(k + 1));
            assert(self.pending_samples@ =~= old_pending.skip(k + 1));
        }
        self.emitted = Ghost(self.emitted@ + samples@);
        assert(old_pending.take(samples_to_take as int) + old_pending.skip(samples_to_take as int)
            =~= old_pending);
        assert(self.emitted@ + self.pending_samples@ =~= self.received@);
        assert(old_pending.take(old_pending.len() as int) =~= old_pending);
        assert(old_pending.take(target_samples as int) =~= old_pending.subrange(0, target_samples as int));
        assert(old_pending.skip(target_samples as int) =~= old_pending.subrange(target_samples as int, old_pending.len() as int));
        Some(PcmBuffer::new(self.spec, samples))
    }
}

/// No sample is lost or repeated: the samples handed out in chunks,
/// followed by those still pending, are exactly the samples decoded, in
/// decoding order.
pub proof fn law_chunks_conserve_samples(decoder: &AudioDecoder)
    requires
        decoder.wf(),
    ensures
        decoder.emitted() + decoder.pending() == decoder.received(),
        decoder.spec_chunk_frames() > 0,
{
}

/// Streaming and whole-file decoding give the same audio: once a
/// decoder that took in the samples of `packets` has reached the end of
/// the stream and handed out all it holds, the chunks it emitted,
/// concatenated, are the samples of the whole-file decode of those
/// packets, and the whole file has the decoder's format. (A packet of
/// another format stops the streaming decoder with `FormatChanged`, so
/// every packet it took in has its format.)
pub proof fn law_streaming_matches_whole_file(decoder: &AudioDecoder, packets: Seq<DecodedPacket>)
    requires
        decoder.wf(),
        decoder.received() == decoded_samples(packets),
        forall|i: int|
            0 <= i < packets.len() ==> signal_format(
                (#[trigger] packets[i]).sample_rate,
                packets[i].channel_mask,
            ) == decoder.spec_format(),
        decoder.spec_finished(),
        decoder.pending().len() == 0,
    ensures
        decoder.emitted() == decoded_samples(packets),
        decoded_format(decoder.spec_format(), packets) == decoder.spec_format(),
{
    assert(decoder.emitted() + decoder.pending() =~= decoder.emitted());
    law_uniform_packets_keep_format(decoder.spec_format(), packets);
}

/// A chunk is as long as both the pending samples and a full chunk
/// allow: no longer than either, and all of one of them. So once the
/// stream has ended, fewer pending samples than a full chunk all go out
/// in the last chunk, and a non-empty pending queue with a non-zero
/// chunk size always yields a non-empty chunk.
pub proof fn law_chunk_len_is_min(pending: nat, target: nat)
    ensures
        chunk_len(pending, target) <= pending,
        chunk_len(pending, target) <= target,
        chunk_len(pending, target) == pending || chunk_len(pending, target) == target,
        pending <= target ==> chunk_len(pending, target) == pending,
        pending > 0 && target > 0 ==> chunk_len(pending, target) > 0,
{
}

/// Once no more packets are wanted and the stream has not ended, the
/// next chunk is a full one: only the last chunk of a stream may be
/// short.
pub proof fn law_chunk_full_until_end(decoder: &AudioDecoder)
    requires
        decoder.wf(),
        !decoder.spec_wants_packet(),
        !decoder.spec_finished(),
    ensures
        chunk_len(decoder.pending().len(), decoder.target()) == decoder.target(),
        decoder.target() > 0 ==> decoder.pending().len() > 0,
{
}

} // verus!
