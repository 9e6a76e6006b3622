use std::collections::VecDeque;

use vstd::prelude::*;

use super::types::{AudioSpec, PcmBuffer};

verus! {

/// Number of PCM frames produced by one decoder iteration.
///
/// 4096 frames at 96 kHz is approximately 42.7 ms of audio.
pub const DEFAULT_CHUNK_FRAMES: usize = 4096;

/// Frames held by a sequence of buffers, counted from the front.
pub open spec fn total_frames(chunks: Seq<PcmBuffer>) -> nat
    decreases chunks.len(),
{
    if chunks.len() == 0 {
        0
    } else {
        chunks[0].frames() + total_frames(chunks.drop_first())
    }
}

/// Abstract state of a [`PcmStream`]: its format, the queued buffers
/// from oldest to newest, and its frame capacity.
pub struct StreamModel {
    pub spec: AudioSpec,
    pub chunks: Seq<PcmBuffer>,
    pub max_frames: nat,
}

impl StreamModel {
    pub open spec fn queued(self) -> nat {
        total_frames(self.chunks)
    }

    /// What every stream keeps: the queue holds only non-empty buffers
    /// of the stream's format, and never more frames than its capacity.
    pub open spec fn valid(self) -> bool {
        &&& forall|i: int|
            0 <= i < self.chunks.len() ==> {
                &&& (#[trigger] self.chunks[i]).spec == self.spec
                &&& self.chunks[i].frames() > 0
            }
        &&& self.queued() <= self.max_frames
    }

    /// Whether `push` accepts `buffer`: same format, and room for its
    /// frames (an empty buffer is accepted and dropped).
    pub open spec fn accepts(self, buffer: PcmBuffer) -> bool {
        &&& buffer.spec.sample_rate == self.spec.sample_rate
        &&& buffer.spec.channels == self.spec.channels
        &&& (buffer.frames() == 0 || self.queued() + buffer.frames() <= self.max_frames)
    }

    /// The stream after `push(buffer)`.
    pub open spec fn pushed(self, buffer: PcmBuffer) -> StreamModel {
        if self.accepts(buffer) && buffer.frames() > 0 {
            StreamModel { chunks: self.chunks.push(buffer), ..self }
        } else {
            self
        }
    }

    /// The stream after `pop()`.
    pub open spec fn popped(self) -> StreamModel {
        if self.chunks.len() == 0 {
            self
        } else {
            StreamModel { chunks: self.chunks.drop_first(), ..self }
        }
    }
}

/// Appending a buffer adds its frames to the total.
pub proof fn lemma_total_frames_push(chunks: Seq<PcmBuffer>, buffer: PcmBuffer)
    ensures
        total_frames(chunks.push(buffer)) == total_frames(chunks) + buffer.frames(),
    decreases chunks.len(),
{
    if chunks.len() > 0 {
        assert(chunks.push(buffer).drop_first() =~= chunks.drop_first().push(buffer));
        lemma_total_frames_push(chunks.drop_first(), buffer);
    } else {
        assert(chunks.push(buffer).drop_first() =~= Seq::<PcmBuffer>::empty());
        assert(total_frames(Seq::<PcmBuffer>::empty()) == 0);
    }
}

/// The first buffer of a queue counts towards its total.
pub proof fn lemma_total_frames_first(chunks: Seq<PcmBuffer>)
    requires
        chunks.len() > 0,
    ensures
        chunks[0].frames() <= total_frames(chunks),
{
}

/// Every operation keeps a stream valid: no empty or foreign buffer is
/// ever queued, and the queued frames never exceed the capacity.
pub proof fn law_operations_keep_stream_valid(m: StreamModel, buffer: PcmBuffer)
    requires
        m.valid(),
    ensures
        m.pushed(buffer).valid(),
        m.popped().valid(),
        (StreamModel { chunks: Seq::empty(), ..m }).valid(),
{
    if m.accepts(buffer) && buffer.frames() > 0 {
        lemma_total_frames_push(m.chunks, buffer);
        let p = m.pushed(buffer);
        assert forall|i: int| 0 <= i < p.chunks.len() implies {
            &&& (#[trigger] p.chunks[i]).spec == p.spec
            &&& p.chunks[i].frames() > 0
        } by {
            if i < m.chunks.len() {
                assert(p.chunks[i] == m.chunks[i]);
            }
        }
    }
    if m.chunks.len() > 0 {
        let q = m.popped();
        assert forall|i: int| 0 <= i < q.chunks.len() implies {
            &&& (#[trigger] q.chunks[i]).spec == q.spec
            &&& q.chunks[i].frames() > 0
        } by {
            assert(q.chunks[i] == m.chunks[i + 1]);
        }
    }
}

/// An accepted non-empty buffer adds exactly its frames to the queue;
/// popping removes exactly the frames of the oldest buffer.
pub proof fn law_frame_accounting(m: StreamModel, buffer: PcmBuffer)
    ensures
        m.accepts(buffer) && buffer.frames() > 0 ==> m.pushed(buffer).queued() == m.queued()
            + buffer.frames(),
        m.chunks.len() > 0 ==> m.popped().queued() + m.chunks[0].frames() == m.queued(),
{
    lemma_total_frames_push(m.chunks, buffer);
}

/// A buffer of the stream's format is refused only for lack of room: a
/// non-empty one is queued, at the back, exactly when its frames fit in
/// the remaining capacity, whatever is already queued.
pub proof fn law_push_within_capacity(m: StreamModel, buffer: PcmBuffer)
    requires
        buffer.spec.sample_rate == m.spec.sample_rate,
        buffer.spec.channels == m.spec.channels,
        buffer.frames() > 0,
    ensures
        m.accepts(buffer) <==> m.queued() + buffer.frames() <= m.max_frames,
        m.queued() + buffer.frames() <= m.max_frames ==> m.pushed(buffer).chunks == m.chunks.push(
            buffer,
        ),
        m.queued() + buffer.frames() > m.max_frames ==> m.pushed(buffer) == m,
{
}

/// A buffer of another format is always refused.
pub proof fn law_push_refuses_other_format(m: StreamModel, buffer: PcmBuffer)
    requires
        buffer.spec.sample_rate != m.spec.sample_rate || buffer.spec.channels != m.spec.channels,
    ensures
        !m.accepts(buffer),
        m.pushed(buffer) == m,
{
}

/// A rejected buffer leaves the stream exactly as it was.
pub proof fn law_rejected_push_changes_nothing(m: StreamModel, buffer: PcmBuffer)
    requires
        !m.accepts(buffer),
    ensures
        m.pushed(buffer) == m,
{
}

/// First in, first out: pushing at the back and popping at the front
/// commute, so buffers leave the stream in the order they entered.
pub proof fn law_push_pop_commute(m: StreamModel, buffer: PcmBuffer)
    requires
        m.valid(),
        m.chunks.len() > 0,
        m.accepts(buffer),
    ensures
        m.pushed(buffer).popped() == m.popped().pushed(buffer),
{
    lemma_total_frames_push(m.chunks, buffer);
    law_frame_accounting(m, buffer);
    assert(m.popped().accepts(buffer));
    if buffer.frames() > 0 {
        assert(m.chunks.push(buffer).drop_first() =~= m.chunks.drop_first().push(buffer));
    }
}

/// A buffer pushed into an empty stream is the next one popped, and
/// popping it leaves the stream empty again.
pub proof fn law_push_then_pop_returns_buffer(m: StreamModel, buffer: PcmBuffer)
    requires
        m.chunks.len() == 0,
        m.accepts(buffer),
        buffer.frames() > 0,
    ensures
        m.pushed(buffer).chunks.len() == 1,
        m.pushed(buffer).chunks[0] == buffer,
        m.pushed(buffer).popped() == m,
{
    assert(m.chunks.push(buffer).drop_first() =~= m.chunks);
}

/// A bounded queue of PCM audio waiting to be consumed.
///
/// The queue owns only a limited amount of decoded audio, which keeps
/// the pipeline from growing without bound.
#[derive(Debug)]
pub struct PcmStream {
    spec: AudioSpec,
    chunks: VecDeque<PcmBuffer>,
    queued_frames: usize,
    max_frames: usize,
}

impl View for PcmStream {
    type V = StreamModel;

    closed spec fn view(&self) -> StreamModel {
        StreamModel { spec: self.spec, chunks: self.chunks@, max_frames: self.max_frames as nat }
    }
}

impl PcmStream {
    /// Internal consistency: the frame counter matches the queue, and the
    /// abstract stream is valid.
    pub closed spec fn wf(&self) -> bool {
        &&& self.queued_frames as nat == total_frames(self.chunks@)
        &&& self@.valid()
    }

    /// A well-formed stream is valid: the caller may rely on the queue
    /// holding only non-empty buffers of the stream's format, within its
    /// capacity.
    pub proof fn lemma_wf_valid(&self)
        requires
            self.wf(),
        ensures
            self@.valid(),
            self@.queued() <= self@.max_frames,
    {
    }

    /// Create a new PCM stream with a maximum number of queued frames.
    pub fn new(spec: AudioSpec, max_frames: usize) -> (stream: Self)
        ensures
            stream.wf(),
            stream@.valid(),
            stream@.spec == spec,
            stream@.chunks.len() == 0,
            stream@.max_frames == max_frames,
    {
        let stream = PcmStream { spec, chunks: VecDeque::new(), queued_frames: 0, max_frames };
        assert(stream.chunks@.len() == 0);
        stream
    }

    /// Return the audio specification used by this stream.
    pub fn spec(&self) -> (spec: AudioSpec)
        ensures
            spec == self@.spec,
    {
        self.spec
    }

    /// Return the number of PCM frames currently queued.
    pub fn queued_frames(&self) -> (frames: usize)
        requires
            self.wf(),
        ensures
            frames == self@.queued(),
    {
        self.queued_frames
    }

    /// Return the maximum number of frames this stream can hold.
    pub fn max_frames(&self) -> (frames: usize)
        ensures
            frames == self@.max_frames,
    {
        self.max_frames
    }

    /// Return true when the stream has reached its capacity.
    pub fn is_full(&self) -> (full: bool)
        requires
            self.wf(),
        ensures
            full == (self@.queued() >= self@.max_frames),
    {
        self.queued_frames >= self.max_frames
    }

    /// Return true when the stream contains no PCM frames.
    pub fn is_empty(&self) -> (empty: bool)
        requires
            self.wf(),
        ensures
            empty == (self@.queued() == 0),
            empty == (self@.chunks.len() == 0),
    {
        proof {
            if self.chunks@.len() > 0 {
                lemma_total_frames_first(self.chunks@);
            }
        }
        self.queued_frames == 0
    }

    /// Return the remaining frame capacity.
    pub fn remaining_frames(&self) -> (frames: usize)
        requires
            self.wf(),
        ensures
            frames == self@.max_frames - self@.queued(),
    {
        self.max_frames - self.queued_frames
    }

    /// Push a PCM buffer into the stream.
    ///
    /// The buffer is rejected when its audio specification does not
    /// match the stream, or when adding it would exceed the stream's
    /// capacity. An empty buffer of the right format is accepted and
    /// dropped. Returns `true` when accepted.
    pub fn push(&mut self, buffer: PcmBuffer) -> (accepted: bool)
        requires
            old(self).wf(),
        ensures
            final(self).wf(),
            final(self)@.valid(),
            accepted == old(self)@.accepts(buffer),
            final(self)@ == old(self)@.pushed(buffer),
            accepted <==> (buffer.spec.sample_rate == old(self)@.spec.sample_rate
                && buffer.spec.channels == old(self)@.spec.channels && (buffer.frames() == 0
                || old(self)@.queued() + buffer.frames() <= old(self)@.max_frames)),
            accepted && buffer.frames() > 0 ==> final(self)@.chunks == old(self)@.chunks.push(
                buffer,
            ),
            !accepted || buffer.frames() == 0 ==> final(self)@ == old(self)@,
    {
        if buffer.spec.sample_rate != self.spec.sample_rate || buffer.spec.channels
            != self.spec.channels {
            return false;
        }
        let frames = buffer.frame_count();
        if frames == 0 {
            return true;
        }
        if frames > self.max_frames - self.queued_frames {
            return false;
        }
        proof {
            lemma_total_frames_push(self.chunks@, buffer);
        }
        self.queued_frames = self.queued_frames + frames;
        self.chunks.push_back(buffer);
        proof {
            assert(self@.chunks =~= old(self)@.chunks.push(buffer));
            assert forall|i: int| 0 <= i < self@.chunks.len() implies {
                &&& (#[trigger] self@.chunks[i]).spec == self@.spec
                &&& self@.chunks[i].frames() > 0
            } by {
                if i < old(self)@.chunks.len() {
                    assert(self@.chunks[i] == old(self)@.chunks[i]);
                }
            }
        }
        true
    }

    /// Pop the oldest PCM buffer from the stream.
    pub fn pop(&mut self) -> (buffer: Option<PcmBuffer>)
        requires
            old(self).wf(),
        ensures
            final(self).wf(),
            final(self)@.valid(),
            final(self)@ == old(self)@.popped(),
            buffer == (if old(self)@.chunks.len() == 0 {
                None
            } else {
                Some(old(self)@.chunks[0])
            }),
    {
        let buffer = match self.chunks.pop_front() {
            Some(buffer) => buffer,
            None => return None,
        };
        proof {
            assert(old(self).chunks@.drop_first() =~= self.chunks@);
        }
        let frames = buffer.frame_count();
        self.queued_frames = self.queued_frames - frames;
        proof {
            assert forall|i: int| 0 <= i < self@.chunks.len() implies {
                &&& (#[trigger] self@.chunks[i]).spec == self@.spec
                &&& self@.chunks[i].frames() > 0
            } by {
                assert(self@.chunks[i] == old(self)@.chunks[i + 1]);
            }
        }
        Some(buffer)
    }

    /// Remove all queued PCM data.
    pub fn clear(&mut self)
        requires
            old(self).wf(),
        ensures
            final(self).wf(),
            final(self)@.valid(),
            final(self)@ == (StreamModel { chunks: Seq::empty(), ..old(self)@ }),
    {
        self.chunks.clear();
        self.queued_frames = 0;
        proof {
            assert(self.chunks@ =~= Seq::<PcmBuffer>::empty());
        }
    }
}

} // verus!
