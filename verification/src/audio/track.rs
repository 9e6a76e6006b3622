use vstd::prelude::*;

use super::types::AudioSpec;

verus! {

/// Bits of a channel mask that name a channel position (front left up to
/// the second low-frequency channel).
pub const CHANNEL_POSITIONS: u32 = 0x03FF_FFFFu32;

/// Number of bits set in `x`.
pub open spec fn bit_count(x: nat) -> nat
    decreases x,
{
    if x == 0 {
        0
    } else {
        x % 2 + bit_count(x / 2)
    }
}

proof fn lemma_bit_count_unfold(x: nat)
    ensures
        bit_count(x) == x % 2 + bit_count(x / 2),
{
}

proof fn lemma_bit_count_le(x: nat)
    ensures
        bit_count(x) <= x,
    decreases x,
{
    if x > 0 {
        lemma_bit_count_le(x / 2);
    }
}

proof fn lemma_half_plus_even(x: nat, m: nat)
    ensures
        (x + 2 * m) / 2 == x / 2 + m,
        (x + 2 * m) % 2 == x % 2,
{
    vstd::arithmetic::div_mod::lemma_fundamental_div_mod(x as int, 2);
    vstd::arithmetic::div_mod::lemma_fundamental_div_mod_converse(
        (x + 2 * m) as int,
        2,
        (x / 2 + m) as int,
        (x % 2) as int,
    );
}

/// Every bit counts once: setting a clear bit `k` of `x` raises its bit
/// count by exactly one.
pub proof fn law_each_bit_counts_once(x: nat, k: nat)
    requires
        (x / vstd::arithmetic::power2::pow2(k)) % 2 == 0,
    ensures
        bit_count(x + vstd::arithmetic::power2::pow2(k)) == bit_count(x) + 1,
    decreases k,
{
    let p = vstd::arithmetic::power2::pow2(k);
    vstd::arithmetic::power2::lemma_pow2_pos(k);
    if k == 0 {
        vstd::arithmetic::power2::lemma_pow2(0);
        assert(vstd::arithmetic::power::pow(2, 0) == 1) by {
            reveal(vstd::arithmetic::power::pow);
        }
        assert(p == 1);
        assert(x / 1 == x);
        lemma_half_plus_even(x, 0);
        assert((x + 1) / 2 == x / 2) by {
            vstd::arithmetic::div_mod::lemma_fundamental_div_mod(x as int, 2);
            vstd::arithmetic::div_mod::lemma_fundamental_div_mod_converse(
                (x + 1) as int,
                2,
                (x / 2) as int,
                1,
            );
        }
        lemma_bit_count_unfold(x);
        lemma_bit_count_unfold(x + 1);
    } else {
        let q = vstd::arithmetic::power2::pow2((k - 1) as nat);
        vstd::arithmetic::power2::lemma_pow2_unfold(k);
        vstd::arithmetic::power2::lemma_pow2_pos((k - 1) as nat);
        assert(p == 2 * q);
        lemma_half_plus_even(x, q);
        vstd::arithmetic::div_mod::lemma_div_denominator(x as int, 2, q as int);
        assert((x / 2) / q == x / p);
        law_each_bit_counts_once(x / 2, (k - 1) as nat);
        lemma_bit_count_unfold(x);
        lemma_bit_count_unfold(x + p);
    }
}

/// Number of channels named by a channel mask: its set position bits.
pub open spec fn channels_in(mask: u32) -> nat {
    bit_count((mask & CHANNEL_POSITIONS) as nat)
}

/// The format of decoded audio carries its rate, and counts as its
/// channels every set bit of the mask among the defined positions
/// (`0x03FF_FFFF`), and only those.
pub proof fn law_format_counts_each_position(sample_rate: u32, channel_mask: u32)
    ensures
        signal_format(sample_rate, channel_mask).sample_rate == sample_rate,
        signal_format(sample_rate, channel_mask).channels == bit_count(
            (channel_mask & 0x03FF_FFFFu32) as nat,
        ),
        signal_format(sample_rate, channel_mask) == signal_format(
            sample_rate,
            channel_mask & 0x03FF_FFFFu32,
        ),
{
    assert(channel_mask & 0x03FF_FFFFu32 & 0x03FF_FFFFu32 == channel_mask & 0x03FF_FFFFu32)
        by (bit_vector);
    assert(channel_mask & 0x03FF_FFFFu32 <= 0x03FF_FFFFu32) by (bit_vector);
    lemma_bit_count_le((channel_mask & 0x03FF_FFFFu32) as nat);
}

/// Format of decoded audio with the given rate and channel mask.
pub open spec fn signal_format(sample_rate: u32, channel_mask: u32) -> AudioSpec {
    AudioSpec { sample_rate, channels: channels_in(channel_mask) as usize }
}

/// Counts the channels of a channel mask with symphonia's
/// `Channels::count`, on `Channels::from_bits_truncate(mask)`. The
/// former keeps the bits of the defined channel positions; the latter
/// counts the bits that are set.
#[verifier::external_body]
fn channel_count(mask: u32) -> (count: usize)
    ensures
        count == channels_in(mask),
{
    symphonia::core::audio::Channels::from_bits_truncate(mask).count()
}

/// Format of decoded audio with the given rate and channel mask.
pub fn signal_spec(sample_rate: u32, channel_mask: u32) -> (spec: AudioSpec)
    ensures
        spec == signal_format(sample_rate, channel_mask),
        spec.sample_rate == sample_rate,
        spec.channels == bit_count((channel_mask & 0x03FF_FFFFu32) as nat),
{
    AudioSpec::new(sample_rate, channel_count(channel_mask))
}

/// What the container reports about its default track: its id and, when
/// known, its sample rate and channel mask.
#[derive(Debug, Clone, Copy, PartialEq, Eq, Structural)]
pub struct TrackInfo {
    pub id: u32,
    pub sample_rate: Option<u32>,
    pub channel_mask: Option<u32>,
}

/// Why opening or decoding a file failed, where the decision is this
/// library's own.
#[derive(Debug, Clone, Copy, PartialEq, Eq, Structural)]
pub enum DecoderError {
    /// The requested chunk size is zero frames.
    ZeroChunkSize,
    /// The container has no default track.
    NoAudioTrack,
    /// The track does not state its sample rate.
    MissingSampleRate,
    /// The track does not state its channels.
    MissingChannels,
    /// The container asked for a decoder reset, which is not supported.
    ResetRequired,
    /// A decoded packet has another format than the track.
    FormatChanged,
}

/// The default track, or `NoAudioTrack` when the container has none.
pub fn select_track(track: Option<TrackInfo>) -> (result: Result<TrackInfo, DecoderError>)
    ensures
        match track {
            Some(t) => result == Ok::<TrackInfo, DecoderError>(t),
            None => result == Err::<TrackInfo, DecoderError>(DecoderError::NoAudioTrack),
        },
{
    match track {
        Some(t) => Ok(t),
        None => Err(DecoderError::NoAudioTrack),
    }
}

/// The error, if any, with which a track's format is refused.
pub open spec fn track_error(track: TrackInfo) -> Option<DecoderError> {
    if track.sample_rate is None {
        Some(DecoderError::MissingSampleRate)
    } else if track.channel_mask is None {
        Some(DecoderError::MissingChannels)
    } else {
        None
    }
}

/// The audio format that a track states.
pub fn track_spec(track: &TrackInfo) -> (result: Result<AudioSpec, DecoderError>)
    ensures
        match result {
            Ok(spec) => track_error(*track) is None && spec == signal_format(
                track.sample_rate->0,
                track.channel_mask->0,
            ) && spec.sample_rate == track.sample_rate->0 && spec.channels == bit_count(
                (track.channel_mask->0 & 0x03FF_FFFFu32) as nat,
            ),
            Err(error) => track_error(*track) == Some(error),
        },
{
    let sample_rate = match track.sample_rate {
        Some(rate) => rate,
        None => return Err(DecoderError::MissingSampleRate),
    };
    let channel_mask = match track.channel_mask {
        Some(mask) => mask,
        None => return Err(DecoderError::MissingChannels),
    };
    Ok(signal_spec(sample_rate, channel_mask))
}

/// Outcome of asking the container for its next packet.
#[derive(Debug, Clone, Copy, PartialEq, Eq, Structural)]
pub enum PacketRead {
    /// A packet of the given track.
    Packet { track_id: u32 },
    /// The container asks for a decoder reset.
    ResetRequired,
    /// The source ran out (an I/O error, which is how the end of a
    /// stream is reported).
    EndOfStream,
    /// Any other error of the container.
    Failed,
}

/// What to do after a packet read.
#[derive(Debug, Clone, Copy, PartialEq, Eq, Structural)]
pub enum ReadAction {
    /// Decode the packet.
    Decode,
    /// Ignore the packet (it belongs to another track) and read on.
    Skip,
    /// Stop reading: the stream has ended.
    Stop,
    /// Fail with this error.
    Fail(DecoderError),
    /// Fail with the container's own error.
    Propagate,
}

/// The action for a packet read, when decoding the track `track_id`.
pub open spec fn read_action(read: PacketRead, track_id: u32) -> ReadAction {
    match read {
        PacketRead::Packet { track_id: id } => if id == track_id {
            ReadAction::Decode
        } else {
            ReadAction::Skip
        },
        PacketRead::ResetRequired => ReadAction::Fail(DecoderError::ResetRequired),
        PacketRead::EndOfStream => ReadAction::Stop,
        PacketRead::Failed => ReadAction::Propagate,
    }
}

/// Only packets of the decoded track are decoded; packets of other tracks
/// are skipped; the end of the stream stops reading; a reset request and
/// any other container error fail.
pub proof fn law_read_actions(read: PacketRead, track_id: u32)
    ensures
        read_action(read, track_id) == ReadAction::Decode <==> read == (PacketRead::Packet {
            track_id,
        }),
        read_action(read, track_id) == ReadAction::Stop <==> read == PacketRead::EndOfStream,
        read_action(read, track_id) == ReadAction::Skip <==> (read is Packet && read->track_id
            != track_id),
        read == PacketRead::ResetRequired ==> read_action(read, track_id) == ReadAction::Fail(
            DecoderError::ResetRequired,
        ),
        read == PacketRead::Failed ==> read_action(read, track_id) == ReadAction::Propagate,
{
}

/// A track is accepted exactly when it states both its rate and its
/// channels.
pub proof fn law_track_needs_rate_and_channels(track: TrackInfo)
    ensures
        track_error(track) is None <==> (track.sample_rate is Some && track.channel_mask is Some),
        track.sample_rate is None ==> track_error(track) == Some(DecoderError::MissingSampleRate),
{
}

/// Decide what to do with a packet read while decoding `track_id`.
pub fn classify_read(read: PacketRead, track_id: u32) -> (action: ReadAction)
    ensures
        action == read_action(read, track_id),
{
    match read {
        PacketRead::Packet { track_id: id } => if id == track_id {
            ReadAction::Decode
        } else {
            ReadAction::Skip
        },
        PacketRead::ResetRequired => ReadAction::Fail(DecoderError::ResetRequired),
        PacketRead::EndOfStream => ReadAction::Stop,
        PacketRead::Failed => ReadAction::Propagate,
    }
}

} // verus!
