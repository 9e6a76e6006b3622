use vstd::prelude::*;

use super::track::signal_format;
use super::track::signal_spec;
use super::types::{AudioSpec, PcmBuffer};

verus! {

/// A decoded packet of the track being read: the rate and channel mask of
/// its audio, and its interleaved samples.
pub struct DecodedPacket {
    pub sample_rate: u32,
    pub channel_mask: u32,
    pub samples: Seq<u32>,
}

/// The samples of a run of decoded packets, in order.
pub open spec fn decoded_samples(packets: Seq<DecodedPacket>) -> Seq<u32>
    decreases packets.len(),
{
    if packets.len() == 0 {
        Seq::empty()
    } else {
        decoded_samples(packets.drop_last()) + packets.last().samples
    }
}

/// The format of a whole file decoded from a run of packets, starting
/// from the format the track states: the last packet's format wins.
pub open spec fn decoded_format(initial: AudioSpec, packets: Seq<DecodedPacket>) -> AudioSpec {
    if packets.len() == 0 {
        initial
    } else {
        signal_format(packets.last().sample_rate, packets.last().channel_mask)
    }
}

/// Decoding one more packet into a whole file extends the fold by that
/// packet: `append_decoded` applied to the packets in order, from an
/// empty buffer of the track's format, gives `decoded_format` and
/// `decoded_samples` of them.
pub proof fn law_whole_file_fold_step(
    initial: AudioSpec,
    packets: Seq<DecodedPacket>,
    packet: DecodedPacket,
)
    ensures
        decoded_samples(packets.push(packet)) == decoded_samples(packets) + packet.samples,
        decoded_format(initial, packets.push(packet)) == signal_format(
            packet.sample_rate,
            packet.channel_mask,
        ),
        decoded_samples(Seq::<DecodedPacket>::empty()) == Seq::<u32>::empty(),
        decoded_format(initial, Seq::<DecodedPacket>::empty()) == initial,
{
    assert(packets.push(packet).drop_last() =~= packets);
}

/// When every packet has the track's format, the whole file keeps that
/// format.
pub proof fn law_uniform_packets_keep_format(initial: AudioSpec, packets: Seq<DecodedPacket>)
    requires
        forall|i: int|
            0 <= i < packets.len() ==> signal_format(
                (#[trigger] packets[i]).sample_rate,
                packets[i].channel_mask,
            ) == initial,
    ensures
        decoded_format(initial, packets) == initial,
{
    if packets.len() > 0 {
        assert(packets.last() == packets[packets.len() - 1]);
    }
}

/// Fold one decoded packet into the audio of a whole file: the file takes
/// the packet's format (the last packet's format wins) and its samples
/// are appended after those decoded so far.
pub fn append_decoded(
    decoded: &mut PcmBuffer,
    sample_rate: u32,
    channel_mask: u32,
    samples: Vec<u32>,
)
    ensures
        final(decoded).spec == signal_format(sample_rate, channel_mask),
        final(decoded).samples@ == old(decoded).samples@ + samples@,
{
    let mut samples = samples;
    decoded.spec = signal_spec(sample_rate, channel_mask);
    decoded.samples.append(&mut samples);
}

} // verus!
