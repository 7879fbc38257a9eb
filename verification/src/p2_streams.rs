//! Protocol 2: the two sample streams that a host sends, receive audio to
//! the radio's own speaker and transmit samples. Both let their queue fill
//! to a cushion before they draw on it.
use crate::bytes::{self, high_byte, i16_bits, low_byte, pack_24, put_be32};
use crate::protocol2::P2_PACKET_SIZE;
use vstd::prelude::*;

verus! {

pub const P2_AUDIO_SAMPLES_PER_FRAME: usize = 64;

pub const P2_AUDIO_PACKET_SIZE: usize = 260;

/// Time that the samples of an audio packet last at 48 kHz, rounded down.
pub const P2_AUDIO_INTERVAL_NS: u64 = 1_333_333;

/// Samples to wait for before audio is drawn from its queue.
pub const AUDIO_PREBUFFER_SAMPLES: usize = 2_400;

/// Sample pairs in a transmit packet.
pub const P2_DUC_SAMPLES_PER_FRAME: usize = 240;

/// Time that the samples of a transmit packet last at 192 kHz.
pub const P2_DUC_INTERVAL_NS: u64 = 1_250_000;

/// Sample pairs to wait for before transmit samples are drawn.
pub const TX_PREBUFFER_PAIRS: usize = 4096;

/// Pause of a stream that has nothing to send.
pub const STREAM_IDLE_MS: u64 = 20;

/// What a stream does next.
#[derive(Clone, Copy, Debug, PartialEq, Eq, Structural)]
pub enum StreamStep {
    /// Send nothing, pause and start the schedule over.
    Idle,
    /// Send a silent packet and leave the queue alone.
    Silence,
    /// Send a packet of samples drawn from the queue.
    Samples,
}

pub open spec fn audio_or_silence(samples: Seq<i16>, k: int) -> i16 {
    if 0 <= k < samples.len() {
        samples[k]
    } else {
        0
    }
}

/// An audio packet: 64 samples, each for both ears, and silence where the
/// samples run out.
pub open spec fn audio_packet(seq: u32, samples: Seq<i16>) -> Seq<u8> {
    Seq::new(
        260,
        |i: int|
            if i < 4 {
                bytes::be32(seq)[i]
            } else {
                bytes::be16_signed(audio_or_silence(samples, (i - 4) / 4))[(i - 4) % 2]
            },
    )
}

/// Builds an audio packet.
pub fn p2_audio_packet(seq: u32, samples: &[i16]) -> (p: [u8; P2_AUDIO_PACKET_SIZE])
    ensures
        p@ == audio_packet(seq, samples@),
{
    let mut p: [u8; P2_AUDIO_PACKET_SIZE] = [0u8; P2_AUDIO_PACKET_SIZE];
    put_be32(&mut p, 0, seq);
    for k in 0..P2_AUDIO_SAMPLES_PER_FRAME
        invariant
            forall|i: int| 0 <= i < 4 + 4 * k ==> p@[i] == audio_packet(seq, samples@)[i],
    {
        let s: u16 = i16_bits(
            if k < samples.len() {
                samples[k]
            } else {
                0
            },
        );
        let ghost before = p@;
        let b: usize = 4 + 4 * k;
        p[b] = high_byte(s);
        p[b + 1] = low_byte(s);
        p[b + 2] = high_byte(s);
        p[b + 3] = low_byte(s);
        assert forall|i: int| 0 <= i < 4 + 4 * (k + 1) implies p@[i] == audio_packet(
            seq,
            samples@,
        )[i] by {
            if i >= b {
                assert((i - 4) / 4 == k);
                assert((i - 4) % 2 == (i - b) % 2);
            } else {
                assert(p@[i] == before[i]);
            }
        }
    }
    assert(p@ =~= audio_packet(seq, samples@));
    p
}

pub open spec fn tx_or_silence(samples: Seq<i32>, k: int) -> i32 {
    if 0 <= k < samples.len() {
        samples[k]
    } else {
        0
    }
}

/// A transmit packet: 240 interleaved sample pairs of 24 bits, and silence
/// where the samples run out.
pub open spec fn duc_packet(seq: u32, samples: Seq<i32>) -> Seq<u8> {
    Seq::new(
        1444,
        |i: int|
            if i < 4 {
                bytes::be32(seq)[i]
            } else {
                bytes::be24(tx_or_silence(samples, (i - 4) / 3) as int)[(i - 4) % 3]
            },
    )
}

/// Builds a transmit packet, and tells whether samples were missing.
pub fn p2_duc_packet(seq: u32, samples: &[i32]) -> (r: ([u8; P2_PACKET_SIZE], bool))
    ensures
        r.0@ == duc_packet(seq, samples@),
        r.1 == (samples@.len() < 2 * P2_DUC_SAMPLES_PER_FRAME),
{
    let mut p: [u8; P2_PACKET_SIZE] = [0u8; P2_PACKET_SIZE];
    put_be32(&mut p, 0, seq);
    for k in 0..2 * P2_DUC_SAMPLES_PER_FRAME
        invariant
            forall|i: int| 0 <= i < 4 + 3 * k ==> p@[i] == duc_packet(seq, samples@)[i],
    {
        let s: [u8; 3] = pack_24(
            if k < samples.len() {
                samples[k]
            } else {
                0
            },
        );
        let ghost before = p@;
        let b: usize = 4 + 3 * k;
        p[b] = s[0];
        p[b + 1] = s[1];
        p[b + 2] = s[2];
        assert forall|i: int| 0 <= i < 4 + 3 * (k + 1) implies p@[i] == duc_packet(
            seq,
            samples@,
        )[i] by {
            if i >= b {
                assert((i - 4) / 3 == k);
                assert((i - 4) % 3 == i - b);
            } else {
                assert(p@[i] == before[i]);
            }
        }
    }
    assert(p@ =~= duc_packet(seq, samples@));
    (p, samples.len() < 2 * P2_DUC_SAMPLES_PER_FRAME)
}

/// State of a stream.
#[derive(Clone, Copy, Debug, PartialEq, Eq, Structural)]
pub struct P2Stream {
    pub seq: u32,
    /// Whether the cushion has filled since the stream last started.
    pub warmed_up: bool,
}

/// The audio stream's next step. It flows while not keyed, where it is
/// wanted, and as silence while keyed in CW, because the radio's own
/// sidetone needs it.
pub open spec fn audio_step(
    s: P2Stream,
    mox: bool,
    cw: bool,
    wanted: bool,
    queued: nat,
) -> StreamStep {
    if mox && cw {
        StreamStep::Silence
    } else if mox || !wanted {
        StreamStep::Idle
    } else if s.warmed_up || queued >= AUDIO_PREBUFFER_SAMPLES {
        StreamStep::Samples
    } else {
        StreamStep::Silence
    }
}

/// The transmit stream's next step: it flows only while keyed.
pub open spec fn tx_step(s: P2Stream, mox: bool, queued: nat) -> StreamStep {
    if !mox {
        StreamStep::Idle
    } else if s.warmed_up || queued >= 2 * TX_PREBUFFER_PAIRS {
        StreamStep::Samples
    } else {
        StreamStep::Silence
    }
}

impl P2Stream {
    pub fn new() -> (s: Self)
        ensures
            s == (P2Stream { seq: 0, warmed_up: false }),
    {
        P2Stream { seq: 0, warmed_up: false }
    }

    /// Decides the audio stream's next step from the number of samples that
    /// are queued.
    pub fn next_audio_step(&mut self, mox: bool, cw: bool, wanted: bool, queued: usize) -> (step:
        StreamStep)
        ensures
            step == audio_step(*old(self), mox, cw, wanted, queued as nat),
            *final(self) == (P2Stream { warmed_up: step == StreamStep::Samples, ..*old(self) }),
    {
        if mox && cw {
            self.warmed_up = false;
            return StreamStep::Silence;
        }
        if mox || !wanted {
            self.warmed_up = false;
            return StreamStep::Idle;
        }
        if !self.warmed_up {
            if queued >= AUDIO_PREBUFFER_SAMPLES {
                self.warmed_up = true;
            } else {
                return StreamStep::Silence;
            }
        }
        StreamStep::Samples
    }

    /// Decides the transmit stream's next step from the number of samples
    /// that are queued, two to a pair.
    pub fn next_tx_step(&mut self, mox: bool, queued: usize) -> (step: StreamStep)
        ensures
            step == tx_step(*old(self), mox, queued as nat),
            *final(self) == (P2Stream { warmed_up: step == StreamStep::Samples, ..*old(self) }),
    {
        if !mox {
            self.warmed_up = false;
            return StreamStep::Idle;
        }
        if !self.warmed_up && queued >= TX_PREBUFFER_PAIRS * 2 {
            self.warmed_up = true;
        }
        if self.warmed_up {
            StreamStep::Samples
        } else {
            StreamStep::Silence
        }
    }

    /// Takes the next sequence number.
    pub fn take_seq(&mut self) -> (seq: u32)
        ensures
            seq == old(self).seq,
            final(self).seq == (old(self).seq + 1) % 0x1_0000_0000,
            final(self).warmed_up == old(self).warmed_up,
    {
        let seq: u32 = self.seq;
        self.seq = self.seq.wrapping_add(1);
        seq
    }
}

/// The two streams never draw samples at the same time: transmit samples go
/// out only while keyed, receive audio only while not.
pub proof fn law_streams_exclude_each_other(
    audio: P2Stream,
    tx: P2Stream,
    mox: bool,
    cw: bool,
    wanted: bool,
    queued_audio: nat,
    queued_tx: nat,
)
    ensures
        !(audio_step(audio, mox, cw, wanted, queued_audio) == StreamStep::Samples && tx_step(
            tx,
            mox,
            queued_tx,
        ) == StreamStep::Samples),
        !mox ==> tx_step(tx, mox, queued_tx) == StreamStep::Idle,
{
}

/// A stream that was interrupted fills its cushion anew before it draws on
/// its queue.
pub proof fn law_cushion_is_refilled(
    audio: P2Stream,
    tx: P2Stream,
    wanted: bool,
    queued_audio: nat,
    queued_tx: nat,
)
    requires
        !audio.warmed_up,
        !tx.warmed_up,
    ensures
        audio_step(audio, false, false, wanted, queued_audio) == StreamStep::Samples
            ==> queued_audio >= AUDIO_PREBUFFER_SAMPLES,
        tx_step(tx, true, queued_tx) == StreamStep::Samples ==> queued_tx >= 2
            * TX_PREBUFFER_PAIRS,
{
}

/// A packet without samples is silence in every slot.
pub proof fn law_empty_packets_are_silent(seq: u32)
    ensures
        audio_packet(seq, Seq::empty()) == bytes::be32(seq) + bytes::zeros(256),
        duc_packet(seq, Seq::empty()) == bytes::be32(seq) + bytes::zeros(1440),
{
    assert(audio_packet(seq, Seq::empty()) =~= bytes::be32(seq) + bytes::zeros(256));
    assert(duc_packet(seq, Seq::empty()) =~= bytes::be32(seq) + bytes::zeros(1440));
}

/// Sample `k` of an audio packet stands twice behind the four bytes of the
/// sequence number, most significant byte first; behind the last sample
/// there is silence.
pub proof fn law_audio_packets_hold_samples(seq: u32, samples: Seq<i16>, k: int)
    requires
        0 <= k < 64,
    ensures
        ({
            let p = audio_packet(seq, samples);
            let v = if k < samples.len() {
                samples[k] as int
            } else {
                0
            };
            &&& p.len() == 260
            &&& p[0] * 0x100_0000 + p[1] * 0x1_0000 + p[2] * 0x100 + p[3] == seq
            &&& bytes::holds_16(p, 4 + 4 * k, v)
            &&& bytes::holds_16(p, 6 + 4 * k, v)
        }),
{
    let s = audio_or_silence(samples, k);
    bytes::law_bytes_hold_what_was_written(0, s, 0, seq);
    assert((4 + 4 * k - 4) / 4 == k && (5 + 4 * k - 4) / 4 == k && (6 + 4 * k - 4) / 4 == k && (7
        + 4 * k - 4) / 4 == k);
    assert((4 + 4 * k - 4) % 2 == 0 && (5 + 4 * k - 4) % 2 == 1 && (6 + 4 * k - 4) % 2 == 0 && (7
        + 4 * k - 4) % 2 == 1);
}

/// Sample `k` of a transmit packet, of which even ones are in-phase parts,
/// stands in three bytes behind the four of the sequence number; behind the
/// last sample there is silence.
pub proof fn law_transmit_packets_hold_samples(seq: u32, samples: Seq<i32>, k: int)
    requires
        0 <= k < 480,
        k < samples.len() ==> -0x80_0000 <= samples[k] < 0x80_0000,
    ensures
        ({
            let p = duc_packet(seq, samples);
            &&& p.len() == 1444
            &&& p[0] * 0x100_0000 + p[1] * 0x1_0000 + p[2] * 0x100 + p[3] == seq
            &&& bytes::holds_24(
                p,
                4 + 3 * k,
                if k < samples.len() {
                    samples[k] as int
                } else {
                    0
                },
            )
        }),
{
    let s = tx_or_silence(samples, k);
    bytes::law_bytes_hold_what_was_written(s as int, 0, 0, seq);
    assert((4 + 3 * k - 4) / 3 == k && (5 + 3 * k - 4) / 3 == k && (6 + 3 * k - 4) / 3 == k);
    assert((4 + 3 * k - 4) % 3 == 0 && (5 + 3 * k - 4) % 3 == 1 && (6 + 3 * k - 4) % 3 == 2);
}

/// When each stream draws samples: audio while not keyed and wanted, once
/// 2400 are queued and until it is interrupted; transmit samples while
/// keyed, once 8192 are queued and until unkeyed. Until then they send
/// silence. Keyed in CW the audio stream sends silence, and else, where it
/// is not to flow, nothing.
pub proof fn law_when_streams_flow(
    s: P2Stream,
    mox: bool,
    cw: bool,
    wanted: bool,
    queued: nat,
)
    ensures
        ({
            let audio = audio_step(s, mox, cw, wanted, queued);
            let tx = tx_step(s, mox, queued);
            &&& audio == StreamStep::Samples <==> !mox && wanted && (s.warmed_up || queued >= 2400)
            &&& audio == StreamStep::Silence <==> (mox && cw) || (!mox && wanted && !s.warmed_up
                && queued < 2400)
            &&& audio == StreamStep::Idle <==> (mox && !cw) || (!mox && !wanted)
            &&& tx == StreamStep::Samples <==> mox && (s.warmed_up || queued >= 8192)
            &&& tx == StreamStep::Silence <==> mox && !s.warmed_up && queued < 8192
            &&& tx == StreamStep::Idle <==> !mox
        }),
{
}

/// Packets go out at the pace of their samples: 64 at 48 kHz, and 240 pairs
/// at 192 kHz.
pub proof fn law_packets_keep_the_pace()
    ensures
        P2_AUDIO_INTERVAL_NS * 48_000 <= 64 * 1_000_000_000 < (P2_AUDIO_INTERVAL_NS + 1) * 48_000,
        P2_DUC_INTERVAL_NS * 192_000 == 240 * 1_000_000_000,
        P2_AUDIO_SAMPLES_PER_FRAME == 64,
        P2_DUC_SAMPLES_PER_FRAME == 240,
{
}

} // verus!
