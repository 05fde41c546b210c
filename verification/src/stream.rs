//! Splitting a byte stream into delimited packets and decoding each one,
//! with bounded buffering and recovery from noise.

use vstd::prelude::*;

use crate::codec::{
    decode_packet, lemma_frame_round_trip, raw_frame_with_crc, spec_decode_packet, spec_encode_frame,
};
use crate::cobs::{lemma_cobs_encode_len, lemma_cobs_encode_zero_free, spec_cobs_encode, zero_free};
use crate::error::ProtocolError;
use crate::frame::{Frame, FrameHeader, HEADER_LEN, MAX_PAYLOAD_LEN};

verus! {

/// Longest raw frame: header, full payload, CRC.
pub const MAX_RAW_FRAME_LEN: usize = HEADER_LEN + MAX_PAYLOAD_LEN + 2;

/// Longest packet, without its delimiter, that a decoder buffers: the COBS
/// encoding of the longest raw frame.
pub const MAX_ENCODED_PACKET_LEN: usize = MAX_RAW_FRAME_LEN + (MAX_RAW_FRAME_LEN + 253) / 254;

/// What a decoder has seen: packets decoded, packets that failed to decode,
/// and packets dropped for being too long.
#[derive(Clone, Copy, Debug, PartialEq, Eq, Structural)]
pub struct StreamStats {
    pub decoded: u64,
    pub malformed: u64,
    pub overflow: u64,
}

impl Default for StreamStats {
    fn default() -> (s: StreamStats)
        ensures
            s == (StreamStats { decoded: 0, malformed: 0, overflow: 0 }),
    {
        StreamStats { decoded: 0, malformed: 0, overflow: 0 }
    }
}

/// The state of a decoder: the bytes of the packet read so far, whether an
/// overlong packet is being skipped, and the counts.
pub struct DecoderState {
    pub buffer: Seq<u8>,
    pub dropping: bool,
    pub stats: StreamStats,
}

/// The outcome of decoding one packet, with the frame as its view.
pub type PacketResult = Result<(FrameHeader, Seq<u8>), ProtocolError>;

/// What one byte does to a decoder, and the packet outcome it completes, if
/// any. While skipping, bytes are ignored until a zero, which ends the skip
/// with `PacketTooLong`. Otherwise a zero ends the packet in the buffer
/// (none when the buffer is empty) and any other byte is buffered, unless
/// the buffer is full, which starts a skip.
pub open spec fn decoder_step(s: DecoderState, byte: u8) -> (DecoderState, Option<PacketResult>) {
    if s.dropping {
        if byte == 0 {
            (
                DecoderState {
                    buffer: s.buffer,
                    dropping: false,
                    stats: StreamStats { overflow: (s.stats.overflow + 1) as u64, ..s.stats },
                },
                Some(Err(ProtocolError::PacketTooLong)),
            )
        } else {
            (s, None)
        }
    } else if byte == 0 {
        if s.buffer.len() == 0 {
            (s, None)
        } else {
            let result = spec_decode_packet(s.buffer);
            let stats = match result {
                Ok(_) => StreamStats { decoded: (s.stats.decoded + 1) as u64, ..s.stats },
                Err(_) => StreamStats { malformed: (s.stats.malformed + 1) as u64, ..s.stats },
            };
            (DecoderState { buffer: Seq::empty(), dropping: false, stats }, Some(result))
        }
    } else if s.buffer.len() < MAX_ENCODED_PACKET_LEN {
        (DecoderState { buffer: s.buffer.push(byte), ..s }, None)
    } else {
        (DecoderState { buffer: Seq::empty(), dropping: true, ..s }, None)
    }
}

/// A decoder's buffer holds at most one packet's worth of bytes, and none
/// while a packet is skipped.
pub open spec fn state_wf(s: DecoderState) -> bool {
    &&& s.buffer.len() <= MAX_ENCODED_PACKET_LEN
    &&& s.dropping ==> s.buffer.len() == 0
}

/// The outcome as a sequence of zero or one items.
pub open spec fn outcome_seq(o: Option<PacketResult>) -> Seq<PacketResult> {
    match o {
        Some(r) => seq![r],
        None => Seq::empty(),
    }
}

/// What a run of bytes does to a decoder, and the packet outcomes it
/// completes, in order.
pub open spec fn decoder_push(s: DecoderState, bytes: Seq<u8>) -> (DecoderState, Seq<PacketResult>)
    decreases bytes.len(),
{
    if bytes.len() == 0 {
        (s, Seq::empty())
    } else {
        let (s1, out1) = decoder_push(s, bytes.drop_last());
        let (s2, o) = decoder_step(s1, bytes.last());
        (s2, out1 + outcome_seq(o))
    }
}

/// The views of a list of packet outcomes.
pub open spec fn results_view(v: Seq<Result<Frame, ProtocolError>>) -> Seq<PacketResult> {
    v.map_values(
        |r: Result<Frame, ProtocolError>|
            match r {
                Ok(f) => Ok::<(FrameHeader, Seq<u8>), ProtocolError>(f@),
                Err(e) => Err::<(FrameHeader, Seq<u8>), ProtocolError>(e),
            },
    )
}

/// Turns a byte stream into frames: bytes up to each zero delimiter form a
/// packet, which is decoded.
pub struct StreamDecoder {
    buffer: Vec<u8>,
    dropping_overlong_packet: bool,
    stats: StreamStats,
}

impl View for StreamDecoder {
    type V = DecoderState;

    open spec fn view(&self) -> DecoderState {
        self.state()
    }
}

impl StreamDecoder {
    /// The buffer never holds more than one packet's worth of bytes, and
    /// holds none while a packet is skipped.
    pub open spec fn wf(&self) -> bool {
        state_wf(self@)
    }

    /// The decoder's state.
    pub closed spec fn state(&self) -> DecoderState {
        DecoderState {
            buffer: self.buffer@,
            dropping: self.dropping_overlong_packet,
            stats: self.stats,
        }
    }

    /// A decoder with nothing buffered and zero counts.
    pub fn new() -> (d: StreamDecoder)
        ensures
            d.wf(),
            d@.buffer == Seq::<u8>::empty(),
            !d@.dropping,
            d@.stats == (StreamStats { decoded: 0, malformed: 0, overflow: 0 }),
    {
        StreamDecoder {
            buffer: Vec::with_capacity(MAX_ENCODED_PACKET_LEN),
            dropping_overlong_packet: false,
            stats: StreamStats::default(),
        }
    }

    /// Feeds bytes to the decoder and returns the outcome of every packet
    /// they complete; see `decoder_push`. Each count must have room for one
    /// more per byte.
    pub fn push(&mut self, bytes: &[u8]) -> (output: Vec<Result<Frame, ProtocolError>>)
        requires
            old(self).wf(),
            old(self)@.stats.decoded + bytes@.len() <= u64::MAX,
            old(self)@.stats.malformed + bytes@.len() <= u64::MAX,
            old(self)@.stats.overflow + bytes@.len() <= u64::MAX,
        ensures
            final(self)@ == decoder_push(old(self)@, bytes@).0,
            results_view(output@) == decoder_push(old(self)@, bytes@).1,
            final(self).wf(),
    {
        let ghost start = self@;
        let mut output: Vec<Result<Frame, ProtocolError>> = Vec::new();
        let mut i: usize = 0;
        proof {
            assert(bytes@.take(0) =~= Seq::<u8>::empty());
            assert(results_view(output@) =~= Seq::<PacketResult>::empty());
        }
        while i < bytes.len()
            invariant
                i <= bytes@.len(),
                self.wf(),
                start.stats.decoded + bytes@.len() <= u64::MAX,
                start.stats.malformed + bytes@.len() <= u64::MAX,
                start.stats.overflow + bytes@.len() <= u64::MAX,
                self@.stats.decoded <= start.stats.decoded + i,
                self@.stats.malformed <= start.stats.malformed + i,
                self@.stats.overflow <= start.stats.overflow + i,
                decoder_push(start, bytes@.take(i as int)) == (self@, results_view(output@)),
            decreases bytes@.len() - i,
        {
            proof {
                assert(bytes@.take(i + 1).drop_last() =~= bytes@.take(i as int));
                assert(bytes@.take(i + 1).last() == bytes@[i as int]);
            }
            let byte = bytes[i];
            let ghost before = self@;
            let ghost out_before = output@;
            if self.dropping_overlong_packet {
                if byte == 0 {
                    self.dropping_overlong_packet = false;
                    self.stats.overflow = self.stats.overflow + 1;
                    output.push(Err(ProtocolError::PacketTooLong));
                }
            } else if byte == 0 {
                if !self.buffer.is_empty() {
                    let result = decode_packet(self.buffer.as_slice());
                    self.buffer.clear();
                    match &result {
                        Ok(_) => self.stats.decoded = self.stats.decoded + 1,
                        Err(_) => self.stats.malformed = self.stats.malformed + 1,
                    }
                    output.push(result);
                }
            } else if self.buffer.len() < MAX_ENCODED_PACKET_LEN {
                self.buffer.push(byte);
            } else {
                self.buffer.clear();
                self.dropping_overlong_packet = true;
            }
            proof {
                let (s2, o) = decoder_step(before, byte);
                assert(self@ == s2);
                assert(results_view(output@) =~= results_view(out_before) + outcome_seq(o));
            }
            i = i + 1;
        }
        proof {
            assert(bytes@.take(i as int) =~= bytes@);
        }
        output
    }

    /// Forgets the packet being read or skipped; the counts stay.
    pub fn reset(&mut self)
        ensures
            final(self).wf(),
            final(self)@ == (DecoderState {
                buffer: Seq::empty(),
                dropping: false,
                stats: old(self)@.stats,
            }),
    {
        self.buffer.clear();
        self.dropping_overlong_packet = false;
    }

    /// How many bytes of an unfinished packet are buffered.
    pub fn buffered_len(&self) -> (n: usize)
        requires
            self.wf(),
        ensures
            n == self@.buffer.len(),
            n <= MAX_ENCODED_PACKET_LEN,
    {
        self.buffer.len()
    }

    /// The counts so far.
    pub fn stats(&self) -> (s: StreamStats)
        ensures
            s == self@.stats,
    {
        self.stats
    }
}

impl Default for StreamDecoder {
    fn default() -> (d: StreamDecoder)
        ensures
            d.wf(),
            d@.buffer == Seq::<u8>::empty(),
            !d@.dropping,
            d@.stats == (StreamStats { decoded: 0, malformed: 0, overflow: 0 }),
    {
        StreamDecoder::new()
    }
}

/// However many bytes arrive, a decoder's buffer never grows past
/// `MAX_ENCODED_PACKET_LEN`, and it is empty while a packet is skipped.
pub proof fn lemma_decoder_buffer_bounded(s: DecoderState, bytes: Seq<u8>)
    requires
        state_wf(s),
    ensures
        state_wf(decoder_push(s, bytes).0),
    decreases bytes.len(),
{
    if bytes.len() > 0 {
        lemma_decoder_buffer_bounded(s, bytes.drop_last());
    }
}

/// A zero byte always leaves a well-formed decoder with nothing buffered
/// and nothing being skipped, whatever came before it.
pub proof fn lemma_delimiter_resynchronizes(s: DecoderState)
    requires
        state_wf(s),
    ensures
        decoder_step(s, 0).0.buffer == Seq::<u8>::empty(),
        !decoder_step(s, 0).0.dropping,
{
    if s.dropping {
        assert(s.buffer.len() == 0 ==> s.buffer =~= Seq::<u8>::empty());
    }
}

/// Feeding bytes in two pieces does what feeding them at once does.
pub proof fn lemma_decoder_push_split(s: DecoderState, a: Seq<u8>, b: Seq<u8>)
    ensures
        decoder_push(s, a + b) == (
            decoder_push(decoder_push(s, a).0, b).0,
            decoder_push(s, a).1 + decoder_push(decoder_push(s, a).0, b).1,
        ),
    decreases b.len(),
{
    if b.len() == 0 {
        assert(a + b =~= a);
        assert(decoder_push(s, a).1 + Seq::<PacketResult>::empty() =~= decoder_push(s, a).1);
    } else {
        assert((a + b).drop_last() =~= a + b.drop_last());
        assert((a + b).last() == b.last());
        lemma_decoder_push_split(s, a, b.drop_last());
        let s1 = decoder_push(s, a);
        let s2 = decoder_push(s1.0, b.drop_last());
        let st = decoder_step(s2.0, b.last());
        assert(s1.1 + s2.1 + outcome_seq(st.1) =~= s1.1 + (s2.1 + outcome_seq(st.1)));
    }
}

/// How many zero bytes, that is delimiters, `bytes` holds.
pub open spec fn zero_count(bytes: Seq<u8>) -> nat
    decreases bytes.len(),
{
    if bytes.len() == 0 {
        0
    } else {
        zero_count(bytes.drop_last()) + if bytes.last() == 0 {
            1nat
        } else {
            0nat
        }
    }
}

/// How many of the outcomes are decoded frames.
pub open spec fn ok_count(rs: Seq<PacketResult>) -> nat
    decreases rs.len(),
{
    if rs.len() == 0 {
        0
    } else {
        ok_count(rs.drop_last()) + if rs.last() is Ok {
            1nat
        } else {
            0nat
        }
    }
}

/// How many of the outcomes are errors.
pub open spec fn err_count(rs: Seq<PacketResult>) -> nat
    decreases rs.len(),
{
    if rs.len() == 0 {
        0
    } else {
        err_count(rs.drop_last()) + if rs.last() is Err {
            1nat
        } else {
            0nat
        }
    }
}

/// Counting law: pushing bytes yields at most one outcome per delimiter;
/// the decoded count goes up by the number of frames among the outcomes,
/// and the malformed and overflow counts together by the number of errors.
/// Stated where no count can pass `u64::MAX`, as `push` requires.
pub proof fn lemma_push_counts(s: DecoderState, bytes: Seq<u8>)
    requires
        s.stats.decoded + bytes.len() <= u64::MAX,
        s.stats.malformed + bytes.len() <= u64::MAX,
        s.stats.overflow + bytes.len() <= u64::MAX,
    ensures
        zero_count(bytes) <= bytes.len(),
        decoder_push(s, bytes).1.len() <= zero_count(bytes),
        ok_count(decoder_push(s, bytes).1) + err_count(decoder_push(s, bytes).1) == decoder_push(s, bytes).1.len(),
        decoder_push(s, bytes).0.stats.decoded == s.stats.decoded + ok_count(decoder_push(s, bytes).1),
        decoder_push(s, bytes).0.stats.malformed + decoder_push(s, bytes).0.stats.overflow == s.stats.malformed
            + s.stats.overflow + err_count(decoder_push(s, bytes).1),
        decoder_push(s, bytes).0.stats.malformed >= s.stats.malformed,
        decoder_push(s, bytes).0.stats.overflow >= s.stats.overflow,
        decoder_push(s, bytes).0.stats.malformed - s.stats.malformed <= err_count(decoder_push(s, bytes).1),
        decoder_push(s, bytes).0.stats.overflow - s.stats.overflow <= err_count(decoder_push(s, bytes).1),
    decreases bytes.len(),
{
    if bytes.len() > 0 {
        let init = bytes.drop_last();
        lemma_push_counts(s, init);
        let (t1, out1) = decoder_push(s, init);
        let (t2, o) = decoder_step(t1, bytes.last());
        let out = out1 + outcome_seq(o);
        match o {
            Some(r) => {
                assert(out.drop_last() =~= out1);
                assert(out.last() == r);
            },
            None => {
                assert(out =~= out1);
            },
        }
    }
}

/// The outcomes of a push, and the partial packet it leaves, depend on the
/// buffered bytes and the skipping flag alone, not on the counts.
proof fn lemma_push_ignores_counts(s1: DecoderState, s2: DecoderState, bytes: Seq<u8>)
    requires
        s1.buffer == s2.buffer,
        s1.dropping == s2.dropping,
    ensures
        decoder_push(s1, bytes).1 == decoder_push(s2, bytes).1,
        decoder_push(s1, bytes).0.buffer == decoder_push(s2, bytes).0.buffer,
        decoder_push(s1, bytes).0.dropping == decoder_push(s2, bytes).0.dropping,
    decreases bytes.len(),
{
    if bytes.len() > 0 {
        lemma_push_ignores_counts(s1, s2, bytes.drop_last());
    }
}

/// After `reset` a decoder decodes as a fresh one: whatever bytes follow,
/// it gives the outcomes a new decoder gives and is left with the same
/// partial packet; only its counts carry on from before.
pub proof fn lemma_reset_decodes_as_new(stats: StreamStats, bytes: Seq<u8>)
    ensures
        ({
            let after_reset = DecoderState { buffer: Seq::empty(), dropping: false, stats };
            let fresh = DecoderState {
                buffer: Seq::empty(),
                dropping: false,
                stats: StreamStats { decoded: 0, malformed: 0, overflow: 0 },
            };
            &&& decoder_push(after_reset, bytes).1 == decoder_push(fresh, bytes).1
            &&& decoder_push(after_reset, bytes).0.buffer == decoder_push(fresh, bytes).0.buffer
            &&& decoder_push(after_reset, bytes).0.dropping == decoder_push(fresh, bytes).0.dropping
        }),
{
    let after_reset = DecoderState { buffer: Seq::empty(), dropping: false, stats };
    let fresh = DecoderState {
        buffer: Seq::empty(),
        dropping: false,
        stats: StreamStats { decoded: 0, malformed: 0, overflow: 0 },
    };
    lemma_push_ignores_counts(after_reset, fresh, bytes);
}

/// Bytes of a packet are buffered one by one.
proof fn lemma_push_packet_body(s: DecoderState, body: Seq<u8>, k: int)
    requires
        s.buffer == Seq::<u8>::empty(),
        !s.dropping,
        zero_free(body),
        body.len() <= MAX_ENCODED_PACKET_LEN,
        0 <= k <= body.len(),
    ensures
        decoder_push(s, body.take(k)) == (
            DecoderState { buffer: body.take(k), dropping: false, stats: s.stats },
            Seq::<PacketResult>::empty(),
        ),
    decreases k,
{
    if k == 0 {
        assert(body.take(0) =~= Seq::<u8>::empty());
    } else {
        lemma_push_packet_body(s, body, k - 1);
        assert(body.take(k).drop_last() =~= body.take(k - 1));
        assert(body.take(k).last() == body[k - 1]);
        assert(body.take(k - 1).push(body[k - 1]) =~= body.take(k));
        assert(Seq::<PacketResult>::empty() + Seq::<PacketResult>::empty() =~= Seq::<
            PacketResult,
        >::empty());
    }
}

/// A clean decoder given one packet and its delimiter reports that packet's
/// decoding and is clean again.
proof fn lemma_push_packet(s: DecoderState, body: Seq<u8>)
    requires
        s.buffer == Seq::<u8>::empty(),
        !s.dropping,
        zero_free(body),
        0 < body.len() <= MAX_ENCODED_PACKET_LEN,
    ensures
        decoder_push(s, body.push(0)).0 == decoder_step(
            DecoderState { buffer: body, dropping: false, stats: s.stats },
            0,
        ).0,
        decoder_push(s, body.push(0)).1 == seq![spec_decode_packet(body)],
{
    lemma_push_packet_body(s, body, body.len() as int);
    assert(body.take(body.len() as int) =~= body);
    assert(body.push(0).drop_last() =~= body);
    assert(Seq::<PacketResult>::empty() + seq![spec_decode_packet(body)] =~= seq![
        spec_decode_packet(body),
    ]);
}

/// The wire packets of a list of frames, one after the other.
pub open spec fn frames_wire(fs: Seq<(FrameHeader, Seq<u8>)>) -> Seq<u8>
    decreases fs.len(),
{
    if fs.len() == 0 {
        Seq::empty()
    } else {
        frames_wire(fs.drop_last()) + spec_encode_frame(fs.last().0, fs.last().1)->Ok_0
    }
}

/// Each frame as a decoded packet.
pub open spec fn frames_ok(fs: Seq<(FrameHeader, Seq<u8>)>) -> Seq<PacketResult> {
    fs.map_values(|f: (FrameHeader, Seq<u8>)| Ok::<(FrameHeader, Seq<u8>), ProtocolError>(f))
}

/// A decoder with nothing buffered and nothing being skipped that is fed the
/// wire packets of any frames that encode reports exactly those frames, in
/// order, counts them as decoded, and is left clean.
pub proof fn lemma_decoder_recovers_frames(s: DecoderState, fs: Seq<(FrameHeader, Seq<u8>)>)
    requires
        s.buffer == Seq::<u8>::empty(),
        !s.dropping,
        s.stats.decoded + fs.len() <= u64::MAX,
        forall|i: int| 0 <= i < fs.len() ==> #[trigger] spec_encode_frame(fs[i].0, fs[i].1) is Ok,
    ensures
        decoder_push(s, frames_wire(fs)).1 == frames_ok(fs),
        decoder_push(s, frames_wire(fs)).0 == (DecoderState {
            buffer: Seq::empty(),
            dropping: false,
            stats: StreamStats { decoded: (s.stats.decoded + fs.len()) as u64, ..s.stats },
        }),
    decreases fs.len(),
{
    if fs.len() == 0 {
        assert(frames_ok(fs) =~= Seq::<PacketResult>::empty());
        assert(StreamStats { decoded: (s.stats.decoded + 0) as u64, ..s.stats } == s.stats);
    } else {
        let init = fs.drop_last();
        let (h, p) = fs.last();
        assert forall|i: int| 0 <= i < init.len() implies #[trigger] spec_encode_frame(
            init[i].0,
            init[i].1,
        ) is Ok by {
            assert(init[i] == fs[i]);
        }
        lemma_decoder_recovers_frames(s, init);
        assert(spec_encode_frame(fs[fs.len() - 1].0, fs[fs.len() - 1].1) is Ok);
        let packet = spec_encode_frame(h, p)->Ok_0;
        lemma_frame_round_trip(h, p);
        let body = packet.drop_last();
        let full = raw_frame_with_crc(h, p);
        lemma_cobs_encode_len(full);
        lemma_cobs_encode_zero_free(full);
        assert(body =~= spec_cobs_encode(full));
        assert(body.push(0) =~= packet);
        lemma_decoder_push_split(s, frames_wire(init), packet);
        let mid = decoder_push(s, frames_wire(init)).0;
        lemma_push_packet(mid, body);
        assert(frames_ok(fs) =~= frames_ok(init) + seq![
            Ok::<(FrameHeader, Seq<u8>), ProtocolError>((h, p)),
        ]);
    }
}

} // verus!
