use vstd::prelude::*;
use crate::jack_trip_header::{
    header_bytes,
    header_of,
    i16_le,
    put_u16_le,
    put_u64_le,
    read_sample,
    sample_at,
    sample_offset,
    samples_of,
    write_sample,
    encode_header,
    decode_header,
    JackTripHeader,
    PacketError,
    HEADER_SIZE,
    MAX_FRAMES,
    PACKET_CAPACITY,
};

verus! {

/// The sequence number that follows `s`, wrapping from 65535 to 0.
pub open spec fn next_sequence_number(s: u16) -> u16 {
    ((s + 1) % 65536) as u16
}

/// The payload bytes that carry `samples`, each least significant byte first.
pub open spec fn payload_bytes(samples: Seq<i16>) -> Seq<u8> {
    Seq::new(2 * samples.len(), |j: int| i16_le(samples[j / 2])[j % 2])
}

/// A block of `n` silent samples.
pub open spec fn silence(n: nat) -> Seq<i16> {
    Seq::new(n, |i: int| 0i16)
}

/// The sending side of a session: the reusable outgoing packet, whose header
/// fields other than the time stamp and the sequence number were set once,
/// and the sequence counter.
pub struct OutboundStream {
    buf: [u8; PACKET_CAPACITY],
    frames: usize,
    sequence_number: u16,
    first_sequence_number: Ghost<u16>,
    sent: Ghost<nat>,
}

impl View for OutboundStream {
    /// The bytes that go out: the header and `frames` samples.
    type V = Seq<u8>;

    closed spec fn view(&self) -> Seq<u8> {
        self.buf@.take(HEADER_SIZE + 2 * self.frames)
    }
}

impl OutboundStream {
    /// The stream's internal invariant.
    pub closed spec fn wf(&self) -> bool {
        &&& self.frames <= MAX_FRAMES
        &&& header_of(self.buf@).buffer_size == self.frames
        &&& header_of(self.buf@).sequence_number == self.sequence_number
        &&& self.sequence_number == (self.first_sequence_number@ + self.sent@) % 65536
        &&& self.buf@.take(HEADER_SIZE as int) == header_bytes(header_of(self.buf@))
    }

    /// Frames in each packet of the stream.
    pub closed spec fn spec_frames(&self) -> nat {
        self.frames as nat
    }

    /// The sequence number of the packet the stream started with.
    pub closed spec fn first_sequence_number(&self) -> u16 {
        self.first_sequence_number@
    }

    /// Blocks encoded since the stream started.
    pub closed spec fn packets_sent(&self) -> nat {
        self.sent@
    }

    /// The header of the packet as it stands.
    pub open spec fn header(&self) -> JackTripHeader {
        header_of(self@)
    }

    /// Starts a stream whose packets carry `template`'s fields; the packet as
    /// it stands is the first one a side sends, with a silent payload.
    pub fn new(template: &JackTripHeader) -> (r: OutboundStream)
        requires
            template.buffer_size <= MAX_FRAMES,
        ensures
            r.wf(),
            r.spec_frames() == template.buffer_size,
            r.first_sequence_number() == template.sequence_number,
            r.packets_sent() == 0,
            r@ == header_bytes(*template) + payload_bytes(silence(template.buffer_size as nat)),
    {
        let mut buf = [0u8; PACKET_CAPACITY];
        encode_header(template, &mut buf);
        let r = OutboundStream {
            buf,
            frames: template.buffer_size as usize,
            sequence_number: template.sequence_number,
            first_sequence_number: Ghost(template.sequence_number),
            sent: Ghost(0),
        };
        proof {
            let n = template.buffer_size as nat;
            crate::jack_trip_header::lemma_header_round_trip(*template, buf@.skip(HEADER_SIZE as int));
            assert(buf@.take(HEADER_SIZE as int) =~= header_bytes(*template));
            assert forall|j: int| 0 <= j < 2 * n implies #[trigger] payload_bytes(silence(n))[j] == 0u8 by {
                assert(i16_le(0i16) == seq![0u8, 0u8]) by {
                    assert((0i16 as u16) == 0u16) by (bit_vector);
                    assert((0u16 as u8) == 0u8 && ((0u16 >> 8u16) as u8) == 0u8) by (bit_vector);
                }
            }
            assert(r@ =~= header_bytes(*template) + payload_bytes(silence(n)));
        }
        r
    }

    /// Frames in each packet of the stream.
    pub fn frames(&self) -> (r: usize)
        requires
            self.wf(),
        ensures
            r == self.spec_frames(),
    {
        self.frames
    }

    /// The sequence number of the packet as it stands.
    pub fn sequence_number(&self) -> (r: u16)
        requires
            self.wf(),
        ensures
            r == self.header().sequence_number,
    {
        proof { self.lemma_view_facts(); }
        self.sequence_number
    }

    proof fn lemma_view_facts(&self)
        requires
            self.wf(),
        ensures
            self@.len() == HEADER_SIZE + 2 * self.spec_frames(),
            header_of(self@) == header_of(self.buf@),
            self@.take(HEADER_SIZE as int) == header_bytes(self.header()),
            self.header().buffer_size == self.spec_frames(),
            self.header().sequence_number == self.sequence_number,
            forall|i: int| 0 <= i < self.spec_frames() ==> #[trigger] sample_at(self@, i) == sample_at(self.buf@, i),
    {
        assert(header_of(self@) == header_of(self.buf@));
        assert(self@.take(HEADER_SIZE as int) =~= self.buf@.take(HEADER_SIZE as int));
    }

    /// The packet as it stands, to be sent.
    pub fn packet(&self) -> (r: &[u8])
        requires
            self.wf(),
        ensures
            r@ == self@,
    {
        vstd::slice::slice_subrange(self.buf.as_slice(), 0, HEADER_SIZE + 2 * self.frames)
    }

    /// Fills the packet with one captured block: the samples go into the
    /// payload in order, the time stamp is set and the sequence number moves
    /// on by one, wrapping after 65535. The other header fields stay.
    pub fn encode_block(&mut self, time_stamp: u64, samples: &[i16])
        requires
            old(self).wf(),
            samples@.len() == old(self).spec_frames(),
        ensures
            final(self).wf(),
            final(self).spec_frames() == old(self).spec_frames(),
            final(self).first_sequence_number() == old(self).first_sequence_number(),
            final(self).packets_sent() == old(self).packets_sent() + 1,
            final(self).header() == (JackTripHeader {
                time_stamp,
                sequence_number: next_sequence_number(old(self).header().sequence_number),
                ..old(self).header()
            }),
            final(self)@ == header_bytes(final(self).header()) + payload_bytes(samples@),
            samples_of(final(self)@, samples@.len()) == samples@,
    {
        proof { self.lemma_view_facts(); }
        let ghost old_buf = self.buf@;
        let n = self.frames;
        let mut i: usize = 0;
        while i < n
            invariant
                n == self.frames,
                n <= MAX_FRAMES,
                samples@.len() == n,
                0 <= i <= n,
                self.frames == old(self).frames,
                self.sequence_number == old(self).sequence_number,
                self.first_sequence_number == old(self).first_sequence_number,
                self.sent == old(self).sent,
                self.buf@.take(HEADER_SIZE as int) == old_buf.take(HEADER_SIZE as int),
                forall|j: int| 0 <= j < 2 * i ==> #[trigger] self.buf@[HEADER_SIZE + j] == payload_bytes(samples@)[j],
            decreases n - i,
        {
            let ghost before = self.buf@;
            write_sample(&mut self.buf, i, samples[i]);
            proof {
                assert(self.buf@.take(HEADER_SIZE as int) =~= before.take(HEADER_SIZE as int));
                assert forall|j: int| 0 <= j < 2 * (i + 1) implies #[trigger] self.buf@[HEADER_SIZE + j] == payload_bytes(samples@)[j] by {
                    if j < 2 * i {
                        assert(self.buf@[HEADER_SIZE + j] == before[HEADER_SIZE + j]);
                    } else {
                        assert(j / 2 == i as int);
                    }
                }
            }
            i = i + 1;
        }
        let seq = self.sequence_number.wrapping_add(1);
        let ghost mid = self.buf@;
        put_u64_le(&mut self.buf, 0, time_stamp);
        put_u16_le(&mut self.buf, 8, seq);
        self.sequence_number = seq;
        proof {
            let count = self.first_sequence_number@ + self.sent@;
            vstd::arithmetic::div_mod::lemma_add_mod_noop(count, 1, 65536);
            self.sent@ = self.sent@ + 1;
            let oh = header_of(old_buf);
            let nh = JackTripHeader { time_stamp, sequence_number: seq, ..oh };
            let b = self.buf@;
            assert(seq == next_sequence_number(oh.sequence_number));
            assert(old_buf.take(HEADER_SIZE as int) == header_bytes(oh));
            assert(mid.take(HEADER_SIZE as int) == header_bytes(oh));
            assert(b.take(HEADER_SIZE as int) =~= header_bytes(nh)) by {
                assert forall|k: int| 10 <= k < 16 implies b[k] == header_bytes(oh)[k] by {
                    assert(b[k] == mid[k]);
                    assert(mid[k] == mid.take(HEADER_SIZE as int)[k]);
                }
            }
            crate::jack_trip_header::lemma_header_round_trip(nh, b.skip(HEADER_SIZE as int));
            assert(b =~= b.take(HEADER_SIZE as int) + b.skip(HEADER_SIZE as int));
            assert(header_of(b) == nh);
            assert forall|j: int| 0 <= j < 2 * n implies #[trigger] b[HEADER_SIZE + j] == payload_bytes(samples@)[j] by {
                assert(b[HEADER_SIZE + j] == mid[HEADER_SIZE + j]);
            }
            let pb = payload_bytes(samples@);
            assert forall|k: int| 0 <= k < HEADER_SIZE + 2 * n implies #[trigger] self@[k] == (header_bytes(nh) + pb)[k] by {
                if k < HEADER_SIZE {
                    assert(self@[k] == b.take(HEADER_SIZE as int)[k]);
                } else {
                    let j = k - HEADER_SIZE;
                    assert(b[HEADER_SIZE + j] == pb[j]);
                }
            }
            assert(self@ =~= header_bytes(nh) + pb);
            self.lemma_view_facts();
            lemma_payload_round_trip(nh, samples@);
        }
    }
}

/// The samples read back from a packet are the ones written into it.
pub proof fn lemma_payload_round_trip(h: JackTripHeader, samples: Seq<i16>)
    ensures
        samples_of(header_bytes(h) + payload_bytes(samples), samples.len()) == samples,
{
    let p = header_bytes(h) + payload_bytes(samples);
    let pb = payload_bytes(samples);
    assert forall|k: int| 0 <= k < samples.len() implies #[trigger] sample_at(p, k) == samples[k] by {
        let x = samples[k];
        assert((2 * k) / 2 == k && (2 * k + 1) / 2 == k && (2 * k) % 2 == 0 && (2 * k + 1) % 2 == 1);
        assert(p[sample_offset(k)] == pb[2 * k]);
        assert(p[sample_offset(k) + 1] == pb[2 * k + 1]);
        assert(pb[2 * k] == i16_le(x)[0]);
        assert(pb[2 * k + 1] == i16_le(x)[1]);
        crate::jack_trip_header::lemma_i16_round_trip(x);
    }
    assert(samples_of(p, samples.len()) =~= samples);
}

/// A packet that the sending side fills with a block is read by the
/// receiving side, expecting blocks of the same size, as that very block.
pub proof fn lemma_packet_round_trip(h: JackTripHeader, samples: Seq<i16>)
    requires
        h.buffer_size == samples.len(),
    ensures
        block_outcome(header_bytes(h) + payload_bytes(samples), samples.len()) == Ok::<
            Seq<i16>,
            PacketError,
        >(samples),
{
    crate::jack_trip_header::lemma_header_round_trip(h, payload_bytes(samples));
    lemma_payload_round_trip(h, samples);
}

/// Sequence numbers over a session: a stream's packet carries the sequence
/// number it started with plus the number of blocks encoded since, modulo
/// 65536. A stream that starts from the handshake packet, numbered 0, thus
/// sends its audio packets numbered 1, 2, ..., 65535, then wraps once to 0
/// and goes on, with no gap and no repeat in between.
pub proof fn lemma_sequence_numbers(stream: &OutboundStream)
    requires
        stream.wf(),
    ensures
        stream.header().sequence_number == (stream.first_sequence_number()
            + stream.packets_sent()) % 65536,
        stream.first_sequence_number() == 0 ==> stream.header().sequence_number
            == stream.packets_sent() % 65536,
{
    stream.lemma_view_facts();
}

/// Outcome of reading one inbound datagram into a block of `frames` samples:
/// the header must be whole, announce exactly `frames` frames, and be
/// followed by all of them and nothing more: a datagram of any length other
/// than 16 + 2 * `frames` bytes is malformed.
pub open spec fn block_outcome(d: Seq<u8>, frames: nat) -> Result<Seq<i16>, PacketError> {
    if d.len() < HEADER_SIZE {
        Err(PacketError::TruncatedHeader)
    } else if header_of(d).buffer_size != frames {
        Err(PacketError::FrameCountMismatch)
    } else if d.len() < HEADER_SIZE + 2 * frames {
        Err(PacketError::TruncatedPayload)
    } else if d.len() > HEADER_SIZE + 2 * frames {
        Err(PacketError::TrailingBytes)
    } else {
        Ok(samples_of(d, frames))
    }
}

/// Reads one inbound datagram into the audio block `out`. A datagram that
/// cannot fill the block exactly leaves it silent and says why; nothing is
/// padded or truncated.
pub fn decode_block(datagram: &[u8], out: &mut [i16]) -> (r: Result<(), PacketError>)
    ensures
        final(out)@.len() == old(out)@.len(),
        match block_outcome(datagram@, old(out)@.len()) {
            Ok(s) => r is Ok && final(out)@ == s,
            Err(e) => r == Err::<(), PacketError>(e) && final(out)@ == silence(old(out)@.len()),
        },
{
    let n = out.len();
    let checked: Result<(), PacketError> = match decode_header(datagram) {
        Err(e) => Err(e),
        Ok(h) => {
            if h.buffer_size as usize != n {
                Err(PacketError::FrameCountMismatch)
            } else if datagram.len() < HEADER_SIZE + 2 * n {
                Err(PacketError::TruncatedPayload)
            } else if datagram.len() > HEADER_SIZE + 2 * n {
                Err(PacketError::TrailingBytes)
            } else {
                Ok(())
            }
        },
    };
    if checked.is_err() {
        fill_silence(out);
        return checked;
    }
    let mut i: usize = 0;
    while i < n
        invariant
            n == out@.len(),
            n <= u16::MAX,
            HEADER_SIZE + 2 * n <= datagram@.len(),
            0 <= i <= n,
            forall|j: int| 0 <= j < i ==> #[trigger] out@[j] == sample_at(datagram@, j),
        decreases n - i,
    {
        out[i] = read_sample(datagram, i);
        i = i + 1;
    }
    assert(final(out)@ =~= samples_of(datagram@, n as nat));
    checked
}

/// Makes the block silent.
pub fn fill_silence(out: &mut [i16])
    ensures
        final(out)@ == silence(old(out)@.len()),
{
    let n = out.len();
    let mut i: usize = 0;
    while i < n
        invariant
            n == out@.len(),
            0 <= i <= n,
            forall|j: int| 0 <= j < i ==> #[trigger] out@[j] == 0i16,
        decreases n - i,
    {
        out[i] = 0;
        i = i + 1;
    }
    assert(final(out)@ =~= silence(n as nat));
}

} // verus!
