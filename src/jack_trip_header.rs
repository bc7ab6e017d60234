use vstd::prelude::*;
pub use crate::sampling_rate_t::SamplingRateT;

verus! {

/// Bytes in the fixed header that starts every packet.
pub const HEADER_SIZE: usize = 16;

/// Largest number of frames a packet buffer of this library holds.
pub const MAX_FRAMES: usize = 256;

/// Bytes in a packet buffer: the header and `MAX_FRAMES` 16-bit samples.
pub const PACKET_CAPACITY: usize = 528;

/// The fixed 16-byte header of a packet. The payload of 16-bit samples that
/// follows it is read and written by slot, see [`read_sample`] and
/// [`write_sample`].
#[derive(Clone, Copy, Debug, PartialEq, Eq, Structural)]
pub struct JackTripHeader {
    /// Sender-local microsecond clock reading at send time.
    pub time_stamp: u64,
    /// Per-sender counter, wrapping modulo 65536.
    pub sequence_number: u16,
    /// Frames (samples per channel) in the payload.
    pub buffer_size: u16,
    /// Sender's sample rate.
    pub sampling_rate: SamplingRateT,
    /// Bits per sample.
    pub bit_resolution: u8,
    /// Number of channels.
    pub num_channels: u8,
    /// Mode flag, carried through unchanged.
    pub connection_mode: u8,
}

/// Why a datagram could not be read as a packet.
#[derive(Clone, Copy, Debug, PartialEq, Eq, Structural)]
pub enum PacketError {
    /// Fewer bytes than the header needs.
    TruncatedHeader,
    /// Fewer bytes than the payload that the header announces.
    TruncatedPayload,
    /// The header announces another number of frames than the block holds.
    FrameCountMismatch,
    /// Bytes follow the payload that the header announces.
    TrailingBytes,
    /// The samples are not 16-bit.
    UnsupportedBitResolution,
    /// The slot asked for lies beyond the frames that the header announces.
    SlotOutOfRange,
}

/// The two bytes of `x`, least significant first.
pub open spec fn u16_le(x: u16) -> Seq<u8> {
    seq![x as u8, (x >> 8u16) as u8]
}

/// The eight bytes of `x`, least significant first.
pub open spec fn u64_le(x: u64) -> Seq<u8> {
    seq![
        x as u8,
        (x >> 8u64) as u8,
        (x >> 16u64) as u8,
        (x >> 24u64) as u8,
        (x >> 32u64) as u8,
        (x >> 40u64) as u8,
        (x >> 48u64) as u8,
        (x >> 56u64) as u8,
    ]
}

/// The 16-bit value whose bytes, least significant first, are `b0` and `b1`.
pub open spec fn u16_of_bytes(b0: u8, b1: u8) -> u16 {
    (b0 as u16) | ((b1 as u16) << 8u16)
}

/// The 64-bit value whose bytes, least significant first, are `b0` to `b7`.
pub open spec fn u64_of_bytes(b0: u8, b1: u8, b2: u8, b3: u8, b4: u8, b5: u8, b6: u8, b7: u8) -> u64 {
    (b0 as u64) | ((b1 as u64) << 8u64) | ((b2 as u64) << 16u64) | ((b3 as u64) << 24u64) | ((
    b4 as u64) << 32u64) | ((b5 as u64) << 40u64) | ((b6 as u64) << 48u64) | ((b7 as u64)
        << 56u64)
}

/// The little-endian 16-bit value at `off` in `s`.
pub open spec fn u16_at(s: Seq<u8>, off: int) -> u16 {
    u16_of_bytes(s[off], s[off + 1])
}

/// The little-endian 64-bit value at `off` in `s`.
pub open spec fn u64_at(s: Seq<u8>, off: int) -> u64 {
    u64_of_bytes(
        s[off],
        s[off + 1],
        s[off + 2],
        s[off + 3],
        s[off + 4],
        s[off + 5],
        s[off + 6],
        s[off + 7],
    )
}

/// The 16 bytes that encode `h`.
pub open spec fn header_bytes(h: JackTripHeader) -> Seq<u8> {
    u64_le(h.time_stamp) + u16_le(h.sequence_number) + u16_le(h.buffer_size) + seq![
        h.sampling_rate.spec_code(),
        h.bit_resolution,
        h.num_channels,
        h.connection_mode,
    ]
}

/// The header that the first 16 bytes of `s` encode.
pub open spec fn header_of(s: Seq<u8>) -> JackTripHeader {
    JackTripHeader {
        time_stamp: u64_at(s, 0),
        sequence_number: u16_at(s, 8),
        buffer_size: u16_at(s, 10),
        sampling_rate: SamplingRateT::spec_from_code(s[12]),
        bit_resolution: s[13],
        num_channels: s[14],
        connection_mode: s[15],
    }
}

/// Byte offset of payload slot `i`.
pub open spec fn sample_offset(i: int) -> int {
    HEADER_SIZE + 2 * i
}

/// The two bytes of a signed 16-bit sample, least significant first.
pub open spec fn i16_le(x: i16) -> Seq<u8> {
    u16_le(x as u16)
}

/// The sample in payload slot `i` of the packet bytes `s`.
pub open spec fn sample_at(s: Seq<u8>, i: int) -> i16 {
    u16_at(s, sample_offset(i)) as i16
}

/// The samples in payload slots `0 .. n` of the packet bytes `s`.
pub open spec fn samples_of(s: Seq<u8>, n: nat) -> Seq<i16> {
    Seq::new(n, |i: int| sample_at(s, i))
}

proof fn lemma_u16_round_trip(x: u16)
    ensures
        u16_of_bytes(x as u8, (x >> 8u16) as u8) == x,
{
    assert(((x as u8) as u16) | ((((x >> 8u16) as u8) as u16) << 8u16) == x) by (bit_vector);
}

proof fn lemma_u64_round_trip(x: u64)
    ensures
        u64_of_bytes(
            x as u8,
            (x >> 8u64) as u8,
            (x >> 16u64) as u8,
            (x >> 24u64) as u8,
            (x >> 32u64) as u8,
            (x >> 40u64) as u8,
            (x >> 48u64) as u8,
            (x >> 56u64) as u8,
        ) == x,
{
    assert(((x as u8) as u64) | ((((x >> 8u64) as u8) as u64) << 8u64) | ((((x >> 16u64) as u8)
        as u64) << 16u64) | ((((x >> 24u64) as u8) as u64) << 24u64) | ((((x >> 32u64) as u8)
        as u64) << 32u64) | ((((x >> 40u64) as u8) as u64) << 40u64) | ((((x >> 48u64) as u8)
        as u64) << 48u64) | ((((x >> 56u64) as u8) as u64) << 56u64) == x) by (bit_vector);
}

pub(crate) proof fn lemma_i16_round_trip(x: i16)
    ensures
        u16_of_bytes((x as u16) as u8, ((x as u16) >> 8u16) as u8) as i16 == x,
{
    lemma_u16_round_trip(x as u16);
    assert((x as u16) as i16 == x) by (bit_vector);
}

proof fn lemma_u16_bytes_round_trip(b0: u8, b1: u8)
    ensures
        u16_le(u16_of_bytes(b0, b1)) == seq![b0, b1],
{
    let x = u16_of_bytes(b0, b1);
    assert(x as u8 == b0 && (x >> 8u16) as u8 == b1) by (bit_vector)
        requires
            x == (b0 as u16) | ((b1 as u16) << 8u16),
    ;
    assert(u16_le(x) =~= seq![b0, b1]);
}

proof fn lemma_u64_bytes_round_trip(b0: u8, b1: u8, b2: u8, b3: u8, b4: u8, b5: u8, b6: u8, b7: u8)
    ensures
        u64_le(u64_of_bytes(b0, b1, b2, b3, b4, b5, b6, b7)) == seq![b0, b1, b2, b3, b4, b5, b6, b7],
{
    let x = u64_of_bytes(b0, b1, b2, b3, b4, b5, b6, b7);
    assert(x as u8 == b0 && (x >> 8u64) as u8 == b1 && (x >> 16u64) as u8 == b2 && (x >> 24u64)
        as u8 == b3 && (x >> 32u64) as u8 == b4 && (x >> 40u64) as u8 == b5 && (x >> 48u64) as u8
        == b6 && (x >> 56u64) as u8 == b7) by (bit_vector)
        requires
            x == (b0 as u64) | ((b1 as u64) << 8u64) | ((b2 as u64) << 16u64) | ((b3 as u64)
                << 24u64) | ((b4 as u64) << 32u64) | ((b5 as u64) << 40u64) | ((b6 as u64)
                << 48u64) | ((b7 as u64) << 56u64),
    ;
    assert(u64_le(x) =~= seq![b0, b1, b2, b3, b4, b5, b6, b7]);
}

/// Decoding the bytes that encode a header gives that header back, whatever
/// follows them: [`decode_header`] on a buffer that [`encode_header`] filled
/// with `h` returns `Ok(h)`. A rate outside the registry is written with the undefined
/// code and so also decodes to itself.
pub proof fn lemma_header_round_trip(h: JackTripHeader, rest: Seq<u8>)
    ensures
        header_of(header_bytes(h) + rest) == h,
        (header_bytes(h) + rest).len() == HEADER_SIZE + rest.len(),
{
    let s = header_bytes(h) + rest;
    let t = h.time_stamp;
    lemma_u64_round_trip(t);
    lemma_u16_round_trip(h.sequence_number);
    lemma_u16_round_trip(h.buffer_size);
    assert(s[0] == t as u8 && s[1] == (t >> 8u64) as u8 && s[2] == (t >> 16u64) as u8 && s[3] == (t
        >> 24u64) as u8 && s[4] == (t >> 32u64) as u8 && s[5] == (t >> 40u64) as u8 && s[6] == (t
        >> 48u64) as u8 && s[7] == (t >> 56u64) as u8);
    assert(s[8] == h.sequence_number as u8 && s[9] == (h.sequence_number >> 8u16) as u8);
    assert(s[10] == h.buffer_size as u8 && s[11] == (h.buffer_size >> 8u16) as u8);
    assert(s[12] == h.sampling_rate.spec_code());
    assert(SamplingRateT::spec_from_code(h.sampling_rate.spec_code()) == h.sampling_rate);
}

/// Encoding a decoded header gives the same 16 bytes back, provided that the
/// rate code among them is one of the registry's or the undefined code.
pub proof fn lemma_header_bytes_round_trip(s: Seq<u8>)
    requires
        s.len() >= HEADER_SIZE,
        s[12] <= 6 || s[12] == crate::sampling_rate_t::UNDEFINED_RATE_CODE,
    ensures
        header_bytes(header_of(s)) == s.take(HEADER_SIZE as int),
{
    lemma_u64_bytes_round_trip(s[0], s[1], s[2], s[3], s[4], s[5], s[6], s[7]);
    lemma_u16_bytes_round_trip(s[8], s[9]);
    lemma_u16_bytes_round_trip(s[10], s[11]);
    crate::sampling_rate_t::lemma_code_round_trip(s[12]);
    assert(header_bytes(header_of(s)) =~= s.take(HEADER_SIZE as int));
}

pub(crate) fn get_u16_le(bytes: &[u8], off: usize) -> (r: u16)
    requires
        off + 2 <= bytes@.len(),
    ensures
        r == u16_at(bytes@, off as int),
{
    (bytes[off] as u16) | ((bytes[off + 1] as u16) << 8u16)
}

pub(crate) fn get_u64_le(bytes: &[u8], off: usize) -> (r: u64)
    requires
        off + 8 <= bytes@.len(),
    ensures
        r == u64_at(bytes@, off as int),
{
    (bytes[off] as u64) | ((bytes[off + 1] as u64) << 8u64) | ((bytes[off + 2] as u64) << 16u64)
        | ((bytes[off + 3] as u64) << 24u64) | ((bytes[off + 4] as u64) << 32u64) | ((bytes[off
        + 5] as u64) << 40u64) | ((bytes[off + 6] as u64) << 48u64) | ((bytes[off + 7] as u64)
        << 56u64)
}

pub(crate) fn put_u16_le(buf: &mut [u8], off: usize, x: u16)
    requires
        off + 2 <= old(buf)@.len(),
    ensures
        final(buf)@ == old(buf)@.take(off as int) + u16_le(x) + old(buf)@.skip(off + 2),
{
    buf[off] = x as u8;
    buf[off + 1] = (x >> 8u16) as u8;
    assert(final(buf)@ =~= old(buf)@.take(off as int) + u16_le(x) + old(buf)@.skip(off + 2));
}

pub(crate) fn put_u64_le(buf: &mut [u8], off: usize, x: u64)
    requires
        off + 8 <= old(buf)@.len(),
    ensures
        final(buf)@ == old(buf)@.take(off as int) + u64_le(x) + old(buf)@.skip(off + 8),
{
    buf[off] = x as u8;
    buf[off + 1] = (x >> 8u64) as u8;
    buf[off + 2] = (x >> 16u64) as u8;
    buf[off + 3] = (x >> 24u64) as u8;
    buf[off + 4] = (x >> 32u64) as u8;
    buf[off + 5] = (x >> 40u64) as u8;
    buf[off + 6] = (x >> 48u64) as u8;
    buf[off + 7] = (x >> 56u64) as u8;
    assert(final(buf)@ =~= old(buf)@.take(off as int) + u64_le(x) + old(buf)@.skip(off + 8));
}

/// Reads the header from the first 16 bytes of a datagram; fails only when
/// there are fewer. Semantic ranges are not checked here: a rate code outside
/// the registry reads as [`SamplingRateT::UNDEF`].
pub fn decode_header(bytes: &[u8]) -> (r: Result<JackTripHeader, PacketError>)
    ensures
        bytes@.len() < HEADER_SIZE <==> r == Err::<JackTripHeader, PacketError>(
            PacketError::TruncatedHeader,
        ),
        bytes@.len() >= HEADER_SIZE ==> r == Ok::<JackTripHeader, PacketError>(header_of(bytes@)),
{
    if bytes.len() < HEADER_SIZE {
        return Err(PacketError::TruncatedHeader);
    }
    Ok(JackTripHeader {
        time_stamp: get_u64_le(bytes, 0),
        sequence_number: get_u16_le(bytes, 8),
        buffer_size: get_u16_le(bytes, 10),
        sampling_rate: SamplingRateT::from_code(bytes[12]),
        bit_resolution: bytes[13],
        num_channels: bytes[14],
        connection_mode: bytes[15],
    })
}

/// Writes `h` into the first 16 bytes of `buf` and leaves the rest as it was.
pub fn encode_header(h: &JackTripHeader, buf: &mut [u8])
    requires
        old(buf)@.len() >= HEADER_SIZE,
    ensures
        final(buf)@ == header_bytes(*h) + old(buf)@.skip(HEADER_SIZE as int),
{
    put_u64_le(buf, 0, h.time_stamp);
    put_u16_le(buf, 8, h.sequence_number);
    put_u16_le(buf, 10, h.buffer_size);
    buf[12] = h.sampling_rate.to_code();
    buf[13] = h.bit_resolution;
    buf[14] = h.num_channels;
    buf[15] = h.connection_mode;
    assert(final(buf)@ =~= header_bytes(*h) + old(buf)@.skip(HEADER_SIZE as int));
}

/// The sample in payload slot `i` of a packet.
pub fn read_sample(bytes: &[u8], i: usize) -> (r: i16)
    requires
        sample_offset(i as int) + 2 <= bytes@.len(),
    ensures
        r == sample_at(bytes@, i as int),
{
    let len = bytes.len();
    proof {
        assert(sample_offset(i as int) + 2 <= len);
    }
    #[verifier::truncate]
    (get_u16_le(bytes, HEADER_SIZE + 2 * i) as i16)
}

/// Writes `x` into payload slot `i` of a packet and leaves every other byte
/// as it was.
pub fn write_sample(buf: &mut [u8], i: usize, x: i16)
    requires
        sample_offset(i as int) + 2 <= old(buf)@.len(),
    ensures
        final(buf)@ == old(buf)@.take(sample_offset(i as int)) + i16_le(x) + old(buf)@.skip(
            sample_offset(i as int) + 2,
        ),
        sample_at(final(buf)@, i as int) == x,
{
    let len = buf.len();
    proof {
        assert(sample_offset(i as int) + 2 <= len);
    }
    #[verifier::truncate]
    let w = x as u16;
    put_u16_le(buf, HEADER_SIZE + 2 * i, w);
    proof {
        lemma_i16_round_trip(x);
        let s = final(buf)@;
        let off = sample_offset(i as int);
        assert(s[off] == (x as u16) as u8);
        assert(s[off + 1] == ((x as u16) >> 8u16) as u8);
    }
}

/// Reads every sample that a packet's header announces, in slot order.
pub fn decode_payload(bytes: &[u8]) -> (r: Result<Vec<i16>, PacketError>)
    ensures
        bytes@.len() < HEADER_SIZE ==> r == Err::<Vec<i16>, PacketError>(PacketError::TruncatedHeader),
        bytes@.len() >= HEADER_SIZE && bytes@.len() < sample_offset(header_of(bytes@).buffer_size as int)
            ==> r == Err::<Vec<i16>, PacketError>(PacketError::TruncatedPayload),
        bytes@.len() >= sample_offset(header_of(bytes@).buffer_size as int) && bytes@.len() >= HEADER_SIZE
            ==> r is Ok && r.unwrap()@ == samples_of(bytes@, header_of(bytes@).buffer_size as nat),
{
    let h = match decode_header(bytes) {
        Ok(h) => h,
        Err(e) => return Err(e),
    };
    let n = h.buffer_size as usize;
    if bytes.len() < HEADER_SIZE + 2 * n {
        return Err(PacketError::TruncatedPayload);
    }
    let mut out: Vec<i16> = Vec::new();
    let mut i: usize = 0;
    while i < n
        invariant
            n == header_of(bytes@).buffer_size,
            HEADER_SIZE + 2 * n <= bytes@.len(),
            0 <= i <= n,
            out@.len() == i,
            forall|j: int| 0 <= j < i ==> #[trigger] out@[j] == sample_at(bytes@, j),
        decreases n - i,
    {
        out.push(read_sample(bytes, i));
        i = i + 1;
    }
    assert(out@ =~= samples_of(bytes@, n as nat));
    Ok(out)
}

/// Outcome of reading payload slot `index` of the packet bytes `s`.
pub open spec fn slot_outcome(s: Seq<u8>, index: int) -> Result<i16, PacketError> {
    if s.len() < HEADER_SIZE {
        Err(PacketError::TruncatedHeader)
    } else if header_of(s).bit_resolution != 16 {
        Err(PacketError::UnsupportedBitResolution)
    } else if index >= header_of(s).buffer_size {
        Err(PacketError::SlotOutOfRange)
    } else if s.len() < sample_offset(index) + 2 {
        Err(PacketError::TruncatedPayload)
    } else {
        Ok(sample_at(s, index))
    }
}

/// The wire sample in payload slot `index` of a 16-bit packet, checked
/// against the header's bit resolution and frame count.
pub fn wire_sample_at(packet: &[u8], index: usize) -> (r: Result<i16, PacketError>)
    ensures
        r == slot_outcome(packet@, index as int),
{
    let h = match decode_header(packet) {
        Ok(h) => h,
        Err(e) => return Err(e),
    };
    if h.bit_resolution != 16 {
        Err(PacketError::UnsupportedBitResolution)
    } else if index >= h.buffer_size as usize {
        Err(PacketError::SlotOutOfRange)
    } else if packet.len() < HEADER_SIZE + 2 * index + 2 {
        Err(PacketError::TruncatedPayload)
    } else {
        Ok(read_sample(packet, index))
    }
}

/// A scaled sample value limited to the 16-bit range.
pub open spec fn clamped(v: int) -> int {
    if v > i16::MAX {
        i16::MAX as int
    } else if v < i16::MIN {
        i16::MIN as int
    } else {
        v
    }
}

/// The wire sample for a sample already scaled by 32768 and rounded: values
/// beyond the 16-bit range saturate at its ends instead of wrapping.
pub fn clamp_to_wire(scaled: i64) -> (r: i16)
    ensures
        r == clamped(scaled as int),
{
    if scaled > i16::MAX as i64 {
        i16::MAX
    } else if scaled < i16::MIN as i64 {
        i16::MIN
    } else {
        scaled as i16
    }
}

} // verus!
