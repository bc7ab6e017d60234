use potential_chainsaw::jack_trip_header::{
    clamp_to_wire, decode_header, decode_payload, encode_header, read_sample, wire_sample_at,
    write_sample,
    JackTripHeader, PacketError, HEADER_SIZE, PACKET_CAPACITY,
};
use potential_chainsaw::sampling_rate_t::SamplingRateT;

fn sample_header() -> JackTripHeader {
    JackTripHeader {
        time_stamp: 0x0102_0304_0506_0708,
        sequence_number: 0xABCD,
        buffer_size: 128,
        sampling_rate: SamplingRateT::SR48,
        bit_resolution: 16,
        num_channels: 1,
        connection_mode: 7,
    }
}

fn sample_to_wire(x: f32) -> i16 {
    clamp_to_wire((x * 32768.0).round() as i64)
}

fn wire_to_sample(i: i16) -> f32 {
    i as f32 / 32768.0
}

#[test]
fn header_layout_is_little_endian_at_fixed_offsets() {
    let mut buf = [0xEEu8; 20];
    encode_header(&sample_header(), &mut buf);
    assert_eq!(&buf[0..8], &[0x08, 0x07, 0x06, 0x05, 0x04, 0x03, 0x02, 0x01]);
    assert_eq!(&buf[8..10], &[0xCD, 0xAB]);
    assert_eq!(&buf[10..12], &[128, 0]);
    assert_eq!(&buf[12..16], &[3, 16, 1, 7]);
    assert_eq!(&buf[16..20], &[0xEE, 0xEE, 0xEE, 0xEE]);
}

#[test]
fn header_round_trip() {
    let rates = [
        SamplingRateT::SR22,
        SamplingRateT::SR32,
        SamplingRateT::SR44,
        SamplingRateT::SR48,
        SamplingRateT::SR88,
        SamplingRateT::SR96,
        SamplingRateT::SR192,
        SamplingRateT::UNDEF,
    ];
    for (k, rate) in rates.iter().enumerate() {
        let h = JackTripHeader {
            time_stamp: u64::MAX - k as u64,
            sequence_number: 65535 - k as u16,
            buffer_size: 256 + k as u16,
            sampling_rate: *rate,
            bit_resolution: k as u8,
            num_channels: 255 - k as u8,
            connection_mode: 2 * k as u8,
        };
        let mut buf = [0u8; HEADER_SIZE];
        encode_header(&h, &mut buf);
        assert_eq!(decode_header(&buf), Ok(h));
    }
}

#[test]
fn decode_header_reads_known_bytes() {
    let bytes = [1u8, 0, 0, 0, 0, 0, 0, 0, 2, 1, 128, 0, 6, 16, 1, 9];
    let h = decode_header(&bytes).unwrap();
    assert_eq!(h.time_stamp, 1);
    assert_eq!(h.sequence_number, 258);
    assert_eq!(h.buffer_size, 128);
    assert_eq!(h.sampling_rate, SamplingRateT::SR192);
    assert_eq!(h.bit_resolution, 16);
    assert_eq!(h.num_channels, 1);
    assert_eq!(h.connection_mode, 9);
}

#[test]
fn decode_header_unknown_code_is_undefined() {
    let mut bytes = [0u8; HEADER_SIZE];
    bytes[12] = 42;
    assert_eq!(decode_header(&bytes).unwrap().sampling_rate, SamplingRateT::UNDEF);
}

#[test]
fn decode_header_too_short() {
    assert_eq!(decode_header(&[0u8; 15]), Err(PacketError::TruncatedHeader));
    assert_eq!(decode_header(&[]), Err(PacketError::TruncatedHeader));
}

#[test]
fn samples_round_trip_through_slots() {
    let mut buf = [0u8; PACKET_CAPACITY];
    let values = [0i16, 1, -1, i16::MAX, i16::MIN, 12345];
    for (i, v) in values.iter().enumerate() {
        write_sample(&mut buf, i, *v);
    }
    assert_eq!(&buf[16..20], &[0, 0, 1, 0]);
    assert_eq!(&buf[20..22], &[0xFF, 0xFF]);
    for (i, v) in values.iter().enumerate() {
        assert_eq!(read_sample(&buf, i), *v);
    }
    assert_eq!(read_sample(&buf, 255), 0);
}

#[test]
fn decode_payload_reads_announced_samples() {
    let mut buf = [0u8; 22];
    let mut h = sample_header();
    h.buffer_size = 3;
    encode_header(&h, &mut buf);
    write_sample(&mut buf, 0, -2);
    write_sample(&mut buf, 1, 300);
    write_sample(&mut buf, 2, 7);
    assert_eq!(decode_payload(&buf), Ok(vec![-2, 300, 7]));
    assert_eq!(decode_payload(&buf[..21]), Err(PacketError::TruncatedPayload));
    assert_eq!(decode_payload(&buf[..4]), Err(PacketError::TruncatedHeader));
}

#[test]
fn clamping_saturates() {
    assert_eq!(sample_to_wire(1.5), 32767);
    assert_eq!(sample_to_wire(-1.5), -32768);
    assert_eq!(clamp_to_wire(49152), 32767);
    assert_eq!(clamp_to_wire(-49152), -32768);
    assert_eq!(clamp_to_wire(i64::MAX), 32767);
    assert_eq!(clamp_to_wire(i64::MIN), -32768);
    assert_eq!(clamp_to_wire(-1234), -1234);
    assert_eq!(sample_to_wire(0.5), 16384);
    assert_eq!(sample_to_wire(-1.0), -32768);
}

#[test]
fn sample_round_trip_within_one_step() {
    let step = 1.0f32 / 32768.0;
    let mut x = -1.0f32;
    while x < 1.0 {
        let back = wire_to_sample(sample_to_wire(x));
        assert!((back - x).abs() <= step, "{} came back as {}", x, back);
        x += 0.000731;
    }
    for x in [-1.0f32, -0.5, 0.0, 0.25, 0.99997] {
        assert!((wire_to_sample(sample_to_wire(x)) - x).abs() <= step);
    }
}

#[test]
fn wire_sample_at_checks_the_header() {
    let mut buf = [0u8; 22];
    let mut h = sample_header();
    h.buffer_size = 3;
    encode_header(&h, &mut buf);
    write_sample(&mut buf, 2, -9);
    assert_eq!(wire_sample_at(&buf, 2), Ok(-9));
    assert_eq!(wire_sample_at(&buf, 3), Err(PacketError::SlotOutOfRange));
    assert_eq!(wire_sample_at(&buf[..21], 2), Err(PacketError::TruncatedPayload));
    assert_eq!(wire_sample_at(&buf[..8], 0), Err(PacketError::TruncatedHeader));
    h.bit_resolution = 24;
    encode_header(&h, &mut buf);
    assert_eq!(wire_sample_at(&buf, 0), Err(PacketError::UnsupportedBitResolution));
}
