use potential_chainsaw::bridge::OutboundStream;
use potential_chainsaw::handshake::{
    accept_first_packet, first_packet_header, verify_connection_params, Handshake, HandshakeAction,
    HandshakeError, Role,
};
use potential_chainsaw::jack_trip_header::{encode_header, JackTripHeader, PACKET_CAPACITY};
use potential_chainsaw::sampling_rate_t::SamplingRateT;

fn server_header(buffer_size: u16) -> JackTripHeader {
    JackTripHeader {
        time_stamp: 1_600_000_000_000_000,
        sequence_number: 0,
        buffer_size,
        sampling_rate: SamplingRateT::SR48,
        bit_resolution: 16,
        num_channels: 1,
        connection_mode: 0,
    }
}

fn packet_of(h: &JackTripHeader) -> Vec<u8> {
    let mut buf = vec![0u8; PACKET_CAPACITY];
    encode_header(h, &mut buf);
    buf
}

#[test]
fn client_handshake_succeeds() {
    let datagram = packet_of(&server_header(128));
    let mut hs = Handshake::new(Role::Client);
    assert_eq!(hs.next_action(), HandshakeAction::SendFirst);
    hs.on_sent();
    assert_eq!(hs.next_action(), HandshakeAction::ReceiveFirst);
    let peer = hs.on_received(&datagram, 48000).unwrap();
    assert_eq!(peer, server_header(128));
    assert_eq!(hs.next_action(), HandshakeAction::Stream);
}

#[test]
fn client_handshake_rejects_buffer_size() {
    let datagram = packet_of(&server_header(256));
    let mut hs = Handshake::new(Role::Client);
    hs.on_sent();
    assert_eq!(hs.on_received(&datagram, 48000), Err(HandshakeError::BufferSizeMismatch));
    assert_eq!(hs.next_action(), HandshakeAction::ReceiveFirst);
    assert_ne!(hs.next_action(), HandshakeAction::Stream);
}

#[test]
fn server_receives_first_then_answers() {
    let datagram = packet_of(&server_header(128));
    let mut hs = Handshake::new(Role::Server);
    assert_eq!(hs.next_action(), HandshakeAction::ReceiveFirst);
    assert!(hs.on_received(&datagram, 48000).is_ok());
    assert_eq!(hs.next_action(), HandshakeAction::SendFirst);
    hs.on_sent();
    assert_eq!(hs.next_action(), HandshakeAction::Stream);
}

#[test]
fn each_validation_error() {
    let ok = server_header(128);
    assert_eq!(verify_connection_params(&ok, 48000), Ok(()));
    assert_eq!(verify_connection_params(&ok, 44100), Err(HandshakeError::SampleRateMismatch));
    let mut h = ok;
    h.sampling_rate = SamplingRateT::UNDEF;
    assert_eq!(verify_connection_params(&h, 0), Err(HandshakeError::UnknownSamplingRate));
    let mut h = ok;
    h.bit_resolution = 24;
    assert_eq!(verify_connection_params(&h, 48000), Err(HandshakeError::UnsupportedBitResolution));
    let mut h = ok;
    h.num_channels = 2;
    assert_eq!(verify_connection_params(&h, 48000), Err(HandshakeError::UnsupportedChannelCount));
    let mut h = ok;
    h.buffer_size = 64;
    assert_eq!(verify_connection_params(&h, 48000), Err(HandshakeError::BufferSizeMismatch));
    assert_eq!(accept_first_packet(&[0u8; 10], 48000), Err(HandshakeError::Malformed));
}

#[test]
fn unknown_rate_codes_fail_validation() {
    for code in 7u8..=255 {
        let mut datagram = packet_of(&server_header(128));
        datagram[12] = code;
        assert_eq!(accept_first_packet(&datagram, 48000), Err(HandshakeError::UnknownSamplingRate));
        assert_eq!(accept_first_packet(&datagram, 0), Err(HandshakeError::UnknownSamplingRate));
    }
}

#[test]
fn first_packet_carries_local_parameters() {
    let h = first_packet_header(99, 44100, 0);
    assert_eq!(h.time_stamp, 99);
    assert_eq!(h.sequence_number, 0);
    assert_eq!(h.buffer_size, 128);
    assert_eq!(h.sampling_rate, SamplingRateT::SR44);
    assert_eq!(h.bit_resolution, 16);
    assert_eq!(h.num_channels, 1);
    let stream = OutboundStream::new(&h);
    let packet = stream.packet();
    assert_eq!(packet.len(), 16 + 2 * 128);
    assert_eq!(&packet[0..16], &[99, 0, 0, 0, 0, 0, 0, 0, 0, 0, 128, 0, 2, 16, 1, 0]);
    assert!(packet[16..].iter().all(|b| *b == 0));
    assert_eq!(accept_first_packet(packet, 44100), Ok(h));
}
