use vstd::prelude::*;
use crate::jack_trip_header::{decode_header, header_of, JackTripHeader, HEADER_SIZE};
use crate::sampling_rate_t::SamplingRateT;

verus! {

/// The only bit resolution a session accepts.
pub const SUPPORTED_BIT_RESOLUTION: u8 = 16;

/// The only channel count a session accepts.
pub const SUPPORTED_CHANNELS: u8 = 1;

/// Frames per packet, fixed for every session.
pub const SESSION_BUFFER_SIZE: u16 = 128;

/// Why the peer's first packet ends the session before streaming starts.
#[derive(Clone, Copy, Debug, PartialEq, Eq, Structural)]
pub enum HandshakeError {
    /// The first datagram is shorter than a header.
    Malformed,
    /// Its rate code names no rate of the registry.
    UnknownSamplingRate,
    /// Its rate differs from the local device's.
    SampleRateMismatch,
    /// Its bit resolution is not 16.
    UnsupportedBitResolution,
    /// Its channel count is not 1.
    UnsupportedChannelCount,
    /// Its buffer size is not 128.
    BufferSizeMismatch,
}

/// A peer's parameters agree with a local device that runs at `local_rate` Hz.
pub open spec fn params_compatible(h: JackTripHeader, local_rate: usize) -> bool {
    &&& h.sampling_rate != SamplingRateT::UNDEF
    &&& h.sampling_rate.spec_rate() == local_rate
    &&& h.bit_resolution == SUPPORTED_BIT_RESOLUTION
    &&& h.num_channels == SUPPORTED_CHANNELS
    &&& h.buffer_size == SESSION_BUFFER_SIZE
}

/// The outcome of validating a peer's header, the first failed rule in the
/// order rate code, rate, bit resolution, channels, buffer size.
pub open spec fn check_params(h: JackTripHeader, local_rate: usize) -> Result<(), HandshakeError> {
    if h.sampling_rate == SamplingRateT::UNDEF {
        Err(HandshakeError::UnknownSamplingRate)
    } else if h.sampling_rate.spec_rate() != local_rate {
        Err(HandshakeError::SampleRateMismatch)
    } else if h.bit_resolution != SUPPORTED_BIT_RESOLUTION {
        Err(HandshakeError::UnsupportedBitResolution)
    } else if h.num_channels != SUPPORTED_CHANNELS {
        Err(HandshakeError::UnsupportedChannelCount)
    } else if h.buffer_size != SESSION_BUFFER_SIZE {
        Err(HandshakeError::BufferSizeMismatch)
    } else {
        Ok(())
    }
}

/// The outcome of reading and validating the first datagram from the peer.
pub open spec fn first_packet_outcome(d: Seq<u8>, local_rate: usize) -> Result<
    JackTripHeader,
    HandshakeError,
> {
    if d.len() < HEADER_SIZE {
        Err(HandshakeError::Malformed)
    } else {
        match check_params(header_of(d), local_rate) {
            Ok(()) => Ok(header_of(d)),
            Err(e) => Err(e),
        }
    }
}

/// Checks a peer's header against the local device's rate.
pub fn verify_connection_params(h: &JackTripHeader, sample_rate: usize) -> (r: Result<
    (),
    HandshakeError,
>)
    ensures
        r == check_params(*h, sample_rate),
        r is Ok <==> params_compatible(*h, sample_rate),
{
    if h.sampling_rate == SamplingRateT::UNDEF {
        Err(HandshakeError::UnknownSamplingRate)
    } else if h.sampling_rate.as_numeric() != sample_rate {
        Err(HandshakeError::SampleRateMismatch)
    } else if h.bit_resolution != SUPPORTED_BIT_RESOLUTION {
        Err(HandshakeError::UnsupportedBitResolution)
    } else if h.num_channels != SUPPORTED_CHANNELS {
        Err(HandshakeError::UnsupportedChannelCount)
    } else if h.buffer_size != SESSION_BUFFER_SIZE {
        Err(HandshakeError::BufferSizeMismatch)
    } else {
        Ok(())
    }
}

/// Reads the peer's first datagram and validates it; the header on success.
pub fn accept_first_packet(datagram: &[u8], sample_rate: usize) -> (r: Result<
    JackTripHeader,
    HandshakeError,
>)
    ensures
        r == first_packet_outcome(datagram@, sample_rate),
        r is Ok <==> datagram@.len() >= HEADER_SIZE && params_compatible(
            header_of(datagram@),
            sample_rate,
        ),
{
    match decode_header(datagram) {
        Err(_) => Err(HandshakeError::Malformed),
        Ok(h) => match verify_connection_params(&h, sample_rate) {
            Ok(()) => Ok(h),
            Err(e) => Err(e),
        },
    }
}

/// A rate code outside the registry names no rate, and a peer whose first
/// packet carries one is refused, whatever its other fields and the local
/// rate.
pub proof fn lemma_undefined_code_refused(code: u8, d: Seq<u8>, local_rate: usize)
    requires
        code > 6,
        d.len() >= HEADER_SIZE,
        d[12] == code,
    ensures
        crate::sampling_rate_t::rate_of_code(code) is None,
        SamplingRateT::spec_from_code(code) == SamplingRateT::UNDEF,
        first_packet_outcome(d, local_rate) == Err::<JackTripHeader, HandshakeError>(
            HandshakeError::UnknownSamplingRate,
        ),
{
}

/// The header of the first packet a side sends: sequence number 0, the
/// session's buffer size, the local rate, 16 bits, one channel.
pub open spec fn first_header(time_stamp: u64, rate: SamplingRateT, connection_mode: u8) -> JackTripHeader {
    JackTripHeader {
        time_stamp,
        sequence_number: 0,
        buffer_size: SESSION_BUFFER_SIZE,
        sampling_rate: rate,
        bit_resolution: SUPPORTED_BIT_RESOLUTION,
        num_channels: SUPPORTED_CHANNELS,
        connection_mode,
    }
}

/// Builds the header of the first packet that this side sends.
pub fn first_packet_header(time_stamp: u64, sample_rate: u32, connection_mode: u8) -> (r:
    JackTripHeader)
    ensures
        r == first_header(time_stamp, SamplingRateT::spec_from_rate(sample_rate), connection_mode),
{
    JackTripHeader {
        time_stamp,
        sequence_number: 0,
        buffer_size: SESSION_BUFFER_SIZE,
        sampling_rate: SamplingRateT::from_rate(sample_rate),
        bit_resolution: SUPPORTED_BIT_RESOLUTION,
        num_channels: SUPPORTED_CHANNELS,
        connection_mode,
    }
}

/// Which side of the connection this endpoint is.
#[derive(Clone, Copy, Debug, PartialEq, Eq, Structural)]
pub enum Role {
    /// Dials a known address and speaks first.
    Client,
    /// Listens, and learns the peer's address from its first packet.
    Server,
}

/// What the endpoint does next during the handshake.
#[derive(Clone, Copy, Debug, PartialEq, Eq, Structural)]
pub enum HandshakeAction {
    /// Send this side's first packet to the peer.
    SendFirst,
    /// Wait for the peer's first packet and validate it.
    ReceiveFirst,
    /// The handshake is complete: start streaming.
    Stream,
}

/// Progress of one endpoint through the handshake.
#[derive(Clone, Copy, Debug, PartialEq, Eq, Structural)]
pub struct Handshake {
    pub role: Role,
    /// This side's first packet has gone out.
    pub sent: bool,
    /// The peer's first packet has arrived and passed validation.
    pub received: bool,
}

/// The next action: a client sends first and then receives, a server
/// receives first and then answers.
pub open spec fn spec_next_action(hs: Handshake) -> HandshakeAction {
    if hs.sent && hs.received {
        HandshakeAction::Stream
    } else if hs.role == Role::Client {
        if !hs.sent {
            HandshakeAction::SendFirst
        } else {
            HandshakeAction::ReceiveFirst
        }
    } else {
        if !hs.received {
            HandshakeAction::ReceiveFirst
        } else {
            HandshakeAction::SendFirst
        }
    }
}

impl Handshake {
    /// A handshake that has not started.
    pub fn new(role: Role) -> (r: Handshake)
        ensures
            r == (Handshake { role, sent: false, received: false }),
    {
        Handshake { role, sent: false, received: false }
    }

    /// What to do next.
    pub fn next_action(&self) -> (r: HandshakeAction)
        ensures
            r == spec_next_action(*self),
    {
        if self.sent && self.received {
            HandshakeAction::Stream
        } else if self.role == Role::Client {
            if !self.sent {
                HandshakeAction::SendFirst
            } else {
                HandshakeAction::ReceiveFirst
            }
        } else {
            if !self.received {
                HandshakeAction::ReceiveFirst
            } else {
                HandshakeAction::SendFirst
            }
        }
    }

    /// Records that this side's first packet was sent.
    pub fn on_sent(&mut self)
        requires
            spec_next_action(*old(self)) == HandshakeAction::SendFirst,
        ensures
            *final(self) == (Handshake { sent: true, ..*old(self) }),
    {
        self.sent = true;
    }

    /// Validates the peer's first datagram; the handshake advances only when
    /// it is accepted.
    pub fn on_received(&mut self, datagram: &[u8], sample_rate: usize) -> (r: Result<
        JackTripHeader,
        HandshakeError,
    >)
        requires
            spec_next_action(*old(self)) == HandshakeAction::ReceiveFirst,
        ensures
            r == first_packet_outcome(datagram@, sample_rate),
            r is Ok ==> *final(self) == (Handshake { received: true, ..*old(self) }),
            r is Err ==> *final(self) == *old(self),
    {
        let r = accept_first_packet(datagram, sample_rate);
        if r.is_ok() {
            self.received = true;
        }
        r
    }
}

/// Whatever the role, an endpoint that follows the actions reaches streaming
/// after exactly one send and one accepted receive, in the role's order.
pub proof fn lemma_handshake_order(role: Role)
    ensures
        ({
            let start = Handshake { role, sent: false, received: false };
            let after_send = Handshake { role, sent: true, received: false };
            let after_receive = Handshake { role, sent: false, received: true };
            let done = Handshake { role, sent: true, received: true };
            &&& role == Role::Client ==> spec_next_action(start) == HandshakeAction::SendFirst
                && spec_next_action(after_send) == HandshakeAction::ReceiveFirst
            &&& role == Role::Server ==> spec_next_action(start) == HandshakeAction::ReceiveFirst
                && spec_next_action(after_receive) == HandshakeAction::SendFirst
            &&& spec_next_action(done) == HandshakeAction::Stream
        }),
{
}

} // verus!
