use vstd::prelude::*;

verus! {

/// Code written on the wire for a rate outside the registry. Any code above
/// the defined ones decodes to [`SamplingRateT::UNDEF`]; this is the one the
/// library writes.
pub const UNDEFINED_RATE_CODE: u8 = 255;

/// Sample rates that the wire format can name, in the order of their codes.
#[derive(Clone, Copy, Debug, PartialEq, Eq, Structural)]
pub enum SamplingRateT {
    /// 22050 Hz
    SR22,
    /// 32000 Hz
    SR32,
    /// 44100 Hz
    SR44,
    /// 48000 Hz
    SR48,
    /// 88200 Hz
    SR88,
    /// 96000 Hz
    SR96,
    /// 192000 Hz
    SR192,
    /// A code that names no rate.
    UNDEF,
}

/// The registry: wire code to rate in Hz, `None` outside the seven codes.
pub open spec fn rate_of_code(code: u8) -> Option<u32> {
    if code == 0 {
        Some(22050u32)
    } else if code == 1 {
        Some(32000u32)
    } else if code == 2 {
        Some(44100u32)
    } else if code == 3 {
        Some(48000u32)
    } else if code == 4 {
        Some(88200u32)
    } else if code == 5 {
        Some(96000u32)
    } else if code == 6 {
        Some(192000u32)
    } else {
        None
    }
}

/// The code of a rate of the registry, the undefined code for any other rate.
pub open spec fn spec_rate_to_code(rate: u32) -> u8 {
    if rate == 22050 {
        0
    } else if rate == 32000 {
        1
    } else if rate == 44100 {
        2
    } else if rate == 48000 {
        3
    } else if rate == 88200 {
        4
    } else if rate == 96000 {
        5
    } else if rate == 192000 {
        6
    } else {
        UNDEFINED_RATE_CODE
    }
}

/// The rates that the registry holds.
pub open spec fn is_supported_rate(rate: int) -> bool {
    exists|code: u8| #[trigger] rate_of_code(code) == Some(rate as u32) && 0 <= rate <= u32::MAX
}

impl SamplingRateT {
    /// The variant that a wire code decodes to.
    pub open spec fn spec_from_code(code: u8) -> SamplingRateT {
        if code == 0 {
            SamplingRateT::SR22
        } else if code == 1 {
            SamplingRateT::SR32
        } else if code == 2 {
            SamplingRateT::SR44
        } else if code == 3 {
            SamplingRateT::SR48
        } else if code == 4 {
            SamplingRateT::SR88
        } else if code == 5 {
            SamplingRateT::SR96
        } else if code == 6 {
            SamplingRateT::SR192
        } else {
            SamplingRateT::UNDEF
        }
    }

    /// The wire code written for the variant.
    pub open spec fn spec_code(self) -> u8 {
        match self {
            SamplingRateT::SR22 => 0,
            SamplingRateT::SR32 => 1,
            SamplingRateT::SR44 => 2,
            SamplingRateT::SR48 => 3,
            SamplingRateT::SR88 => 4,
            SamplingRateT::SR96 => 5,
            SamplingRateT::SR192 => 6,
            SamplingRateT::UNDEF => UNDEFINED_RATE_CODE,
        }
    }

    /// The rate in Hz, or 0 for [`SamplingRateT::UNDEF`], which has none.
    pub open spec fn spec_rate(self) -> nat {
        match rate_of_code(self.spec_code()) {
            Some(r) => r as nat,
            None => 0,
        }
    }

    /// Short human-readable name of the rate.
    pub open spec fn spec_label(self) -> Seq<char> {
        match self {
            SamplingRateT::SR22 => "22kHz"@,
            SamplingRateT::SR32 => "32kHz"@,
            SamplingRateT::SR44 => "44.1kHz"@,
            SamplingRateT::SR48 => "48kHz"@,
            SamplingRateT::SR88 => "88kHz"@,
            SamplingRateT::SR96 => "96kHz"@,
            SamplingRateT::SR192 => "192kHz"@,
            SamplingRateT::UNDEF => "UNKNOWN SAMPLE RATE OMG!"@,
        }
    }

    /// The rate in Hz; 0 for a code that names no rate.
    pub fn as_numeric(&self) -> (r: usize)
        ensures
            r == self.spec_rate(),
    {
        match self {
            SamplingRateT::SR22 => 22050,
            SamplingRateT::SR32 => 32000,
            SamplingRateT::SR44 => 44100,
            SamplingRateT::SR48 => 48000,
            SamplingRateT::SR88 => 88200,
            SamplingRateT::SR96 => 96000,
            SamplingRateT::SR192 => 192000,
            SamplingRateT::UNDEF => 0,
        }
    }

    /// The variant that a wire code decodes to; codes 7 to 255 give `UNDEF`.
    pub fn from_code(code: u8) -> (r: SamplingRateT)
        ensures
            r == Self::spec_from_code(code),
    {
        match code {
            0 => SamplingRateT::SR22,
            1 => SamplingRateT::SR32,
            2 => SamplingRateT::SR44,
            3 => SamplingRateT::SR48,
            4 => SamplingRateT::SR88,
            5 => SamplingRateT::SR96,
            6 => SamplingRateT::SR192,
            _ => SamplingRateT::UNDEF,
        }
    }

    /// The wire code written for the variant.
    pub fn to_code(&self) -> (r: u8)
        ensures
            r == self.spec_code(),
    {
        match self {
            SamplingRateT::SR22 => 0,
            SamplingRateT::SR32 => 1,
            SamplingRateT::SR44 => 2,
            SamplingRateT::SR48 => 3,
            SamplingRateT::SR88 => 4,
            SamplingRateT::SR96 => 5,
            SamplingRateT::SR192 => 6,
            SamplingRateT::UNDEF => UNDEFINED_RATE_CODE,
        }
    }

    /// The variant for a rate in Hz.
    pub open spec fn spec_from_rate(rate: u32) -> SamplingRateT {
        Self::spec_from_code(spec_rate_to_code(rate))
    }

    /// The variant for a rate in Hz; `UNDEF` for a rate outside the registry.
    pub fn from_rate(rate: u32) -> (r: SamplingRateT)
        ensures
            r == Self::spec_from_rate(rate),
            is_supported_rate(rate as int) ==> r.spec_rate() == rate,
            !is_supported_rate(rate as int) ==> r == SamplingRateT::UNDEF,
    {
        let r = SamplingRateT::from_code(rate_to_code(rate));
        r
    }

    /// Short human-readable name of the rate.
    pub fn label(&self) -> (r: &'static str)
        ensures
            r@ == self.spec_label(),
    {
        match self {
            SamplingRateT::SR22 => "22kHz",
            SamplingRateT::SR32 => "32kHz",
            SamplingRateT::SR44 => "44.1kHz",
            SamplingRateT::SR48 => "48kHz",
            SamplingRateT::SR88 => "88kHz",
            SamplingRateT::SR96 => "96kHz",
            SamplingRateT::SR192 => "192kHz",
            SamplingRateT::UNDEF => "UNKNOWN SAMPLE RATE OMG!",
        }
    }
}

impl From<u8> for SamplingRateT {
    fn from(code: u8) -> (r: SamplingRateT)
        ensures
            r == SamplingRateT::spec_from_code(code),
    {
        SamplingRateT::from_code(code)
    }
}

impl vstd::std_specs::convert::FromSpecImpl<u8> for SamplingRateT {
    open spec fn obeys_from_spec() -> bool {
        true
    }

    open spec fn from_spec(code: u8) -> SamplingRateT {
        SamplingRateT::spec_from_code(code)
    }
}

/// Decoding a code and encoding the variant again gives the code back for
/// the seven defined codes, and the undefined code for every other one.
pub proof fn lemma_code_round_trip(code: u8)
    ensures
        SamplingRateT::spec_from_code(code).spec_code() == (if code <= 6 {
            code
        } else {
            UNDEFINED_RATE_CODE
        }),
        SamplingRateT::spec_from_code(SamplingRateT::spec_from_code(code).spec_code())
            == SamplingRateT::spec_from_code(code),
{
}

/// The registry: the rate in Hz for a defined code, `None` for codes 7 to 255.
pub fn code_to_rate(code: u8) -> (r: Option<u32>)
    ensures
        r == rate_of_code(code),
        r is None <==> code > 6,
{
    match code {
        0 => Some(22050),
        1 => Some(32000),
        2 => Some(44100),
        3 => Some(48000),
        4 => Some(88200),
        5 => Some(96000),
        6 => Some(192000),
        _ => None,
    }
}

/// The reverse of [`code_to_rate`]: the code of a registered rate, and
/// [`UNDEFINED_RATE_CODE`] for any other rate.
pub fn rate_to_code(rate: u32) -> (r: u8)
    ensures
        r == spec_rate_to_code(rate),
        is_supported_rate(rate as int) ==> rate_of_code(r) == Some(rate),
        !is_supported_rate(rate as int) ==> r == UNDEFINED_RATE_CODE,
        rate_of_code(r) is None ==> r == UNDEFINED_RATE_CODE,
{
    let r: u8 = match rate {
        22050 => 0,
        32000 => 1,
        44100 => 2,
        48000 => 3,
        88200 => 4,
        96000 => 5,
        192000 => 6,
        _ => UNDEFINED_RATE_CODE,
    };
    proof {
        if r == UNDEFINED_RATE_CODE {
            assert forall|code: u8| #[trigger] rate_of_code(code) != Some(rate) by {}
        } else {
            assert(rate_of_code(r) == Some(rate));
        }
    }
    r
}

} // verus!
