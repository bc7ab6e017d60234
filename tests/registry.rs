use potential_chainsaw::sampling_rate_t::{code_to_rate, rate_to_code, SamplingRateT, UNDEFINED_RATE_CODE};

#[test]
fn defined_codes_map_to_rates() {
    let rates = [22050u32, 32000, 44100, 48000, 88200, 96000, 192000];
    for (code, rate) in rates.iter().enumerate() {
        assert_eq!(code_to_rate(code as u8), Some(*rate));
        assert_eq!(rate_to_code(*rate), code as u8);
        assert_eq!(SamplingRateT::from_code(code as u8).as_numeric(), *rate as usize);
        assert_eq!(SamplingRateT::from_rate(*rate).to_code(), code as u8);
    }
}

#[test]
fn unknown_codes_are_undefined() {
    for code in 7u8..=255 {
        assert_eq!(code_to_rate(code), None);
        assert_eq!(SamplingRateT::from(code), SamplingRateT::UNDEF);
    }
}

#[test]
fn unknown_rates_get_the_undefined_code() {
    assert_eq!(rate_to_code(0), UNDEFINED_RATE_CODE);
    assert_eq!(rate_to_code(88000), UNDEFINED_RATE_CODE);
    assert_eq!(SamplingRateT::from_rate(11025), SamplingRateT::UNDEF);
    assert_eq!(SamplingRateT::UNDEF.as_numeric(), 0);
    assert_eq!(SamplingRateT::UNDEF.to_code(), 255);
}

#[test]
fn as_numeric_values() {
    assert_eq!(SamplingRateT::SR44.as_numeric(), 44100);
    assert_eq!(SamplingRateT::SR88.as_numeric(), 88200);
    assert_eq!(SamplingRateT::SR192.as_numeric(), 192000);
}

#[test]
fn labels() {
    assert_eq!(SamplingRateT::SR44.label(), "44.1kHz");
    assert_eq!(SamplingRateT::SR48.label(), "48kHz");
    assert_eq!(SamplingRateT::UNDEF.label(), "UNKNOWN SAMPLE RATE OMG!");
    assert_eq!(SamplingRateT::SR88.label(), "88kHz");
}
