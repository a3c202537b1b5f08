use metars::FlightCategory;
use metars::category::classify;

#[test]
fn classify_known_codes_exactly() {
    assert_eq!(classify("LIFR"), FlightCategory::LIFR);
    assert_eq!(classify("IFR"), FlightCategory::IFR);
    assert_eq!(classify("MVFR"), FlightCategory::MVFR);
    assert_eq!(classify("VFR"), FlightCategory::VFR);
}

#[test]
fn classify_defaults_to_unknown() {
    assert_eq!(classify(""), FlightCategory::UNKN);
    assert_eq!(classify("vfr"), FlightCategory::UNKN);
    assert_eq!(classify("Lifr"), FlightCategory::UNKN);
    assert_eq!(classify(" VFR"), FlightCategory::UNKN);
    assert_eq!(classify("VFR "), FlightCategory::UNKN);
    assert_eq!(classify("garbage"), FlightCategory::UNKN);
    assert_eq!(classify("IFR1"), FlightCategory::UNKN);
}

#[test]
fn from_str_never_fails() {
    assert_eq!(FlightCategory::from_str("IFR"), Ok(FlightCategory::IFR));
    assert_eq!(FlightCategory::from_str("nonsense"), Ok(FlightCategory::UNKN));
    assert_eq!(FlightCategory::from_str(""), Ok(FlightCategory::UNKN));
}
