//! Flight categories and the classification of a raw category token.

use vstd::prelude::*;

verus! {

/// The flight category of a METAR report: low IFR, IFR, marginal VFR, VFR,
/// or unknown. Any token other than the four exact station-reported codes
/// classifies as `UNKN`.
#[derive(Clone, Copy, Debug, PartialEq, Eq, Structural)]
pub enum FlightCategory {
    LIFR,
    IFR,
    MVFR,
    VFR,
    UNKN,
}

/// What `classify` returns on a token: the exact, case-sensitive match on the
/// four known codes, and `UNKN` for every other token (the empty string, a
/// case variant such as "vfr", a padded token such as " VFR", or garbage).
pub open spec fn classify_spec(s: Seq<char>) -> FlightCategory {
    if s == "LIFR"@ {
        FlightCategory::LIFR
    } else if s == "IFR"@ {
        FlightCategory::IFR
    } else if s == "MVFR"@ {
        FlightCategory::MVFR
    } else if s == "VFR"@ {
        FlightCategory::VFR
    } else {
        FlightCategory::UNKN
    }
}

/// Classify a raw category token. Total: never fails, never trims or folds
/// case; every unrecognized token maps to `UNKN`.
pub fn classify(s: &str) -> (c: FlightCategory)
    ensures
        c == classify_spec(s@),
{
    let t = s.to_owned();
    if t == "LIFR".to_owned() {
        FlightCategory::LIFR
    } else if t == "IFR".to_owned() {
        FlightCategory::IFR
    } else if t == "MVFR".to_owned() {
        FlightCategory::MVFR
    } else if t == "VFR".to_owned() {
        FlightCategory::VFR
    } else {
        FlightCategory::UNKN
    }
}

impl FlightCategory {
    /// Parse a raw category token. The error case is vacant: every token maps
    /// to a category, unrecognized ones to `UNKN`.
    pub fn from_str(s: &str) -> (r: Result<FlightCategory, ()>)
        ensures
            r == Ok::<FlightCategory, ()>(classify_spec(s@)),
    {
        Ok(classify(s))
    }
}

/// Law: classification defaults. Every token other than the four known codes
/// — the empty string and case variants included — classifies as `UNKN`.
pub proof fn lemma_classify_total_default(s: Seq<char>)
    requires
        s != "LIFR"@,
        s != "IFR"@,
        s != "MVFR"@,
        s != "VFR"@,
    ensures
        classify_spec(s) == FlightCategory::UNKN,
{
}

/// Law: classification recognizes exactly the four station-reported codes.
pub proof fn lemma_classify_known_codes()
    ensures
        classify_spec("LIFR"@) == FlightCategory::LIFR,
        classify_spec("IFR"@) == FlightCategory::IFR,
        classify_spec("MVFR"@) == FlightCategory::MVFR,
        classify_spec("VFR"@) == FlightCategory::VFR,
{
    reveal_strlit("LIFR");
    reveal_strlit("IFR");
    reveal_strlit("MVFR");
    reveal_strlit("VFR");
    assert("IFR"@.len() == 3 && "LIFR"@.len() == 4 && "MVFR"@.len() == 4 && "VFR"@.len() == 3);
    assert("MVFR"@[0] != "LIFR"@[0]);
    assert("VFR"@[0] != "IFR"@[0]);
}

} // verus!
