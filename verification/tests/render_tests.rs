use metars::FlightCategory;
use metars::extract_metars;
use metars::site_string;

#[test]
fn end_to_end_two_reports_render_in_order() {
    let xml = "<response>\
        <METAR><raw_text>KXYZ 010000Z VFR</raw_text></METAR>\
        <METAR><raw_text>KABC 010100Z IFR 1/2SM</raw_text>\
        <flight_category>IFR</flight_category></METAR>\
        </response>";
    let reports = extract_metars(xml).unwrap();
    assert_eq!(reports.len(), 2);
    assert_eq!(
        reports[0].render(),
        "\u{1b}[1m\u{1b}[38;5;1mIFR\u{1b}[39m\u{1b}[m KABC 010100Z IFR 1/2SM"
    );
    assert_eq!(reports[1].render(), "UNKN KXYZ 010000Z VFR");
}

#[test]
fn each_category_renders_bold_in_its_own_colour() {
    let cases = [
        ("LIFR", "\u{1b}[1m\u{1b}[38;5;5mLIFR\u{1b}[39m\u{1b}[m R"),
        ("IFR", "\u{1b}[1m\u{1b}[38;5;1mIFR\u{1b}[39m\u{1b}[m R"),
        ("MVFR", "\u{1b}[1m\u{1b}[38;5;4mMVFR\u{1b}[39m\u{1b}[m R"),
        ("VFR", "\u{1b}[1m\u{1b}[38;5;2mVFR\u{1b}[39m\u{1b}[m R"),
    ];
    for (token, expected) in cases.iter() {
        let xml = format!(
            "<METAR><raw_text>R</raw_text><flight_category>{}</flight_category></METAR>",
            token
        );
        let reports = extract_metars(&xml).unwrap();
        assert_eq!(reports[0].render().as_str(), *expected);
    }
}

#[test]
fn unknown_category_renders_plain() {
    let xml = "<METAR><raw_text>KXYZ 010000Z</raw_text></METAR>";
    let reports = extract_metars(xml).unwrap();
    assert_eq!(reports[0].flight_category(), FlightCategory::UNKN);
    assert_eq!(reports[0].render(), "UNKN KXYZ 010000Z");
}

#[test]
fn site_string_joins_with_commas() {
    assert_eq!(site_string(&vec![]), "");
    assert_eq!(site_string(&vec!["KLAX".to_string()]), "KLAX");
    assert_eq!(
        site_string(&vec!["KLAX".to_string(), "KSFO".to_string(), "KSAN".to_string()]),
        "KLAX,KSFO,KSAN"
    );
}
