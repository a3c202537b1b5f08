use metars::Error;
use metars::FlightCategory;
use metars::extract_metars;

#[test]
fn reports_come_in_reverse_document_order() {
    let xml = "<response><data>\
        <METAR><raw_text>A</raw_text></METAR>\
        <METAR><raw_text>B</raw_text></METAR>\
        <METAR><raw_text>C</raw_text></METAR>\
        </data></response>";
    let reports = extract_metars(xml).unwrap();
    assert_eq!(reports.len(), 3);
    assert_eq!(reports[0].raw_text().as_str(), "C");
    assert_eq!(reports[1].raw_text().as_str(), "B");
    assert_eq!(reports[2].raw_text().as_str(), "A");
}

#[test]
fn missing_flight_category_yields_unknown() {
    let xml = "<METAR><raw_text>KXYZ 010000Z</raw_text></METAR>";
    let reports = extract_metars(xml).unwrap();
    assert_eq!(reports.len(), 1);
    assert_eq!(reports[0].raw_text().as_str(), "KXYZ 010000Z");
    assert_eq!(reports[0].flight_category(), FlightCategory::UNKN);
}

#[test]
fn flight_category_text_is_classified() {
    let xml = "<METAR>\
        <station_id>KABC</station_id>\
        <flight_category>IFR</flight_category>\
        <raw_text>KABC 010100Z</raw_text>\
        </METAR>";
    let reports = extract_metars(xml).unwrap();
    assert_eq!(reports.len(), 1);
    assert_eq!(reports[0].flight_category(), FlightCategory::IFR);
}

#[test]
fn padded_category_text_is_unknown() {
    let xml = "<METAR><raw_text>R</raw_text><flight_category> IFR </flight_category></METAR>";
    let reports = extract_metars(xml).unwrap();
    assert_eq!(reports[0].flight_category(), FlightCategory::UNKN);
}

#[test]
fn empty_category_element_is_unknown() {
    let xml = "<METAR><raw_text>R</raw_text><flight_category/></METAR>";
    let reports = extract_metars(xml).unwrap();
    assert_eq!(reports[0].flight_category(), FlightCategory::UNKN);
}

#[test]
fn malformed_xml_fails_whole_extraction() {
    let xml = "<METAR><raw_text>A</raw_text>";
    let result = extract_metars(xml);
    assert_eq!(result.unwrap_err(), Error::XMLParseError);
}

#[test]
fn no_metar_elements_yield_empty_sequence() {
    let xml = "<response><data/></response>";
    let reports = extract_metars(xml).unwrap();
    assert_eq!(reports.len(), 0);
}

#[test]
fn missing_raw_text_yields_empty_string() {
    let xml = "<METAR><flight_category>VFR</flight_category></METAR>";
    let reports = extract_metars(xml).unwrap();
    assert_eq!(reports.len(), 1);
    assert_eq!(reports[0].raw_text().as_str(), "");
    assert_eq!(reports[0].flight_category(), FlightCategory::VFR);
}

#[test]
fn first_raw_text_in_depth_first_order_wins() {
    let xml = "<METAR><raw_text>first</raw_text><raw_text>second</raw_text></METAR>";
    let reports = extract_metars(xml).unwrap();
    assert_eq!(reports[0].raw_text().as_str(), "first");
}

#[test]
fn deeper_but_earlier_category_wins() {
    let xml = "<METAR>\
        <group><flight_category>VFR</flight_category></group>\
        <flight_category>IFR</flight_category>\
        <raw_text>R</raw_text>\
        </METAR>";
    let reports = extract_metars(xml).unwrap();
    assert_eq!(reports[0].flight_category(), FlightCategory::VFR);
}

#[test]
fn descendants_are_searched_at_any_depth() {
    let xml = "<METAR><wrapper><raw_text>deep</raw_text></wrapper></METAR>";
    let reports = extract_metars(xml).unwrap();
    assert_eq!(reports[0].raw_text().as_str(), "deep");
}

#[test]
fn nested_metar_elements_all_counted() {
    let xml = "<METAR><raw_text>outer</raw_text>\
        <METAR><raw_text>inner</raw_text></METAR>\
        </METAR>";
    let reports = extract_metars(xml).unwrap();
    assert_eq!(reports.len(), 2);
    assert_eq!(reports[0].raw_text().as_str(), "inner");
    assert_eq!(reports[1].raw_text().as_str(), "outer");
}

#[test]
fn extraction_is_idempotent() {
    let xml = "<response>\
        <METAR><raw_text>A 1</raw_text><flight_category>MVFR</flight_category></METAR>\
        <METAR><raw_text>B 2</raw_text></METAR>\
        </response>";
    let first = extract_metars(xml).unwrap();
    let second = extract_metars(xml).unwrap();
    assert_eq!(first.len(), second.len());
    for (a, b) in first.iter().zip(second.iter()) {
        assert_eq!(a.raw_text(), b.raw_text());
        assert_eq!(a.flight_category(), b.flight_category());
    }
}
