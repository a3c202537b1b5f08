//! Extraction of classified reports from the XML feed.
//!
//! `extract_metars` parses the feed text, collects every element tagged
//! `METAR` in depth-first document order, builds one report per element, and
//! returns the reports in reverse document order (most recently appended
//! observations first).
//!
//! Missing-field policy: a `METAR` element with no `raw_text` descendant (or
//! one whose `raw_text` element has no text) yields a report whose raw text
//! is the empty string; extraction never fails on a single record, only on a
//! document that does not parse.

use vstd::prelude::*;

use crate::category::FlightCategory;
use crate::category::classify;
use crate::category::classify_spec;
use crate::xml::XmlElem;
use crate::xml::XmlTreeV;
use crate::xml::all_with_tag;
use crate::xml::all_with_tag_in;
use crate::xml::elem_view;
use crate::xml::elems_view;
use crate::xml::first_with_tag;
use crate::xml::lemma_elems_view;
use crate::xml::parse_xml;
use crate::xml::xml_doc_of;

verus! {

/// Why an extraction can fail. `XMLParseError` is the only error extraction
/// produces: a document that is not well-formed XML fails as a whole.
/// `NoRawText` is kept for callers that treat a report with empty raw text as
/// missing; extraction itself substitutes the empty string instead.
#[derive(Debug, PartialEq, Eq, Structural)]
pub enum Error {
    NoRawText,
    XMLParseError,
}

/// Mathematical value of a report: its verbatim observation text and its
/// flight category.
pub ghost struct MetarV {
    pub raw_text: Seq<char>,
    pub flight_category: FlightCategory,
}

/// One weather observation: the verbatim report text and the flight category
/// the station attached to it (`UNKN` when absent or unrecognized).
#[derive(Debug)]
pub struct Metar {
    raw_text: String,
    flight_category: FlightCategory,
}

impl View for Metar {
    type V = MetarV;

    closed spec fn view(&self) -> MetarV {
        MetarV { raw_text: self.raw_text@, flight_category: self.flight_category }
    }
}

impl Metar {
    /// The verbatim observation text.
    pub fn raw_text(&self) -> (r: &String)
        ensures
            r@ == self@.raw_text,
    {
        &self.raw_text
    }

    /// The report's flight category.
    pub fn flight_category(&self) -> (c: FlightCategory)
        ensures
            c == self@.flight_category,
    {
        self.flight_category
    }
}

/// The report a `METAR` element yields: the text of its first `raw_text`
/// descendant (the empty string when that element or its text is absent), and
/// the classification of the text of its first `flight_category` descendant
/// (`UNKN`, without classifying, when that element or its text is absent).
/// "First" is first in a depth-first search in document order.
pub open spec fn report_of(m: XmlTreeV) -> MetarV {
    MetarV {
        raw_text: match first_with_tag(m, "raw_text"@) {
            Some(n) => match n.text {
                Some(t) => t,
                None => Seq::empty(),
            },
            None => Seq::empty(),
        },
        flight_category: match first_with_tag(m, "flight_category"@) {
            Some(n) => match n.text {
                Some(t) => classify_spec(t),
                None => FlightCategory::UNKN,
            },
            None => FlightCategory::UNKN,
        },
    }
}

/// The reports of a sequence of elements, in order.
pub open spec fn reports_of(ts: Seq<XmlTreeV>) -> Seq<MetarV> {
    ts.map_values(|t: XmlTreeV| report_of(t))
}

/// The values of a sequence of reports, in order.
pub open spec fn reports_view(ms: Seq<Metar>) -> Seq<MetarV> {
    ms.map_values(|m: Metar| m@)
}

/// What extraction returns on a parsed document: one report per `METAR`
/// element, in reverse document order.
pub open spec fn extraction(doc: XmlTreeV) -> Seq<MetarV> {
    reports_of(all_with_tag(doc, "METAR"@)).reverse()
}

/// What extraction returns on the feed text: the document's reports, or
/// `XMLParseError` exactly when the text is not well-formed XML.
pub open spec fn extract_model(s: Seq<char>) -> Result<Seq<MetarV>, Error> {
    match xml_doc_of(s) {
        Some(doc) => Ok(extraction(doc)),
        None => Err(Error::XMLParseError),
    }
}

/// Law: reports come out in reverse document order. The i-th extracted report
/// is the report of the (n-1-i)-th `METAR` element of the document, counted
/// in depth-first document order — for elements [A, B, C], the reports are
/// those of [C, B, A].
pub proof fn lemma_reports_reverse_document_order(doc: XmlTreeV, i: int)
    requires
        0 <= i < all_with_tag(doc, "METAR"@).len(),
    ensures
        extraction(doc).len() == all_with_tag(doc, "METAR"@).len(),
        extraction(doc)[i] == report_of(
            all_with_tag(doc, "METAR"@)[all_with_tag(doc, "METAR"@).len() - 1 - i],
        ),
{
}

/// Law: a `METAR` element with no `flight_category` descendant — whatever
/// else it holds, a `raw_text` child included — yields a report whose
/// category is `UNKN`.
pub proof fn lemma_missing_category_defaults_unknown(m: XmlTreeV)
    requires
        first_with_tag(m, "flight_category"@) is None,
    ensures
        report_of(m).flight_category == FlightCategory::UNKN,
{
}

/// Law: the category comes from the `flight_category` text alone. Whatever
/// surrounds it, a `METAR` element whose first `flight_category` descendant
/// carries text classifies that text.
pub proof fn lemma_category_from_token(m: XmlTreeV, n: XmlTreeV, t: Seq<char>)
    requires
        first_with_tag(m, "flight_category"@) == Some(n),
        n.text == Some(t),
    ensures
        report_of(m).flight_category == classify_spec(t),
{
}

/// Law: a `METAR` element whose first `flight_category` descendant carries
/// the exact text "IFR" yields category `IFR`, regardless of the rest of the
/// element.
pub proof fn lemma_category_ifr_token(m: XmlTreeV, n: XmlTreeV)
    requires
        first_with_tag(m, "flight_category"@) == Some(n),
        n.text == Some("IFR"@),
    ensures
        report_of(m).flight_category == FlightCategory::IFR,
{
    crate::category::lemma_classify_known_codes();
}

/// Law: a document with no `METAR` element yields the empty report sequence —
/// not an error.
pub proof fn lemma_no_metars_no_reports(doc: XmlTreeV)
    requires
        all_with_tag(doc, "METAR"@).len() == 0,
    ensures
        extraction(doc) == Seq::<MetarV>::empty(),
{
    assert(extraction(doc) =~= Seq::<MetarV>::empty());
}

/// Law: extraction is a pure function of the feed text. Any two results that
/// `extract_metars` allows on the same text — two calls on it included — are
/// equal, record for record.
pub proof fn lemma_extract_deterministic(
    xml: Seq<char>,
    r1: Result<Seq<MetarV>, Error>,
    r2: Result<Seq<MetarV>, Error>,
)
    requires
        r1 == extract_model(xml),
        r2 == extract_model(xml),
    ensures
        r1 == r2,
{
}

/// Build the report of one `METAR` element.
fn build_report(e: &XmlElem) -> (m: Metar)
    ensures
        m@ == report_of(e@),
{
    let raw_tag: String = "raw_text".to_owned();
    let raw_text: String = match e.find_tagged(&raw_tag) {
        Some(n) => match &n.text {
            Some(t) => t.clone(),
            None => String::new(),
        },
        None => String::new(),
    };
    let cat_tag: String = "flight_category".to_owned();
    let flight_category: FlightCategory = match e.find_tagged(&cat_tag) {
        Some(n) => match &n.text {
            Some(t) => classify(t.as_str()),
            None => FlightCategory::UNKN,
        },
        None => FlightCategory::UNKN,
    };
    Metar { raw_text, flight_category }
}

/// Append to `out` one report per element tagged `tag` in `e` and its
/// descendants, in depth-first document order.
fn collect_reports(e: &XmlElem, tag: &String, out: &mut Vec<Metar>)
    ensures
        reports_view(final(out)@) == reports_view(old(out)@) + reports_of(
            all_with_tag(e@, tag@),
        ),
    decreases *e,
{
    let ghost entry = out@;
    if e.tag == *tag {
        let m = build_report(e);
        out.push(m);
        proof {
            assert(reports_view(out@) =~= reports_view(entry).push(report_of(e@)));
        }
    }
    let ghost base = out@;
    proof {
        lemma_elems_view(e.children@);
    }
    let ghost cs = elems_view(e.children@);
    let mut i: usize = 0;
    while i < e.children.len()
        invariant
            i <= e.children.len(),
            cs == elems_view(e.children@),
            cs.len() == e.children@.len(),
            forall|j: int| 0 <= j < cs.len() ==> cs[j] == elem_view(e.children@[j]),
            reports_view(out@) == reports_view(base) + reports_of(
                all_with_tag_in(cs.take(i as int), tag@),
            ),
        decreases e.children.len() - i,
    {
        proof {
            assert(decreases_to!(*e => e.children));
            assert(decreases_to!(e.children => e.children@));
            assert(decreases_to!(e.children@ => e.children@[i as int]));
        }
        collect_reports(&e.children[i], tag, out);
        proof {
            assert(cs.take(i as int + 1).drop_last() =~= cs.take(i as int));
            assert(cs.take(i as int + 1).last() == cs[i as int]);
            assert(reports_of(
                all_with_tag_in(cs.take(i as int), tag@) + all_with_tag(cs[i as int], tag@),
            ) =~= reports_of(all_with_tag_in(cs.take(i as int), tag@)) + reports_of(
                all_with_tag(cs[i as int], tag@),
            ));
            assert(reports_view(out@) =~= reports_view(base) + reports_of(
                all_with_tag_in(cs.take(i as int + 1), tag@),
            ));
        }
        i += 1;
    }
    proof {
        assert(cs.take(cs.len() as int) =~= cs);
        if e@.tag == tag@ {
            assert(all_with_tag(e@, tag@) == seq![e@] + all_with_tag_in(cs, tag@));
            assert(reports_of(seq![e@] + all_with_tag_in(cs, tag@)) =~= seq![report_of(e@)]
                + reports_of(all_with_tag_in(cs, tag@)));
            assert(reports_view(base) =~= reports_view(entry) + seq![report_of(e@)]);
            assert(reports_view(out@) =~= reports_view(entry) + reports_of(
                all_with_tag(e@, tag@),
            ));
        } else {
            assert(reports_view(out@) =~= reports_view(entry) + reports_of(
                all_with_tag(e@, tag@),
            ));
        }
    }
}

/// Extract the classified reports from the feed text.
///
/// On well-formed XML, the result is `Ok`, holding one report per element
/// tagged `METAR` (at any depth), in reverse document order; each report is
/// built as `report_of` says, a missing or text-less `raw_text` descendant
/// yielding the empty string. On malformed XML, the result is
/// `Err(Error::XMLParseError)`, and no reports are produced.
pub fn extract_metars(metar_xml: &str) -> (r: Result<Vec<Metar>, Error>)
    ensures
        match r {
            Ok(reports) => extract_model(metar_xml@) == Ok::<Seq<MetarV>, Error>(
                reports_view(reports@),
            ),
            Err(e) => extract_model(metar_xml@) == Err::<Seq<MetarV>, Error>(e),
        },
        r is Ok <==> xml_doc_of(metar_xml@) is Some,
{
    let root = match parse_xml(metar_xml) {
        Some(root) => root,
        None => {
            return Err(Error::XMLParseError);
        },
    };
    let tag: String = "METAR".to_owned();
    let mut collected: Vec<Metar> = Vec::new();
    collect_reports(&root, &tag, &mut collected);
    let ghost total = collected@;
    proof {
        assert(reports_view(Seq::<Metar>::empty()) =~= Seq::<MetarV>::empty());
    }
    let mut reports: Vec<Metar> = Vec::new();
    while collected.len() > 0
        invariant
            collected@ == total.take(collected@.len() as int),
            reports@.len() + collected@.len() == total.len(),
            forall|j: int|
                0 <= j < reports@.len() ==> reports@[j] == total[total.len() - 1 - j],
        decreases collected.len(),
    {
        match collected.pop() {
            Some(m) => {
                reports.push(m);
            },
            None => {},
        }
        proof {
            assert(collected@ =~= total.take(collected@.len() as int));
        }
    }
    proof {
        assert(reports_view(reports@) =~= reports_view(total).reverse());
        assert(reports_view(total).reverse() =~= extraction(root@));
    }
    Ok(reports)
}

} // verus!
