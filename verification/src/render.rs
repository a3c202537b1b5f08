//! Rendering a classified report as one colour-coded line of text.
//!
//! Each known category prints bold in its own colour — low IFR magenta, IFR
//! red, marginal VFR blue, VFR green — with colour and style reset right
//! after the token, so no styling bleeds into the raw report text. `UNKN`
//! prints plain. The ANSI sequences themselves come from termion.

use vstd::prelude::*;

use crate::category::FlightCategory;
use crate::report::Metar;
use crate::report::MetarV;

verus! {

/// A category token styled for the terminal: bold, then the foreground
/// colour, the token, foreground reset, style reset.
pub open spec fn styled_token(token: Seq<char>, color: Seq<char>) -> Seq<char> {
    "\u{1b}[1m"@ + color + token + "\u{1b}[39m"@ + "\u{1b}[m"@
}

/// How a category renders: its token bold in its colour (magenta, red, blue,
/// green for low IFR, IFR, marginal VFR, VFR), or plain "UNKN".
pub open spec fn styled_category(c: FlightCategory) -> Seq<char> {
    match c {
        FlightCategory::LIFR => styled_token("LIFR"@, "\u{1b}[38;5;5m"@),
        FlightCategory::IFR => styled_token("IFR"@, "\u{1b}[38;5;1m"@),
        FlightCategory::MVFR => styled_token("MVFR"@, "\u{1b}[38;5;4m"@),
        FlightCategory::VFR => styled_token("VFR"@, "\u{1b}[38;5;2m"@),
        FlightCategory::UNKN => "UNKN"@,
    }
}

/// How a report renders: the styled category token, one space, the verbatim
/// report text.
pub open spec fn render_spec(m: MetarV) -> Seq<char> {
    styled_category(m.flight_category) + " "@ + m.raw_text
}

/// Relies on termion::style::Bold: its `Display` writes the CSI sequence for
/// bold text, unconditionally.
#[verifier::external_body]
fn bold_code() -> (r: String)
    ensures
        r@ == "\u{1b}[1m"@,
{
    format!("{}", termion::style::Bold)
}

/// Relies on termion::style::Reset: its `Display` writes the CSI sequence
/// resetting all SGR parameters, unconditionally.
#[verifier::external_body]
fn style_reset_code() -> (r: String)
    ensures
        r@ == "\u{1b}[m"@,
{
    format!("{}", termion::style::Reset)
}

/// Relies on termion::color::Reset::fg_str: the constant CSI sequence
/// resetting the foreground colour.
#[verifier::external_body]
fn fg_reset_code() -> (r: String)
    ensures
        r@ == "\u{1b}[39m"@,
{
    termion::color::Reset.fg_str().to_string()
}

/// Relies on termion::color::Magenta::fg_str: the constant CSI sequence
/// selecting ANSI colour 5 (magenta) as foreground.
#[verifier::external_body]
fn magenta_code() -> (r: String)
    ensures
        r@ == "\u{1b}[38;5;5m"@,
{
    termion::color::Magenta.fg_str().to_string()
}

/// Relies on termion::color::Red::fg_str: the constant CSI sequence selecting
/// ANSI colour 1 (red) as foreground.
#[verifier::external_body]
fn red_code() -> (r: String)
    ensures
        r@ == "\u{1b}[38;5;1m"@,
{
    termion::color::Red.fg_str().to_string()
}

/// Relies on termion::color::Blue::fg_str: the constant CSI sequence
/// selecting ANSI colour 4 (blue) as foreground.
#[verifier::external_body]
fn blue_code() -> (r: String)
    ensures
        r@ == "\u{1b}[38;5;4m"@,
{
    termion::color::Blue.fg_str().to_string()
}

/// Relies on termion::color::Green::fg_str: the constant CSI sequence
/// selecting ANSI colour 2 (green) as foreground.
#[verifier::external_body]
fn green_code() -> (r: String)
    ensures
        r@ == "\u{1b}[38;5;2m"@,
{
    termion::color::Green.fg_str().to_string()
}

/// Style one category token: bold, colour, token, resets.
fn style_token(token: &str, color: String) -> (r: String)
    ensures
        r@ == styled_token(token@, color@),
{
    let mut r = bold_code();
    r.append(color.as_str());
    r.append(token);
    let fg_reset = fg_reset_code();
    r.append(fg_reset.as_str());
    let style_reset = style_reset_code();
    r.append(style_reset.as_str());
    r
}

impl FlightCategory {
    /// The category's token as it prints: bold in the category's colour, with
    /// colour and style reset after it; plain "UNKN" for the unknown category.
    pub fn styled(&self) -> (r: String)
        ensures
            r@ == styled_category(*self),
    {
        match self {
            FlightCategory::LIFR => style_token("LIFR", magenta_code()),
            FlightCategory::IFR => style_token("IFR", red_code()),
            FlightCategory::MVFR => style_token("MVFR", blue_code()),
            FlightCategory::VFR => style_token("VFR", green_code()),
            FlightCategory::UNKN => "UNKN".to_owned(),
        }
    }
}

impl Metar {
    /// Render the report as one line: the styled category token, a space, and
    /// the verbatim report text.
    pub fn render(&self) -> (r: String)
        ensures
            r@ == render_spec(self@),
    {
        let mut r = self.flight_category().styled();
        r.append(" ");
        r.append(self.raw_text().as_str());
        r
    }
}

} // verus!
