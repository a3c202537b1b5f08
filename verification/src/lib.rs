//! Retrieval-side core of a METAR (aviation routine weather report) viewer:
//! classifying a report's flight category, extracting reports from the XML
//! feed, and rendering a colour-coded line per report.

pub mod category;
pub mod render;
pub mod report;
pub mod stations;
pub mod xml;

pub use category::FlightCategory;
pub use report::Error;
pub use report::Metar;
pub use report::extract_metars;
pub use stations::site_string;
