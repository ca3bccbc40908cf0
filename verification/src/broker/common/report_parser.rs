//! The raw report that every broker parser produces, and its errors.
use vstd::prelude::*;
use vstd::string::*;
use crate::text::{debug_quoted, debug_text};

verus! {

/// A broker report kept as the text it was read from.
#[derive(Debug, Clone)]
pub struct BrokerRawReport {
    pub content: String,
    pub format: ReportFormat,
}

#[derive(Debug, Clone)]
pub enum ReportFormat {
    XML,
    CSV,
    JSON,
    PDF,
    Custom(String),
}

impl ReportFormat {
    /// The text that `{:?}` writes for a format.
    pub open spec fn debug_text(self) -> Seq<char> {
        match self {
            ReportFormat::XML => "XML"@,
            ReportFormat::CSV => "CSV"@,
            ReportFormat::JSON => "JSON"@,
            ReportFormat::PDF => "PDF"@,
            ReportFormat::Custom(s) => "Custom("@ + debug_quoted(s@) + ")"@,
        }
    }

    /// The text that `{:?}` writes for a format.
    pub fn to_debug_string(&self) -> (res: String)
        ensures
            res@ == self.debug_text(),
    {
        match self {
            ReportFormat::XML => String::from_str("XML"),
            ReportFormat::CSV => String::from_str("CSV"),
            ReportFormat::JSON => String::from_str("JSON"),
            ReportFormat::PDF => String::from_str("PDF"),
            ReportFormat::Custom(s) => {
                let quoted = debug_text(s.as_str());
                String::from_str("Custom(").concat(quoted.as_str()).concat(")")
            },
        }
    }
}

#[derive(Debug)]
pub enum ReportParserError {
    FileReadError { reason: String },
    ParseError { reason: String },
    UnsupportedFormat { format: ReportFormat },
}

impl ReportParserError {
    /// The message that describes the error.
    pub open spec fn message(self) -> Seq<char> {
        match self {
            ReportParserError::FileReadError { reason } => "Failed to read report file: "@
                + reason@,
            ReportParserError::ParseError { reason } => "Failed to parse report: "@ + reason@,
            ReportParserError::UnsupportedFormat { format } => "Unsupported report format: "@
                + format.debug_text(),
        }
    }

    /// The message that describes the error.
    pub fn to_string(&self) -> (res: String)
        ensures
            res@ == self.message(),
    {
        match self {
            ReportParserError::FileReadError { reason } => String::from_str(
                "Failed to read report file: ",
            ).concat(reason.as_str()),
            ReportParserError::ParseError { reason } => String::from_str(
                "Failed to parse report: ",
            ).concat(reason.as_str()),
            ReportParserError::UnsupportedFormat { format } => {
                let f = format.to_debug_string();
                String::from_str("Unsupported report format: ").concat(f.as_str())
            },
        }
    }
}

/// What every broker report parser offers. Reading the file and checking
/// that the text is a well-formed report of the broker are done by the
/// caller, which hands their outcomes in: `contents` is the file's text or
/// the reason it could not be read, `format_check` is `Ok` when the text
/// reads as the broker's report, or the reason it does not.
pub trait ReportParser {
    /// The report from a file's contents.
    fn parse_from_file(
        &self,
        contents: Result<String, String>,
        format_check: Result<(), String>,
    ) -> Result<BrokerRawReport, ReportParserError>;

    /// The report from its text.
    fn parse_from_content(&self, content: &str, format_check: Result<(), String>) -> Result<
        BrokerRawReport,
        ReportParserError,
    >;

    /// The formats the parser reads.
    fn supported_formats(&self) -> Vec<ReportFormat>;
}

} // verus!
