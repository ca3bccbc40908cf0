//! The report parser for Interactive Brokers (IBKR) Flex Query reports.
use vstd::prelude::*;
use vstd::string::*;
use crate::broker::common::report_parser::{
    BrokerRawReport, ReportFormat, ReportParser, ReportParserError,
};

verus! {

/// The error of reading a report file straight into an IBKR report.
#[derive(Debug)]
pub enum ParseError {
    InvalidReport { reason: String },
}

#[derive(Default)]
pub struct IbkrReportParser {}

impl IbkrReportParser {
    pub fn new() -> (res: IbkrReportParser)
        ensures
            res == (IbkrReportParser {}),
    {
        IbkrReportParser {}
    }
}

impl ReportParser for IbkrReportParser {
    /// A file that could not be read gives `FileReadError` with the reason;
    /// otherwise the contents are parsed as by `parse_from_content`.
    fn parse_from_file(
        &self,
        contents: Result<String, String>,
        format_check: Result<(), String>,
    ) -> (res: Result<BrokerRawReport, ReportParserError>)
        ensures
            match contents {
                Err(reason) => res matches Err(ReportParserError::FileReadError { reason: r })
                    && r@ == reason@,
                Ok(content) => match format_check {
                    Err(reason) => res matches Err(ReportParserError::ParseError { reason: r })
                        && r@ == reason@,
                    Ok(_) => res matches Ok(report) && report.content@ == content@
                        && report.format is XML,
                },
            },
    {
        match contents {
            Err(reason) => Err(ReportParserError::FileReadError { reason }),
            Ok(content) => self.parse_from_content(content.as_str(), format_check),
        }
    }

    /// Text that does not read as an IBKR report gives `ParseError` with the
    /// reason; otherwise the report is the text itself, in XML format.
    fn parse_from_content(&self, content: &str, format_check: Result<(), String>) -> (res: Result<
        BrokerRawReport,
        ReportParserError,
    >)
        ensures
            match format_check {
                Err(reason) => res matches Err(ReportParserError::ParseError { reason: r }) && r@
                    == reason@,
                Ok(_) => res matches Ok(report) && report.content@ == content@
                    && report.format is XML,
            },
    {
        match format_check {
            Err(reason) => Err(ReportParserError::ParseError { reason }),
            Ok(_) => Ok(
                BrokerRawReport { content: String::from_str(content), format: ReportFormat::XML },
            ),
        }
    }

    /// IBKR reports are read in XML only.
    fn supported_formats(&self) -> (res: Vec<ReportFormat>)
        ensures
            res@.len() == 1,
            res@[0] is XML,
    {
        let mut v = Vec::new();
        v.push(ReportFormat::XML);
        v
    }
}

} // verus!
