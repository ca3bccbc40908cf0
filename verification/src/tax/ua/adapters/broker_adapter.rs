//! An adapter that works with any supported broker.
use vstd::prelude::*;
use vstd::string::*;
use crate::broker::common::broker_report_parser_factory::{
    broker_for_extension, detected_extension, BrokerReportParserFactory, BrokerType,
};
use crate::broker::common::report_parser::{BrokerRawReport, ReportParser, ReportParserError};
use crate::broker::ibkr::report_parser::IbkrReportParser;

verus! {

/// A broker's report file and the parser for it. Reading the file is done
/// by the caller, which hands the outcome to `parse_report`.
pub struct BrokerAdapter {
    pub broker_type: BrokerType,
    pub file_path: String,
    pub parser: IbkrReportParser,
}

impl BrokerAdapter {
    /// An adapter for a broker given explicitly. Only IBKR has a parser, so
    /// no other broker may be given.
    pub fn new(broker_type: BrokerType, file_path: String) -> (res: BrokerAdapter)
        requires
            broker_type == BrokerType::IBKR,
        ensures
            res.broker_type == broker_type,
            res.file_path@ == file_path@,
    {
        let parser = BrokerReportParserFactory::create_parser(broker_type);
        BrokerAdapter { broker_type, file_path, parser }
    }

    /// An adapter for the broker guessed from the file's extension; when it
    /// cannot be guessed, the error's message after "Failed to detect broker
    /// type: ".
    pub fn from_file(file_path: String) -> (res: Result<BrokerAdapter, String>)
        ensures
            match res {
                Ok(a) => a.file_path@ == file_path@ && broker_for_extension(
                    detected_extension(file_path@),
                    Ok(a.broker_type),
                ),
                Err(msg) => exists|e: ReportParserError|
                    broker_for_extension(detected_extension(file_path@), Err(e)) && msg@
                        == "Failed to detect broker type: "@ + e.message(),
            },
    {
        match BrokerReportParserFactory::detect_broker_type(file_path.as_str()) {
            Ok(broker_type) => Ok(Self::new(broker_type, file_path)),
            Err(e) => {
                let msg = String::from_str("Failed to detect broker type: ").concat(
                    e.to_string().as_str(),
                );
                Err(msg)
            },
        }
    }

    pub fn get_broker_type(&self) -> (res: &BrokerType)
        ensures
            *res == self.broker_type,
    {
        &self.broker_type
    }

    /// The path of the report file.
    pub fn get_file_path(&self) -> (res: &str)
        ensures
            res@ == self.file_path@,
    {
        self.file_path.as_str()
    }

    /// The raw report from the file's contents (see the parser's
    /// `parse_from_file`); a failure is reported as its message after
    /// "Failed to parse broker report: ".
    pub fn parse_report(
        &self,
        contents: Result<String, String>,
        format_check: Result<(), String>,
    ) -> (res: Result<BrokerRawReport, String>)
        ensures
            match contents {
                Err(reason) => res matches Err(msg) && msg@ == "Failed to parse broker report: "@
                    + "Failed to read report file: "@ + reason@,
                Ok(content) => match format_check {
                    Err(reason) => res matches Err(msg) && msg@
                        == "Failed to parse broker report: "@ + "Failed to parse report: "@
                        + reason@,
                    Ok(_) => res matches Ok(report) && report.content@ == content@
                        && report.format is XML,
                },
            },
    {
        match self.parser.parse_from_file(contents, format_check) {
            Ok(report) => Ok(report),
            Err(e) => {
                let msg = String::from_str("Failed to parse broker report: ").concat(
                    e.to_string().as_str(),
                );
                Err(msg)
            },
        }
    }
}

} // verus!
