//! Choosing the parser for a broker, and guessing the broker from a file.
use vstd::prelude::*;
use vstd::string::*;
use super::report_parser::{ReportFormat, ReportParserError};
use crate::broker::ibkr::report_parser::IbkrReportParser;
use crate::text::{extension_of, lowercase_of, path_extension, str_eq, to_lowercase};

verus! {

#[derive(Debug, Clone, Copy, PartialEq, Eq, Structural)]
pub enum BrokerType {
    IBKR,
    Unknown,
}

pub struct BrokerReportParserFactory {}

/// The extension of a path as the broker guess reads it: lower-cased.
pub open spec fn detected_extension(path: Seq<char>) -> Option<Seq<char>> {
    match path_extension(path) {
        Some(e) => Some(lowercase_of(e)),
        None => None,
    }
}

/// The broker that a (lower-cased) file extension stands for: an `.xml`
/// file is an IBKR report; a missing extension is a parse error and any
/// other extension an unsupported format.
pub open spec fn broker_for_extension(
    extension: Option<Seq<char>>,
    res: Result<BrokerType, ReportParserError>,
) -> bool {
    match extension {
        None => res matches Err(ReportParserError::ParseError { reason }) && reason@
            == "File has no extension"@,
        Some(e) => if e == "xml"@ {
            res == Ok::<BrokerType, ReportParserError>(BrokerType::IBKR)
        } else {
            res matches Err(ReportParserError::UnsupportedFormat { format: ReportFormat::Custom(f) })
                && f@ == e
        },
    }
}

impl BrokerReportParserFactory {
    /// The parser for a broker. Only IBKR has one, so no other broker may be
    /// given.
    pub fn create_parser(broker_type: BrokerType) -> (res: IbkrReportParser)
        requires
            broker_type == BrokerType::IBKR,
        ensures
            res == (IbkrReportParser {}),
    {
        IbkrReportParser::new()
    }

    /// The broker for an already lower-cased file extension (`None` when the
    /// file has none).
    pub fn broker_type_for_extension(extension: Option<String>) -> (res: Result<
        BrokerType,
        ReportParserError,
    >)
        ensures
            broker_for_extension(
                match extension {
                    Some(e) => Some(e@),
                    None => None,
                },
                res,
            ),
    {
        match extension {
            None => Err(
                ReportParserError::ParseError { reason: String::from_str("File has no extension") },
            ),
            Some(e) => {
                if str_eq(e.as_str(), "xml") {
                    Ok(BrokerType::IBKR)
                } else {
                    Err(ReportParserError::UnsupportedFormat { format: ReportFormat::Custom(e) })
                }
            },
        }
    }

    /// The broker guessed from the extension of a file's path.
    pub fn detect_broker_type(file_path: &str) -> (res: Result<BrokerType, ReportParserError>)
        ensures
            broker_for_extension(detected_extension(file_path@), res),
    {
        let extension = match extension_of(file_path) {
            Some(ext) => Some(to_lowercase(ext.as_str())),
            None => None,
        };
        Self::broker_type_for_extension(extension)
    }
}

} // verus!
