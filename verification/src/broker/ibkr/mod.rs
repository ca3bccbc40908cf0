pub mod report;
pub mod report_parser;
