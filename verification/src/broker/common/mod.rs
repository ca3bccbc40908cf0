pub mod report_parser;
pub mod broker_report_parser_factory;
