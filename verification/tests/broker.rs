use ua_invest_tax::broker::common::broker_report_parser_factory::{
    BrokerReportParserFactory, BrokerType,
};
use ua_invest_tax::broker::common::report_parser::{ReportFormat, ReportParser, ReportParserError};
use ua_invest_tax::broker::ibkr::report_parser::IbkrReportParser;
use ua_invest_tax::tax::ua::adapters::broker_adapter::BrokerAdapter;
use ua_invest_tax::tax::ua::adapters::ibkr_adapter::IbkrAdapter;

#[test]
fn detect_xml_report() {
    assert_eq!(BrokerReportParserFactory::detect_broker_type("statement.xml").unwrap(), BrokerType::IBKR);
    assert_eq!(BrokerReportParserFactory::detect_broker_type("dir/Statement.XML").unwrap(), BrokerType::IBKR);
}

#[test]
fn detect_unsupported_extension() {
    match BrokerReportParserFactory::detect_broker_type("statement.csv") {
        Err(ReportParserError::UnsupportedFormat { format: ReportFormat::Custom(ext) }) => assert_eq!(ext, "csv"),
        other => panic!("unexpected {:?}", other),
    }
}

#[test]
fn detect_missing_extension() {
    match BrokerReportParserFactory::detect_broker_type("statement") {
        Err(ReportParserError::ParseError { reason }) => assert_eq!(reason, "File has no extension"),
        other => panic!("unexpected {:?}", other),
    }
    assert!(BrokerReportParserFactory::detect_broker_type(".xml").is_err());
}

#[test]
fn error_messages() {
    let e = ReportParserError::FileReadError { reason: String::from("gone") };
    assert_eq!(e.to_string(), "Failed to read report file: gone");
    let e = ReportParserError::ParseError { reason: String::from("bad") };
    assert_eq!(e.to_string(), "Failed to parse report: bad");
    let e = ReportParserError::UnsupportedFormat { format: ReportFormat::Custom(String::from("c\"sv")) };
    assert_eq!(e.to_string(), "Unsupported report format: Custom(\"c\\\"sv\")");
    let e = ReportParserError::UnsupportedFormat { format: ReportFormat::PDF };
    assert_eq!(e.to_string(), "Unsupported report format: PDF");
}

#[test]
fn ibkr_parser_outcomes() {
    let p = IbkrReportParser::new();
    let ok = p.parse_from_file(Ok(String::from("<FlexQueryResponse/>")), Ok(())).unwrap();
    assert_eq!(ok.content, "<FlexQueryResponse/>");
    assert!(matches!(ok.format, ReportFormat::XML));
    match p.parse_from_file(Err(String::from("no such file")), Ok(())) {
        Err(ReportParserError::FileReadError { reason }) => assert_eq!(reason, "no such file"),
        other => panic!("unexpected {:?}", other),
    }
    match p.parse_from_content("<x", Err(String::from("eof"))) {
        Err(ReportParserError::ParseError { reason }) => assert_eq!(reason, "eof"),
        other => panic!("unexpected {:?}", other),
    }
    let formats = p.supported_formats();
    assert_eq!(formats.len(), 1);
    assert!(matches!(formats[0], ReportFormat::XML));
}

#[test]
fn broker_adapter_from_file() {
    let a = BrokerAdapter::from_file(String::from("report.xml")).unwrap();
    assert_eq!(*a.get_broker_type(), BrokerType::IBKR);
    assert_eq!(a.get_file_path(), "report.xml");
    match BrokerAdapter::from_file(String::from("report.pdf")) {
        Err(msg) => assert_eq!(msg, "Failed to detect broker type: Unsupported report format: Custom(\"pdf\")"),
        Ok(_) => panic!("pdf accepted"),
    }
    match BrokerAdapter::from_file(String::from("report")) {
        Err(msg) => assert_eq!(msg, "Failed to detect broker type: Failed to parse report: File has no extension"),
        Ok(_) => panic!("no extension accepted"),
    }
}

#[test]
fn broker_adapter_parse_report() {
    let a = BrokerAdapter::new(BrokerType::IBKR, String::from("r.xml"));
    match a.parse_report(Err(String::from("denied")), Ok(())) {
        Err(msg) => assert_eq!(msg, "Failed to parse broker report: Failed to read report file: denied"),
        Ok(_) => panic!("read failure ignored"),
    }
    match a.parse_report(Ok(String::from("junk")), Err(String::from("not xml"))) {
        Err(msg) => assert_eq!(msg, "Failed to parse broker report: Failed to parse report: not xml"),
        Ok(_) => panic!("bad xml accepted"),
    }
    assert_eq!(a.parse_report(Ok(String::from("<a/>")), Ok(())).unwrap().content, "<a/>");
}

#[test]
fn ibkr_adapter_constructors() {
    let a = IbkrAdapter::new(String::from("in.xml"));
    assert_eq!(a.adapter.broker_type, BrokerType::IBKR);
    assert_eq!(a.adapter.file_path, "in.xml");
    assert!(IbkrAdapter::from_file(String::from("in.xml")).is_ok());
    assert_eq!(
        IbkrAdapter::from_file(String::from("in.json")).err().unwrap(),
        "Failed to detect broker type: Unsupported report format: Custom(\"json\")"
    );
}
