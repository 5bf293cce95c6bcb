use ipp::model::{IppVersion, Operation};
use ipp::prelude::Uri;
use ipp::request::IppRequestResponse;
use ipp_printer_app::wire::parse_ipp_request;

#[test]
fn build_get_printer_attributes_request() {
    let uri: Uri = "ipp://localhost:8631/ipp/print/test".parse().unwrap();
    let req = IppRequestResponse::new(IppVersion::v2_0(), Operation::GetPrinterAttributes, Some(uri));
    let bytes = req.to_bytes();
    assert!(bytes.len() > 8);
}

#[test]
fn parse_get_printer_attributes_roundtrip() {
    let uri: Uri = "ipp://localhost:631/ipp/print/x".parse().unwrap();
    let req = IppRequestResponse::new(IppVersion::v2_0(), Operation::GetPrinterAttributes, Some(uri));
    let bytes = req.to_bytes();

    let (parsed, _document) = parse_ipp_request(&bytes).expect("parse");
    assert_eq!(parsed.code, Operation::GetPrinterAttributes as u16);
}
