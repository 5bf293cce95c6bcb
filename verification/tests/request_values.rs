use ipp_printer_app::message::{AttrValue, Attribute, AttributeGroup, GroupTag, IppMessage, Value};
use ipp_printer_app::raster::{JobFailure, JobOptions};
use ipp_printer_app::request::{
    extract_identify_actions, extract_job_id, extract_requested_attributes, has_operation_attr,
    parse_u32,
};
use ipp_printer_app::device::PollStatus;
use ipp_printer_app::flags::PrinterReason;

fn msg(groups: Vec<(GroupTag, Vec<(&str, AttrValue)>)>) -> IppMessage {
    IppMessage {
        version: 0x0200,
        code: 0x000b,
        request_id: 1,
        groups: groups
            .into_iter()
            .map(|(tag, attrs)| AttributeGroup {
                tag,
                attributes: attrs
                    .into_iter()
                    .map(|(n, v)| Attribute { name: n.to_string(), value: v })
                    .collect(),
            })
            .collect(),
    }
}

#[test]
fn parse_u32_like_from_str() {
    assert_eq!(parse_u32("42"), Some(42));
    assert_eq!(parse_u32("+7"), Some(7));
    assert_eq!(parse_u32("4294967295"), Some(u32::MAX));
    assert_eq!(parse_u32("4294967296"), None);
    assert_eq!(parse_u32(""), None);
    assert_eq!(parse_u32("+"), None);
    assert_eq!(parse_u32("-1"), None);
    assert_eq!(parse_u32("1a"), None);
    assert_eq!(parse_u32("007"), Some(7));
}

#[test]
fn job_id_from_id_or_uri() {
    let m = msg(vec![(GroupTag::Operation, vec![("job-id", AttrValue::One(Value::Integer(12)))])]);
    assert_eq!(extract_job_id(&m), Some(12));
    let m = msg(vec![(GroupTag::Operation, vec![("job-uri", AttrValue::One(Value::Uri("ipp://h/ipp/print/p/34".to_string())))])]);
    assert_eq!(extract_job_id(&m), Some(34));
    let m = msg(vec![(GroupTag::Operation, vec![("job-uri", AttrValue::One(Value::Uri("ipp://h/ipp/print/p/".to_string())))])]);
    assert_eq!(extract_job_id(&m), None);
    let m = msg(vec![(GroupTag::Operation, vec![])]);
    assert_eq!(extract_job_id(&m), None);
}

#[test]
fn operation_attributes_only_count_in_the_operation_group() {
    let m = msg(vec![
        (GroupTag::Operation, vec![("printer-uri", AttrValue::One(Value::Uri("u".to_string())))]),
        (GroupTag::Job, vec![("last-document", AttrValue::One(Value::Boolean(true)))]),
    ]);
    assert!(has_operation_attr(&m, "printer-uri"));
    assert!(!has_operation_attr(&m, "last-document"));
}

#[test]
fn requested_attributes_and_identify_actions() {
    let m = msg(vec![(
        GroupTag::Operation,
        vec![
            (
                "requested-attributes",
                AttrValue::Many(vec![Value::Keyword("a".to_string()), Value::Integer(3), Value::Keyword("b".to_string())]),
            ),
            ("identify-actions", AttrValue::Many(vec![Value::Keyword("flash".to_string()), Value::Keyword("sound".to_string())])),
        ],
    )]);
    assert_eq!(extract_requested_attributes(&m), Some(vec!["a".to_string(), "b".to_string()]));
    assert_eq!(extract_identify_actions(&m), vec!["flash".to_string(), "sound".to_string()]);
    let none = msg(vec![(GroupTag::Operation, vec![])]);
    assert_eq!(extract_requested_attributes(&none), None);
    assert!(extract_identify_actions(&none).is_empty());
}

#[test]
fn job_options_clamp_copies() {
    let o = JobOptions::from_cups_v1(384, 240, 1, 48, 0);
    assert_eq!((o.width, o.height, o.bits_per_pixel, o.bytes_per_line, o.copies), (384, 240, 1, 48, 1));
    assert_eq!(JobOptions::from_cups_v1(1, 1, 1, 1, 3).copies, 3);
}

#[test]
fn job_failure_builders() {
    let f = JobFailure::new(PrinterReason::cover_open(), "lid open");
    assert_eq!(f.printer_reasons, PrinterReason::cover_open());
    assert_eq!(f.message, "lid open");
    assert_eq!(f.to_message(), "lid open");
    let g = JobFailure::other(String::from("boom"));
    assert_eq!(g.printer_reasons, PrinterReason::other());
    assert_eq!(g.message, "boom");
}

#[test]
fn poll_status_constructors() {
    let s = PollStatus::from_reasons(PrinterReason::toner_low());
    assert_eq!(s.reasons, PrinterReason::toner_low());
    assert!(s.ready_media.is_none() && s.supply_percent.is_none());
    let d = PollStatus::default();
    assert!(d.reasons.is_empty());
}
