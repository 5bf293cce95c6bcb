use ipp_printer_app::dispatch::{handle_ipp_request, FollowUp, Reply, OP_PRINT_JOB};
use ipp_printer_app::job::JobRegistry;
use ipp_printer_app::message::{
    new_response, AttrValue, Attribute, AttributeGroup, GroupTag, IppMessage, Value, STATUS_OK,
};
use ipp_printer_app::printer::{PrinterConfig, PrinterRecord};
use ipp_printer_app::wire::{encode_ipp_message, group_tag_of, parse_ipp_request, values_sized};

fn attr_bytes(tag: u8, name: &str, value: &[u8]) -> Vec<u8> {
    let mut b = vec![tag];
    b.extend_from_slice(&(name.len() as u16).to_be_bytes());
    b.extend_from_slice(name.as_bytes());
    b.extend_from_slice(&(value.len() as u16).to_be_bytes());
    b.extend_from_slice(value);
    b
}

fn print_job_body(document: &[u8]) -> Vec<u8> {
    let mut b = vec![0x02, 0x00, 0x00, 0x02, 0x00, 0x00, 0x00, 0x2a, 0x01];
    b.extend(attr_bytes(0x47, "attributes-charset", b"utf-8"));
    b.extend(attr_bytes(0x48, "attributes-natural-language", b"en"));
    b.extend(attr_bytes(0x45, "printer-uri", b"ipp://localhost:8631/ipp/print/p"));
    b.extend(attr_bytes(0x42, "requesting-user-name", b"carol"));
    b.extend(attr_bytes(0x21, "copies", &3i32.to_be_bytes()));
    b.extend(attr_bytes(0x44, "requested-attributes", b"job-id"));
    b.extend(attr_bytes(0x44, "", b"job-uri"));
    b.push(0x03);
    b.extend_from_slice(document);
    b
}

fn find<'a>(m: &'a IppMessage, name: &str) -> &'a AttrValue {
    &m.groups
        .iter()
        .flat_map(|g| g.attributes.iter())
        .find(|a| a.name == name)
        .unwrap_or_else(|| panic!("no {name}"))
        .value
}

#[test]
fn parses_header_attributes_and_document() {
    let (m, doc) = parse_ipp_request(&print_job_body(b"RASTER")).unwrap();
    assert_eq!((m.version, m.code, m.request_id), (0x0200, 0x0002, 42));
    assert_eq!(m.groups.len(), 1);
    assert_eq!(m.groups[0].tag, GroupTag::Operation);
    assert!(matches!(find(&m, "requesting-user-name"), AttrValue::One(Value::Name(s)) if s == "carol"));
    assert!(matches!(find(&m, "copies"), AttrValue::One(Value::Integer(3))));
    match find(&m, "requested-attributes") {
        AttrValue::Many(vs) => assert_eq!(vs.len(), 2),
        other => panic!("{other:?}"),
    }
    assert_eq!(doc, b"RASTER".to_vec());
}

#[test]
fn malformed_body_is_an_error() {
    assert!(parse_ipp_request(&[0x02, 0x00]).is_err());
    assert!(parse_ipp_request(&[0x02, 0x00, 0x00, 0x0b, 0, 0, 0, 1, 0x01, 0x99]).is_err());
}

#[test]
fn status_response_bytes() {
    let bytes = encode_ipp_message(&new_response(0x0101, 0x0503, 7));
    let mut expected = vec![0x01, 0x01, 0x05, 0x03, 0x00, 0x00, 0x00, 0x07, 0x01];
    expected.extend(attr_bytes(0x47, "attributes-charset", b"utf-8"));
    expected.extend(attr_bytes(0x48, "attributes-natural-language", b"en"));
    expected.push(0x03);
    assert_eq!(bytes, expected);
}

#[test]
fn encode_then_parse_keeps_groups() {
    let mut msg = new_response(0x0200, STATUS_OK, 9);
    msg.groups.push(AttributeGroup {
        tag: GroupTag::Job,
        attributes: vec![
            Attribute { name: "job-id".to_string(), value: AttrValue::One(Value::Integer(5)) },
            Attribute {
                name: "job-state-reasons".to_string(),
                value: AttrValue::Many(vec![
                    Value::Keyword("none".to_string()),
                    Value::Keyword("other".to_string()),
                ]),
            },
            Attribute { name: "media-col".to_string(), value: AttrValue::One(Value::MediaCol { name: "m".to_string(), x: 1, y: 2 }) },
        ],
    });
    let bytes = encode_ipp_message(&msg);
    assert_eq!(&bytes[..8], &[0x02, 0x00, 0x00, 0x00, 0x00, 0x00, 0x00, 0x09]);
    assert_eq!(bytes[8], 0x01);
    assert_eq!(*bytes.last().unwrap(), 0x03);
    let (back, _) = parse_ipp_request(&bytes).unwrap();
    assert_eq!(back.groups.len(), 2);
    assert_eq!(back.groups[1].tag, GroupTag::Job);
    assert!(matches!(find(&back, "job-id"), AttrValue::One(Value::Integer(5))));
    match find(&back, "job-state-reasons") {
        AttrValue::Many(vs) => assert_eq!(vs.len(), 2),
        other => panic!("{other:?}"),
    }
    assert!(matches!(find(&back, "media-col"), AttrValue::One(Value::Opaque)));
}

#[test]
fn group_tags() {
    assert_eq!(group_tag_of(1), GroupTag::Operation);
    assert_eq!(group_tag_of(2), GroupTag::Job);
    assert_eq!(group_tag_of(4), GroupTag::Printer);
    assert_eq!(group_tag_of(5), GroupTag::Unsupported);
    assert_eq!(GroupTag::Printer.code(), 4);
}

fn printers() -> Vec<PrinterRecord> {
    vec![PrinterRecord::new(PrinterConfig {
        name: "p".to_string(),
        display_name: String::new(),
        driver_name: "d".to_string(),
        make_and_model: "M".to_string(),
        device_id: String::new(),
        device_uri: "mock://x".to_string(),
        dpi: 203,
        printhead_width_dots: 384,
        media_names: vec![],
        media_sizes: vec![],
        darkness: 50,
        document_formats: vec![],
    })]
}

#[test]
fn exchange_over_raw_bytes() {
    let mut jobs = JobRegistry::new();
    let x = handle_ipp_request(&printers(), &mut jobs, "p", &print_job_body(b"DOC"), "0.0.0.0", 8631, 3, 0);
    assert_eq!(x.request.as_ref().unwrap().code, OP_PRINT_JOB);
    assert_eq!(x.document, b"DOC".to_vec());
    match &x.handled.follow_up {
        FollowUp::Print { job, copies, .. } => {
            assert_eq!(job.owner, "carol");
            assert_eq!(*copies, 3);
        }
        other => panic!("{other:?}"),
    }
    let bytes = x.encoded.unwrap();
    assert_eq!(&bytes[..8], &[0x02, 0x00, 0x00, 0x00, 0x00, 0x00, 0x00, 0x2a]);
    assert!(jobs.get(1).is_some());

    let bad = handle_ipp_request(&printers(), &mut jobs, "p", &[0x01], "h", 1, 3, 0);
    assert!(bad.request.is_none());
    match bad.handled.reply {
        Reply::Http { status, message } => {
            assert_eq!(status, 400);
            assert!(message.starts_with("IPP parse error: "), "{message}");
        }
        Reply::Ipp(_) => panic!("expected HTTP error"),
    }
    assert!(bad.encoded.is_none());
    assert!(jobs.get(2).is_none());
}

fn short_integer_body() -> Vec<u8> {
    vec![0x02, 0x00, 0x00, 0x0b, 0x00, 0x00, 0x00, 0x01, 0x01, 0x21, 0x00, 0x01, b'x', 0x00, 0x00, 0x03]
}

#[test]
fn short_fixed_size_value_is_refused() {
    assert!(!values_sized(&short_integer_body()));
    match parse_ipp_request(&short_integer_body()) {
        Err(e) => assert!(e.starts_with("IPP parse error: "), "{e}"),
        Ok(_) => panic!("a zero-length integer was accepted"),
    }
}

#[test]
fn value_lengths_by_tag() {
    let mut ok = vec![0x02, 0x00, 0x00, 0x0b, 0, 0, 0, 1, 0x01];
    ok.extend(attr_bytes(0x21, "copies", &2i32.to_be_bytes()));
    ok.extend(attr_bytes(0x22, "flag", &[1]));
    ok.extend(attr_bytes(0x33, "range", &[0, 0, 0, 1, 0, 0, 0, 9]));
    ok.extend(attr_bytes(0x44, "kw", b""));
    ok.push(0x03);
    assert!(values_sized(&ok));
    let mut short = ok.clone();
    let at = short.len() - 1;
    short.truncate(at);
    short.extend(attr_bytes(0x31, "when", &[0; 10]));
    short.push(0x03);
    assert!(!values_sized(&short));
    assert!(values_sized(&[0x02, 0x00]));
}

#[test]
fn short_value_answers_http_400() {
    let mut jobs = JobRegistry::new();
    let x = handle_ipp_request(&printers(), &mut jobs, "p", &short_integer_body(), "h", 1, 3, 0);
    assert!(x.request.is_none());
    match x.handled.reply {
        Reply::Http { status, message } => {
            assert_eq!(status, 400);
            assert!(message.starts_with("IPP parse error: "), "{message}");
        }
        Reply::Ipp(_) => panic!("expected HTTP error"),
    }
    assert!(x.encoded.is_none());
}

fn names(g: &AttributeGroup) -> Vec<String> {
    let mut v: Vec<String> = g.attributes.iter().map(|a| a.name.clone()).collect();
    v.sort();
    v
}

#[test]
fn written_groups_read_back_with_their_names() {
    let msg = IppMessage {
        version: 0x0101,
        code: 0,
        request_id: 3,
        groups: vec![
            AttributeGroup {
                tag: GroupTag::Printer,
                attributes: vec![
                    Attribute { name: "b".to_string(), value: AttrValue::One(Value::Boolean(true)) },
                    Attribute { name: "a".to_string(), value: AttrValue::Many(vec![Value::Integer(1), Value::Integer(2)]) },
                ],
            },
            AttributeGroup {
                tag: GroupTag::Operation,
                attributes: vec![Attribute { name: "attributes-charset".to_string(), value: AttrValue::One(Value::Charset("utf-8".to_string())) }],
            },
            AttributeGroup { tag: GroupTag::Job, attributes: vec![] },
        ],
    };
    let bytes = encode_ipp_message(&msg);
    let (back, doc) = parse_ipp_request(&bytes).unwrap();
    assert!(doc.is_empty());
    assert_eq!((back.version, back.code, back.request_id), (0x0101, 0, 3));
    let tags: Vec<GroupTag> = back.groups.iter().map(|g| g.tag).collect();
    assert_eq!(tags, vec![GroupTag::Operation, GroupTag::Printer, GroupTag::Job]);
    assert_eq!(names(&back.groups[0]), vec!["attributes-charset".to_string()]);
    assert_eq!(names(&back.groups[1]), vec!["a".to_string(), "b".to_string()]);
    assert!(back.groups[2].attributes.is_empty());
}

#[test]
fn message_without_operation_group_gets_an_empty_one() {
    let msg = IppMessage {
        version: 0x0200,
        code: 0,
        request_id: 1,
        groups: vec![AttributeGroup {
            tag: GroupTag::Unsupported,
            attributes: vec![Attribute { name: "sides".to_string(), value: AttrValue::One(Value::Unknown) }],
        }],
    };
    let bytes = encode_ipp_message(&msg);
    let (back, _) = parse_ipp_request(&bytes).unwrap();
    assert_eq!(back.groups.len(), 2);
    assert_eq!(back.groups[0].tag, GroupTag::Operation);
    assert!(back.groups[0].attributes.is_empty());
    assert_eq!(back.groups[1].tag, GroupTag::Unsupported);
    assert_eq!(names(&back.groups[1]), vec!["sides".to_string()]);
}

#[test]
fn opaque_value_is_written_as_no_value() {
    let msg = IppMessage {
        version: 0x0200,
        code: 0,
        request_id: 1,
        groups: vec![AttributeGroup {
            tag: GroupTag::Operation,
            attributes: vec![Attribute { name: "x".to_string(), value: AttrValue::One(Value::Opaque) }],
        }],
    };
    let bytes = encode_ipp_message(&msg);
    let mut expected = vec![0x02, 0x00, 0x00, 0x00, 0x00, 0x00, 0x00, 0x01, 0x01];
    expected.extend(attr_bytes(0x13, "x", b""));
    expected.push(0x03);
    assert_eq!(bytes, expected);
}

#[test]
fn written_values_read_back() {
    let msg = IppMessage {
        version: 0x0200,
        code: 0,
        request_id: 4,
        groups: vec![AttributeGroup {
            tag: GroupTag::Printer,
            attributes: vec![
                Attribute { name: "one".to_string(), value: AttrValue::Many(vec![Value::Keyword("solo".to_string())]) },
                Attribute { name: "flag".to_string(), value: AttrValue::One(Value::Boolean(false)) },
                Attribute { name: "range".to_string(), value: AttrValue::One(Value::RangeOfInteger { min: 1, max: 99 }) },
                Attribute { name: "uri".to_string(), value: AttrValue::One(Value::Uri("ipp://h/x".to_string())) },
                Attribute {
                    name: "set".to_string(),
                    value: AttrValue::Many(vec![Value::Enum(3), Value::Enum(4), Value::Enum(5)]),
                },
            ],
        }],
    };
    let (back, _) = parse_ipp_request(&encode_ipp_message(&msg)).unwrap();
    assert!(matches!(find(&back, "one"), AttrValue::One(Value::Keyword(s)) if s == "solo"));
    assert!(matches!(find(&back, "flag"), AttrValue::One(Value::Boolean(false))));
    assert!(matches!(find(&back, "range"), AttrValue::One(Value::Opaque)));
    assert!(matches!(find(&back, "uri"), AttrValue::One(Value::Uri(s)) if s == "ipp://h/x"));
    match find(&back, "set") {
        AttrValue::Many(vs) => {
            assert_eq!(vs.len(), 3);
            assert!(matches!(vs[0], Value::Enum(3)));
            assert!(matches!(vs[2], Value::Enum(5)));
        }
        other => panic!("{other:?}"),
    }
}
