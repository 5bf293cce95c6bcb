use ipp_printer_app::dispatch::{
    handle_ipp, FollowUp, Handled, Reply, OP_CANCEL_JOB, OP_CANCEL_MY_JOBS, OP_CLOSE_JOB,
    OP_CREATE_JOB, OP_GET_JOBS, OP_GET_JOB_ATTRIBUTES, OP_GET_PRINTER_ATTRIBUTES,
    OP_IDENTIFY_PRINTER, OP_PRINT_JOB, OP_SEND_DOCUMENT, OP_VALIDATE_JOB,
};
use ipp_printer_app::job::{JobRegistry, JobState};
use ipp_printer_app::message::{
    AttrValue, Attribute, AttributeGroup, GroupTag, IppMessage, Value, STATUS_BAD_REQUEST,
    STATUS_NOT_FOUND, STATUS_NOT_POSSIBLE, STATUS_OK, STATUS_VERSION_NOT_SUPPORTED,
};
use ipp_printer_app::printer::{PrinterConfig, PrinterRecord};

fn config(name: &str) -> PrinterConfig {
    PrinterConfig {
        name: name.to_string(),
        display_name: String::new(),
        driver_name: "drv".to_string(),
        make_and_model: "Acme".to_string(),
        device_id: String::new(),
        device_uri: "mock://x".to_string(),
        dpi: 203,
        printhead_width_dots: 384,
        media_names: vec![],
        media_sizes: vec![],
        darkness: 50,
        document_formats: vec![],
    }
}

/// One operation attribute: wire value tag, name, value.
struct A(u8, &'static str, Value);

fn one(tag: u8, name: &'static str, v: Value) -> A {
    A(tag, name, v)
}

fn s(x: &str) -> String {
    x.to_string()
}

fn standard(extra: Vec<A>) -> Vec<A> {
    let mut v = vec![
        one(0x47, "attributes-charset", Value::Charset(s("utf-8"))),
        one(0x48, "attributes-natural-language", Value::NaturalLanguage(s("en"))),
        one(0x45, "printer-uri", Value::Uri(s("ipp://localhost:8631/ipp/print/p"))),
    ];
    v.extend(extra);
    v
}

fn wire_value(v: &Value) -> Vec<u8> {
    match v {
        Value::Integer(n) | Value::Enum(n) => n.to_be_bytes().to_vec(),
        Value::Boolean(b) => vec![*b as u8],
        Value::Keyword(x)
        | Value::Text(x)
        | Value::Name(x)
        | Value::Uri(x)
        | Value::Charset(x)
        | Value::NaturalLanguage(x)
        | Value::MimeMediaType(x)
        | Value::OctetString(x) => x.as_bytes().to_vec(),
        _ => vec![],
    }
}

/// The parsed request and its raw bytes.
fn request(version: u16, op: u16, rid: u32, attrs: Vec<A>) -> (IppMessage, Vec<u8>) {
    let mut body = Vec::new();
    body.extend_from_slice(&version.to_be_bytes());
    body.extend_from_slice(&op.to_be_bytes());
    body.extend_from_slice(&rid.to_be_bytes());
    body.push(0x01);
    let mut list = Vec::new();
    for A(tag, name, v) in attrs {
        body.push(tag);
        body.extend_from_slice(&(name.len() as u16).to_be_bytes());
        body.extend_from_slice(name.as_bytes());
        let w = wire_value(&v);
        body.extend_from_slice(&(w.len() as u16).to_be_bytes());
        body.extend_from_slice(&w);
        list.push(Attribute { name: name.to_string(), value: AttrValue::One(v) });
    }
    body.push(0x03);
    let msg = IppMessage {
        version,
        code: op,
        request_id: rid,
        groups: vec![AttributeGroup { tag: GroupTag::Operation, attributes: list }],
    };
    (msg, body)
}

fn run(
    printers: &Vec<PrinterRecord>,
    jobs: &mut JobRegistry,
    name: &str,
    req: &(IppMessage, Vec<u8>),
    payload: bool,
) -> Handled {
    handle_ipp(printers, jobs, name, &req.0, &req.1, payload, "0.0.0.0", 8631, 30, 0)
}

fn ipp_code(h: &Handled) -> (u16, u16, u32) {
    match &h.reply {
        Reply::Ipp(m) => (m.version, m.code, m.request_id),
        Reply::Http { status, message } => panic!("HTTP {status}: {message}"),
    }
}

fn http(h: &Handled) -> (u16, String) {
    match &h.reply {
        Reply::Http { status, message } => (*status, message.clone()),
        Reply::Ipp(m) => panic!("IPP status {:#06x}", m.code),
    }
}

fn printers() -> Vec<PrinterRecord> {
    vec![PrinterRecord::new(config("p"))]
}

fn job_attr_names(h: &Handled) -> Vec<Vec<String>> {
    match &h.reply {
        Reply::Ipp(m) => m
            .groups
            .iter()
            .filter(|g| g.tag == GroupTag::Job)
            .map(|g| g.attributes.iter().map(|a| a.name.clone()).collect())
            .collect(),
        Reply::Http { .. } => panic!("not IPP"),
    }
}

#[test]
fn unsupported_version_is_answered_in_ipp_1_1() {
    let mut jobs = JobRegistry::new();
    let r = request(0x0300, OP_GET_PRINTER_ATTRIBUTES, 5, standard(vec![]));
    let h = run(&printers(), &mut jobs, "p", &r, false);
    assert_eq!(ipp_code(&h), (0x0101, STATUS_VERSION_NOT_SUPPORTED, 5));
}

#[test]
fn misordered_charset_and_language_is_bad_request() {
    let mut jobs = JobRegistry::new();
    let attrs = vec![
        one(0x48, "attributes-natural-language", Value::NaturalLanguage(s("en"))),
        one(0x47, "attributes-charset", Value::Charset(s("utf-8"))),
        one(0x45, "printer-uri", Value::Uri(s("ipp://h/ipp/print/p"))),
    ];
    let r = request(0x0200, OP_GET_PRINTER_ATTRIBUTES, 5, attrs);
    let h = run(&printers(), &mut jobs, "p", &r, false);
    assert_eq!(ipp_code(&h), (0x0200, STATUS_BAD_REQUEST, 5));
}

#[test]
fn request_id_zero_is_bad_request() {
    let mut jobs = JobRegistry::new();
    let r = request(0x0101, OP_GET_PRINTER_ATTRIBUTES, 0, standard(vec![]));
    let h = run(&printers(), &mut jobs, "p", &r, false);
    assert_eq!(ipp_code(&h), (0x0101, STATUS_BAD_REQUEST, 0));
}

#[test]
fn missing_target_is_bad_request() {
    let mut jobs = JobRegistry::new();
    let attrs = vec![
        one(0x47, "attributes-charset", Value::Charset(s("utf-8"))),
        one(0x48, "attributes-natural-language", Value::NaturalLanguage(s("en"))),
    ];
    let r = request(0x0200, OP_GET_PRINTER_ATTRIBUTES, 2, attrs);
    let h = run(&printers(), &mut jobs, "p", &r, false);
    assert_eq!(ipp_code(&h), (0x0200, STATUS_BAD_REQUEST, 2));
}

#[test]
fn unknown_printer_is_http_404() {
    let mut jobs = JobRegistry::new();
    let r = request(0x0200, OP_GET_PRINTER_ATTRIBUTES, 2, standard(vec![]));
    let h = run(&printers(), &mut jobs, "nope", &r, false);
    assert_eq!(http(&h), (404, s("printer not found: nope")));
}

#[test]
fn get_printer_attributes_honours_requested_attributes() {
    let mut jobs = JobRegistry::new();
    let r = request(
        0x0200,
        OP_GET_PRINTER_ATTRIBUTES,
        2,
        standard(vec![one(0x44, "requested-attributes", Value::Keyword(s("printer-name")))]),
    );
    let h = run(&printers(), &mut jobs, "p", &r, false);
    assert_eq!(ipp_code(&h), (0x0200, STATUS_OK, 2));
    match &h.reply {
        Reply::Ipp(m) => {
            let p: Vec<&str> = m
                .groups
                .iter()
                .filter(|g| g.tag == GroupTag::Printer)
                .flat_map(|g| g.attributes.iter().map(|a| a.name.as_str()))
                .collect();
            assert_eq!(p, vec!["printer-name"]);
        }
        _ => unreachable!(),
    }
    assert!(matches!(h.follow_up, FollowUp::Nothing));
}

#[test]
fn validate_job_succeeds() {
    let mut jobs = JobRegistry::new();
    let r = request(0x0200, OP_VALIDATE_JOB, 4, standard(vec![]));
    let h = run(&printers(), &mut jobs, "p", &r, false);
    assert_eq!(ipp_code(&h), (0x0200, STATUS_OK, 4));
}

#[test]
fn print_job_creates_and_hands_off() {
    let mut jobs = JobRegistry::new();
    let r = request(
        0x0200,
        OP_PRINT_JOB,
        3,
        standard(vec![
            one(0x42, "requesting-user-name", Value::Name(s("alice"))),
            one(0x49, "document-format", Value::MimeMediaType(s("image/pwg-raster"))),
            one(0x21, "copies", Value::Integer(2)),
        ]),
    );
    let h = run(&printers(), &mut jobs, "p", &r, true);
    assert_eq!(ipp_code(&h), (0x0200, STATUS_OK, 3));
    match &h.follow_up {
        FollowUp::Print { job, copies, document_format } => {
            assert_eq!(job.id, 1);
            assert_eq!(job.owner, "alice");
            assert_eq!(job.created_secs(), 30);
            assert_eq!(*copies, 2);
            assert_eq!(document_format, "image/pwg-raster");
        }
        other => panic!("{other:?}"),
    }
    let j = jobs.get(1).unwrap();
    assert_eq!(j.state, JobState::Pending);
    assert_eq!(j.printer, "p");
}

#[test]
fn print_job_defaults() {
    let mut jobs = JobRegistry::new();
    let r = request(0x0200, OP_PRINT_JOB, 3, standard(vec![]));
    let h = run(&printers(), &mut jobs, "p", &r, true);
    match &h.follow_up {
        FollowUp::Print { job, copies, document_format } => {
            assert_eq!(job.owner, "anonymous");
            assert_eq!(*copies, 0);
            assert_eq!(document_format, "application/octet-stream");
        }
        other => panic!("{other:?}"),
    }
    // copies below one are raised to one
    let r = request(0x0200, OP_PRINT_JOB, 4, standard(vec![one(0x21, "copies", Value::Integer(-3))]));
    let h = run(&printers(), &mut jobs, "p", &r, true);
    match &h.follow_up {
        FollowUp::Print { copies, .. } => assert_eq!(*copies, 1),
        other => panic!("{other:?}"),
    }
}

#[test]
fn create_job_then_send_document() {
    let ps = printers();
    let mut jobs = JobRegistry::new();
    let r = request(0x0200, OP_CREATE_JOB, 3, standard(vec![]));
    let h = run(&ps, &mut jobs, "p", &r, false);
    assert_eq!(ipp_code(&h), (0x0200, STATUS_OK, 3));
    assert!(matches!(h.follow_up, FollowUp::Nothing));

    // Without last-document: bad request.
    let r = request(0x0200, OP_SEND_DOCUMENT, 4, standard(vec![one(0x21, "job-id", Value::Integer(1))]));
    let h = run(&ps, &mut jobs, "p", &r, true);
    assert_eq!(ipp_code(&h), (0x0200, STATUS_BAD_REQUEST, 4));

    // Unknown job.
    let r = request(
        0x0200,
        OP_SEND_DOCUMENT,
        5,
        standard(vec![
            one(0x21, "job-id", Value::Integer(9)),
            one(0x22, "last-document", Value::Boolean(true)),
        ]),
    );
    assert_eq!(http(&run(&ps, &mut jobs, "p", &r, true)), (404, s("job not found: 9")));

    // Missing job-id.
    let r = request(0x0200, OP_SEND_DOCUMENT, 5, standard(vec![one(0x22, "last-document", Value::Boolean(true))]));
    assert_eq!(http(&run(&ps, &mut jobs, "p", &r, true)), (400, s("Send-Document missing job-id")));

    // The real thing, addressed by job-uri.
    let r = request(
        0x0200,
        OP_SEND_DOCUMENT,
        6,
        standard(vec![
            one(0x45, "job-uri", Value::Uri(s("ipp://localhost:8631/ipp/print/p/job/1"))),
            one(0x22, "last-document", Value::Boolean(true)),
        ]),
    );
    let h = run(&ps, &mut jobs, "p", &r, true);
    assert_eq!(ipp_code(&h), (0x0200, STATUS_OK, 6));
    match &h.follow_up {
        FollowUp::Print { job, .. } => assert_eq!(job.id, 1),
        other => panic!("{other:?}"),
    }
    // No payload: nothing to print.
    let h = run(&ps, &mut jobs, "p", &r, false);
    assert!(matches!(h.follow_up, FollowUp::Nothing));
}

#[test]
fn get_jobs_defaults_to_uri_and_id() {
    let ps = printers();
    let mut jobs = JobRegistry::new();
    for user in ["alice", "bob"] {
        let r = request(0x0200, OP_CREATE_JOB, 3, standard(vec![one(0x42, "requesting-user-name", Value::Name(s(user)))]));
        run(&ps, &mut jobs, "p", &r, false);
    }
    let r = request(0x0200, OP_GET_JOBS, 7, standard(vec![]));
    let h = run(&ps, &mut jobs, "p", &r, false);
    assert_eq!(job_attr_names(&h), vec![vec![s("job-uri"), s("job-id")], vec![s("job-uri"), s("job-id")]]);

    // my-jobs scopes the listing to the requesting user.
    let r = request(
        0x0200,
        OP_GET_JOBS,
        8,
        standard(vec![
            one(0x22, "my-jobs", Value::Boolean(true)),
            one(0x42, "requesting-user-name", Value::Name(s("bob"))),
            one(0x44, "requested-attributes", Value::Keyword(s("job-originating-user-name"))),
        ]),
    );
    let h = run(&ps, &mut jobs, "p", &r, false);
    assert_eq!(job_attr_names(&h), vec![vec![s("job-originating-user-name")]]);

    // `all` returns everything.
    let r = request(0x0200, OP_GET_JOBS, 9, standard(vec![one(0x44, "requested-attributes", Value::Keyword(s("all")))]));
    let h = run(&ps, &mut jobs, "p", &r, false);
    let names = job_attr_names(&h);
    assert_eq!(names.len(), 2);
    assert!(names[0].len() > 2);
}

#[test]
fn get_job_attributes() {
    let ps = printers();
    let mut jobs = JobRegistry::new();
    run(&ps, &mut jobs, "p", &request(0x0200, OP_CREATE_JOB, 3, standard(vec![])), false);
    let r = request(0x0200, OP_GET_JOB_ATTRIBUTES, 4, standard(vec![]));
    assert_eq!(http(&run(&ps, &mut jobs, "p", &r, false)), (400, s("Get-Job-Attributes missing job-id")));
    let r = request(0x0200, OP_GET_JOB_ATTRIBUTES, 4, standard(vec![one(0x21, "job-id", Value::Integer(2))]));
    assert_eq!(http(&run(&ps, &mut jobs, "p", &r, false)), (404, s("job not found: 2")));
    let r = request(0x0200, OP_GET_JOB_ATTRIBUTES, 4, standard(vec![one(0x21, "job-id", Value::Integer(1))]));
    let h = run(&ps, &mut jobs, "p", &r, false);
    assert_eq!(ipp_code(&h), (0x0200, STATUS_OK, 4));
    assert!(job_attr_names(&h)[0].contains(&s("job-state")));
}

#[test]
fn cancel_job_statuses() {
    let ps = printers();
    let mut jobs = JobRegistry::new();
    run(&ps, &mut jobs, "p", &request(0x0200, OP_CREATE_JOB, 3, standard(vec![])), false);
    run(&ps, &mut jobs, "p", &request(0x0200, OP_CREATE_JOB, 3, standard(vec![])), false);
    jobs.set_state(2, JobState::Completed, 1);
    let cancel = |id: i32| request(0x0200, OP_CANCEL_JOB, 11, standard(vec![one(0x21, "job-id", Value::Integer(id))]));
    assert_eq!(ipp_code(&run(&ps, &mut jobs, "p", &cancel(1), false)).1, STATUS_OK);
    assert_eq!(jobs.get(1).unwrap().state, JobState::Canceled);
    assert_eq!(ipp_code(&run(&ps, &mut jobs, "p", &cancel(1), false)).1, STATUS_OK);
    assert_eq!(ipp_code(&run(&ps, &mut jobs, "p", &cancel(2), false)).1, STATUS_NOT_POSSIBLE);
    assert_eq!(ipp_code(&run(&ps, &mut jobs, "p", &cancel(7), false)).1, STATUS_NOT_FOUND);
    let r = request(0x0200, OP_CANCEL_JOB, 11, standard(vec![]));
    assert_eq!(http(&run(&ps, &mut jobs, "p", &r, false)), (400, s("Cancel-Job missing job-id")));
}

#[test]
fn close_job_and_cancel_my_jobs() {
    let ps = printers();
    let mut jobs = JobRegistry::new();
    run(&ps, &mut jobs, "p", &request(0x0200, OP_CREATE_JOB, 3, standard(vec![])), false);
    let close = |id: i32| request(0x0200, OP_CLOSE_JOB, 12, standard(vec![one(0x21, "job-id", Value::Integer(id))]));
    assert_eq!(ipp_code(&run(&ps, &mut jobs, "p", &close(1), false)).1, STATUS_OK);
    assert_eq!(ipp_code(&run(&ps, &mut jobs, "p", &close(5), false)).1, STATUS_NOT_FOUND);
    let r = request(0x0200, OP_CANCEL_MY_JOBS, 13, standard(vec![]));
    assert_eq!(ipp_code(&run(&ps, &mut jobs, "p", &r, false)).1, STATUS_OK);
    assert_eq!(jobs.get(1).unwrap().state, JobState::Canceled);
}

#[test]
fn identify_printer_hands_actions_over() {
    let mut jobs = JobRegistry::new();
    let r = request(0x0200, OP_IDENTIFY_PRINTER, 14, standard(vec![one(0x44, "identify-actions", Value::Keyword(s("sound")))]));
    let h = run(&printers(), &mut jobs, "p", &r, false);
    assert_eq!(ipp_code(&h), (0x0200, STATUS_OK, 14));
    match &h.follow_up {
        FollowUp::Identify { actions } => assert_eq!(actions, &vec![s("sound")]),
        other => panic!("{other:?}"),
    }
}

#[test]
fn unsupported_and_unknown_operations() {
    let mut jobs = JobRegistry::new();
    let r = request(0x0200, 0x000c, 15, standard(vec![]));
    assert_eq!(http(&run(&printers(), &mut jobs, "p", &r, false)), (400, s("unsupported IPP operation: HoldJob")));
    let r = request(0x0200, 0x0099, 15, standard(vec![]));
    assert_eq!(http(&run(&printers(), &mut jobs, "p", &r, false)), (400, s("unknown IPP operation")));
}
