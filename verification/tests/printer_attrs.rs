use ipp_printer_app::attributes::{
    build_get_jobs_response, build_job_attrs_response, get_printer_attributes,
    job_state_reason_keywords, print_job_accepted, set_printer_idle, set_printer_processing,
    validate_job,
};
use ipp_printer_app::device::ReadyMedia;
use ipp_printer_app::flags::PrinterReason;
use ipp_printer_app::job::{JobRegistry, JobState};
use ipp_printer_app::message::{AttrValue, Attribute, GroupTag, IppMessage, Value};
use ipp_printer_app::printer::{IppPrinterState, PrinterConfig, PrinterHandle, PrinterRecord};

fn config(name: &str) -> PrinterConfig {
    PrinterConfig {
        name: name.to_string(),
        display_name: String::new(),
        driver_name: "drv".to_string(),
        make_and_model: "Acme Label 1".to_string(),
        device_id: "MFG:Acme;MDL:Label 1;".to_string(),
        device_uri: "mock://x".to_string(),
        dpi: 203,
        printhead_width_dots: 384,
        media_names: vec!["oe_40x30mm_40x30mm".to_string()],
        media_sizes: vec![[4000, 3000]],
        darkness: 50,
        document_formats: vec![],
    }
}

fn group<'a>(m: &'a IppMessage, tag: GroupTag) -> Vec<&'a Attribute> {
    m.groups
        .iter()
        .filter(|g| g.tag == tag)
        .flat_map(|g| g.attributes.iter())
        .collect()
}

fn find<'a>(attrs: &[&'a Attribute], name: &str) -> Option<&'a AttrValue> {
    attrs.iter().find(|a| a.name == name).map(|a| &a.value)
}

fn text_of(v: &AttrValue) -> String {
    match v {
        AttrValue::One(Value::Text(s))
        | AttrValue::One(Value::Name(s))
        | AttrValue::One(Value::Uri(s))
        | AttrValue::One(Value::Keyword(s))
        | AttrValue::One(Value::MimeMediaType(s)) => s.clone(),
        other => panic!("not a string value: {other:?}"),
    }
}

fn strings_of(v: &AttrValue) -> Vec<String> {
    match v {
        AttrValue::Many(vs) => vs
            .iter()
            .map(|x| match x {
                Value::Keyword(s)
                | Value::MimeMediaType(s)
                | Value::Uri(s)
                | Value::OctetString(s)
                | Value::Text(s) => s.clone(),
                other => panic!("not a string value: {other:?}"),
            })
            .collect(),
        AttrValue::One(_) => vec![text_of(v)],
    }
}

fn int_of(v: &AttrValue) -> i32 {
    match v {
        AttrValue::One(Value::Integer(n)) | AttrValue::One(Value::Enum(n)) => *n,
        other => panic!("not an integer: {other:?}"),
    }
}

#[test]
fn printer_uri_and_label() {
    let mut c = config("lbl");
    assert_eq!(c.printer_uri("0.0.0.0", 8631), "ipp://localhost:8631/ipp/print/lbl");
    assert_eq!(c.printer_uri("::", 631), "ipp://localhost:631/ipp/print/lbl");
    assert_eq!(c.printer_uri("", 1), "ipp://localhost:1/ipp/print/lbl");
    assert_eq!(c.printer_uri("192.168.1.5", 8631), "ipp://192.168.1.5:8631/ipp/print/lbl");
    assert_eq!(c.display_label(), "Acme Label 1");
    c.display_name = "Front desk".to_string();
    assert_eq!(c.display_label(), "Front desk");
    c.display_name.clear();
    c.make_and_model.clear();
    assert_eq!(c.display_label(), "lbl");
}

#[test]
fn new_record_has_a_random_v4_uuid() {
    let a = PrinterRecord::new(config("p"));
    let b = PrinterRecord::new(config("p"));
    assert_eq!(a.uuid.len(), 36);
    assert_eq!(a.uuid.as_bytes()[14], b'4');
    assert!(a.uuid.chars().enumerate().all(|(i, ch)| if [8, 13, 18, 23].contains(&i) {
        ch == '-'
    } else {
        ch.is_ascii_hexdigit() && !ch.is_ascii_uppercase()
    }));
    assert_ne!(a.uuid, b.uuid);
    assert_eq!(a.state, IppPrinterState::Idle);
    assert!(a.reasons.is_empty());
    assert!(a.ready_media.is_none() && a.supply_percent.is_none());
}

#[test]
fn handle_exposes_config() {
    let rec = PrinterRecord::new(config("p"));
    let h = PrinterHandle { record: &rec };
    assert_eq!(h.driver_name(), "drv");
    assert_eq!(h.darkness(), 50);
    assert_eq!(h.printhead_width_dots(), 384);
}

#[test]
fn full_printer_attributes() {
    let rec = PrinterRecord::new(config("p"));
    let r = get_printer_attributes(0x0200, 7, &rec, "0.0.0.0", 8631, None, 0, 0);
    assert_eq!((r.version, r.code, r.request_id), (0x0200, 0, 7));
    let op = group(&r, GroupTag::Operation);
    assert_eq!(op[0].name, "attributes-charset");
    assert_eq!(op[1].name, "attributes-natural-language");
    let p = group(&r, GroupTag::Printer);
    assert_eq!(
        strings_of(find(&p, "printer-uri-supported").unwrap()),
        vec!["ipp://localhost:8631/ipp/print/p"]
    );
    assert_eq!(text_of(find(&p, "printer-name").unwrap()), "p");
    assert_eq!(text_of(find(&p, "printer-info").unwrap()), "Acme Label 1");
    // printer-up-time is floored at 1.
    assert_eq!(int_of(find(&p, "printer-up-time").unwrap()), 1);
    assert_eq!(int_of(find(&p, "printer-state").unwrap()), 3);
    assert_eq!(strings_of(find(&p, "printer-state-reasons").unwrap()), vec!["none"]);
    assert_eq!(
        strings_of(find(&p, "document-format-supported").unwrap()),
        vec!["image/pwg-raster", "application/vnd.cups-raster", "application/octet-stream"]
    );
    assert!(find(&p, "media-ready").is_some());
    let uuid = text_of(find(&p, "printer-uuid").unwrap());
    assert_eq!(uuid, format!("urn:uuid:{}", rec.uuid));
}

#[test]
fn document_formats_from_config() {
    let mut c = config("p");
    c.document_formats = vec!["image/jpeg".to_string(), "image/pwg-raster".to_string()];
    let rec = PrinterRecord::new(c);
    let r = get_printer_attributes(0x0101, 1, &rec, "h", 1, None, 10, 0);
    let p = group(&r, GroupTag::Printer);
    assert_eq!(
        strings_of(find(&p, "document-format-supported").unwrap()),
        vec!["image/jpeg", "image/pwg-raster"]
    );
    assert_eq!(int_of(find(&p, "printer-up-time").unwrap()), 10);
}

#[test]
fn live_media_and_supply() {
    let mut rec = PrinterRecord::new(config("p"));
    rec.ready_media = Some(ReadyMedia {
        name: "oe_50x30mm_50x30mm".to_string(),
        size_hmm: [5000, 3000],
        media_type: "labels".to_string(),
    });
    rec.supply_percent = Some(42);
    let r = get_printer_attributes(0x0200, 1, &rec, "h", 1, None, 1, 0);
    let p = group(&r, GroupTag::Printer);
    assert_eq!(strings_of(find(&p, "media-ready").unwrap()), vec!["oe_50x30mm_50x30mm"]);
    let supply = strings_of(find(&p, "printer-supply").unwrap());
    assert_eq!(
        supply,
        vec!["index=1;class=supplyThatIsConsumed;type=stoppingMaterial;unit=percent;maxcapacity=100;level=42;colorantname=unknown;"]
    );
}

#[test]
fn requested_attributes_filter() {
    let rec = PrinterRecord::new(config("p"));
    let names = vec!["printer-name".to_string(), "printer-state".to_string(), "nonsense".to_string()];
    let r = get_printer_attributes(0x0200, 1, &rec, "h", 1, Some(&names), 1, 0);
    let p = group(&r, GroupTag::Printer);
    let got: Vec<&str> = p.iter().map(|a| a.name.as_str()).collect();
    assert_eq!(got, vec!["printer-name", "printer-state"]);

    let all = vec!["all".to_string()];
    let full = get_printer_attributes(0x0200, 1, &rec, "h", 1, None, 1, 0);
    let r = get_printer_attributes(0x0200, 1, &rec, "h", 1, Some(&all), 1, 0);
    assert_eq!(group(&r, GroupTag::Printer).len(), group(&full, GroupTag::Printer).len());
    let empty: Vec<String> = vec![];
    let r = get_printer_attributes(0x0200, 1, &rec, "h", 1, Some(&empty), 1, 0);
    assert_eq!(group(&r, GroupTag::Printer).len(), group(&full, GroupTag::Printer).len());
}

#[test]
fn validate_job_is_full_surface() {
    let rec = PrinterRecord::new(config("p"));
    let v = validate_job(0x0200, 3, &rec, "h", 1, 5, 0);
    let full = get_printer_attributes(0x0200, 3, &rec, "h", 1, None, 5, 0);
    assert_eq!(group(&v, GroupTag::Printer).len(), group(&full, GroupTag::Printer).len());
    assert_eq!(v.request_id, 3);
}

#[test]
fn processing_and_idle() {
    let mut rec = PrinterRecord::new(config("p"));
    set_printer_processing(&mut rec);
    assert_eq!(rec.state, IppPrinterState::Processing);
    assert_eq!(IppPrinterState::Processing.code(), 4);
    set_printer_idle(&mut rec);
    assert_eq!(rec.state, IppPrinterState::Idle);
    assert_eq!(IppPrinterState::Stopped.code(), 5);
}

#[test]
fn job_responses() {
    let mut reg = JobRegistry::new();
    let job = reg.create("p".to_string(), "alice".to_string(), 4).unwrap();
    let purl = "ipp://localhost:8631/ipp/print/p";
    let acc = print_job_accepted(0x0200, 9, &job, purl);
    let j = group(&acc, GroupTag::Job);
    assert_eq!(text_of(find(&j, "job-uri").unwrap()), "ipp://localhost:8631/ipp/print/p/job/1");
    assert_eq!(int_of(find(&j, "job-id").unwrap()), 1);
    assert_eq!(int_of(find(&j, "job-state").unwrap()), 3);

    let full = build_job_attrs_response(0x0200, 9, &job, purl, None, 12);
    let j = group(&full, GroupTag::Job);
    assert_eq!(text_of(find(&j, "job-name").unwrap()), "job-1");
    assert_eq!(text_of(find(&j, "job-originating-user-name").unwrap()), "alice");
    assert_eq!(int_of(find(&j, "time-at-creation").unwrap()), 4);
    assert_eq!(int_of(find(&j, "job-printer-up-time").unwrap()), 12);
    assert!(find(&j, "time-at-completed").is_none());

    let only = vec!["job-id".to_string()];
    let f = build_job_attrs_response(0x0200, 9, &job, purl, Some(&only), 12);
    let names: Vec<String> = group(&f, GroupTag::Job).iter().map(|a| a.name.clone()).collect();
    assert_eq!(names, vec!["job-id"]);

    let second = reg.create("p".to_string(), "bob".to_string(), 5).unwrap();
    let list = vec![job.clone(), second];
    let filter = vec!["job-uri".to_string(), "job-id".to_string()];
    let gj = build_get_jobs_response(0x0200, 9, &list, purl, Some(&filter), 12);
    let job_groups: Vec<_> = gj.groups.iter().filter(|g| g.tag == GroupTag::Job).collect();
    assert_eq!(job_groups.len(), 2);
    assert_eq!(job_groups[1].attributes.len(), 2);
}

#[test]
fn job_state_reasons_follow_state() {
    let mut reg = JobRegistry::new();
    let job = reg.create("p".to_string(), "a".to_string(), 1).unwrap();
    assert_eq!(job_state_reason_keywords(&job), vec!["none"]);
    reg.set_state(job.id, JobState::Completed, 2);
    assert_eq!(job_state_reason_keywords(&reg.get(job.id).unwrap()), vec!["job-completed-successfully"]);
    reg.set_failure(job.id, PrinterReason::media_jam(), "jam".to_string(), 3);
    let kws = job_state_reason_keywords(&reg.get(job.id).unwrap());
    assert!(kws.contains(&"aborted-by-system"), "{kws:?}");
}

#[test]
fn validate_job_differs_from_full_get_only_in_clock_values() {
    let rec = PrinterRecord::new(config("p"));
    let v = validate_job(0x0200, 3, &rec, "h", 1, 5, 0);
    let full = get_printer_attributes(0x0200, 3, &rec, "h", 1, None, 900, 1_700_000_000);
    let clock = [
        "printer-up-time",
        "printer-config-change-time",
        "printer-config-change-date-time",
        "printer-state-change-time",
        "printer-state-change-date-time",
    ];
    let (a, b) = (group(&v, GroupTag::Printer), group(&full, GroupTag::Printer));
    assert_eq!(a.len(), b.len());
    let mut differing = 0;
    for (x, y) in a.iter().zip(b.iter()) {
        assert_eq!(x.name, y.name);
        let same = format!("{:?}", x.value) == format!("{:?}", y.value);
        if !clock.contains(&x.name.as_str()) {
            assert!(same, "{} differs", x.name);
        } else if !same {
            differing += 1;
        }
    }
    assert_eq!(differing, clock.len());
    let again = get_printer_attributes(0x0200, 3, &rec, "h", 1, None, 5, 0);
    assert_eq!(format!("{:?}", v), format!("{:?}", again));
}
