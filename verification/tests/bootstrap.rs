use std::cell::RefCell;

use ipp_printer_app::device::{DeviceBackend, DiscoveredDevice, PollStatus};
use ipp_printer_app::printer::{PrinterConfig, PrinterRecord};
use ipp_printer_app::server::{
    add_discovered, bootstrap_records, has_device, index_html, records_from_configs,
};

fn config(name: &str, uri: &str) -> PrinterConfig {
    PrinterConfig {
        name: name.to_string(),
        display_name: String::new(),
        driver_name: "drv".to_string(),
        make_and_model: "Acme".to_string(),
        device_id: String::new(),
        device_uri: uri.to_string(),
        dpi: 203,
        printhead_width_dots: 384,
        media_names: vec![],
        media_sizes: vec![],
        darkness: 50,
        document_formats: vec![],
    }
}

struct Backend;

impl DeviceBackend for Backend {
    fn list(&self) -> Vec<DiscoveredDevice> {
        vec![
            DiscoveredDevice { info: "Old One".to_string(), uri: "mock://old".to_string(), device_id: "ID0".to_string() },
            DiscoveredDevice { info: "Acme LW 450".to_string(), uri: "mock://a".to_string(), device_id: "ID1".to_string() },
            DiscoveredDevice { info: String::new(), uri: "other://x".to_string(), device_id: "ID2".to_string() },
            DiscoveredDevice { info: "Refused".to_string(), uri: "mock://r".to_string(), device_id: "ID3".to_string() },
            DiscoveredDevice { info: "Again".to_string(), uri: "mock://a".to_string(), device_id: "ID4".to_string() },
        ]
    }

    fn driver_for_device(&self, _device_id: &str, device_uri: &str) -> Option<String> {
        if device_uri.starts_with("mock://") {
            Some("mockdrv".to_string())
        } else {
            None
        }
    }

    fn poll_status(&self, _config: &PrinterConfig) -> Option<PollStatus> {
        None
    }
}

#[test]
fn bootstrap_keeps_persisted_and_adds_new_devices() {
    let calls: RefCell<Vec<(String, String, String, String, String)>> = RefCell::new(Vec::new());
    let make = |name: &str, info: &str, driver: &str, uri: &str, id: &str| {
        calls.borrow_mut().push((name.into(), info.into(), driver.into(), uri.into(), id.into()));
        if info == "Refused" {
            None
        } else {
            let mut c = config(name, uri);
            c.display_name = info.to_string();
            c.driver_name = driver.to_string();
            Some(c)
        }
    };
    let records = bootstrap_records(vec![config("old", "mock://old")], &Backend, &make);
    let names: Vec<&str> = records.iter().map(|r| r.config.name.as_str()).collect();
    assert_eq!(names, vec!["old", "acme_lw_450"]);
    assert_eq!(records[1].config.driver_name, "mockdrv");
    assert_eq!(records[1].config.display_name, "Acme LW 450");
    // make_config is asked only for devices with a driver that no record serves yet.
    let asked: Vec<String> = calls.borrow().iter().map(|c| c.3.clone()).collect();
    assert_eq!(asked, vec!["mock://a", "mock://r"]);
    assert_eq!(calls.borrow()[0].4, "ID1");
    assert_ne!(records[0].uuid, records[1].uuid);
}

#[test]
fn persisted_configs_become_fresh_records() {
    let recs = records_from_configs(vec![config("a", "u1"), config("b", "u2")]);
    assert_eq!(recs.len(), 2);
    assert_eq!(recs[0].config.name, "a");
    assert_eq!(recs[1].config.name, "b");
    assert!(has_device(&recs, "u2"));
    assert!(!has_device(&recs, "u3"));
}

#[test]
fn status_page_lists_printers() {
    let mut c = config("lbl", "mock://a");
    c.display_name = "Front Desk".to_string();
    let recs = vec![PrinterRecord::new(c)];
    let html = index_html(&recs, "0.0.0.0", 8631);
    assert_eq!(
        html,
        "<!DOCTYPE html><html><head><title>ipp-printer-app</title></head><body><h1>ipp-printer-app</h1><ul>\
         <li><b>Front Desk</b> (<code>lbl</code>) \u{2014} <code>ipp://localhost:8631/ipp/print/lbl</code> \u{2014} device <code>mock://a</code></li>\
         </ul><p>Register with CUPS: <code>lpadmin -p NAME -E -v ipp://localhost:8631/ipp/print/NAME -m everywhere</code></p></body></html>"
    );
    let empty = index_html(&Vec::new(), "10.0.0.2", 631);
    assert!(empty.ends_with("ipp://10.0.0.2:631/ipp/print/NAME -m everywhere</code></p></body></html>"));
}

fn device(info: &str, uri: &str, id: &str) -> DiscoveredDevice {
    DiscoveredDevice { info: info.to_string(), uri: uri.to_string(), device_id: id.to_string() }
}

#[test]
fn discovered_devices_merge_in_order() {
    let devices = vec![
        device("Served", "usb://kept", "A"),
        device("No Driver", "usb://nd", "B"),
        device("Label Maker", "usb://lm", "C"),
        device("Declined", "usb://dec", "D"),
        device("Label Maker Again", "usb://lm", "E"),
        device("Second", "usb://two", "F"),
    ];
    let drivers = vec![
        Some("d0".to_string()),
        None,
        Some("d2".to_string()),
        Some("d3".to_string()),
        Some("d4".to_string()),
        Some("d5".to_string()),
    ];
    let calls: RefCell<Vec<(String, String, String, String, String)>> = RefCell::new(Vec::new());
    let make = |name: &str, info: &str, driver: &str, uri: &str, id: &str| {
        calls.borrow_mut().push((name.into(), info.into(), driver.into(), uri.into(), id.into()));
        if uri == "usb://dec" {
            None
        } else {
            let mut c = config(name, uri);
            c.driver_name = driver.to_string();
            Some(c)
        }
    };
    let start = records_from_configs(vec![config("kept", "usb://kept")]);
    let merged = add_discovered(start, &devices, &drivers, &make);
    let uris: Vec<&str> = merged.iter().map(|r| r.config.device_uri.as_str()).collect();
    assert_eq!(uris, vec!["usb://kept", "usb://lm", "usb://two"]);
    assert_eq!(merged[1].config.driver_name, "d2");
    assert_eq!(merged[2].config.driver_name, "d5");
    let asked: Vec<(String, String)> = calls.borrow().iter().map(|c| (c.3.clone(), c.4.clone())).collect();
    assert_eq!(
        asked,
        vec![
            ("usb://lm".to_string(), "C".to_string()),
            ("usb://dec".to_string(), "D".to_string()),
            ("usb://two".to_string(), "F".to_string()),
        ]
    );
    assert_eq!(calls.borrow()[0].1, "Label Maker");
    assert_eq!(calls.borrow()[0].2, "d2");
}

#[test]
fn nothing_discovered_keeps_records() {
    let make = |_: &str, _: &str, _: &str, _: &str, _: &str| -> Option<PrinterConfig> { None };
    let start = records_from_configs(vec![config("a", "u1")]);
    let merged = add_discovered(start, &vec![], &vec![], &make);
    assert_eq!(merged.len(), 1);
    assert_eq!(merged[0].config.name, "a");
}
