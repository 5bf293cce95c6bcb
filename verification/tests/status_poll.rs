use std::collections::HashSet;

use ipp_printer_app::device::{PollStatus, ReadyMedia};
use ipp_printer_app::flags::PrinterReason;
use ipp_printer_app::printer::{find_printer, IppPrinterState, PrinterConfig, PrinterRecord};
use ipp_printer_app::status::{
    advert_action, apply_poll_status, poll_interval_secs, poll_targets, record_poll, should_poll,
    AdvertAction,
};

fn config(name: &str) -> PrinterConfig {
    PrinterConfig {
        name: name.to_string(),
        display_name: String::new(),
        driver_name: "t".to_string(),
        make_and_model: "Test".to_string(),
        device_id: String::new(),
        device_uri: "mock://x".to_string(),
        dpi: 203,
        printhead_width_dots: 384,
        media_names: vec![],
        media_sizes: vec![],
        darkness: 50,
        document_formats: vec![],
    }
}

/// One polling round the way the server runs it, against a set of
/// advertised printer names.
fn poll_once(records: &mut Vec<PrinterRecord>, reasons: PrinterReason, advertised: &mut HashSet<String>) {
    for cfg in poll_targets(records) {
        let status = PollStatus::from_reasons(reasons);
        let reachable = record_poll(records, &cfg.name, status);
        match advert_action(reachable, advertised.contains(&cfg.name)) {
            AdvertAction::Publish => {
                if find_printer(records, &cfg.name).is_some() {
                    advertised.insert(cfg.name.clone());
                }
            }
            AdvertAction::Withdraw => {
                advertised.remove(&cfg.name);
            }
            AdvertAction::Keep => {}
        }
    }
}

#[test]
fn offline_stops_and_withdraws_then_recovery_republishes() {
    let mut records = vec![PrinterRecord::new(config("p"))];
    let mut advertised: HashSet<String> = ["p".to_string()].into_iter().collect();
    poll_once(&mut records, PrinterReason::offline(), &mut advertised);
    assert_eq!(records[0].state, IppPrinterState::Stopped);
    assert!(!advertised.contains("p"), "offline printer must be withdrawn");
    poll_once(&mut records, PrinterReason::empty(), &mut advertised);
    assert_eq!(records[0].state, IppPrinterState::Idle);
    assert!(advertised.contains("p"), "recovered printer must be republished");
}

#[test]
fn reconcile_republishes_without_a_state_edge() {
    let mut records = vec![PrinterRecord::new(config("p"))];
    let mut advertised = HashSet::new();
    poll_once(&mut records, PrinterReason::empty(), &mut advertised);
    assert!(advertised.contains("p"), "reconcile must restore the advert with no state transition");
}

#[test]
fn processing_printers_are_not_polled() {
    let mut busy = PrinterRecord::new(config("busy"));
    busy.state = IppPrinterState::Processing;
    let mut stopped = PrinterRecord::new(config("stopped"));
    stopped.state = IppPrinterState::Stopped;
    let records = vec![PrinterRecord::new(config("idle")), busy, stopped];
    let names: Vec<String> = poll_targets(&records).into_iter().map(|c| c.name).collect();
    assert_eq!(names, vec!["idle", "stopped"]);
    assert!(!should_poll(IppPrinterState::Processing));
}

#[test]
fn poll_carries_media_and_supply_forward() {
    let mut rec = PrinterRecord::new(config("p"));
    let media = ReadyMedia { name: "m".to_string(), size_hmm: [1, 2], media_type: "labels".to_string() };
    let reachable = apply_poll_status(
        &mut rec,
        PollStatus { reasons: PrinterReason::media_low(), ready_media: Some(media), supply_percent: Some(7) },
    );
    assert!(reachable);
    assert_eq!(rec.reasons, PrinterReason::media_low());
    assert_eq!(rec.supply_percent, Some(7));
    let reachable = apply_poll_status(&mut rec, PollStatus::default());
    assert!(reachable);
    assert!(rec.reasons.is_empty());
    assert_eq!(rec.ready_media.as_ref().unwrap().name, "m");
    assert_eq!(rec.supply_percent, Some(7));
}

#[test]
fn poll_of_a_removed_printer_changes_nothing() {
    let mut records = vec![PrinterRecord::new(config("p"))];
    let reachable = record_poll(&mut records, "gone", PollStatus::from_reasons(PrinterReason::offline()));
    assert!(!reachable);
    assert_eq!(records[0].state, IppPrinterState::Idle);
}

#[test]
fn advert_decisions() {
    assert_eq!(advert_action(true, false), AdvertAction::Publish);
    assert_eq!(advert_action(false, true), AdvertAction::Withdraw);
    assert_eq!(advert_action(true, true), AdvertAction::Keep);
    assert_eq!(advert_action(false, false), AdvertAction::Keep);
    assert_eq!(poll_interval_secs(None), 30);
    assert_eq!(poll_interval_secs(Some(5)), 5);
}
