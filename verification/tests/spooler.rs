use ipp_printer_app::flags::PrinterReason;
use ipp_printer_app::job::{JobRegistry, JobState};
use ipp_printer_app::printer::{IppPrinterState, PrinterConfig, PrinterRecord};
use ipp_printer_app::raster::{JobFailure, JobOutcome};
use ipp_printer_app::server::{
    initial_backoff_ms, next_backoff_ms, record_cancel, record_outcome, start_job_processing,
    BACKOFF_MAX_MS,
};

fn config(name: &str) -> PrinterConfig {
    PrinterConfig {
        name: name.to_string(),
        display_name: String::new(),
        driver_name: "test".to_string(),
        make_and_model: "Test".to_string(),
        device_id: String::new(),
        device_uri: "mock://x".to_string(),
        dpi: 203,
        printhead_width_dots: 384,
        media_names: vec![],
        media_sizes: vec![],
        darkness: 50,
        document_formats: vec![],
    }
}

/// Drive one job through the spooler's decisions with scripted outcomes,
/// the way the print worker does. Returns the number of attempts made.
fn drive(
    printers: &mut Vec<PrinterRecord>,
    jobs: &mut JobRegistry,
    id: u32,
    mut outcome: impl FnMut(usize) -> JobOutcome,
    cancel_after: Option<usize>,
) -> usize {
    start_job_processing(printers, jobs, "p", id, 1);
    assert_eq!(printers[0].state, IppPrinterState::Processing);
    let mut attempts = 0;
    let mut backoff = initial_backoff_ms(Some(5));
    loop {
        if cancel_after == Some(attempts) {
            jobs.cancel(id, 2);
            break;
        }
        let o = outcome(attempts);
        attempts += 1;
        let retry = record_outcome(printers, jobs, "p", id, o, false, 3);
        if !retry {
            break;
        }
        assert_eq!(jobs.get(id).unwrap().state, JobState::ProcessingStopped);
        assert_eq!(printers[0].state, IppPrinterState::Processing);
        backoff = next_backoff_ms(backoff);
        assert!(backoff <= BACKOFF_MAX_MS);
        assert!(attempts < 100);
    }
    if jobs.get(id).unwrap().state == JobState::Canceled {
        record_cancel(printers, jobs, "p", id, 4);
    }
    attempts
}

#[test]
fn device_unavailable_holds_and_retries_until_it_prints() {
    let mut printers = vec![PrinterRecord::new(config("p"))];
    let mut jobs = JobRegistry::new();
    let id = jobs.create("p".to_string(), "tester".to_string(), 0).unwrap().id;
    let attempts = drive(
        &mut printers,
        &mut jobs,
        id,
        |n| {
            if n < 2 {
                JobOutcome::DeviceUnavailable { reasons: PrinterReason::offline() }
            } else {
                JobOutcome::Completed
            }
        },
        None,
    );
    assert_eq!(
        jobs.get(id).unwrap().state,
        JobState::Completed,
        "a held job must eventually print, not abort"
    );
    assert!(attempts >= 3, "the framework should have retried the held job");
    assert_eq!(printers[0].state, IppPrinterState::Idle);
    assert!(printers[0].reasons.is_empty());
}

#[test]
fn failed_outcome_aborts_without_retry() {
    let mut printers = vec![PrinterRecord::new(config("p"))];
    let mut jobs = JobRegistry::new();
    let id = jobs.create("p".to_string(), "tester".to_string(), 0).unwrap().id;
    let attempts = drive(
        &mut printers,
        &mut jobs,
        id,
        |_| JobOutcome::Failed(JobFailure::other("unsupported document")),
        None,
    );
    assert_eq!(attempts, 1, "a Failed outcome must not be retried");
    let j = jobs.get(id).unwrap();
    assert_eq!(j.state, JobState::Aborted);
    assert_eq!(j.message, "unsupported document");
    assert_eq!(printers[0].reasons, PrinterReason::other());
    assert_eq!(printers[0].state, IppPrinterState::Idle);
}

#[test]
fn canceling_a_held_job_stops_the_retries() {
    let mut printers = vec![PrinterRecord::new(config("p"))];
    let mut jobs = JobRegistry::new();
    let id = jobs.create("p".to_string(), "tester".to_string(), 0).unwrap().id;
    let attempts = drive(
        &mut printers,
        &mut jobs,
        id,
        |_| JobOutcome::DeviceUnavailable { reasons: PrinterReason::media_jam() },
        Some(3),
    );
    assert_eq!(attempts, 3);
    assert_eq!(jobs.get(id).unwrap().state, JobState::Canceled);
    assert_eq!(printers[0].state, IppPrinterState::Idle);
    assert!(printers[0].reasons.is_empty());
}

#[test]
fn completion_does_not_overwrite_a_cancel() {
    let mut printers = vec![PrinterRecord::new(config("p"))];
    let mut jobs = JobRegistry::new();
    let id = jobs.create("p".to_string(), "tester".to_string(), 0).unwrap().id;
    start_job_processing(&mut printers, &mut jobs, "p", id, 1);
    jobs.cancel(id, 2);
    let retry = record_outcome(&mut printers, &mut jobs, "p", id, JobOutcome::Completed, true, 3);
    assert!(!retry);
    assert_eq!(jobs.get(id).unwrap().state, JobState::Canceled);
}

#[test]
fn backoff_doubles_up_to_the_cap() {
    assert_eq!(initial_backoff_ms(None), 2_000);
    assert_eq!(initial_backoff_ms(Some(5)), 5);
    assert_eq!(initial_backoff_ms(Some(99_999)), 30_000);
    assert_eq!(next_backoff_ms(2_000), 4_000);
    assert_eq!(next_backoff_ms(16_000), 30_000);
    assert_eq!(next_backoff_ms(30_000), 30_000);
    assert_eq!(next_backoff_ms(u64::MAX), 30_000);
}
