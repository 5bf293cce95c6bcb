use ipp_printer_app::flags::PrinterReason;
use ipp_printer_app::job::{JobRegistry, JobState};

#[test]
fn job_ids_start_at_one_and_increase() {
    let mut reg = JobRegistry::new();
    let a = reg.create("p".to_string(), "alice".to_string(), 5).unwrap();
    let b = reg.create("p".to_string(), "bob".to_string(), 6).unwrap();
    let c = reg.create("q".to_string(), "alice".to_string(), 7).unwrap();
    assert_eq!((a.id, b.id, c.id), (1, 2, 3));
    assert_eq!(a.state, JobState::Pending);
    assert_eq!(a.owner, "alice");
    assert_eq!(a.printer, "p");
    assert_eq!(a.created_secs(), 5);
    assert_eq!(a.completed_secs(), None);
}

#[test]
fn created_job_reads_back() {
    let mut reg = JobRegistry::new();
    let a = reg.create("p".to_string(), "alice".to_string(), 5).unwrap();
    let got = reg.get(a.id).unwrap();
    assert_eq!(got.id, a.id);
    assert_eq!(got.state, JobState::Pending);
    assert!(reg.get(99).is_none());
}

#[test]
fn cancel_pending_job_then_again() {
    let mut reg = JobRegistry::new();
    let a = reg.create("p".to_string(), "alice".to_string(), 5).unwrap();
    assert_eq!(reg.cancel(a.id, 9), Some(JobState::Canceled));
    let got = reg.get(a.id).unwrap();
    assert_eq!(got.state, JobState::Canceled);
    assert_eq!(got.completed_secs(), Some(9));
    // Canceling again reports the unchanged final state.
    assert_eq!(reg.cancel(a.id, 12), Some(JobState::Canceled));
    assert_eq!(reg.get(a.id).unwrap().completed_secs(), Some(9));
}

#[test]
fn cancel_finished_job_reports_its_state() {
    let mut reg = JobRegistry::new();
    let a = reg.create("p".to_string(), "alice".to_string(), 5).unwrap();
    reg.set_state(a.id, JobState::Completed, 8);
    assert_eq!(reg.cancel(a.id, 9), Some(JobState::Completed));
    assert_eq!(reg.get(a.id).unwrap().state, JobState::Completed);
    assert_eq!(reg.cancel(42, 9), None);
}

#[test]
fn failure_aborts_with_message() {
    let mut reg = JobRegistry::new();
    let a = reg.create("p".to_string(), "alice".to_string(), 5).unwrap();
    reg.set_failure(a.id, PrinterReason::media_jam(), "jammed".to_string(), 7);
    let got = reg.get(a.id).unwrap();
    assert_eq!(got.state, JobState::Aborted);
    assert_eq!(got.message, "jammed");
    assert_eq!(got.reasons, PrinterReason::media_jam());
    assert_eq!(got.completed_secs(), Some(7));
}

#[test]
fn cancel_printer_jobs_leaves_finished_and_other_printers() {
    let mut reg = JobRegistry::new();
    let a = reg.create("p".to_string(), "alice".to_string(), 1).unwrap();
    let b = reg.create("p".to_string(), "bob".to_string(), 2).unwrap();
    let c = reg.create("q".to_string(), "carol".to_string(), 3).unwrap();
    reg.set_state(b.id, JobState::Completed, 4);
    reg.cancel_printer_jobs("p", 5);
    assert_eq!(reg.get(a.id).unwrap().state, JobState::Canceled);
    assert_eq!(reg.get(b.id).unwrap().state, JobState::Completed);
    assert_eq!(reg.get(c.id).unwrap().state, JobState::Pending);
}

#[test]
fn jobs_for_printer_in_id_order() {
    let mut reg = JobRegistry::new();
    reg.create("p".to_string(), "a".to_string(), 1).unwrap();
    reg.create("q".to_string(), "b".to_string(), 1).unwrap();
    reg.create("p".to_string(), "c".to_string(), 1).unwrap();
    let ids: Vec<u32> = reg.jobs_for_printer("p").iter().map(|j| j.id).collect();
    assert_eq!(ids, vec![1, 3]);
    assert!(reg.jobs_for_printer("zzz").is_empty());
}

#[test]
fn job_state_codes() {
    assert_eq!(JobState::Pending.code(), 3);
    assert_eq!(JobState::ProcessingStopped.code(), 6);
    assert_eq!(JobState::Completed.code(), 9);
    assert!(JobState::Aborted.is_terminal());
    assert!(!JobState::Processing.is_terminal());
}

#[test]
fn canceled_among_lists_the_canceled_jobs_in_order() {
    let mut reg = JobRegistry::new();
    let a = reg.create("p".to_string(), "u".to_string(), 1).unwrap().id;
    let b = reg.create("p".to_string(), "u".to_string(), 2).unwrap().id;
    let c = reg.create("p".to_string(), "u".to_string(), 3).unwrap().id;
    reg.cancel(c, 4);
    reg.cancel(a, 5);
    assert_eq!(reg.canceled_among(&vec![c, b, a, 99]), vec![c, a]);
    assert!(reg.canceled_among(&vec![b]).is_empty());
    assert!(reg.canceled_among(&vec![]).is_empty());
}
