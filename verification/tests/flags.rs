use ipp_printer_app::flags::PrinterReason;

#[test]
fn empty_set_is_none() {
    assert_eq!(PrinterReason::empty().ipp_keywords(), vec!["none"]);
}

#[test]
fn single_flag_surfaces() {
    assert_eq!(PrinterReason::cover_open().ipp_keywords(), vec!["cover-open"]);
}

#[test]
fn multi_flag_surfaces_all() {
    let r = PrinterReason::cover_open() | PrinterReason::media_empty();
    let kws = r.ipp_keywords();
    assert!(kws.contains(&"cover-open"));
    assert!(kws.contains(&"media-empty"));
    assert!(!kws.contains(&"none"));
}

#[test]
fn keywords_follow_cups_order() {
    let r = PrinterReason::identify_printer_requested()
        | PrinterReason::door_open()
        | PrinterReason::other()
        | PrinterReason::offline();
    assert_eq!(
        r.ipp_keywords(),
        vec!["other", "door-open", "offline-report", "identify-printer-requested"]
    );
}

#[test]
fn unknown_bits_report_no_keyword() {
    assert_eq!(PrinterReason::from_bits_retain(0x2_0000).ipp_keywords(), Vec::<&str>::new());
}

#[test]
fn contains_and_union() {
    let r = PrinterReason::media_jam().union(PrinterReason::toner_low());
    assert!(r.contains(PrinterReason::media_jam()));
    assert!(r.contains(PrinterReason::toner_low()));
    assert!(!r.contains(PrinterReason::toner_empty()));
    assert!(r.contains(PrinterReason::empty()));
    assert_eq!(r.bits(), 0x0100 | 0x4000);
    assert!(PrinterReason::empty().is_empty());
    assert!(!r.is_empty());
}
