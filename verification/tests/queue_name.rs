use ipp_printer_app::server::printer_name_from_uri;

#[test]
fn slug_matches_cups_queue_name_modulo_case() {
    assert_eq!(
        printer_name_from_uri("supvan://x", "Supvan T50 Series t0117a2410211517"),
        "supvan_t50_series_t0117a2410211517"
    );
    assert_eq!(printer_name_from_uri("", "  Brother  HL-2270DW  "), "brother_hl_2270dw");
    assert_eq!(printer_name_from_uri("supvan://t0117", ""), "supvan_t0117");
    assert_eq!(printer_name_from_uri("", "***"), "printer");
}

#[test]
fn queue_name_is_a_fixed_point() {
    let once = printer_name_from_uri("", "Acme -- Label_Writer 450");
    assert_eq!(once, "acme_label_writer_450");
    assert_eq!(printer_name_from_uri("", &once), once);
}

#[test]
fn non_ascii_letters_separate_words() {
    assert_eq!(printer_name_from_uri("", "Étiquette Ü2"), "tiquette_2");
}
