use fits_browser_core::error::show_errors;
use fits_browser_core::error::ErrorChain;
use fits_browser_core::error::MAX_RENDERED_CAUSES;
use fits_browser_core::hdu::classify_extension_records;
use fits_browser_core::hdu::classify_for_listing;
use fits_browser_core::hdu::classify_for_menu;
use fits_browser_core::hdu::classify_primary_records;
use fits_browser_core::hdu::HduKind;
use fits_browser_core::session::Cursor;
use fits_browser_core::session::Session;
use fits_browser_core::session::SessionError;
use fits_browser_core::text::dec_str;

/// One 80-byte FITS header card, space-padded.
fn card(text: &str) -> Vec<u8> {
    let mut v = text.as_bytes().to_vec();
    assert!(v.len() <= 80);
    while v.len() < 80 {
        v.push(b' ');
    }
    v
}

/// A full header: the given cards, an END card, and blank cards up to a
/// multiple of 2880 bytes.
fn header(cards: &[&str]) -> Vec<u8> {
    let mut v = Vec::new();
    for c in cards {
        v.extend(card(c));
    }
    v.extend(card("END"));
    while v.len() % 2880 != 0 {
        v.push(b' ');
    }
    v
}

/// A file whose primary HDU has no data array, followed by the given
/// extensions.
fn fits_file(extension_types: &[&str]) -> Vec<u8> {
    let mut v = header(&["SIMPLE  =                    T"]);
    for t in extension_types {
        let c = format!("XTENSION= '{}'", t);
        v.extend(header(&[c.as_str()]));
    }
    v
}

#[test]
fn listing_labels_cover_all_variants() {
    assert_eq!(classify_for_listing(HduKind::Image), "Image");
    assert_eq!(classify_for_listing(HduKind::Table), "Table");
    assert_eq!(classify_for_listing(HduKind::BinaryTable), "Binary Table");
    assert_eq!(classify_for_listing(HduKind::Primary), "None");
}

#[test]
fn menu_labels_cover_all_variants() {
    assert_eq!(classify_for_menu(HduKind::Image), "Image");
    assert_eq!(classify_for_menu(HduKind::Table), "Table");
    assert_eq!(classify_for_menu(HduKind::BinaryTable), "Binary Table");
    assert_eq!(classify_for_menu(HduKind::Primary), "Primary");
}

#[test]
fn sentinels_when_no_file_is_loaded() {
    let s = Session::new();
    assert_eq!(s.list_frame_descriptions(), vec!["Err".to_string()]);
    assert_eq!(
        s.list_frame_menu_labels(),
        vec![("1".to_string(), "Err".to_string())]
    );
    assert_eq!(s.frame_count(), 0);
    assert!(!s.is_loaded());
}

#[test]
fn three_hdu_file_lists_both_catalogs() {
    let bytes = fits_file(&["IMAGE   ", "TABLE   "]);
    let mut s = Session::new();
    let n = s.load_bytes(&bytes).expect("the file should decode");
    assert_eq!(n, 3);
    assert_eq!(
        s.list_frame_descriptions(),
        vec![
            "1 : None".to_string(),
            "2 : Image".to_string(),
            "3 : Table".to_string(),
        ]
    );
    assert_eq!(
        s.list_frame_menu_labels(),
        vec![
            ("1".to_string(), "Primary".to_string()),
            ("2".to_string(), "Image".to_string()),
            ("3".to_string(), "Table".to_string()),
        ]
    );
}

#[test]
fn load_success_selects_frame_one() {
    let bytes = fits_file(&["IMAGE   "]);
    let mut s = Session::new();
    assert_eq!(s.load_bytes(&bytes).unwrap(), 2);
    assert_eq!(s.current_cursor(), Cursor::Selected(1));
    assert!(s.is_loaded());
}

#[test]
fn cursor_transitions_on_load() {
    let mut c = Cursor::Unselected;
    c.on_file_loaded(5);
    assert_eq!(c, Cursor::Selected(1));
    c.on_file_loaded(0);
    assert_eq!(c, Cursor::Unselected);
    c.on_file_loaded(1);
    assert_eq!(c, Cursor::Selected(1));
    c.on_file_unloaded();
    assert_eq!(c, Cursor::Unselected);
}

#[test]
fn load_failure_clears_previous_file() {
    let good = fits_file(&["IMAGE   "]);
    let mut s = Session::new();
    assert_eq!(s.load_bytes(&good).unwrap(), 2);
    assert!(s.is_loaded());

    let e = s.load_bytes(b"this is not a FITS stream").unwrap_err();
    assert!(!s.is_loaded());
    assert_eq!(s.current_cursor(), Cursor::Unselected);
    assert!(show_errors(&e).starts_with("Error: "));

    // The catalogs fall back to their sentinels right after the failure.
    assert_eq!(s.list_frame_descriptions(), vec!["Err".to_string()]);
    assert_eq!(
        s.list_frame_menu_labels(),
        vec![("1".to_string(), "Err".to_string())]
    );
}

#[test]
fn select_moves_only_within_bounds() {
    let bytes = fits_file(&["IMAGE   ", "TABLE   ", "BINTABLE", "IMAGE   "]);
    let mut s = Session::new();
    assert_eq!(s.load_bytes(&bytes).unwrap(), 5);

    assert_eq!(s.select(5), Ok(HduKind::Image));
    assert_eq!(s.current_cursor(), Cursor::Selected(5));

    assert_eq!(s.select(6), Err(SessionError::OutOfRange));
    assert_eq!(s.current_cursor(), Cursor::Selected(5));

    assert_eq!(s.select(0), Err(SessionError::OutOfRange));
    assert_eq!(s.current_cursor(), Cursor::Selected(5));

    assert_eq!(s.select(4), Ok(HduKind::BinaryTable));
    assert_eq!(s.current_cursor(), Cursor::Selected(4));
}

#[test]
fn select_is_rejected_without_a_file() {
    let mut s = Session::new();
    assert_eq!(s.select(1), Err(SessionError::OutOfRange));
    assert_eq!(s.current_cursor(), Cursor::Unselected);
}

#[test]
fn resolve_frame_payload_is_exact() {
    let bytes = fits_file(&["IMAGE   ", "TABLE   ", "BINTABLE"]);
    let mut s = Session::new();
    assert_eq!(s.load_bytes(&bytes).unwrap(), 4);

    assert_eq!(s.resolve_frame_payload(1), Ok(HduKind::Primary));
    assert_eq!(s.resolve_frame_payload(2), Ok(HduKind::Image));
    assert_eq!(s.resolve_frame_payload(3), Ok(HduKind::Table));
    assert_eq!(s.resolve_frame_payload(4), Ok(HduKind::BinaryTable));
    assert_eq!(s.resolve_frame_payload(0), Err(SessionError::OutOfRange));
    assert_eq!(s.resolve_frame_payload(5), Err(SessionError::OutOfRange));
}

#[test]
fn reclassifying_resolved_frames_matches_the_menu() {
    let bytes = fits_file(&["IMAGE   ", "TABLE   ", "BINTABLE"]);
    let mut s = Session::new();
    let n = s.load_bytes(&bytes).unwrap();
    let menu = s.list_frame_menu_labels();
    for frame in 1..=n {
        let kind = s.resolve_frame_payload(frame).unwrap();
        let (value, label) = &menu[(frame - 1) as usize];
        assert_eq!(value, &frame.to_string());
        assert_eq!(label, &classify_for_menu(kind));
    }
    // A second query returns the same listings.
    assert_eq!(s.list_frame_menu_labels(), menu);
    assert_eq!(s.list_frame_descriptions(), s.list_frame_descriptions());
}

#[test]
fn primary_hdu_with_axes_is_an_image() {
    let bytes = header(&[
        "SIMPLE  =                    T",
        "NAXIS   =                    2",
        "NAXIS1  =                    3",
        "NAXIS2  =                    4",
    ]);
    let mut s = Session::new();
    assert_eq!(s.load_bytes(&bytes).unwrap(), 1);
    assert_eq!(s.list_frame_descriptions(), vec!["1 : Image".to_string()]);
    assert_eq!(s.resolve_frame_payload(1), Ok(HduKind::Image));
}

#[test]
fn classifiers_read_record_texts_directly() {
    let ext = vec!["XTENSION= CharacterString(\"BINTABLE\")/".to_string()];
    assert_eq!(classify_extension_records(&ext), HduKind::BinaryTable);

    let unknown = vec!["XTENSION= CharacterString(\"FOREIGN \")/".to_string()];
    assert_eq!(classify_extension_records(&unknown), HduKind::Primary);

    let none: Vec<String> = Vec::new();
    assert_eq!(classify_extension_records(&none), HduKind::Primary);

    let with_axes = vec!["NAXIS= Integer(2)/".to_string()];
    assert_eq!(classify_primary_records(&with_axes), HduKind::Image);

    let without_axes = vec!["NAXIS= Integer(0)/".to_string()];
    assert_eq!(classify_primary_records(&without_axes), HduKind::Primary);

    let no_naxis = vec!["SIMPLE= Logical(true)/".to_string()];
    assert_eq!(classify_primary_records(&no_naxis), HduKind::Primary);
}

#[test]
fn error_chain_renders_root_and_causes() {
    let e = ErrorChain::new("boom".to_string());
    assert_eq!(show_errors(&e), "Error: boom");

    let mut e = ErrorChain::new("boom".to_string());
    e.push_cause("lower level".to_string());
    e.push_cause("lowest level".to_string());
    assert_eq!(
        show_errors(&e),
        "Error: boom\n  caused by: lower level\n  caused by: lowest level"
    );
}

#[test]
fn error_chain_rendering_is_capped() {
    let mut e = ErrorChain::new("root".to_string());
    for i in 0..(MAX_RENDERED_CAUSES + 10) {
        e.push_cause(format!("cause {}", i));
    }
    let text = show_errors(&e);
    assert_eq!(text.matches("caused by: ").count(), MAX_RENDERED_CAUSES);
    assert!(text.contains(&format!("cause {}", MAX_RENDERED_CAUSES - 1)));
    assert!(!text.contains(&format!("cause {}", MAX_RENDERED_CAUSES)));
}

#[test]
fn decode_failure_reports_a_chained_cause() {
    let mut s = Session::new();
    let e = s.load_bytes(&[]).unwrap_err();
    let text = show_errors(&e);
    assert!(text.starts_with("Error: could not decode FITS data"));
    assert!(text.contains("\n  caused by: "));
}

#[test]
fn decimal_rendering_is_exact() {
    assert_eq!(dec_str(0), "0");
    assert_eq!(dec_str(1), "1");
    assert_eq!(dec_str(9), "9");
    assert_eq!(dec_str(10), "10");
    assert_eq!(dec_str(37), "37");
    assert_eq!(dec_str(1234567890), "1234567890");
}

#[test]
fn declared_axes_without_records_are_rejected_not_fatal() {
    // NAXIS announces one axis but no NAXIS1 record follows; the decoder
    // would abort on this header, so the load must turn it away as a
    // decode failure instead.
    let bytes = header(&[
        "SIMPLE  =                    T",
        "NAXIS   =                    1",
    ]);
    assert!(!fits_browser_core::precheck::bytes_admit_decode(&bytes));
    let mut s = Session::new();
    let e = s.load_bytes(&bytes).unwrap_err();
    assert!(!s.is_loaded());
    assert_eq!(s.current_cursor(), Cursor::Unselected);
    assert!(show_errors(&e).starts_with("Error: could not decode FITS data"));
}

#[test]
fn oversized_axis_products_are_rejected() {
    // 99999999 * 99999999 elements would overflow the decoder's size
    // arithmetic; the admission check stops it before the decoder runs.
    let bytes = header(&[
        "SIMPLE  =                    T",
        "NAXIS   =                    2",
        "NAXIS1  =             99999999",
        "NAXIS2  =             99999999",
    ]);
    let mut s = Session::new();
    assert!(s.load_bytes(&bytes).is_err());
    assert!(!s.is_loaded());
}

#[test]
fn irregular_axis_keywords_are_rejected() {
    // Unsigned parsing would read `NAXIS+1` as an axis keyword; the
    // admission check allows only plainly padded or digit-suffixed forms.
    let bytes = header(&[
        "SIMPLE  =                    T",
        "NAXIS+1 =                    5",
    ]);
    assert!(!fits_browser_core::precheck::bytes_admit_decode(&bytes));
    let mut s = Session::new();
    assert!(s.load_bytes(&bytes).is_err());
}

#[test]
fn axis_product_at_the_cap_still_loads() {
    // 4096 * 4096 sits exactly at the admitted axis-product cap.
    let bytes = header(&[
        "SIMPLE  =                    T",
        "NAXIS   =                    2",
        "NAXIS1  =                 4096",
        "NAXIS2  =                 4096",
    ]);
    assert!(fits_browser_core::precheck::bytes_admit_decode(&bytes));
    let mut s = Session::new();
    assert_eq!(s.load_bytes(&bytes).unwrap(), 1);
    assert_eq!(s.resolve_frame_payload(1), Ok(HduKind::Image));
}

#[test]
fn unload_is_idempotent() {
    let bytes = fits_file(&["IMAGE   "]);
    let mut s = Session::new();
    assert_eq!(s.load_bytes(&bytes).unwrap(), 2);
    s.unload();
    assert!(!s.is_loaded());
    assert_eq!(s.current_cursor(), Cursor::Unselected);
    s.unload();
    assert!(!s.is_loaded());
    assert_eq!(s.current_cursor(), Cursor::Unselected);
}

#[test]
fn reload_replaces_the_previous_file() {
    let first = fits_file(&["IMAGE   "]);
    let second = fits_file(&["TABLE   ", "BINTABLE", "IMAGE   "]);
    let mut s = Session::new();
    assert_eq!(s.load_bytes(&first).unwrap(), 2);
    assert_eq!(s.load_bytes(&second).unwrap(), 4);
    assert_eq!(s.frame_count(), 4);
    assert_eq!(s.current_cursor(), Cursor::Selected(1));
    assert_eq!(s.resolve_frame_payload(2), Ok(HduKind::Table));
}
