use dlsite_renamer::work::{
    accepts_text, classify, classify_normalized, pick, registry, WorkType,
};

#[test]
fn classify_known_formats() {
    assert_eq!(classify("RJ123456"), Some(WorkType::Rj));
    assert_eq!(classify("VJ000111"), Some(WorkType::Vj));
    assert_eq!(classify("BJ7"), Some(WorkType::Bj));
}

#[test]
fn classify_ignores_case() {
    assert_eq!(classify("vj000111"), Some(WorkType::Vj));
    assert_eq!(classify("Vj000111"), Some(WorkType::Vj));
    assert_eq!(classify("vJ000111"), Some(WorkType::Vj));
    assert_eq!(classify("rj123456"), Some(WorkType::Rj));
    assert_eq!(classify("bj01"), Some(WorkType::Bj));
}

#[test]
fn classify_rejects_other_stems() {
    assert_eq!(classify("XX999"), None);
    assert_eq!(classify(""), None);
    assert_eq!(classify("RJ"), None);
    assert_eq!(classify("RJ12a"), None);
    assert_eq!(classify("aRJ12"), None);
    assert_eq!(classify("RJ 12"), None);
    assert_eq!(classify("RJ12 "), None);
    assert_eq!(classify("RJ12\n"), None);
    assert_eq!(classify("RJ123.zip"), None);
    assert_eq!(classify("JR123"), None);
    assert_eq!(classify("123"), None);
}

#[test]
fn classify_normalized_takes_the_identifier_as_it_stands() {
    assert_eq!(classify_normalized("RJ123456"), Some(WorkType::Rj));
    assert_eq!(classify_normalized("rj123456"), None);
    assert_eq!(classify_normalized("vj000111"), None);
    assert_eq!(classify_normalized("BJ000111"), Some(WorkType::Bj));
}

#[test]
fn matches_tests_one_format() {
    assert!(WorkType::Rj.matches("RJ1"));
    assert!(!WorkType::Rj.matches("VJ1"));
    assert!(!WorkType::Rj.matches("rj1"));
    assert!(WorkType::Vj.matches("VJ0123456789"));
    assert!(!WorkType::Vj.matches("VJ"));
    assert!(WorkType::Bj.matches("BJ42"));
    assert!(!WorkType::Bj.matches("xBJ42"));
    assert!(!WorkType::Bj.matches("BJ42x"));
}

#[test]
fn registry_lists_the_work_types_in_declaration_order() {
    assert_eq!(registry(), vec![WorkType::Rj, WorkType::Vj, WorkType::Bj]);
}

#[test]
fn pick_takes_the_earliest_match() {
    assert_eq!(pick(&vec![true, false, false]), Some(WorkType::Rj));
    assert_eq!(pick(&vec![false, true, false]), Some(WorkType::Vj));
    assert_eq!(pick(&vec![false, false, true]), Some(WorkType::Bj));
    assert_eq!(pick(&vec![false, true, true]), Some(WorkType::Vj));
    assert_eq!(pick(&vec![true, true, true]), Some(WorkType::Rj));
    assert_eq!(pick(&vec![false, false, false]), None);
}

#[test]
fn pick_looks_at_registry_positions_only() {
    assert_eq!(pick(&vec![]), None);
    assert_eq!(pick(&vec![false]), None);
    assert_eq!(pick(&vec![false, true]), Some(WorkType::Vj));
    assert_eq!(pick(&vec![false, false, false, true]), None);
}

#[test]
fn work_type_data() {
    assert_eq!(WorkType::Rj.id_pattern(), r"^RJ\d+$");
    assert_eq!(WorkType::Vj.id_pattern(), r"^VJ\d+$");
    assert_eq!(WorkType::Bj.id_pattern(), r"^BJ\d+$");
    assert_eq!(
        WorkType::Rj.url_template(),
        "https://www.dlsite.com/maniax/work/=/product_id/{id}.html"
    );
    assert_eq!(
        WorkType::Vj.url_template(),
        "https://www.dlsite.com/pro/work/=/product_id/{id}.html"
    );
    assert_eq!(
        WorkType::Bj.url_template(),
        "https://www.dlsite.com/books/work/=/product_id/{id}.html"
    );
    for work in registry() {
        assert_eq!(work.product_id_locator(), ".work_right_info");
        assert_eq!(work.title_locator(), "#work_name");
    }
    assert_eq!(WorkType::Rj.publisher_locator(), "#work_maker td a");
    assert_eq!(WorkType::Vj.publisher_locator(), "#work_maker td .maker_name a");
    assert_eq!(
        WorkType::Bj.publisher_locator(),
        "#work_maker > tbody:nth-child(1) > tr:nth-child(1) > td:nth-child(2) > a:nth-child(1)"
    );
}

#[test]
fn classify_takes_digits_of_any_script() {
    assert_eq!(classify("RJ１２３"), Some(WorkType::Rj));
    assert_eq!(classify("RJ١٢٣"), Some(WorkType::Rj));
    assert_eq!(classify("RJⅫ"), None);
}

#[test]
fn accepts_text_searches_with_a_pattern() {
    assert!(accepts_text(r"^RJ\d+$", "RJ1"));
    assert!(!accepts_text(r"^RJ\d+$", "RJ1 "));
    assert!(accepts_text(r"J\d", "xRJ1x"));
    assert!(accepts_text("", "anything"));
    assert!(accepts_text("", ""));
}

#[test]
fn a_pattern_that_does_not_compile_accepts_nothing() {
    assert!(!accepts_text("(", "("));
    assert!(!accepts_text(r"\d{", "1"));
    assert!(!accepts_text("[a", "a"));
    assert!(!accepts_text(r"\w{1000}", "a"));
}

#[test]
fn patterns_of_the_work_types_compile() {
    assert!(accepts_text(WorkType::Rj.id_pattern(), "RJ0"));
    assert!(accepts_text(WorkType::Vj.id_pattern(), "VJ0"));
    assert!(accepts_text(WorkType::Bj.id_pattern(), "BJ0"));
}
