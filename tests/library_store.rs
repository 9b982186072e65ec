use nlbn::library::{
    add_or_update_component, is_footprint_file_for, is_model_file_for,
    remove_component_from_symbol_lib, select_footprint_files, select_model_files, RemovalReport,
};
use nlbn::LibraryError;

fn lines(v: &[&str]) -> Vec<String> {
    v.iter().map(|s| s.to_string()).collect()
}

const R_ENTRY: &str = "(symbol \"R_C1\" (in_bom yes)\n    (property \"Value\" \"R (1%\")\n  )";
const C_ENTRY: &str = "(symbol \"C_C2\" (in_bom yes)\n    (symbol \"C_C2_0_1\"\n      (rectangle (start 0 0) (end 1 1))\n    )\n  )";
const HEADER: &str = "(kicad_symbol_lib (version 20211014) (generator nlbn)\n";

fn library() -> String {
    format!("{}  {}\n  {}\n)\n", HEADER, R_ENTRY, C_ENTRY)
}

#[test]
fn remove_entry_span() {
    let (kept, found) = remove_component_from_symbol_lib(&library(), "C2");
    assert!(found);
    assert_eq!(kept, format!("{}  {}\n  \n)\n", HEADER, R_ENTRY));
}

#[test]
fn remove_keeps_closing_bracket_on_same_line() {
    let lib = "(kicad_symbol_lib\n(symbol \"X_C1\"\n))";
    let (kept, found) = remove_component_from_symbol_lib(lib, "C1");
    assert!(found);
    assert_eq!(kept, "(kicad_symbol_lib\n)");
}

#[test]
fn remove_skips_brackets_in_quotes() {
    let (kept, found) = remove_component_from_symbol_lib(&library(), "C1");
    assert!(found);
    assert_eq!(kept, format!("{}  \n  {}\n)\n", HEADER, C_ENTRY));
}

#[test]
fn remove_absent_id_changes_nothing() {
    let lib = library();
    let (kept, found) = remove_component_from_symbol_lib(&lib, "C999");
    assert!(!found);
    assert_eq!(kept, lib);
    let (kept2, found2) = remove_component_from_symbol_lib(&lib, "X9");
    assert!(!found2);
    assert_eq!(kept2, lib);
}

#[test]
fn add_new_entry_before_closing_bracket() {
    let payload = "(symbol \"D_C3\")";
    let out = add_or_update_component(&library(), "D_C3", payload, false).unwrap();
    assert_eq!(out, format!("{}  {}\n  {}\n  {}\n)\n", HEADER, R_ENTRY, C_ENTRY, payload));
}

#[test]
fn add_existing_without_overwrite_fails() {
    assert_eq!(
        add_or_update_component(&library(), "R_C1", "(symbol \"R_C1\")", false),
        Err(LibraryError::DuplicateComponent("R_C1".to_string()))
    );
}

#[test]
fn overwrite_replaces_entry_in_place() {
    let payload = "(symbol \"R_C1\" (new))";
    let out = add_or_update_component(&library(), "R_C1", payload, true).unwrap();
    assert_eq!(out, format!("{}  {}\n  {}\n)\n", HEADER, payload, C_ENTRY));
}

#[test]
fn overwrite_middle_entry_stays_in_middle() {
    let lib = format!("{}  {}\n  {}\n  (symbol \"Z_C9\")\n)\n", HEADER, R_ENTRY, C_ENTRY);
    let out = add_or_update_component(&lib, "C_C2", "(symbol \"C_C2\" (v2))", true).unwrap();
    assert_eq!(
        out,
        format!("{}  {}\n  (symbol \"C_C2\" (v2))\n  (symbol \"Z_C9\")\n)\n", HEADER, R_ENTRY)
    );
}

#[test]
fn add_to_text_without_container() {
    assert_eq!(
        add_or_update_component("", "A_C1", "(symbol \"A_C1\")", false).unwrap(),
        "  (symbol \"A_C1\")\n"
    );
}

#[test]
fn sub_symbol_names_do_not_match() {
    assert!(add_or_update_component(&library(), "C_C2_0_1", "(symbol \"C_C2_0_1\")", false).is_ok());
}

#[test]
fn file_name_rules() {
    assert!(is_footprint_file_for("R_0603_C25804.kicad_mod", "C25804"));
    assert!(!is_footprint_file_for("R_0603_C25804.step", "C25804"));
    assert!(!is_footprint_file_for("R_0603_C25805.kicad_mod", "C25804"));
    assert!(is_model_file_for("R_C1.step", "C1"));
    assert!(is_model_file_for("R_C1.wrl", "C1"));
    assert!(!is_model_file_for("R_C1.kicad_mod", "C1"));
}

#[test]
fn select_files_by_id() {
    let names = lines(&["A_C1.kicad_mod", "B_C2.kicad_mod", "A_C1.step", "A_C1.wrl"]);
    assert_eq!(select_footprint_files(&names, "C1"), lines(&["A_C1.kicad_mod"]));
    assert_eq!(select_model_files(&names, "C1"), lines(&["A_C1.step", "A_C1.wrl"]));
    assert!(select_footprint_files(&names, "C77").is_empty());
    assert!(select_model_files(&names, "C77").is_empty());
}

#[test]
fn removal_report_counts() {
    let mut r = RemovalReport::new();
    r.record_symbols(Ok(true));
    r.record_footprints(Ok(2));
    r.record_models(Err("denied".to_string()));
    assert_eq!(r.total_removed(), Some(3));
    assert_eq!(r.errors, vec!["denied".to_string()]);
}

#[test]
fn removal_of_absent_component_reports_zero() {
    let mut r = RemovalReport::new();
    let (_, found) = remove_component_from_symbol_lib(&library(), "C404");
    r.record_symbols(Ok(found));
    let names = lines(&["A_C1.kicad_mod"]);
    r.record_footprints(Ok(select_footprint_files(&names, "C404").len()));
    r.record_models(Ok(select_model_files(&names, "C404").len()));
    assert_eq!(r.total_removed(), Some(0));
    assert!(r.errors.is_empty());
}

#[test]
fn store_then_remove_keeps_other_text() {
    let stored = add_or_update_component(&library(), "R_C1", "(symbol \"R_C1\" (v2))", true).unwrap();
    let (after, found) = remove_component_from_symbol_lib(&stored, "C1");
    assert!(found);
    let (expected, _) = remove_component_from_symbol_lib(&library(), "C1");
    assert_eq!(after, expected);
}

#[test]
fn file_rules_match_id_anywhere() {
    assert!(is_footprint_file_for("C1_x.kicad_mod", "C1"));
    assert!(is_model_file_for("C1_x.step", "C1"));
    assert!(is_footprint_file_for("X_C2040.kicad_mod", "C2"));
    assert!(!is_model_file_for("X_C3.step", "C2"));
    let (kept, found) = remove_component_from_symbol_lib("(lib\n  (symbol \"C1_X\")\n  (symbol \"Y_C2\")\n)\n", "C1");
    assert!(found);
    assert_eq!(kept, "(lib\n  \n  (symbol \"Y_C2\")\n)\n");
}

#[test]
fn removal_keeps_library_balanced() {
    let (kept, _) = remove_component_from_symbol_lib(&library(), "C1");
    let opens = kept.chars().filter(|c| *c == '(').count();
    let closes = kept.chars().filter(|c| *c == ')').count();
    assert_eq!(opens, closes);
    assert!(kept.ends_with(")\n"));
}
