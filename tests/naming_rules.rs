use nlbn::naming::sanitize_char;
use nlbn::naming::quoted;
use nlbn::naming::reference_prefix;
use nlbn::naming::{component_name, footprint_link, model_path, sanitize_name};

#[test]
fn sanitize_replaces_other_characters() {
    assert_eq!(sanitize_name("STM32F103C8T6 (LQFP-48)"), "STM32F103C8T6__LQFP-48_");
    assert_eq!(sanitize_name("a/b.c_d-e"), "a_b_c_d-e");
    assert_eq!(sanitize_name(""), "");
}

#[test]
fn sanitize_keeps_unicode_letters() {
    assert_eq!(sanitize_name("µA 7ß"), "µA_7ß");
}

#[test]
fn component_name_appends_id() {
    assert_eq!(component_name("NE555 P", "C46749"), "NE555_P_C46749");
}

#[test]
fn same_title_distinct_ids_distinct_names() {
    let a = component_name("10k 0603", "C25804");
    let b = component_name("10k 0603", "C25805");
    assert_ne!(a, b);
    let c = component_name("x!", "C1");
    let d = component_name("x!", "C11");
    assert_ne!(c, d);
}

#[test]
fn footprint_link_names_library() {
    assert_eq!(footprint_link("R_0603_C25804"), "nlbn:R_0603_C25804");
}

#[test]
fn model_path_roots() {
    assert_eq!(model_path(true, "R_C1"), "${KIPRJMOD}/nlbn.3dshapes/R_C1.step");
    assert_eq!(model_path(false, "R_C1"), "${NLBN}/nlbn.3dshapes/R_C1.step");
}

#[test]
fn reference_prefixes() {
    assert_eq!(reference_prefix("R?"), "R");
    assert_eq!(reference_prefix("U??"), "U");
    assert_eq!(reference_prefix("?"), "U");
    assert_eq!(reference_prefix(""), "U");
    assert_eq!(reference_prefix("D?1"), "D?1");
}

#[test]
fn quoting_escapes() {
    assert_eq!(quoted("R_C1"), "\"R_C1\"");
    assert_eq!(quoted("a\"b\\c"), "\"a\\\"b\\\\c\"");
    assert_eq!(quoted(""), "\"\"");
}

#[test]
fn sanitize_single_characters() {
    assert_eq!(sanitize_char('x', true), 'x');
    assert_eq!(sanitize_char('-', false), '-');
    assert_eq!(sanitize_char('_', false), '_');
    assert_eq!(sanitize_char(' ', false), '_');
    assert_eq!(sanitize_char('(', false), '_');
}
