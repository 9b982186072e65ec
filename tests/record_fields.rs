use nlbn::records::is_filled;
use nlbn::records::{
    check_primitives, footprint_shape, split_fields, symbol_shape, FootprintShape, SymbolShape,
};
use nlbn::{AppError, EasyedaError};

#[test]
fn split_keeps_empty_fields() {
    assert_eq!(split_fields("R~1~~2~", '~'), vec!["R", "1", "", "2", ""]);
    assert_eq!(split_fields("", '~'), vec![""]);
    assert_eq!(split_fields("abc", '~'), vec!["abc"]);
}

#[test]
fn symbol_tags() {
    assert_eq!(symbol_shape("P"), Some(SymbolShape::Pin));
    assert_eq!(symbol_shape("PL"), Some(SymbolShape::Polyline));
    assert_eq!(symbol_shape("PT"), Some(SymbolShape::Path));
    assert_eq!(symbol_shape("E"), Some(SymbolShape::Ellipse));
    assert_eq!(symbol_shape("T"), None);
}

#[test]
fn footprint_tags() {
    assert_eq!(footprint_shape("PAD"), Some(FootprintShape::Pad));
    assert_eq!(footprint_shape("VIA"), Some(FootprintShape::Via));
    assert_eq!(footprint_shape("SVGNODE"), Some(FootprintShape::ModelMarker));
    assert_eq!(footprint_shape("SOLIDREGION"), None);
}

#[test]
fn empty_primitive_set_fails() {
    assert_eq!(check_primitives(3), Ok(3));
    assert!(matches!(
        check_primitives(0),
        Err(AppError::Easyeda(EasyedaError::InvalidData(_)))
    ));
}

#[test]
fn fill_colours() {
    assert!(is_filled("#FF0000"));
    assert!(!is_filled("none"));
    assert!(!is_filled(""));
}
