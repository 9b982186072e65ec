use nlbn::cli::lcsc_ids_from_matches;
use nlbn::cli::ids_from_batch_text;
use nlbn::{AppError, Cli, EasyedaError, KicadVersion};

fn options(lcsc_id: Option<&str>, batch: Option<&str>) -> Cli {
    Cli {
        lcsc_id: lcsc_id.map(|s| s.to_string()),
        batch: batch.map(|s| s.to_string()),
        symbol: true,
        footprint: false,
        model_3d: false,
        full: false,
        output: ".".to_string(),
        overwrite: false,
        v5: false,
        project_relative: false,
        debug: false,
        continue_on_error: false,
        parallel: 4,
        remove: None,
        from: None,
    }
}

#[test]
fn validate_accepts_single_id() {
    assert_eq!(options(Some("C2040"), None).validate(), Ok(()));
}

#[test]
fn validate_requires_id_source() {
    assert!(matches!(options(None, None).validate(), Err(AppError::Other(_))));
}

#[test]
fn validate_rejects_bad_id() {
    assert_eq!(
        options(Some("X2040"), None).validate(),
        Err(AppError::Easyeda(EasyedaError::InvalidLcscId("X2040".to_string())))
    );
    assert_eq!(
        options(Some("C"), None).validate(),
        Err(AppError::Easyeda(EasyedaError::InvalidLcscId("C".to_string())))
    );
}

#[test]
fn validate_requires_conversion() {
    let mut c = options(Some("C1"), None);
    c.symbol = false;
    assert!(matches!(c.validate(), Err(AppError::Other(_))));
    c.full = true;
    assert_eq!(c.validate(), Ok(()));
}

#[test]
fn validate_batch_without_single_id() {
    assert_eq!(options(None, Some("ids.txt")).validate(), Ok(()));
}

#[test]
fn kicad_version_follows_flag() {
    let mut c = options(Some("C1"), None);
    assert_eq!(c.kicad_version(), KicadVersion::V6);
    c.v5 = true;
    assert_eq!(c.kicad_version(), KicadVersion::V5);
}

#[test]
fn batch_text_ids_in_order() {
    let ids = ids_from_batch_text("C2040\nfoo C123, bar C9x\nC\n").unwrap();
    assert_eq!(ids, vec!["C2040".to_string(), "C123".to_string(), "C9".to_string()]);
}

#[test]
fn batch_text_without_ids_fails() {
    assert!(matches!(ids_from_batch_text("no ids here, C only"), Err(AppError::Other(_))));
}

#[test]
fn single_id_wins_over_batch_text() {
    let c = options(Some("C7"), Some("ids.txt"));
    assert_eq!(c.get_lcsc_ids(&Some("C1 C2".to_string())).unwrap(), vec!["C7".to_string()]);
}

#[test]
fn batch_ids_from_text() {
    let c = options(None, Some("ids.txt"));
    assert_eq!(
        c.get_lcsc_ids(&Some("C1 C2".to_string())).unwrap(),
        vec!["C1".to_string(), "C2".to_string()]
    );
    assert!(matches!(c.get_lcsc_ids(&None), Err(AppError::Other(_))));
}

#[test]
fn remove_mode_flag() {
    let mut c = options(Some("C1"), None);
    assert!(!c.is_remove_mode());
    c.remove = Some("C1".to_string());
    assert!(c.is_remove_mode());
}

#[test]
fn ids_from_found_matches() {
    assert_eq!(
        lcsc_ids_from_matches(vec!["C1".to_string(), "C2".to_string()]),
        Ok(vec!["C1".to_string(), "C2".to_string()])
    );
    assert!(matches!(lcsc_ids_from_matches(Vec::new()), Err(AppError::Other(_))));
}

#[test]
fn validate_messages() {
    assert_eq!(
        options(None, None).validate(),
        Err(AppError::Other("Either --lcsc-id or --batch must be specified".to_string()))
    );
    let mut c = options(Some("C1"), None);
    c.symbol = false;
    assert_eq!(
        c.validate(),
        Err(AppError::Other(
            "At least one conversion option must be specified (--symbol, --footprint, --3d, or --full)"
                .to_string()
        ))
    );
    assert_eq!(
        ids_from_batch_text("nothing"),
        Err(AppError::Other("No valid LCSC IDs found in batch file".to_string()))
    );
}
