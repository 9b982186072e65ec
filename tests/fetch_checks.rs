use nlbn::fetch::check_record;
use nlbn::EasyedaError;

#[test]
fn record_checks_in_order() {
    assert_eq!(
        check_record(false, false, false, false, "C1"),
        Err(EasyedaError::ComponentNotFound("C1".to_string()))
    );
    assert_eq!(
        check_record(true, false, true, true, "C1"),
        Err(EasyedaError::InvalidData("Missing result field".to_string()))
    );
    assert_eq!(
        check_record(true, true, false, false, "C1"),
        Err(EasyedaError::InvalidData("Missing dataStr field".to_string()))
    );
    assert_eq!(
        check_record(true, true, true, false, "C1"),
        Err(EasyedaError::InvalidData("Missing title field".to_string()))
    );
    assert_eq!(check_record(true, true, true, true, "C1"), Ok(()));
}
