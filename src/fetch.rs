//! The checks on a fetched component record, in the order they are made.
use vstd::prelude::*;
use vstd::string::*;

use crate::error::EasyedaError;

verus! {

/// Checks a decoded reply for the component `lcsc_id`: the source must report
/// success, else the component is not found; then the result, its `dataStr`
/// and its title must be present, each else a missing-field error.
pub fn check_record(
    success: bool,
    has_result: bool,
    has_data_str: bool,
    has_title: bool,
    lcsc_id: &str,
) -> (r: Result<(), EasyedaError>)
    ensures
        !success ==> (r matches Err(EasyedaError::ComponentNotFound(id)) && id@ == lcsc_id@),
        success && !has_result ==> (r matches Err(EasyedaError::InvalidData(m)) && m@
            == "Missing result field"@),
        success && has_result && !has_data_str ==> (r matches Err(EasyedaError::InvalidData(m))
            && m@ == "Missing dataStr field"@),
        success && has_result && has_data_str && !has_title ==> (r matches Err(
            EasyedaError::InvalidData(m),
        ) && m@ == "Missing title field"@),
        success && has_result && has_data_str && has_title ==> r is Ok,
{
    if !success {
        return Err(EasyedaError::ComponentNotFound(String::from_str(lcsc_id)));
    }
    if !has_result {
        return Err(EasyedaError::InvalidData(String::from_str("Missing result field")));
    }
    if !has_data_str {
        return Err(EasyedaError::InvalidData(String::from_str("Missing dataStr field")));
    }
    if !has_title {
        return Err(EasyedaError::InvalidData(String::from_str("Missing title field")));
    }
    Ok(())
}

} // verus!
