//! The options of one run and the rules they must meet.
use vstd::prelude::*;
use vstd::string::*;

use crate::error::{AppError, EasyedaError};
use crate::text::chars_of;

verus! {

/// The KiCad format to write.
#[derive(Debug, Clone, Copy, PartialEq, Eq, Structural)]
pub enum KicadVersion {
    V5,
    V6,
}

/// The options of one run.
#[derive(Debug, Clone)]
pub struct Cli {
    /// A single component identifier (e.g. `C2040`).
    pub lcsc_id: Option<String>,
    /// A file whose text lists identifiers.
    pub batch: Option<String>,
    pub symbol: bool,
    pub footprint: bool,
    pub model_3d: bool,
    pub full: bool,
    /// The output directory.
    pub output: String,
    pub overwrite: bool,
    pub v5: bool,
    pub project_relative: bool,
    pub debug: bool,
    pub continue_on_error: bool,
    /// How many components may be converted at once in a batch.
    pub parallel: usize,
    /// An identifier whose library items are to be removed.
    pub remove: Option<String>,
    /// The library directory to remove from.
    pub from: Option<String>,
}

/// A well-formed component identifier: `C` and at least one more character.
pub open spec fn valid_lcsc_id(id: Seq<char>) -> bool {
    id.len() >= 2 && id[0] == 'C'
}

/// At least one conversion is selected.
pub open spec fn selects_conversion(c: Cli) -> bool {
    c.symbol || c.footprint || c.model_3d || c.full
}

/// The pattern of an identifier in a batch file: `C` and decimal digits.
pub open spec fn lcsc_pattern() -> Seq<char> {
    seq!['C', '\\', 'd', '+']
}

/// What `regex::Regex::new(pattern)` followed by `find_iter(text)` yields: `None`
/// where the pattern is refused, else the texts of the successive
/// non-overlapping matches.
pub uninterp spec fn regex_matches(pattern: Seq<char>, text: Seq<char>) -> Option<Seq<Seq<char>>>;

/// Relies on `regex::Regex::new` and `regex::Regex::find_iter`: compiles `pattern`
/// (an error where it is refused) and lists the successive non-overlapping
/// matches in `text`, each as the text it covers.
#[verifier::external_body]
fn find_matches(pattern: &str, text: &str) -> (r: Option<Vec<String>>)
    ensures
        match r {
            Some(v) => regex_matches(pattern@, text@) == Some(v.deep_view()),
            None => regex_matches(pattern@, text@).is_none(),
        },
{
    match regex::Regex::new(pattern) {
        Ok(re) => Some(re.find_iter(text).map(|m| m.as_str().to_string()).collect()),
        Err(_) => None,
    }
}

/// The identifiers found in a batch file's text: all of them, in order, or
/// an error where there is none.
pub fn lcsc_ids_from_matches(matches: Vec<String>) -> (r: Result<Vec<String>, AppError>)
    ensures
        matches@.len() > 0 ==> (r matches Ok(v) && v.deep_view() == matches.deep_view()),
        matches@.len() == 0 ==> (r matches Err(AppError::Other(m)) && m@ == "No valid LCSC IDs found in batch file"@),
{
    if matches.len() > 0 {
        Ok(matches)
    } else {
        Err(AppError::Other(String::from_str("No valid LCSC IDs found in batch file")))
    }
}

/// The identifiers that a batch file's text lists, in order: every run of
/// `C` and decimal digits. An error where there is none.
pub fn ids_from_batch_text(content: &str) -> (r: Result<Vec<String>, AppError>)
    ensures
        match regex_matches(lcsc_pattern(), content@) {
            Some(ms) => if ms.len() > 0 {
                r matches Ok(v) && v.deep_view() == ms
            } else {
                r matches Err(AppError::Other(m)) && m@ == "No valid LCSC IDs found in batch file"@
            },
            None => r matches Err(AppError::Other(m)) && m@ == "Invalid LCSC ID pattern"@,
        },
{
    proof {
        reveal_strlit("C\\d+");
    }
    let pattern = "C\\d+";
    assert(pattern@ =~= lcsc_pattern());
    match find_matches(pattern, content) {
        Some(v) => lcsc_ids_from_matches(v),
        None => Err(AppError::Other(String::from_str("Invalid LCSC ID pattern"))),
    }
}

impl Cli {
    /// The run is in removal mode.
    pub open spec fn spec_is_remove_mode(&self) -> bool {
        self.remove.is_some()
    }

    /// Whether the run removes a component instead of converting.
    pub fn is_remove_mode(&self) -> (r: bool)
        ensures
            r == self.spec_is_remove_mode(),
    {
        self.remove.is_some()
    }

    /// Checks the options: an identifier source, a well-formed single
    /// identifier, and at least one selected conversion, in that order.
    pub fn validate(&self) -> (r: Result<(), AppError>)
        ensures
            self.lcsc_id.is_none() && self.batch.is_none() ==> (r matches Err(AppError::Other(m))
                && m@ == "Either --lcsc-id or --batch must be specified"@),
            !(self.lcsc_id.is_none() && self.batch.is_none()) ==> match self.lcsc_id {
                Some(id) if !valid_lcsc_id(id@) => (r matches Err(
                    AppError::Easyeda(EasyedaError::InvalidLcscId(s)),
                ) && s@ == id@),
                _ => if selects_conversion(*self) {
                    r is Ok
                } else {
                    r matches Err(AppError::Other(m)) && m@
                        == "At least one conversion option must be specified (--symbol, --footprint, --3d, or --full)"@
                },
            },
    {
        if self.lcsc_id.is_none() && self.batch.is_none() {
            return Err(AppError::Other(String::from_str("Either --lcsc-id or --batch must be specified")));
        }
        if let Some(id) = &self.lcsc_id {
            let cs = chars_of(id.as_str());
            if cs.len() < 2 || cs[0] != 'C' {
                return Err(AppError::Easyeda(EasyedaError::InvalidLcscId(id.clone())));
            }
        }
        if !self.symbol && !self.footprint && !self.model_3d && !self.full {
            return Err(AppError::Other(String::from_str(
                "At least one conversion option must be specified (--symbol, --footprint, --3d, or --full)",
            )));
        }
        Ok(())
    }

    /// The identifiers to process: the single one, or those that the batch
    /// file's text lists (`batch_text`, read by the caller).
    pub fn get_lcsc_ids(&self, batch_text: &Option<String>) -> (r: Result<Vec<String>, AppError>)
        ensures
            match self.lcsc_id {
                Some(id) => r matches Ok(v) && v.deep_view() == seq![id@],
                None => match (self.batch, *batch_text) {
                    (Some(_), Some(t)) => match regex_matches(lcsc_pattern(), t@) {
                        Some(ms) => if ms.len() > 0 {
                            r matches Ok(v) && v.deep_view() == ms
                        } else {
                            r matches Err(AppError::Other(m)) && m@ == "No valid LCSC IDs found in batch file"@
                        },
                        None => r matches Err(AppError::Other(m)) && m@ == "Invalid LCSC ID pattern"@,
                    },
                    _ => r matches Err(AppError::Other(m)) && m@ == "No LCSC ID source specified"@,
                },
            },
    {
        if let Some(id) = &self.lcsc_id {
            let mut v: Vec<String> = Vec::new();
            v.push(id.clone());
            assert(v.deep_view() =~= seq![id@]);
            Ok(v)
        } else if self.batch.is_some() {
            match batch_text {
                Some(t) => ids_from_batch_text(t.as_str()),
                None => Err(AppError::Other(String::from_str("No LCSC ID source specified"))),
            }
        } else {
            Err(AppError::Other(String::from_str("No LCSC ID source specified")))
        }
    }

    /// The KiCad format that the options select.
    pub fn kicad_version(&self) -> (r: KicadVersion)
        ensures
            r == (if self.v5 { KicadVersion::V5 } else { KicadVersion::V6 }),
    {
        if self.v5 {
            KicadVersion::V5
        } else {
            KicadVersion::V6
        }
    }
}

} // verus!
