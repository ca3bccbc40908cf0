//! A parser interface generic in its report and error types.
use vstd::prelude::*;

verus! {

/// A parser that reads a report of type `R` from a file or from its text,
/// failing with an error of type `E`.
pub trait GeneralReportParser<R, E> {
    fn parse_from_file(&self, file_path: String) -> Result<R, E>;

    fn parse_from_contents(&self, contents: String) -> Result<R, E>;
}

} // verus!
