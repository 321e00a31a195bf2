//! The carving strategies and what a carve attempt reports.

use vstd::prelude::*;

pub mod fourcc_carver;
pub mod size_carver;

verus! {

/// What one carve attempt on a magic match produced.
///
/// `offset == 0` signals that no carving occurred.  Otherwise `offset` and
/// `length` both equal the carved payload's byte length, counted from the
/// match offset.
#[derive(Debug)]
pub struct CarvingResult {
    /// How many bytes past the match offset the carve consumed.
    pub offset: u64,
    /// The artefact's file name, once the output manager has assigned one.
    pub file_name: Option<String>,
    /// The payload length.
    pub length: usize,
}

impl CarvingResult {
    /// A result that carries an artefact name.
    pub fn new(offset: u64, file_name: &str, length: usize) -> (r: Self)
        ensures
            r.offset == offset,
            r.file_name matches Some(n) && n@ == file_name@,
            r.length == length,
    {
        Self { offset, file_name: Some(file_name.to_owned()), length }
    }

}

impl Default for CarvingResult {
    fn default() -> (r: Self)
        ensures
            r.offset == 0,
            r.file_name is None,
            r.length == 0,
    {
        Self { offset: 0, file_name: None, length: 0 }
    }
}

} // verus!
