//! Audit records: the structured line appended for every carved artefact,
//! and the metadata block written once at the start of the trail.

use vstd::prelude::*;

use crate::digits::{dec_string, hex_string, spec_dec, spec_hex};

verus! {

/// The interesting data to know for each artefact.
#[derive(Debug)]
pub struct AuditData {
    /// The artefact's file name.
    pub artefact: String,
    /// Starting offset in the image file.
    pub offset_start: u64,
    /// End offset in the image file.
    pub offset_end: u64,
    /// The artefact's length.
    pub length: u64,
}

/// The text of an artefact's audit line:
/// `<name>: <start>-<end> (0x<start>-0x<end>) <length>` and a newline,
/// offsets decimal then uppercase hexadecimal.
pub open spec fn spec_audit_line(
    artefact: Seq<char>,
    start: int,
    end: int,
    length: int,
) -> Seq<char> {
    artefact + ": "@ + spec_dec(start) + "-"@ + spec_dec(end) + " (0x"@ + spec_hex(start) + "-0x"@
        + spec_hex(end) + ") "@ + spec_dec(length) + "\n"@
}

impl AuditData {
    /// The record's audit line.
    pub fn line(&self) -> (r: String)
        ensures
            r@ == spec_audit_line(
                self.artefact@,
                self.offset_start as int,
                self.offset_end as int,
                self.length as int,
            ),
    {
        let mut s = self.artefact.clone();
        s.append(": ");
        s.append(dec_string(self.offset_start).as_str());
        s.append("-");
        s.append(dec_string(self.offset_end).as_str());
        s.append(" (0x");
        s.append(hex_string(self.offset_start).as_str());
        s.append("-0x");
        s.append(hex_string(self.offset_end).as_str());
        s.append(") ");
        s.append(dec_string(self.length).as_str());
        s.append("\n");
        s
    }
}

/// The text of the metadata block: the input's name and total length.
pub open spec fn spec_metadata_line(name: Seq<char>, length: int) -> Seq<char> {
    "image name: "@ + name + ", file length: "@ + spec_dec(length) + "\n\n"@
}

/// The metadata block recording the input file's name and length.
pub fn metadata_line(name: &str, length: usize) -> (r: String)
    ensures
        r@ == spec_metadata_line(name@, length as int),
{
    let mut s = "image name: ".to_owned();
    s.append(name);
    s.append(", file length: ");
    s.append(dec_string(length as u64).as_str());
    s.append("\n\n");
    s
}

} // verus!
