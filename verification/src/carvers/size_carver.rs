//! The size-carve strategy: read one header, validate it, take as many
//! bytes as the header declares.

use vstd::prelude::*;

use crate::carvers::CarvingResult;
use crate::deserializer::{Cursor, Deserializer, SpecParse};
use crate::filetypes::corpus::FileType;

verus! {

/// What a size-carved format's header parser exposes to the strategy.
pub trait SizeCarver {
    /// The full file size the parsed header declares.
    spec fn spec_size(&self) -> int;

    /// Whether the parsed header passes the format's sanity checks.
    spec fn spec_genuine(&self) -> bool;

    /// The format's extension.
    spec fn spec_ext() -> Seq<char>;

    /// Size of the file we are trying to carve.
    fn size(&self) -> (r: usize)
        ensures
            r == self.spec_size(),
    ;

    /// Whether what we are carving out could be a genuine file.
    fn is_genuine(&self) -> (r: bool)
        ensures
            r == self.spec_genuine(),
    ;

    /// The file extension of what we are trying to carve.
    fn ext(&self) -> (r: String)
        ensures
            r@ == Self::spec_ext(),
    ;
}

/// The payload length a size-carve of `T` on `bytes` yields; `0` when
/// nothing is carved.  A header is carved exactly when it parses, is
/// genuine, and declares a size between `min_size` and the buffer's
/// length.  A declared size of zero is never carved: a zero result is
/// itself the "no carving occurred" signal, so an empty payload produces
/// no file and no record.
pub open spec fn spec_size_carve<T: SizeCarver + Deserializer>(
    bytes: Seq<u8>,
    min_size: int,
) -> int {
    match T::spec_parse(bytes, 0) {
        SpecParse::Parsed { value, .. } => if value.spec_genuine() && value.spec_size() >= min_size
            && value.spec_size() <= bytes.len() {
            value.spec_size()
        } else {
            0
        },
        _ => 0,
    }
}

/// Carve when the file header contains the file size: parse a `T` header at
/// the start of `mmap` and, when it is genuine and its declared size lies
/// within bounds, take that many bytes.  A genuine header declaring size
/// zero yields the empty result, never an empty file.
pub fn carve_using_size<T: SizeCarver + Deserializer + Default>(
    mmap: &[u8],
    ft: &FileType,
) -> (r: CarvingResult)
    ensures
        r.length == spec_size_carve::<T>(mmap@, ft.min_size as int),
        r.offset == r.length,
        r.file_name is None,
        r.length <= mmap@.len(),
{
    let mut header = T::default();
    let mut cursor = Cursor::new(mmap);
    let parsed = header.deserialize(&mut cursor);
    if parsed.is_err() {
        return CarvingResult::default();
    }
    if header.is_genuine() {
        let n = header.size();
        // the file is too small or overruns the buffer, so forget it
        if n < ft.min_size || n > mmap.len() {
            return CarvingResult::default();
        }
        CarvingResult { offset: n as u64, file_name: None, length: n }
    } else {
        CarvingResult::default()
    }
}

} // verus!
