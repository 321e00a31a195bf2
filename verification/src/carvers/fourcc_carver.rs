//! The FourCC-carve strategy: after the signature, walk chunk by chunk
//! until the format's end marker, bounded by the file type's maximum size.

use vstd::prelude::*;

use crate::carvers::CarvingResult;
use crate::deserializer::{Cursor, Deserializer, IoErrorKind, SpecParse};
use crate::filetypes::corpus::{CarvingMethod, FileType};

verus! {

/// What a chunked format's chunk parser exposes to the strategy.
pub trait FourCCCarver {
    /// Whether the parsed chunk is the format's final one.
    spec fn spec_is_end(&self) -> bool;

    /// Test whether we met the final chunk.
    fn is_end(&self) -> (r: bool)
        ensures
            r == self.spec_is_end(),
    ;
}

/// Where the chunk walk that starts at `pos` ends: the cursor position just
/// past the end marker, or `None` when the walk aborts.
///
/// A parsed chunk that leaves the cursor past `max_size` aborts the walk
/// whatever the method; a rejected chunk aborts it under `Strict` and
/// `Fancy` and is skipped under `Simple`; a read past the end of the data
/// always aborts.  `fuel` bounds the recursion; any amount above
/// `bytes.len() - pos` yields the same answer, as [`lemma_walk_fuel`]
/// states.
pub open spec fn spec_fourcc_walk<C: Deserializer + FourCCCarver>(
    bytes: Seq<u8>,
    pos: int,
    method: CarvingMethod,
    max_size: int,
    fuel: nat,
) -> Option<int>
    decreases fuel,
{
    if fuel == 0 {
        None
    } else {
        match C::spec_parse(bytes, pos) {
            SpecParse::Parsed { value, next, .. } => if next > max_size {
                None
            } else if value.spec_is_end() {
                Some(next)
            } else {
                spec_fourcc_walk::<C>(bytes, next, method, max_size, (fuel - 1) as nat)
            },
            SpecParse::Rejected { next } => match method {
                CarvingMethod::Strict => None,
                CarvingMethod::Fancy => None,
                CarvingMethod::Simple => if next > max_size {
                    None
                } else {
                    spec_fourcc_walk::<C>(bytes, next, method, max_size, (fuel - 1) as nat)
                },
            },
            SpecParse::Failed => None,
        }
    }
}

/// Fuel does not matter once it covers the bytes that remain: the walk
/// advances at every step, so it takes at most that many of them.
pub proof fn lemma_walk_fuel<C: Deserializer + FourCCCarver>(
    bytes: Seq<u8>,
    pos: int,
    method: CarvingMethod,
    max_size: int,
    f1: nat,
    f2: nat,
)
    requires
        0 <= pos <= bytes.len(),
        f1 > bytes.len() - pos,
        f2 > bytes.len() - pos,
    ensures
        spec_fourcc_walk::<C>(bytes, pos, method, max_size, f1) == spec_fourcc_walk::<C>(
            bytes,
            pos,
            method,
            max_size,
            f2,
        ),
    decreases f1,
{
    C::lemma_parse_advances(bytes, pos);
    match C::spec_parse(bytes, pos) {
        SpecParse::Parsed { value, next, .. } => {
            if next <= max_size && !value.spec_is_end() {
                lemma_walk_fuel::<C>(bytes, next, method, max_size, (f1 - 1) as nat, (f2
                    - 1) as nat);
            }
        },
        SpecParse::Rejected { next } => {
            if method is Simple && next <= max_size {
                lemma_walk_fuel::<C>(bytes, next, method, max_size, (f1 - 1) as nat, (f2
                    - 1) as nat);
            }
        },
        SpecParse::Failed => {},
    }
}

/// The payload length a FourCC-carve on `bytes` yields; `0` when nothing is
/// carved.  The header `H` is read once at the start; the walk of `C`
/// chunks then runs from wherever it leaves the cursor, and the payload is
/// everything up to where the walk ends, kept only when it reaches
/// `min_size`.
pub open spec fn spec_fourcc_carve<H: Deserializer, C: Deserializer + FourCCCarver>(
    bytes: Seq<u8>,
    min_size: int,
    max_size: int,
    method: CarvingMethod,
) -> int {
    match H::spec_parse(bytes, 0) {
        SpecParse::Parsed { next, .. } => match spec_fourcc_walk::<C>(
            bytes,
            next,
            method,
            max_size,
            (bytes.len() + 1) as nat,
        ) {
            Some(end) => if end >= min_size {
                end
            } else {
                0
            },
            None => 0,
        },
        _ => 0,
    }
}

/// Carve a chunked file: read the `H` header, then walk `C` chunks until
/// the end marker, the maximum size, or an error, as
/// [`spec_fourcc_carve`] lays down.
pub fn fourcc_carver<H: Deserializer + Default, C: Deserializer + FourCCCarver + Default>(
    mmap: &[u8],
    ft: &FileType,
) -> (r: CarvingResult)
    ensures
        r.length == spec_fourcc_carve::<H, C>(
            mmap@,
            ft.min_size as int,
            ft.max_size as int,
            ft.carving_method,
        ),
        r.offset == r.length,
        r.file_name is None,
        r.length <= mmap@.len(),
{
    let ghost full_fuel: nat = (mmap@.len() + 1) as nat;
    let ghost goal: int = spec_fourcc_carve::<H, C>(
        mmap@,
        ft.min_size as int,
        ft.max_size as int,
        ft.carving_method,
    );

    // read magic
    let mut header = H::default();
    let mut cursor = Cursor::new(mmap);
    let parsed = header.deserialize(&mut cursor);
    if parsed.is_err() {
        return CarvingResult::default();
    }

    let ghost start = cursor.spec_position();
    proof {
        lemma_walk_fuel::<C>(
            mmap@,
            start,
            ft.carving_method,
            ft.max_size as int,
            (mmap@.len() - start + 1) as nat,
            full_fuel,
        );
    }

    loop
        invariant_except_break
            spec_fourcc_walk::<C>(
                mmap@,
                cursor.spec_position(),
                ft.carving_method,
                ft.max_size as int,
                (mmap@.len() - cursor.spec_position() + 1) as nat,
            ) == spec_fourcc_walk::<C>(
                mmap@,
                start,
                ft.carving_method,
                ft.max_size as int,
                full_fuel,
            ),
        invariant
            cursor.wf(),
            cursor.data() == mmap@,
            full_fuel == mmap@.len() + 1,
            goal == spec_fourcc_carve::<H, C>(
                mmap@,
                ft.min_size as int,
                ft.max_size as int,
                ft.carving_method,
            ),
            match spec_fourcc_walk::<C>(
                mmap@,
                start,
                ft.carving_method,
                ft.max_size as int,
                full_fuel,
            ) {
                Some(end) => goal == if end >= ft.min_size {
                    end
                } else {
                    0
                },
                None => goal == 0,
            },
        ensures
            cursor.wf(),
            cursor.data() == mmap@,
            spec_fourcc_walk::<C>(mmap@, start, ft.carving_method, ft.max_size as int, full_fuel)
                == Some(cursor.spec_position()),
        decreases mmap@.len() - cursor.spec_position(),
    {
        let ghost pos_before = cursor.spec_position();
        let ghost fuel_before: nat = (mmap@.len() - pos_before + 1) as nat;
        proof {
            C::lemma_parse_advances(mmap@, pos_before);
        }
        let mut chunk = C::default();
        match chunk.deserialize(&mut cursor) {
            Ok(_) => {
                if cursor.position() > ft.max_size {
                    proof {
                        assert(spec_fourcc_walk::<C>(
                            mmap@,
                            pos_before,
                            ft.carving_method,
                            ft.max_size as int,
                            fuel_before,
                        ) is None);
                    }
                    return CarvingResult::default();
                }
                // did we find the end marker?
                if chunk.is_end() {
                    break;
                }
                proof {
                    lemma_walk_fuel::<C>(
                        mmap@,
                        cursor.spec_position(),
                        ft.carving_method,
                        ft.max_size as int,
                        (fuel_before - 1) as nat,
                        (mmap@.len() - cursor.spec_position() + 1) as nat,
                    );
                }
            },
            Err(e) => {
                match e {
                    // not really an I/O error: depending on the carving
                    // method, we stop here or continue
                    IoErrorKind::InvalidData => {
                        match ft.carving_method {
                            // halt whenever a chunk is not recognized
                            CarvingMethod::Strict => {
                                return CarvingResult::default();
                            },
                            // we continue till the end marker or the
                            // maximum length is reached
                            CarvingMethod::Simple => {
                                if cursor.position() > ft.max_size {
                                    proof {
                                        assert(spec_fourcc_walk::<C>(
                                            mmap@,
                                            pos_before,
                                            ft.carving_method,
                                            ft.max_size as int,
                                            fuel_before,
                                        ) is None);
                                    }
                                    return CarvingResult::default();
                                }
                                proof {
                                    lemma_walk_fuel::<C>(
                                        mmap@,
                                        cursor.spec_position(),
                                        ft.carving_method,
                                        ft.max_size as int,
                                        (fuel_before - 1) as nat,
                                        (mmap@.len() - cursor.spec_position() + 1) as nat,
                                    );
                                }
                            },
                            // we stop here
                            CarvingMethod::Fancy => {
                                return CarvingResult::default();
                            },
                        }
                    },
                    // here, a true end-of-data error
                    IoErrorKind::UnexpectedEof => {
                        return CarvingResult::default();
                    },
                }
            },
        }
    }

    // the cursor position is now the end of the file
    let n = cursor.position();

    // if the file we found is not big enough, do not consider it
    if n < ft.min_size {
        return CarvingResult::default();
    }

    CarvingResult { offset: n as u64, file_name: None, length: n }
}

} // verus!
