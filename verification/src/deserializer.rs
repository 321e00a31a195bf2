//! The byte cursor and the deserializer contract.
//!
//! A [`Cursor`] is a `{bytes, position}` pair over a borrowed byte slice; it
//! exposes bounded big- and little-endian primitive reads.  Every format
//! parser implements [`Deserializer`]: a single `deserialize` operation that
//! consumes bytes from a cursor and either produces a parsed value, rejects
//! the bytes as structurally invalid, or fails because the data ends too
//! early.  The outcome is pinned, byte for byte, by the parser's
//! `spec_parse` function.

use vstd::prelude::*;

verus! {

/// How a bounded read or a parse can go wrong.
///
/// `UnexpectedEof` means the candidate ends before its declared structure
/// completes and aborts the current carve; `InvalidData` is a structural
/// rejection by a parser and is recoverable at the strategy layer.
#[derive(Clone, Copy, Debug, PartialEq, Eq, Structural)]
pub enum IoErrorKind {
    UnexpectedEof,
    InvalidData,
}

/// Little-endian value of the two bytes of `s` at `i`.
pub open spec fn le16(s: Seq<u8>, i: int) -> int {
    s[i] + 0x100 * s[i + 1]
}

/// Little-endian value of the four bytes of `s` at `i`.
pub open spec fn le32(s: Seq<u8>, i: int) -> int {
    le16(s, i) + 0x10000 * le16(s, i + 2)
}

/// Little-endian value of the eight bytes of `s` at `i`.
pub open spec fn le64(s: Seq<u8>, i: int) -> int {
    le32(s, i) + 0x1_0000_0000 * le32(s, i + 4)
}

/// Big-endian value of the two bytes of `s` at `i`.
pub open spec fn be16(s: Seq<u8>, i: int) -> int {
    0x100 * s[i] + s[i + 1]
}

/// Big-endian value of the four bytes of `s` at `i`.
pub open spec fn be32(s: Seq<u8>, i: int) -> int {
    0x10000 * be16(s, i) + be16(s, i + 2)
}

/// Big-endian value of the eight bytes of `s` at `i`.
pub open spec fn be64(s: Seq<u8>, i: int) -> int {
    0x1_0000_0000 * be32(s, i) + be32(s, i + 4)
}

/// Index of the first occurrence of `b` in `s` at or after `from`.
pub open spec fn spec_find(s: Seq<u8>, from: int, b: u8) -> Option<int>
    decreases s.len() - from,
{
    if from < 0 || from >= s.len() {
        None
    } else if s[from] == b {
        Some(from)
    } else {
        spec_find(s, from + 1, b)
    }
}

/// A stateful byte reader over a borrowed slice.
///
/// The position never passes the end of the data; an explicit
/// [`Cursor::set_position`] past the end is clamped there, where every
/// further bounded read fails with `UnexpectedEof`.
pub struct Cursor<'a> {
    pub bytes: &'a [u8],
    pub pos: usize,
}

impl<'a> Cursor<'a> {
    /// The bytes the cursor reads from.
    pub open spec fn data(self) -> Seq<u8> {
        self.bytes@
    }

    /// The current read position.
    pub open spec fn spec_position(self) -> int {
        self.pos as int
    }

    /// The position is within the data.
    pub open spec fn wf(self) -> bool {
        self.pos as int <= self.bytes@.len()
    }

    pub fn new(bytes: &'a [u8]) -> (r: Cursor<'a>)
        ensures
            r.wf(),
            r.data() == bytes@,
            r.spec_position() == 0,
    {
        Cursor { bytes, pos: 0 }
    }

    pub fn position(&self) -> (r: usize)
        ensures
            r == self.spec_position(),
    {
        self.pos
    }

    /// Move the cursor; a target past the end of the data is clamped there.
    pub fn set_position(&mut self, pos: usize)
        requires
            old(self).wf(),
        ensures
            final(self).wf(),
            final(self).data() == old(self).data(),
            final(self).spec_position() == if pos as int <= old(self).data().len() {
                pos as int
            } else {
                old(self).data().len() as int
            },
    {
        if pos <= self.bytes.len() {
            self.pos = pos;
        } else {
            self.pos = self.bytes.len();
        }
    }

    /// How many bytes the data holds in all.
    pub fn data_len(&self) -> (r: usize)
        ensures
            r == self.data().len(),
    {
        self.bytes.len()
    }

    /// How many bytes remain before the end of the data.
    pub fn remaining(&self) -> (r: usize)
        requires
            self.wf(),
        ensures
            r == self.data().len() - self.spec_position(),
    {
        self.bytes.len() - self.pos
    }

    pub fn read_u8(&mut self) -> (r: Result<u8, IoErrorKind>)
        requires
            old(self).wf(),
        ensures
            final(self).wf(),
            final(self).data() == old(self).data(),
            if old(self).spec_position() + 1 <= old(self).data().len() {
                &&& r matches Ok(v) && v == old(self).data()[old(self).spec_position()]
                &&& final(self).spec_position() == old(self).spec_position() + 1
            } else {
                &&& r == Err::<u8, IoErrorKind>(IoErrorKind::UnexpectedEof)
                &&& *final(self) == *old(self)
            },
    {
        if self.pos < self.bytes.len() {
            let b: u8 = self.bytes[self.pos];
            self.pos = self.pos + 1;
            Ok(b)
        } else {
            Err(IoErrorKind::UnexpectedEof)
        }
    }

    pub fn read_u16_le(&mut self) -> (r: Result<u16, IoErrorKind>)
        requires
            old(self).wf(),
        ensures
            final(self).wf(),
            final(self).data() == old(self).data(),
            if old(self).spec_position() + 2 <= old(self).data().len() {
                &&& r matches Ok(v) && v == le16(old(self).data(), old(self).spec_position())
                &&& final(self).spec_position() == old(self).spec_position() + 2
            } else {
                &&& r == Err::<u16, IoErrorKind>(IoErrorKind::UnexpectedEof)
                &&& *final(self) == *old(self)
            },
    {
        if self.bytes.len() - self.pos >= 2 {
            let b0 = self.bytes[self.pos];
            let b1 = self.bytes[self.pos + 1];
            self.pos = self.pos + 2;
            Ok(b0 as u16 + 0x100 * b1 as u16)
        } else {
            Err(IoErrorKind::UnexpectedEof)
        }
    }

    pub fn read_u16_be(&mut self) -> (r: Result<u16, IoErrorKind>)
        requires
            old(self).wf(),
        ensures
            final(self).wf(),
            final(self).data() == old(self).data(),
            if old(self).spec_position() + 2 <= old(self).data().len() {
                &&& r matches Ok(v) && v == be16(old(self).data(), old(self).spec_position())
                &&& final(self).spec_position() == old(self).spec_position() + 2
            } else {
                &&& r == Err::<u16, IoErrorKind>(IoErrorKind::UnexpectedEof)
                &&& *final(self) == *old(self)
            },
    {
        if self.bytes.len() - self.pos >= 2 {
            let b0 = self.bytes[self.pos];
            let b1 = self.bytes[self.pos + 1];
            self.pos = self.pos + 2;
            Ok(0x100 * b0 as u16 + b1 as u16)
        } else {
            Err(IoErrorKind::UnexpectedEof)
        }
    }

    pub fn read_u32_le(&mut self) -> (r: Result<u32, IoErrorKind>)
        requires
            old(self).wf(),
        ensures
            final(self).wf(),
            final(self).data() == old(self).data(),
            if old(self).spec_position() + 4 <= old(self).data().len() {
                &&& r matches Ok(v) && v == le32(old(self).data(), old(self).spec_position())
                &&& final(self).spec_position() == old(self).spec_position() + 4
            } else {
                &&& r == Err::<u32, IoErrorKind>(IoErrorKind::UnexpectedEof)
                &&& *final(self) == *old(self)
            },
    {
        if self.bytes.len() - self.pos >= 4 {
            let b0 = self.bytes[self.pos];
            let b1 = self.bytes[self.pos + 1];
            let b2 = self.bytes[self.pos + 2];
            let b3 = self.bytes[self.pos + 3];
            self.pos = self.pos + 4;
            Ok(b0 as u32 + 0x100 * b1 as u32 + 0x10000 * b2 as u32 + 0x100_0000 * b3 as u32)
        } else {
            Err(IoErrorKind::UnexpectedEof)
        }
    }

    pub fn read_u32_be(&mut self) -> (r: Result<u32, IoErrorKind>)
        requires
            old(self).wf(),
        ensures
            final(self).wf(),
            final(self).data() == old(self).data(),
            if old(self).spec_position() + 4 <= old(self).data().len() {
                &&& r matches Ok(v) && v == be32(old(self).data(), old(self).spec_position())
                &&& final(self).spec_position() == old(self).spec_position() + 4
            } else {
                &&& r == Err::<u32, IoErrorKind>(IoErrorKind::UnexpectedEof)
                &&& *final(self) == *old(self)
            },
    {
        if self.bytes.len() - self.pos >= 4 {
            let b0 = self.bytes[self.pos];
            let b1 = self.bytes[self.pos + 1];
            let b2 = self.bytes[self.pos + 2];
            let b3 = self.bytes[self.pos + 3];
            self.pos = self.pos + 4;
            Ok(0x100_0000 * b0 as u32 + 0x10000 * b1 as u32 + 0x100 * b2 as u32 + b3 as u32)
        } else {
            Err(IoErrorKind::UnexpectedEof)
        }
    }

    pub fn read_u64_le(&mut self) -> (r: Result<u64, IoErrorKind>)
        requires
            old(self).wf(),
        ensures
            final(self).wf(),
            final(self).data() == old(self).data(),
            if old(self).spec_position() + 8 <= old(self).data().len() {
                &&& r matches Ok(v) && v == le64(old(self).data(), old(self).spec_position())
                &&& final(self).spec_position() == old(self).spec_position() + 8
            } else {
                &&& r == Err::<u64, IoErrorKind>(IoErrorKind::UnexpectedEof)
                &&& *final(self) == *old(self)
            },
    {
        if self.bytes.len() - self.pos >= 8 {
            let lo = self.read_u32_le().unwrap();
            let hi = self.read_u32_le().unwrap();
            Ok(lo as u64 + 0x1_0000_0000 * hi as u64)
        } else {
            Err(IoErrorKind::UnexpectedEof)
        }
    }

    pub fn read_u64_be(&mut self) -> (r: Result<u64, IoErrorKind>)
        requires
            old(self).wf(),
        ensures
            final(self).wf(),
            final(self).data() == old(self).data(),
            if old(self).spec_position() + 8 <= old(self).data().len() {
                &&& r matches Ok(v) && v == be64(old(self).data(), old(self).spec_position())
                &&& final(self).spec_position() == old(self).spec_position() + 8
            } else {
                &&& r == Err::<u64, IoErrorKind>(IoErrorKind::UnexpectedEof)
                &&& *final(self) == *old(self)
            },
    {
        if self.bytes.len() - self.pos >= 8 {
            let hi = self.read_u32_be().unwrap();
            let lo = self.read_u32_be().unwrap();
            Ok(0x1_0000_0000 * hi as u64 + lo as u64)
        } else {
            Err(IoErrorKind::UnexpectedEof)
        }
    }

    /// Bounded read of exactly four bytes, as a FourCC tag is.
    pub fn read_exact_4(&mut self) -> (r: Result<[u8; 4], IoErrorKind>)
        requires
            old(self).wf(),
        ensures
            final(self).wf(),
            final(self).data() == old(self).data(),
            if old(self).spec_position() + 4 <= old(self).data().len() {
                &&& r matches Ok(v) && v@ == old(self).data().subrange(
                    old(self).spec_position(),
                    old(self).spec_position() + 4,
                )
                &&& final(self).spec_position() == old(self).spec_position() + 4
            } else {
                &&& r == Err::<[u8; 4], IoErrorKind>(IoErrorKind::UnexpectedEof)
                &&& *final(self) == *old(self)
            },
    {
        if self.bytes.len() - self.pos >= 4 {
            let b0 = self.bytes[self.pos];
            let b1 = self.bytes[self.pos + 1];
            let b2 = self.bytes[self.pos + 2];
            let b3 = self.bytes[self.pos + 3];
            self.pos = self.pos + 4;
            let out: [u8; 4] = [b0, b1, b2, b3];
            proof {
                assert(out@ =~= old(self).data().subrange(
                    old(self).spec_position(),
                    old(self).spec_position() + 4,
                ));
            }
            Ok(out)
        } else {
            Err(IoErrorKind::UnexpectedEof)
        }
    }

    /// Bounded read of exactly `n` bytes; when fewer remain, the cursor
    /// stays put and the read fails.
    pub fn read_exact(&mut self, n: usize) -> (r: Result<Vec<u8>, IoErrorKind>)
        requires
            old(self).wf(),
        ensures
            final(self).wf(),
            final(self).data() == old(self).data(),
            if old(self).spec_position() + n <= old(self).data().len() {
                &&& r matches Ok(v) && v@ == old(self).data().subrange(
                    old(self).spec_position(),
                    old(self).spec_position() + n,
                )
                &&& final(self).spec_position() == old(self).spec_position() + n
            } else {
                &&& r == Err::<Vec<u8>, IoErrorKind>(IoErrorKind::UnexpectedEof)
                &&& *final(self) == *old(self)
            },
    {
        let dlen = self.bytes.len();
        if dlen - self.pos < n {
            return Err(IoErrorKind::UnexpectedEof);
        }
        let mut out: Vec<u8> = Vec::new();
        let mut k: usize = 0;
        while k < n
            invariant
                self.wf(),
                self.pos == old(self).pos,
                self.bytes@ == old(self).data(),
                dlen == self.bytes@.len(),
                self.pos + n <= dlen,
                k <= n,
                out@ == self.bytes@.subrange(self.pos as int, self.pos + k),
            decreases n - k,
        {
            out.push(self.bytes[self.pos + k]);
            k = k + 1;
            proof {
                assert(out@ =~= self.bytes@.subrange(self.pos as int, self.pos + k));
            }
        }
        self.pos = self.pos + n;
        Ok(out)
    }

    /// Consume bytes up to and including the first occurrence of `delim`;
    /// when the data ends first, consume up to the end.  Either way the
    /// number of bytes consumed is returned.
    pub fn read_until(&mut self, delim: u8) -> (r: usize)
        requires
            old(self).wf(),
        ensures
            final(self).wf(),
            final(self).data() == old(self).data(),
            match spec_find(old(self).data(), old(self).spec_position(), delim) {
                Some(i) => {
                    &&& final(self).spec_position() == i + 1
                    &&& r == i + 1 - old(self).spec_position()
                },
                None => {
                    &&& final(self).spec_position() == old(self).data().len()
                    &&& r == old(self).data().len() - old(self).spec_position()
                },
            },
    {
        let start = self.pos;
        loop
            invariant_except_break
                spec_find(self.bytes@, start as int, delim) == spec_find(
                    self.bytes@,
                    self.pos as int,
                    delim,
                ),
            invariant
                self.wf(),
                self.bytes@ == old(self).data(),
                start <= self.pos <= self.bytes@.len(),
                start == old(self).spec_position(),
            ensures
                self.wf(),
                self.bytes@ == old(self).data(),
                match spec_find(self.bytes@, start as int, delim) {
                    Some(i) => self.pos == i + 1,
                    None => self.pos == self.bytes@.len(),
                },
            decreases self.bytes@.len() - self.pos,
        {
            if self.pos >= self.bytes.len() {
                break;
            }
            let b = self.bytes[self.pos];
            self.pos = self.pos + 1;
            if b == delim {
                proof {
                    assert(spec_find(self.bytes@, self.pos - 1, delim) == Some(self.pos - 1));
                }
                break;
            }
        }
        self.pos - start
    }
}

/// The outcome of parsing one structure at one position, determined by the
/// bytes alone.
pub enum SpecParse<T> {
    /// A value was parsed; the cursor stands at `next` and `deserialize`
    /// reported `count` bytes read.
    Parsed { value: T, next: int, count: int },
    /// The bytes were structurally rejected (`InvalidData`); the cursor
    /// stands at `next`.
    Rejected { next: int },
    /// The data ends before the structure completes (`UnexpectedEof`).
    Failed,
}

/// A format parser: one `deserialize` operation over a byte cursor, whose
/// outcome is pinned by the parser's `spec_parse` function.
pub trait Deserializer: Sized {
    /// What parsing the bytes at `pos` yields.
    spec fn spec_parse(bytes: Seq<u8>, pos: int) -> SpecParse<Self>;

    /// Parsing always moves forward and never places the cursor past the end
    /// of the data.
    proof fn lemma_parse_advances(bytes: Seq<u8>, pos: int)
        requires
            0 <= pos <= bytes.len(),
        ensures
            match Self::spec_parse(bytes, pos) {
                SpecParse::Parsed { next, .. } => pos < next <= bytes.len(),
                SpecParse::Rejected { next } => pos < next <= bytes.len(),
                SpecParse::Failed => true,
            },
    ;

    /// Parse one structure from the cursor, overwriting `self` with the
    /// parsed value on success and reporting how many bytes were read.
    fn deserialize(&mut self, buffer: &mut Cursor<'_>) -> (r: Result<usize, IoErrorKind>)
        requires
            old(buffer).wf(),
        ensures
            final(buffer).wf(),
            final(buffer).data() == old(buffer).data(),
            match r {
                Ok(n) => Self::spec_parse(old(buffer).data(), old(buffer).spec_position()) == (
                SpecParse::Parsed {
                    value: *final(self),
                    next: final(buffer).spec_position(),
                    count: n as int,
                }),
                Err(IoErrorKind::InvalidData) => Self::spec_parse(
                    old(buffer).data(),
                    old(buffer).spec_position(),
                ) == (SpecParse::<Self>::Rejected { next: final(buffer).spec_position() }),
                Err(IoErrorKind::UnexpectedEof) => Self::spec_parse(
                    old(buffer).data(),
                    old(buffer).spec_position(),
                ) is Failed,
            },
    ;
}

} // verus!
