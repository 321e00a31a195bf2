//! The PNG parsers: an 8-byte signature header, then length-prefixed
//! chunks, each a big-endian length, a four-byte type, the data and a CRC,
//! until the `IEND` chunk.

use vstd::prelude::*;

use crate::carvers::fourcc_carver::FourCCCarver;
use crate::deserializer::{be32, be64, Cursor, Deserializer, IoErrorKind, SpecParse};

verus! {

/// The 8-byte PNG signature, read as one big-endian value.
#[derive(Debug)]
pub struct PNGHeader {
    /// The signature bytes.
    pub signature: u64,
}

impl Default for PNGHeader {
    fn default() -> (r: Self)
        ensures
            r == (PNGHeader { signature: 0u64 }),
    {
        PNGHeader { signature: 0 }
    }
}

impl Deserializer for PNGHeader {
    open spec fn spec_parse(bytes: Seq<u8>, pos: int) -> SpecParse<PNGHeader> {
        if pos + 8 <= bytes.len() {
            SpecParse::Parsed {
                value: PNGHeader { signature: be64(bytes, pos) as u64 },
                next: pos + 8,
                count: 8,
            }
        } else {
            SpecParse::Failed
        }
    }

    proof fn lemma_parse_advances(bytes: Seq<u8>, pos: int) {
    }

    fn deserialize(&mut self, buffer: &mut Cursor<'_>) -> Result<usize, IoErrorKind> {
        let signature = match buffer.read_u64_be() {
            Ok(v) => v,
            Err(e) => { return Err(e); },
        };
        *self = PNGHeader { signature };
        Ok(8)
    }
}

/// Whether the four bytes of `t` are `a b c d`.
pub open spec fn tag_eq(t: [u8; 4], a: u8, b: u8, c: u8, d: u8) -> bool {
    t[0] == a && t[1] == b && t[2] == c && t[3] == d
}

/// Compare a four-byte tag with four literal bytes.
fn eq4(t: &[u8; 4], a: u8, b: u8, c: u8, d: u8) -> (r: bool)
    ensures
        r == tag_eq(*t, a, b, c, d),
{
    t[0] == a && t[1] == b && t[2] == c && t[3] == d
}

/// A chunk type is given by just four bytes.
#[derive(Debug)]
pub struct ChunkType(pub [u8; 4]);

/// The chunk type the four bytes of `bytes` at `pos` hold.
pub open spec fn spec_chunk_type_at(bytes: Seq<u8>, pos: int) -> ChunkType {
    ChunkType([bytes[pos], bytes[pos + 1], bytes[pos + 2], bytes[pos + 3]])
}

impl ChunkType {
    /// Whether the tag is one of the chunk types the walker recognizes.
    pub open spec fn spec_is_valid(&self) -> bool {
        ||| tag_eq(self.0, 0x49, 0x48, 0x44, 0x52)  // IHDR
        ||| tag_eq(self.0, 0x50, 0x4C, 0x54, 0x45)  // PLTE
        ||| tag_eq(self.0, 0x49, 0x44, 0x41, 0x54)  // IDAT
        ||| tag_eq(self.0, 0x49, 0x45, 0x4E, 0x44)  // IEND
        ||| tag_eq(self.0, 0x74, 0x45, 0x58, 0x74)  // tEXt
        ||| tag_eq(self.0, 0x69, 0x54, 0x58, 0x74)  // iTXt
        ||| tag_eq(self.0, 0x74, 0x49, 0x4D, 0x45)  // tIME
        ||| tag_eq(self.0, 0x67, 0x41, 0x4D, 0x41)  // gAMA
        ||| tag_eq(self.0, 0x73, 0x52, 0x47, 0x42)  // sRGB
        ||| tag_eq(self.0, 0x69, 0x43, 0x43, 0x50)  // iCCP
        ||| tag_eq(self.0, 0x70, 0x48, 0x59, 0x73)  // pHYs
    }

    /// Not every four-byte array is a chunk type the walker recognizes.
    pub fn is_valid(&self) -> (r: bool)
        ensures
            r == self.spec_is_valid(),
    {
        eq4(&self.0, 0x49, 0x48, 0x44, 0x52) || eq4(&self.0, 0x50, 0x4C, 0x54, 0x45) || eq4(
            &self.0,
            0x49,
            0x44,
            0x41,
            0x54,
        ) || eq4(&self.0, 0x49, 0x45, 0x4E, 0x44) || eq4(&self.0, 0x74, 0x45, 0x58, 0x74) || eq4(
            &self.0,
            0x69,
            0x54,
            0x58,
            0x74,
        ) || eq4(&self.0, 0x74, 0x49, 0x4D, 0x45) || eq4(&self.0, 0x67, 0x41, 0x4D, 0x41) || eq4(
            &self.0,
            0x73,
            0x52,
            0x47,
            0x42,
        ) || eq4(&self.0, 0x69, 0x43, 0x43, 0x50) || eq4(&self.0, 0x70, 0x48, 0x59, 0x73)
    }

    /// The tag's bytes.
    pub fn as_bytes(&self) -> (r: [u8; 4])
        ensures
            r == self.0,
    {
        self.0
    }
}

impl Default for ChunkType {
    fn default() -> (r: Self)
        ensures
            r == (ChunkType([0u8, 0u8, 0u8, 0u8])),
    {
        ChunkType([0, 0, 0, 0])
    }
}

impl Deserializer for ChunkType {
    open spec fn spec_parse(bytes: Seq<u8>, pos: int) -> SpecParse<ChunkType> {
        if pos + 4 <= bytes.len() {
            SpecParse::Parsed { value: spec_chunk_type_at(bytes, pos), next: pos + 4, count: 4 }
        } else {
            SpecParse::Failed
        }
    }

    proof fn lemma_parse_advances(bytes: Seq<u8>, pos: int) {
    }

    fn deserialize(&mut self, buffer: &mut Cursor<'_>) -> Result<usize, IoErrorKind> {
        let tag = match buffer.read_exact_4() {
            Ok(v) => v,
            Err(e) => { return Err(e); },
        };
        *self = ChunkType(tag);
        proof {
            assert(tag =~= spec_chunk_type_at(old(buffer).data(), old(buffer).spec_position()).0);
        }
        Ok(4)
    }
}

/// One PNG chunk: its data length and its type; the walker skips the data
/// and the CRC without reading them.
#[derive(Debug)]
pub struct PNGChunk {
    /// Length of the chunk data, big-endian.
    pub length: u32,
    /// ASCII letters defining the chunk type.
    pub chunk_type: ChunkType,
}

impl Default for PNGChunk {
    fn default() -> (r: Self)
        ensures
            r == (PNGChunk { length: 0u32, chunk_type: ChunkType([0u8, 0u8, 0u8, 0u8]) }),
    {
        PNGChunk { length: 0, chunk_type: ChunkType([0, 0, 0, 0]) }
    }
}

impl Deserializer for PNGChunk {
    open spec fn spec_parse(bytes: Seq<u8>, pos: int) -> SpecParse<PNGChunk> {
        if pos + 8 > bytes.len() {
            SpecParse::Failed
        } else {
            let length = be32(bytes, pos);
            let ct = spec_chunk_type_at(bytes, pos + 4);
            if !ct.spec_is_valid() {
                SpecParse::Rejected { next: pos + 8 }
            } else {
                let next = if pos + 8 + length + 4 <= bytes.len() {
                    pos + 8 + length + 4
                } else {
                    bytes.len() as int
                };
                SpecParse::Parsed {
                    value: PNGChunk { length: length as u32, chunk_type: ct },
                    next,
                    count: next - pos,
                }
            }
        }
    }

    proof fn lemma_parse_advances(bytes: Seq<u8>, pos: int) {
    }

    fn deserialize(&mut self, buffer: &mut Cursor<'_>) -> Result<usize, IoErrorKind> {
        let length = match buffer.read_u32_be() {
            Ok(v) => v,
            Err(e) => { return Err(e); },
        };
        let mut chunk_type = ChunkType::default();
        match chunk_type.deserialize(buffer) {
            Ok(_) => {},
            Err(e) => { return Err(e); },
        }

        // compare against the usual chunk types
        if !chunk_type.is_valid() {
            *self = PNGChunk { length, chunk_type };
            return Err(IoErrorKind::InvalidData);
        }

        *self = PNGChunk { length, chunk_type };

        // skip the chunk data and the CRC; report the bytes read, from
        // the chunk's first length byte to wherever the cursor lands
        let pos = buffer.position();
        let dlen = buffer.data_len();
        let start = pos - 8;
        if pos as u128 + length as u128 + 4 <= dlen as u128 {
            let next = pos + length as usize + 4;
            buffer.set_position(next);
            Ok(next - start)
        } else {
            buffer.set_position(dlen);
            Ok(dlen - start)
        }
    }
}

/// The chunks from `pos` on form a well-formed tail: each has a
/// recognized type and fits entirely within the file, and the `IEND`
/// chunk's last byte is the file's last.
pub open spec fn spec_png_chunks_to_end(f: Seq<u8>, pos: int) -> bool
    decreases f.len() - pos,
{
    if pos + 12 > f.len() {
        false
    } else {
        let length = be32(f, pos);
        if pos + 12 + length > f.len() {
            false
        } else {
            let ct = spec_chunk_type_at(f, pos + 4);
            &&& ct.spec_is_valid()
            &&& if tag_eq(ct.0, 0x49, 0x45, 0x4E, 0x44) {
                pos + 12 + length == f.len()
            } else {
                spec_png_chunks_to_end(f, pos + 12 + length)
            }
        }
    }
}

/// A well-formed PNG: the 8-byte signature, then chunks whose `IEND`
/// ends exactly at the file's last byte.
pub open spec fn spec_png_well_formed(f: Seq<u8>) -> bool {
    f.len() >= 8 && spec_png_chunks_to_end(f, 8)
}

/// On a well-formed chunk tail, the walk over the padded file never
/// leaves the file and stops exactly at its end, whatever the carving
/// method: no chunk is ever rejected on the way.
proof fn lemma_png_walk_extend(
    f: Seq<u8>,
    rest: Seq<u8>,
    pos: int,
    method: crate::filetypes::corpus::CarvingMethod,
    max_size: int,
    fuel: nat,
)
    requires
        0 <= pos,
        spec_png_chunks_to_end(f, pos),
        f.len() <= max_size,
        fuel > f.len() - pos,
    ensures
        crate::carvers::fourcc_carver::spec_fourcc_walk::<PNGChunk>(
            f + rest,
            pos,
            method,
            max_size,
            fuel,
        ) == Some(f.len() as int),
    decreases f.len() - pos,
{
    let b = f + rest;
    let length = be32(f, pos);
    let ct = spec_chunk_type_at(f, pos + 4);
    assert(be32(b, pos) == length);
    assert(ct == spec_chunk_type_at(b, pos + 4));
    let next = pos + 12 + length;
    assert(PNGChunk::spec_parse(b, pos) == (SpecParse::Parsed {
        value: PNGChunk { length: length as u32, chunk_type: ct },
        next,
        count: next - pos,
    }));
    if tag_eq(ct.0, 0x49, 0x45, 0x4E, 0x44) {
        assert(next == f.len());
    } else {
        lemma_png_walk_extend(f, rest, next, method, max_size, (fuel - 1) as nat);
    }
}

/// A well-formed PNG padded with arbitrary bytes on the right carves
/// back byte-exact: the walk stops at `IEND` and takes exactly the
/// file's bytes.
pub proof fn lemma_png_round_trip(
    f: Seq<u8>,
    rest: Seq<u8>,
    min_size: int,
    max_size: int,
    method: crate::filetypes::corpus::CarvingMethod,
)
    requires
        spec_png_well_formed(f),
        min_size <= f.len() <= max_size,
    ensures
        crate::carvers::fourcc_carver::spec_fourcc_carve::<PNGHeader, PNGChunk>(
            f + rest,
            min_size,
            max_size,
            method,
        ) == f.len(),
        (f + rest).subrange(0, f.len() as int) == f,
{
    let b = f + rest;
    assert(PNGHeader::spec_parse(b, 0) matches SpecParse::Parsed { next, .. } && next == 8);
    lemma_png_walk_extend(f, rest, 8, method, max_size, (b.len() + 1) as nat);
    assert(b.subrange(0, f.len() as int) =~= f);
}

/// A well-formed PNG whose `IEND` ends at the buffer's very last byte
/// carves successfully and whole: nothing need follow the file for the
/// walk to find its end.
pub proof fn lemma_png_iend_at_end(
    f: Seq<u8>,
    min_size: int,
    max_size: int,
    method: crate::filetypes::corpus::CarvingMethod,
)
    requires
        spec_png_well_formed(f),
        min_size <= f.len() <= max_size,
    ensures
        crate::carvers::fourcc_carver::spec_fourcc_carve::<PNGHeader, PNGChunk>(
            f,
            min_size,
            max_size,
            method,
        ) == f.len(),
{
    lemma_png_round_trip(f, Seq::empty(), min_size, max_size, method);
    assert(f + Seq::<u8>::empty() =~= f);
}

impl FourCCCarver for PNGChunk {
    open spec fn spec_is_end(&self) -> bool {
        tag_eq(self.chunk_type.0, 0x49, 0x45, 0x4E, 0x44)
    }

    fn is_end(&self) -> bool {
        eq4(&self.chunk_type.0, 0x49, 0x45, 0x4E, 0x44)
    }
}

} // verus!
