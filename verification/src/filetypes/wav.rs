//! The WAV header parser: a little-endian RIFF header whose `size` field
//! gives the file size less the leading eight bytes.

use vstd::prelude::*;

use crate::carvers::size_carver::SizeCarver;
use crate::deserializer::{le32, le64, Cursor, Deserializer, IoErrorKind, SpecParse};

verus! {

/// `RIFF`, little-endian.
pub const RIFF_MAGIC: u32 = 0x4646_4952;

/// `WAVEfmt `, little-endian.
pub const WAVE_FMT_ID: u64 = 0x2074_6d66_4556_4157;

/// The RIFF/WAVE header, all fields little-endian.
#[derive(Debug)]
pub struct WAV {
    /// Should be `RIFF`.
    pub magic: u32,
    /// File size less the leading eight bytes.
    pub size: u32,
    /// Should be `WAVEfmt `.
    pub id: u64,
    /// The `fmt ` chunk size.
    pub chunk_size: u32,
}

/// The header value that the 20 bytes of `bytes` at `pos` hold.
pub open spec fn spec_wav_at(bytes: Seq<u8>, pos: int) -> WAV {
    WAV {
        magic: le32(bytes, pos) as u32,
        size: le32(bytes, pos + 4) as u32,
        id: le64(bytes, pos + 8) as u64,
        chunk_size: le32(bytes, pos + 16) as u32,
    }
}

/// A well-formed WAV: at least the 20-byte header, a header that passes
/// the sanity checks, and a declared size that puts the file's end — the
/// RIFF length field excludes the leading eight bytes — at the file's own
/// length.
pub open spec fn spec_wav_well_formed(f: Seq<u8>) -> bool {
    &&& f.len() >= 20
    &&& f.len() <= usize::MAX
    &&& spec_wav_at(f, 0).spec_genuine()
    &&& spec_wav_at(f, 0).size + 8 == f.len()
}

/// A well-formed WAV padded with arbitrary bytes on the right carves
/// back byte-exact: the size-carve takes exactly the file's bytes.
pub proof fn lemma_wav_round_trip(f: Seq<u8>, rest: Seq<u8>, min_size: int)
    requires
        spec_wav_well_formed(f),
        min_size <= f.len(),
    ensures
        crate::carvers::size_carver::spec_size_carve::<WAV>(f + rest, min_size) == f.len(),
        (f + rest).subrange(0, f.len() as int) == f,
{
    let b = f + rest;
    assert(spec_wav_at(b, 0) == spec_wav_at(f, 0));
    assert(b.subrange(0, f.len() as int) =~= f);
}

impl Default for WAV {
    fn default() -> (r: Self)
        ensures
            r == (WAV { magic: 0u32, size: 0u32, id: 0u64, chunk_size: 0u32 }),
    {
        WAV { magic: 0, size: 0, id: 0, chunk_size: 0 }
    }
}

impl SizeCarver for WAV {
    open spec fn spec_size(&self) -> int {
        if self.size + 8 <= usize::MAX {
            self.size + 8
        } else {
            usize::MAX as int
        }
    }

    open spec fn spec_genuine(&self) -> bool {
        self.magic == RIFF_MAGIC && self.id == WAVE_FMT_ID && self.chunk_size < 255
    }

    open spec fn spec_ext() -> Seq<char> {
        "wav"@
    }

    fn size(&self) -> (r: usize)
    {
        if self.size as u64 + 8 <= usize::MAX as u64 {
            self.size as usize + 8
        } else {
            usize::MAX
        }
    }

    fn is_genuine(&self) -> bool {
        self.magic == RIFF_MAGIC && self.id == WAVE_FMT_ID && self.chunk_size < 255
    }

    fn ext(&self) -> String {
        "wav".to_owned()
    }
}

impl Deserializer for WAV {
    open spec fn spec_parse(bytes: Seq<u8>, pos: int) -> SpecParse<WAV> {
        if pos + 20 <= bytes.len() {
            SpecParse::Parsed { value: spec_wav_at(bytes, pos), next: pos + 20, count: 20 }
        } else {
            SpecParse::Failed
        }
    }

    proof fn lemma_parse_advances(bytes: Seq<u8>, pos: int) {
    }

    fn deserialize(&mut self, buffer: &mut Cursor<'_>) -> Result<usize, IoErrorKind> {
        let magic = match buffer.read_u32_le() {
            Ok(v) => v,
            Err(e) => { return Err(e); },
        };
        let size = match buffer.read_u32_le() {
            Ok(v) => v,
            Err(e) => { return Err(e); },
        };
        let id = match buffer.read_u64_le() {
            Ok(v) => v,
            Err(e) => { return Err(e); },
        };
        let chunk_size = match buffer.read_u32_le() {
            Ok(v) => v,
            Err(e) => { return Err(e); },
        };
        *self = WAV { magic, size, id, chunk_size };
        Ok(20)
    }
}

} // verus!
