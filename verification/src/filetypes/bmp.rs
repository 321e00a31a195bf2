//! The BMP header parser: a 54-byte little-endian header whose `size` field
//! gives the full file size.

use vstd::prelude::*;

use crate::carvers::size_carver::SizeCarver;
use crate::deserializer::{le16, le32, Cursor, Deserializer, IoErrorKind, SpecParse};

verus! {

/// `dib_size` of a BITMAPINFOHEADER.
pub const BITMAPINFOHEADER: u32 = 40;

/// `dib_size` of a BITMAPV3INFOHEADER.
pub const BITMAPV3INFOHEADER: u32 = 56;

/// `dib_size` of a BITMAPV4HEADER.
pub const BITMAPV4HEADER: u32 = 108;

/// `dib_size` of a BITMAPV5HEADER.
pub const BITMAPV5HEADER: u32 = 128;

/// The BMP file header followed by the start of the DIB header, all fields
/// little-endian.
#[derive(Debug)]
pub struct BMP {
    /// Should be `BM`.
    pub magic: u16,
    /// Bitmap size: the full file size.
    pub size: u32,
    /// Reserved; should be zero.
    pub zeroes: u32,
    /// The address of the image data.
    pub pixel_data_offset: u32,
    /// The size of the DIB header structure; 40, 56, 108 or 128.
    pub dib_size: u32,
    /// Image width.
    pub width: u32,
    /// Image height.
    pub height: u32,
    /// Should be 1 for a BITMAPINFOHEADER.
    pub bi_planes: u16,
    /// Bits per pixel.
    pub bi_bit_count: u16,
    /// The compression method being used.
    pub bi_compression: u32,
    /// The image size.
    pub bi_size_image: u32,
    /// Horizontal resolution, pixels per metre.
    pub bi_xpels_per_meter: u32,
    /// Vertical resolution, pixels per metre.
    pub bi_ypels_per_meter: u32,
    /// The number of colors in the color palette, or 0.
    pub bi_clr_used: u32,
    /// The number of important colors used, or 0.
    pub bi_clr_important: u32,
}

/// The header value that the 54 bytes of `bytes` at `pos` hold.
pub open spec fn spec_bmp_at(bytes: Seq<u8>, pos: int) -> BMP {
    BMP {
        magic: le16(bytes, pos) as u16,
        size: le32(bytes, pos + 2) as u32,
        zeroes: le32(bytes, pos + 6) as u32,
        pixel_data_offset: le32(bytes, pos + 10) as u32,
        dib_size: le32(bytes, pos + 14) as u32,
        width: le32(bytes, pos + 18) as u32,
        height: le32(bytes, pos + 22) as u32,
        bi_planes: le16(bytes, pos + 26) as u16,
        bi_bit_count: le16(bytes, pos + 28) as u16,
        bi_compression: le32(bytes, pos + 30) as u32,
        bi_size_image: le32(bytes, pos + 34) as u32,
        bi_xpels_per_meter: le32(bytes, pos + 38) as u32,
        bi_ypels_per_meter: le32(bytes, pos + 42) as u32,
        bi_clr_used: le32(bytes, pos + 46) as u32,
        bi_clr_important: le32(bytes, pos + 50) as u32,
    }
}

/// A well-formed BMP: at least the 54-byte header, a header that passes
/// the sanity checks, and a declared size equal to the file's own length.
pub open spec fn spec_bmp_well_formed(f: Seq<u8>) -> bool {
    &&& f.len() >= 54
    &&& spec_bmp_at(f, 0).spec_genuine()
    &&& spec_bmp_at(f, 0).spec_size() == f.len()
}

/// A well-formed BMP padded with arbitrary bytes on the right carves
/// back byte-exact: the size-carve takes exactly the file's bytes.
pub proof fn lemma_bmp_round_trip(f: Seq<u8>, rest: Seq<u8>, min_size: int)
    requires
        spec_bmp_well_formed(f),
        min_size <= f.len(),
    ensures
        crate::carvers::size_carver::spec_size_carve::<BMP>(f + rest, min_size) == f.len(),
        (f + rest).subrange(0, f.len() as int) == f,
{
    let b = f + rest;
    assert(spec_bmp_at(b, 0) == spec_bmp_at(f, 0));
    assert(b.subrange(0, f.len() as int) =~= f);
}

impl Default for BMP {
    fn default() -> (r: Self)
        ensures
            r == (BMP {
                magic: 0u16,
                size: 0u32,
                zeroes: 0u32,
                pixel_data_offset: 0u32,
                dib_size: 0u32,
                width: 0u32,
                height: 0u32,
                bi_planes: 0u16,
                bi_bit_count: 0u16,
                bi_compression: 0u32,
                bi_size_image: 0u32,
                bi_xpels_per_meter: 0u32,
                bi_ypels_per_meter: 0u32,
                bi_clr_used: 0u32,
                bi_clr_important: 0u32,
            }),
    {
        BMP {
            magic: 0,
            size: 0,
            zeroes: 0,
            pixel_data_offset: 0,
            dib_size: 0,
            width: 0,
            height: 0,
            bi_planes: 0,
            bi_bit_count: 0,
            bi_compression: 0,
            bi_size_image: 0,
            bi_xpels_per_meter: 0,
            bi_ypels_per_meter: 0,
            bi_clr_used: 0,
            bi_clr_important: 0,
        }
    }
}

impl SizeCarver for BMP {
    open spec fn spec_size(&self) -> int {
        self.size as int
    }

    open spec fn spec_genuine(&self) -> bool {
        self.zeroes == 0 && (self.dib_size == BITMAPINFOHEADER || self.dib_size
            == BITMAPV5HEADER || self.dib_size == BITMAPV4HEADER || self.dib_size
            == BITMAPV3INFOHEADER)
    }

    open spec fn spec_ext() -> Seq<char> {
        "bmp"@
    }

    fn size(&self) -> usize {
        self.size as usize
    }

    fn is_genuine(&self) -> bool {
        self.zeroes == 0 && (self.dib_size == BITMAPINFOHEADER || self.dib_size
            == BITMAPV5HEADER || self.dib_size == BITMAPV4HEADER || self.dib_size
            == BITMAPV3INFOHEADER)
    }

    fn ext(&self) -> String {
        "bmp".to_owned()
    }
}

impl Deserializer for BMP {
    open spec fn spec_parse(bytes: Seq<u8>, pos: int) -> SpecParse<BMP> {
        if pos + 54 <= bytes.len() {
            SpecParse::Parsed { value: spec_bmp_at(bytes, pos), next: pos + 54, count: 54 }
        } else {
            SpecParse::Failed
        }
    }

    proof fn lemma_parse_advances(bytes: Seq<u8>, pos: int) {
    }

    fn deserialize(&mut self, buffer: &mut Cursor<'_>) -> Result<usize, IoErrorKind> {
        let magic = match buffer.read_u16_le() {
            Ok(v) => v,
            Err(e) => { return Err(e); },
        };
        let size = match buffer.read_u32_le() {
            Ok(v) => v,
            Err(e) => { return Err(e); },
        };
        let zeroes = match buffer.read_u32_le() {
            Ok(v) => v,
            Err(e) => { return Err(e); },
        };
        let pixel_data_offset = match buffer.read_u32_le() {
            Ok(v) => v,
            Err(e) => { return Err(e); },
        };
        let dib_size = match buffer.read_u32_le() {
            Ok(v) => v,
            Err(e) => { return Err(e); },
        };
        let width = match buffer.read_u32_le() {
            Ok(v) => v,
            Err(e) => { return Err(e); },
        };
        let height = match buffer.read_u32_le() {
            Ok(v) => v,
            Err(e) => { return Err(e); },
        };
        let bi_planes = match buffer.read_u16_le() {
            Ok(v) => v,
            Err(e) => { return Err(e); },
        };
        let bi_bit_count = match buffer.read_u16_le() {
            Ok(v) => v,
            Err(e) => { return Err(e); },
        };
        let bi_compression = match buffer.read_u32_le() {
            Ok(v) => v,
            Err(e) => { return Err(e); },
        };
        let bi_size_image = match buffer.read_u32_le() {
            Ok(v) => v,
            Err(e) => { return Err(e); },
        };
        let bi_xpels_per_meter = match buffer.read_u32_le() {
            Ok(v) => v,
            Err(e) => { return Err(e); },
        };
        let bi_ypels_per_meter = match buffer.read_u32_le() {
            Ok(v) => v,
            Err(e) => { return Err(e); },
        };
        let bi_clr_used = match buffer.read_u32_le() {
            Ok(v) => v,
            Err(e) => { return Err(e); },
        };
        let bi_clr_important = match buffer.read_u32_le() {
            Ok(v) => v,
            Err(e) => { return Err(e); },
        };
        *self = BMP {
            magic,
            size,
            zeroes,
            pixel_data_offset,
            dib_size,
            width,
            height,
            bi_planes,
            bi_bit_count,
            bi_compression,
            bi_size_image,
            bi_xpels_per_meter,
            bi_ypels_per_meter,
            bi_clr_used,
            bi_clr_important,
        };
        Ok(48 + 6)
    }
}

} // verus!
