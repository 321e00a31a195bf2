//! The JPEG segment parser: `FF`-prefixed markers, some standalone, most
//! followed by a big-endian length, and the entropy-coded data after an SOS
//! segment, which the walker scans byte by byte honouring `FF 00` stuffing
//! and the `FF D0..D7` restart markers.

use vstd::prelude::*;

use crate::carvers::fourcc_carver::FourCCCarver;
use crate::deserializer::{be16, be64, spec_find, Cursor, Deserializer, IoErrorKind, SpecParse};

verus! {

/// The 8-byte signature header, read as one big-endian value; the JPEG
/// walk itself starts over at the first marker instead.
#[derive(Debug)]
pub struct PNGHeader {
    /// The signature bytes.
    pub signature: u64,
}

impl Default for PNGHeader {
    fn default() -> (r: Self)
        ensures
            r == (PNGHeader { signature: 0u64 }),
    {
        PNGHeader { signature: 0 }
    }
}

impl Deserializer for PNGHeader {
    open spec fn spec_parse(bytes: Seq<u8>, pos: int) -> SpecParse<PNGHeader> {
        if pos + 8 <= bytes.len() {
            SpecParse::Parsed {
                value: PNGHeader { signature: be64(bytes, pos) as u64 },
                next: pos + 8,
                count: 8,
            }
        } else {
            SpecParse::Failed
        }
    }

    proof fn lemma_parse_advances(bytes: Seq<u8>, pos: int) {
    }

    fn deserialize(&mut self, buffer: &mut Cursor<'_>) -> Result<usize, IoErrorKind> {
        let signature = match buffer.read_u64_be() {
            Ok(v) => v,
            Err(e) => { return Err(e); },
        };
        *self = PNGHeader { signature };
        Ok(8)
    }
}

/// A segment type is given by just two bytes.
#[derive(Debug)]
pub struct SegmentType(pub [u8; 2]);

impl SegmentType {
    /// Whether the marker is standalone: SOI, EOI, TEM or a restart
    /// marker, none of which carries a length field.
    pub open spec fn spec_is_standalone(&self) -> bool {
        ||| (self.0[0] == 0xFF && self.0[1] == 0xD8)  // SOI
        ||| (self.0[0] == 0xFF && self.0[1] == 0xD9)  // EOI
        ||| (self.0[0] == 0xFF && self.0[1] == 0x01)  // TEM
        ||| (self.0[0] == 0xFF && 0xD0 <= self.0[1] <= 0xD7)  // RSTn
    }

    /// Those segments have no length.
    pub fn is_standalone(&self) -> (r: bool)
        ensures
            r == self.spec_is_standalone(),
    {
        (self.0[0] == 0xFF && self.0[1] == 0xD8) || (self.0[0] == 0xFF && self.0[1] == 0xD9) || (
        self.0[0] == 0xFF && self.0[1] == 0x01) || (self.0[0] == 0xFF && 0xD0 <= self.0[1]
            && self.0[1] <= 0xD7)
    }

    /// Whether the two bytes form a valid marker: `FF` then at least `C0`.
    pub open spec fn spec_is_valid(&self) -> bool {
        self.0[0] == 0xFF && self.0[1] >= 0xC0
    }

    /// Not every array of two bytes is a valid JPEG segment.
    pub fn is_valid(&self) -> (r: bool)
        ensures
            r == self.spec_is_valid(),
    {
        // the first byte must be 0xFF, and the second at least 0xC0
        self.0[0] == 0xFF && self.0[1] >= 0xC0
    }

    /// The marker's bytes.
    pub fn as_bytes(&self) -> (r: [u8; 2])
        ensures
            r == self.0,
    {
        self.0
    }
}

impl Default for SegmentType {
    fn default() -> (r: Self)
        ensures
            r == (SegmentType([0u8, 0u8])),
    {
        SegmentType([0, 0])
    }
}

/// Where the entropy-coded data that starts at `from` ends: the position of
/// the first `FF` that is not `FF 00` byte stuffing and not followed by a
/// restart marker `D0..D7`, or `None` when the data ends first.
pub open spec fn spec_sos_end(bytes: Seq<u8>, from: int) -> Option<int>
    decreases bytes.len() - from,
{
    if from < 0 || from + 2 > bytes.len() {
        None
    } else if bytes[from] != 0xFF {
        spec_sos_end(bytes, from + 1)
    } else {
        let b2 = bytes[from + 1];
        if b2 == 0x00 || (0xD0 <= b2 && b2 <= 0xD7) {
            spec_sos_end(bytes, from + 2)
        } else {
            Some(from)
        }
    }
}

/// A found end of entropy-coded data lies between `from` and the last two
/// bytes of the data.
pub proof fn lemma_sos_end_range(bytes: Seq<u8>, from: int)
    ensures
        match spec_sos_end(bytes, from) {
            Some(i) => from <= i && i + 2 <= bytes.len() && bytes[i] == 0xFF,
            None => true,
        },
    decreases bytes.len() - from,
{
    if from < 0 || from + 2 > bytes.len() {
    } else if bytes[from] != 0xFF {
        lemma_sos_end_range(bytes, from + 1);
    } else {
        let b2 = bytes[from + 1];
        if b2 == 0x00 || (0xD0 <= b2 && b2 <= 0xD7) {
            lemma_sos_end_range(bytes, from + 2);
        }
    }
}

/// The first occurrence of `b` in `s` at or after `from` lies between
/// `from` and the end of `s`, and holds `b`.
pub proof fn lemma_find_range(s: Seq<u8>, from: int, b: u8)
    ensures
        match spec_find(s, from, b) {
            Some(i) => from <= i && i < s.len() && s[i] == b,
            None => true,
        },
    decreases s.len() - from,
{
    if from < 0 || from >= s.len() {
    } else if s[from] == b {
    } else {
        lemma_find_range(s, from + 1, b);
    }
}

/// The entropy-coded scan can jump straight to the first `FF`: the bytes
/// before it change nothing, and when there is none the scan fails.
pub proof fn lemma_sos_skip(bytes: Seq<u8>, from: int)
    requires
        0 <= from,
    ensures
        match spec_find(bytes, from, 0xFF) {
            Some(i) => spec_sos_end(bytes, from) == spec_sos_end(bytes, i),
            None => spec_sos_end(bytes, from) is None,
        },
    decreases bytes.len() - from,
{
    if from + 2 > bytes.len() {
        lemma_find_range(bytes, from, 0xFF);
        match spec_find(bytes, from, 0xFF) {
            Some(i) => {
                assert(i + 2 > bytes.len());
                assert(spec_sos_end(bytes, i) is None);
            },
            None => {},
        }
    } else if bytes[from] != 0xFF {
        lemma_sos_skip(bytes, from + 1);
    } else {
    }
}

/// One JPEG segment: its marker and, where the marker carries one, its
/// declared length.
#[derive(Debug)]
pub struct JpegSegment {
    /// The segment's marker.
    pub segment_type: SegmentType,
    /// Length of the segment data, big-endian, including itself.
    pub length: Option<u16>,
}

impl JpegSegment {
    /// Those segments have no length.
    pub fn is_standalone(&self) -> (r: bool)
        ensures
            r == self.segment_type.spec_is_standalone(),
    {
        self.segment_type.is_standalone()
    }
}

impl Default for JpegSegment {
    fn default() -> (r: Self)
        ensures
            r == (JpegSegment { segment_type: SegmentType([0u8, 0u8]), length: None }),
    {
        JpegSegment { segment_type: SegmentType([0, 0]), length: None }
    }
}

impl Deserializer for JpegSegment {
    open spec fn spec_parse(bytes: Seq<u8>, pos: int) -> SpecParse<JpegSegment> {
        if pos + 1 > bytes.len() {
            SpecParse::Failed
        } else if bytes[pos] != 0xFF {
            SpecParse::Rejected { next: pos + 1 }
        } else if pos + 2 > bytes.len() {
            SpecParse::Failed
        } else {
            let m = bytes[pos + 1];
            let st = SegmentType([0xFF, m]);
            if st.spec_is_standalone() {
                SpecParse::Parsed {
                    value: JpegSegment { segment_type: st, length: None },
                    next: pos + 2,
                    count: 2,
                }
            } else if m < 0xC0 {
                SpecParse::Rejected { next: pos + 2 }
            } else if m == 0xDA {
                match spec_sos_end(bytes, pos + 2) {
                    Some(end) => SpecParse::Parsed {
                        value: JpegSegment {
                            segment_type: st,
                            length: Some(((end % 0x10000) as u16)),
                        },
                        next: end,
                        count: end,
                    },
                    None => SpecParse::Failed,
                }
            } else if pos + 4 > bytes.len() {
                SpecParse::Failed
            } else {
                let l = be16(bytes, pos + 2);
                let next = if pos + 2 + l <= bytes.len() {
                    pos + 2 + l
                } else {
                    bytes.len() as int
                };
                SpecParse::Parsed {
                    value: JpegSegment { segment_type: st, length: Some(l as u16) },
                    next,
                    count: if l >= 2 {
                        l - 2
                    } else {
                        0
                    },
                }
            }
        }
    }

    proof fn lemma_parse_advances(bytes: Seq<u8>, pos: int) {
        if pos + 2 <= bytes.len() && bytes[pos] == 0xFF && bytes[pos + 1] == 0xDA {
            let st = SegmentType([0xFF, 0xDAu8]);
            if !st.spec_is_standalone() {
                lemma_sos_end_range(bytes, pos + 2);
            }
        }
    }

    fn deserialize(&mut self, buffer: &mut Cursor<'_>) -> Result<usize, IoErrorKind> {
        let ghost bytes = old(buffer).data();
        let ghost pos0 = old(buffer).spec_position();

        // read the first byte
        let b0 = match buffer.read_u8() {
            Ok(v) => v,
            Err(e) => { return Err(e); },
        };

        // check for marker validity
        if b0 != 0xFF {
            return Err(IoErrorKind::InvalidData);
        }

        // now we can read the second byte
        let b1 = match buffer.read_u8() {
            Ok(v) => v,
            Err(e) => { return Err(e); },
        };

        let st = SegmentType([b0, b1]);
        proof {
            assert(st.0 =~= SegmentType([0xFFu8, bytes[pos0 + 1]]).0);
        }

        // those markers have no length, so return
        if st.is_standalone() {
            *self = JpegSegment { segment_type: st, length: None };
            return Ok(2);
        }

        // all JPEG markers have the second byte at least 0xC0, except for
        // 0x01 (TEM) which is already processed
        if b1 < 0xC0 {
            return Err(IoErrorKind::InvalidData);
        }

        // SOS entails a specific processing: to find the next segment after
        // the SOS, keep reading until a 0xFF which is not immediately
        // followed by 0x00 (byte stuffing) or a restart marker
        if b1 == 0xDA {
            proof {
                assert(st.0 =~= [0xFFu8, 0xDAu8]);
            }
            loop
                invariant
                    buffer.wf(),
                    buffer.data() == bytes,
                    bytes == old(buffer).data(),
                    pos0 == old(buffer).spec_position(),
                    0 <= pos0,
                    pos0 + 2 <= bytes.len(),
                    bytes[pos0] == 0xFF,
                    bytes[pos0 + 1] == 0xDA,
                    st == (SegmentType([0xFFu8, 0xDAu8])),
                    pos0 + 2 <= buffer.spec_position() <= bytes.len(),
                    spec_sos_end(bytes, pos0 + 2) == spec_sos_end(
                        bytes,
                        buffer.spec_position(),
                    ),
                decreases bytes.len() - buffer.spec_position(),
            {
                let ghost q = buffer.spec_position();
                proof {
                    lemma_sos_skip(bytes, q);
                    lemma_find_range(bytes, q, 0xFF);
                }

                // read until we find 0xFF
                let _ = buffer.read_until(0xFF);

                // found FF: if the next byte is a restart marker (D0 to D7)
                // or 0, continue
                let byte2 = match buffer.read_u8() {
                    Ok(v) => v,
                    Err(e) => { return Err(e); },
                };
                if (0xD0 <= byte2 && byte2 <= 0xD7) || byte2 == 0 {
                } else {
                    // rewind of 2 bytes
                    let pos = buffer.position() - 2;
                    buffer.set_position(pos);
                    *self = JpegSegment {
                        segment_type: st,
                        length: Some((pos % 65536) as u16),
                    };
                    return Ok(pos);
                }
            }
        }

        // if we reached here, this means it is a segment with a length
        let l = match buffer.read_u16_be() {
            Ok(v) => v,
            Err(e) => { return Err(e); },
        };
        *self = JpegSegment { segment_type: st, length: Some(l) };

        // skip the payload
        let pos = buffer.position();
        let dlen = buffer.data_len();
        if pos as u128 + l as u128 <= dlen as u128 + 2 {
            let next = (pos - 2) + l as usize;
            buffer.set_position(next);
        } else {
            buffer.set_position(dlen);
        }
        if l >= 2 {
            Ok((l - 2) as usize)
        } else {
            Ok(0)
        }
    }
}

/// A found end of entropy-coded data looks only at the bytes up to it:
/// padding the data on the right moves nothing.
proof fn lemma_sos_end_extend(f: Seq<u8>, rest: Seq<u8>, from: int)
    requires
        0 <= from,
        spec_sos_end(f, from) is Some,
    ensures
        spec_sos_end(f + rest, from) == spec_sos_end(f, from),
    decreases f.len() - from,
{
    let b = f + rest;
    if from + 2 > f.len() {
    } else if f[from] != 0xFF {
        lemma_sos_end_extend(f, rest, from + 1);
    } else {
        let b2 = f[from + 1];
        if b2 == 0x00 || (0xD0 <= b2 && b2 <= 0xD7) {
            lemma_sos_end_extend(f, rest, from + 2);
        }
    }
}

/// The segments from `pos` on form a well-formed tail: each marker is
/// valid and fits entirely within the file, each SOS scan finds its end
/// inside the file, and the `EOI` marker's last byte is the file's last.
pub open spec fn spec_jpeg_segments_to_end(f: Seq<u8>, pos: int) -> bool
    decreases f.len() - pos,
{
    if pos + 2 > f.len() || f[pos] != 0xFF {
        false
    } else {
        let m = f[pos + 1];
        if m == 0xD9 {
            pos + 2 == f.len()
        } else if m == 0xD8 || m == 0x01 || (0xD0 <= m && m <= 0xD7) {
            spec_jpeg_segments_to_end(f, pos + 2)
        } else if m < 0xC0 {
            false
        } else if m == 0xDA {
            match spec_sos_end(f, pos + 2) {
                Some(e) => if pos + 2 <= e <= f.len() {
                    spec_jpeg_segments_to_end(f, e)
                } else {
                    false
                },
                None => false,
            }
        } else if pos + 4 > f.len() {
            false
        } else {
            let l = be16(f, pos + 2);
            if pos + 2 + l > f.len() {
                false
            } else {
                spec_jpeg_segments_to_end(f, pos + 2 + l)
            }
        }
    }
}

/// A well-formed JPEG: the SOI marker, then segments whose `EOI` is the
/// file's last byte.
pub open spec fn spec_jpeg_well_formed(f: Seq<u8>) -> bool {
    &&& f.len() >= 2
    &&& f[0] == 0xFF
    &&& f[1] == 0xD8
    &&& spec_jpeg_segments_to_end(f, 2)
}

/// On a well-formed segment tail, the walk over the padded file never
/// leaves the file and stops exactly at its end, whatever the carving
/// method: no segment is ever rejected on the way, and no SOS scan runs
/// into the padding.
proof fn lemma_jpeg_walk_extend(
    f: Seq<u8>,
    rest: Seq<u8>,
    pos: int,
    method: crate::filetypes::corpus::CarvingMethod,
    max_size: int,
    fuel: nat,
)
    requires
        0 <= pos,
        spec_jpeg_segments_to_end(f, pos),
        f.len() <= max_size,
        fuel > f.len() - pos,
    ensures
        crate::carvers::fourcc_carver::spec_fourcc_walk::<JpegSegment>(
            f + rest,
            pos,
            method,
            max_size,
            fuel,
        ) == Some(f.len() as int),
    decreases f.len() - pos,
{
    let b = f + rest;
    let m = f[pos + 1];
    assert(b[pos] == 0xFF);
    assert(b[pos + 1] == m);
    if m == 0xD9 {
        assert(JpegSegment::spec_parse(b, pos) matches SpecParse::Parsed { value, next, .. }
            && next == pos + 2 && value.spec_is_end());
    } else if m == 0xD8 || m == 0x01 || (0xD0 <= m && m <= 0xD7) {
        lemma_jpeg_walk_extend(f, rest, pos + 2, method, max_size, (fuel - 1) as nat);
    } else if m == 0xDA {
        let e = spec_sos_end(f, pos + 2)->Some_0;
        lemma_sos_end_extend(f, rest, pos + 2);
        assert(JpegSegment::spec_parse(b, pos) matches SpecParse::Parsed { value, next, .. }
            && next == e && !value.spec_is_end());
        lemma_jpeg_walk_extend(f, rest, e, method, max_size, (fuel - 1) as nat);
    } else {
        let l = be16(f, pos + 2);
        assert(be16(b, pos + 2) == l);
        assert(JpegSegment::spec_parse(b, pos) matches SpecParse::Parsed { value, next, .. }
            && next == pos + 2 + l && !value.spec_is_end());
        lemma_jpeg_walk_extend(f, rest, pos + 2 + l, method, max_size, (fuel - 1) as nat);
    }
}

/// A well-formed JPEG padded with arbitrary bytes on the right carves
/// back byte-exact: the walk honours byte stuffing and restart markers,
/// stops at `EOI`, and takes exactly the file's bytes.
pub proof fn lemma_jpeg_round_trip(
    f: Seq<u8>,
    rest: Seq<u8>,
    min_size: int,
    max_size: int,
    method: crate::filetypes::corpus::CarvingMethod,
)
    requires
        spec_jpeg_well_formed(f),
        min_size <= f.len() <= max_size,
    ensures
        crate::carvers::fourcc_carver::spec_fourcc_carve::<JpegSegment, JpegSegment>(
            f + rest,
            min_size,
            max_size,
            method,
        ) == f.len(),
        (f + rest).subrange(0, f.len() as int) == f,
{
    let b = f + rest;
    assert(b[0] == 0xFF && b[1] == 0xD8);
    assert(JpegSegment::spec_parse(b, 0) matches SpecParse::Parsed { next, .. } && next == 2);
    lemma_jpeg_walk_extend(f, rest, 2, method, max_size, (b.len() + 1) as nat);
    assert(b.subrange(0, f.len() as int) =~= f);
}

impl FourCCCarver for JpegSegment {
    open spec fn spec_is_end(&self) -> bool {
        self.segment_type.0[0] == 0xFF && self.segment_type.0[1] == 0xD9
    }

    fn is_end(&self) -> bool {
        self.segment_type.0[0] == 0xFF && self.segment_type.0[1] == 0xD9
    }
}

} // verus!
