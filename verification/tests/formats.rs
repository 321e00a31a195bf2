use rodin::deserializer::{Cursor, Deserializer, IoErrorKind};
use rodin::filetypes::bmp::BMP;
use rodin::filetypes::jpeg::{JpegSegment, SegmentType};
use rodin::filetypes::png::{ChunkType, PNGChunk};

#[test]
fn segment_type() {
    let st = SegmentType([0xFF, 0xD8]);
    assert!(st.is_valid());
    assert!(st.is_standalone());

    let st = SegmentType([0xFF, 0xC0]);
    assert!(st.is_valid());
    assert!(!st.is_standalone());

    let st = SegmentType([0x00, 0xC0]);
    assert!(!st.is_valid());
    assert!(!st.is_standalone());
}

#[test]
fn jpeg_segment() {
    let raw_data: [u8; 18] = [
        0xFF, 0xE0, 0x00, 0x10, 0x4A, 0x46, 0x49, 0x46, 0x00, 0x01, 0x01, 0x00, 0x00, 0x01, 0x00,
        0x01, 0x00, 0x00,
    ];
    let mut c = Cursor::new(raw_data.as_slice());
    let mut segment = JpegSegment::default();
    let n = segment.deserialize(&mut c).unwrap();
    assert_eq!(n, 14);

    assert_eq!(segment.segment_type.as_bytes(), [0xFF, 0xE0]);
    assert_eq!(segment.length.unwrap(), 16);
}

#[test]
fn chunk_type() {
    let ct = ChunkType(*b"ABCD");
    assert!(!ct.is_valid());

    let ct = ChunkType(*b"IHDR");
    assert!(ct.is_valid());

    let v = Vec::from(*b"IHDR");
    let mut c = Cursor::new(v.as_slice());
    let mut ct = ChunkType::default();
    let n = ct.deserialize(&mut c).unwrap();
    assert_eq!(n, 4);
    assert!(ct.is_valid());
    assert_eq!(ct.as_bytes(), *b"IHDR");
}

#[test]
fn chunk() {
    let raw_data: [u8; 13] = [
        0x00, 0x00, 0x00, 0x01, 0x73, 0x52, 0x47, 0x42, 0x00, 0xAE, 0xCE, 0x1C, 0xE9,
    ];
    let mut c = Cursor::new(raw_data.as_slice());
    let mut chunk = PNGChunk::default();
    let n = chunk.deserialize(&mut c).unwrap();
    assert_eq!(n, 13);

    assert_eq!(chunk.length, 1);
    assert_eq!(chunk.chunk_type.as_bytes(), *b"sRGB");
}

#[test]
fn jpeg_segment_standalone() {
    let mut c = Cursor::new([0xFFu8, 0xD8].as_slice());
    let mut segment = JpegSegment::default();
    let n = segment.deserialize(&mut c).unwrap();
    assert_eq!(n, 2);
    assert!(segment.is_standalone());
    assert!(segment.length.is_none());

    let mut c = Cursor::new([0xFFu8, 0xE0, 0x00, 0x04, 0x00, 0x00].as_slice());
    let mut segment = JpegSegment::default();
    segment.deserialize(&mut c).unwrap();
    assert!(!segment.is_standalone());
}

#[test]
fn jpeg_segment_rejects_bad_marker() {
    let raw: [u8; 4] = [0x00, 0xC0, 0x00, 0x00];
    let mut c = Cursor::new(raw.as_slice());
    let mut segment = JpegSegment::default();
    assert_eq!(segment.deserialize(&mut c), Err(IoErrorKind::InvalidData));
    assert_eq!(c.position(), 1);
}

#[test]
fn jpeg_segment_rejects_low_marker() {
    // FF 42 is not a standalone marker and 0x42 < 0xC0
    let raw: [u8; 4] = [0xFF, 0x42, 0x00, 0x00];
    let mut c = Cursor::new(raw.as_slice());
    let mut segment = JpegSegment::default();
    assert_eq!(segment.deserialize(&mut c), Err(IoErrorKind::InvalidData));
    assert_eq!(c.position(), 2);
}

#[test]
fn chunk_rejects_unknown_type() {
    let raw: [u8; 13] = [
        0x00, 0x00, 0x00, 0x01, 0x41, 0x42, 0x43, 0x44, 0x00, 0x00, 0x00, 0x00, 0x00,
    ];
    let mut c = Cursor::new(raw.as_slice());
    let mut chunk = PNGChunk::default();
    assert_eq!(chunk.deserialize(&mut c), Err(IoErrorKind::InvalidData));
    assert_eq!(c.position(), 8);
}

#[test]
fn bmp_header_eof() {
    let raw: [u8; 3] = [0x42, 0x4D, 0x00];
    let mut c = Cursor::new(raw.as_slice());
    let mut bmp = BMP::default();
    assert_eq!(bmp.deserialize(&mut c), Err(IoErrorKind::UnexpectedEof));
}

#[test]
fn jpeg_sos_eof_without_terminator() {
    // SOS whose entropy-coded data never ends in a marker
    let raw: [u8; 6] = [0xFF, 0xDA, 0x01, 0x02, 0x03, 0x04];
    let mut c = Cursor::new(raw.as_slice());
    let mut segment = JpegSegment::default();
    assert_eq!(segment.deserialize(&mut c), Err(IoErrorKind::UnexpectedEof));
}
