use rodin::filetypes::corpus::{CarvingFunc, CarvingMethod, Corpus, FileType};
use rodin::search::{carve, scan_image, Context};

/// A valid BMP of `size` bytes: a 54-byte little-endian header declaring
/// `size`, zero-filled pixel data after it.
fn bmp_file(size: u32) -> Vec<u8> {
    let mut f = Vec::new();
    f.push(0x42); // B
    f.push(0x4D); // M
    f.extend_from_slice(&size.to_le_bytes());
    f.extend_from_slice(&0u32.to_le_bytes()); // reserved
    f.extend_from_slice(&54u32.to_le_bytes()); // pixel data offset
    f.extend_from_slice(&40u32.to_le_bytes()); // BITMAPINFOHEADER
    f.extend_from_slice(&2u32.to_le_bytes()); // width
    f.extend_from_slice(&2u32.to_le_bytes()); // height
    f.extend_from_slice(&1u16.to_le_bytes()); // planes
    f.extend_from_slice(&24u16.to_le_bytes()); // bits per pixel
    f.extend_from_slice(&0u32.to_le_bytes()); // compression
    f.extend_from_slice(&0u32.to_le_bytes()); // image size
    f.extend_from_slice(&0u32.to_le_bytes()); // x ppm
    f.extend_from_slice(&0u32.to_le_bytes()); // y ppm
    f.extend_from_slice(&0u32.to_le_bytes()); // colors used
    f.extend_from_slice(&0u32.to_le_bytes()); // important colors
    while f.len() < size as usize {
        f.push(0);
    }
    f
}

/// A valid WAV of `total` bytes: the RIFF length field excludes the
/// leading eight bytes.
fn wav_file(total: u32) -> Vec<u8> {
    let mut f = Vec::new();
    f.extend_from_slice(b"RIFF");
    f.extend_from_slice(&(total - 8).to_le_bytes());
    f.extend_from_slice(b"WAVEfmt ");
    f.extend_from_slice(&16u32.to_le_bytes()); // fmt chunk size
    while f.len() < total as usize {
        f.push(0);
    }
    f
}

/// A minimal PNG: the signature, a zero-length IHDR chunk and the IEND
/// chunk, whose CRC is the file's last byte; 32 bytes in all.
fn png_file() -> Vec<u8> {
    let mut f = Vec::new();
    f.extend_from_slice(&[0x89, 0x50, 0x4E, 0x47, 0x0D, 0x0A, 0x1A, 0x0A]);
    f.extend_from_slice(&0u32.to_be_bytes());
    f.extend_from_slice(b"IHDR");
    f.extend_from_slice(&[0x11, 0x22, 0x33, 0x44]); // crc, unchecked
    f.extend_from_slice(&0u32.to_be_bytes());
    f.extend_from_slice(b"IEND");
    f.extend_from_slice(&[0x55, 0x66, 0x77, 0x88]); // crc, unchecked
    f
}

/// A minimal JPEG whose SOS data holds `FF 00` stuffing and an `FF D5`
/// restart marker before the final `FF D9`; 20 bytes in all.
fn jpeg_file() -> Vec<u8> {
    vec![
        0xFF, 0xD8, // SOI
        0xFF, 0xE0, 0x00, 0x04, 0xAA, 0xBB, // APP0, length 4
        0xFF, 0xDA, // SOS
        0x01, 0x02, 0xFF, 0x00, 0x03, 0xFF, 0xD5, 0x04, // entropy-coded data
        0xFF, 0xD9, // EOI
    ]
}

#[test]
fn carves_bmp_between_noise() {
    let mut image = vec![0x00, 0x00];
    image.extend_from_slice(&bmp_file(100));
    image.extend_from_slice(&[0x00, 0x00]);

    let mut corpus = Corpus::new(50);
    let ac = corpus.patterns().unwrap();
    let ctx = Context { mmap: &image, start: 0, end: image.len() };
    let records = ctx.search(&mut corpus, &ac, None);

    assert_eq!(records.len(), 1);
    assert_eq!(records[0].artefact, "images/bmp/bmp_00000000.bmp");
    assert_eq!(records[0].offset_start, 2);
    assert_eq!(records[0].offset_end, 102);
    assert_eq!(records[0].length, 100);
}

#[test]
fn carves_wav() {
    let image = wav_file(64);
    let mut corpus = Corpus::new(0);
    let ac = corpus.patterns().unwrap();
    let ctx = Context { mmap: &image, start: 0, end: image.len() };
    let records = ctx.search(&mut corpus, &ac, None);

    assert_eq!(records.len(), 1);
    assert_eq!(records[0].artefact, "audio/wav/wav_00000000.wav");
    assert_eq!(records[0].length, 64);
}

#[test]
fn carves_jpeg_with_stuffing_and_restarts() {
    let image = jpeg_file();
    let mut corpus = Corpus::new(0);
    let ac = corpus.patterns().unwrap();
    let ctx = Context { mmap: &image, start: 0, end: image.len() };
    let records = ctx.search(&mut corpus, &ac, None);

    assert_eq!(records.len(), 1);
    assert_eq!(records[0].artefact, "images/jpg/jpg_00000000.jpg");
    assert_eq!(records[0].offset_start, 0);
    assert_eq!(records[0].length, image.len() as u64);
}

#[test]
fn carves_png_whose_iend_is_last_byte() {
    let mut image = vec![0x11, 0x11, 0x11, 0x11, 0x11];
    image.extend_from_slice(&png_file());

    let mut corpus = Corpus::new(0);
    let ac = corpus.patterns().unwrap();
    let ctx = Context { mmap: &image, start: 0, end: image.len() };
    let records = ctx.search(&mut corpus, &ac, None);

    assert_eq!(records.len(), 1);
    assert_eq!(records[0].artefact, "images/png/png_00000000.png");
    assert_eq!(records[0].offset_start, 5);
    assert_eq!(records[0].offset_end, image.len() as u64);
    assert_eq!(records[0].length, 32);
}

#[test]
fn carves_two_concatenated_pngs() {
    let mut image = png_file();
    image.extend_from_slice(&png_file());

    let mut corpus = Corpus::new(0);
    let ac = corpus.patterns().unwrap();
    let ctx = Context { mmap: &image, start: 0, end: image.len() };
    let records = ctx.search(&mut corpus, &ac, None);

    assert_eq!(records.len(), 2);
    assert_eq!(records[0].artefact, "images/png/png_00000000.png");
    assert_eq!(records[0].offset_start, 0);
    assert_eq!(records[0].length, 32);
    assert_eq!(records[1].artefact, "images/png/png_00000001.png");
    assert_eq!(records[1].offset_start, 32);
    assert_eq!(records[1].length, 32);
}

#[test]
fn no_signature_no_carve() {
    let image = vec![0xA5u8; 1 << 20];
    let mut corpus = Corpus::new(0);
    let ac = corpus.patterns().unwrap();
    let ctx = Context { mmap: &image, start: 0, end: image.len() };
    let records = ctx.search(&mut corpus, &ac, None);
    assert!(records.is_empty());
}

#[test]
fn bmp_with_nonzero_reserved_is_not_genuine() {
    let mut file = bmp_file(100);
    file[6] = 1; // reserved field must be zero
    let mut corpus = Corpus::new(0);
    let ac = corpus.patterns().unwrap();
    let ctx = Context { mmap: &file, start: 0, end: file.len() };
    let records = ctx.search(&mut corpus, &ac, None);
    assert!(records.is_empty());
}

#[test]
fn match_on_last_bytes_returns_empty() {
    let mut image = vec![0u8; 16];
    image.push(0x42); // B
    image.push(0x4D); // M: a magic match that nothing can follow
    let mut corpus = Corpus::new(0);
    let ac = corpus.patterns().unwrap();
    let ctx = Context { mmap: &image, start: 0, end: image.len() };
    let records = ctx.search(&mut corpus, &ac, None);
    assert!(records.is_empty());
}

#[test]
fn too_small_payload_is_discarded() {
    let image = bmp_file(100);
    let mut corpus = Corpus::new(200);
    let ac = corpus.patterns().unwrap();
    let ctx = Context { mmap: &image, start: 0, end: image.len() };
    let records = ctx.search(&mut corpus, &ac, None);
    assert!(records.is_empty());
}

#[test]
fn truncated_png_is_not_carved() {
    let mut image = png_file();
    image.truncate(20); // cut inside the IEND chunk
    let mut corpus = Corpus::new(0);
    let ac = corpus.patterns().unwrap();
    let ctx = Context { mmap: &image, start: 0, end: image.len() };
    let records = ctx.search(&mut corpus, &ac, None);
    assert!(records.is_empty());
}

#[test]
fn limit_stops_the_worker() {
    let mut image = bmp_file(60);
    image.extend_from_slice(&bmp_file(60));
    let mut corpus = Corpus::new(0);
    let ac = corpus.patterns().unwrap();
    let ctx = Context { mmap: &image, start: 0, end: image.len() };
    let records = ctx.search(&mut corpus, &ac, Some(1));
    assert_eq!(records.len(), 1);

    let mut corpus = Corpus::new(0);
    let ac = corpus.patterns().unwrap();
    let records = ctx.search(&mut corpus, &ac, Some(0));
    assert!(records.is_empty());
}

#[test]
fn retained_corpus_carves_only_listed_extensions() {
    let mut image = bmp_file(60);
    image.extend_from_slice(&png_file());

    let mut corpus = Corpus::new(0);
    corpus.retain(&vec![String::from("png")]);
    let ac = corpus.patterns().unwrap();
    let ctx = Context { mmap: &image, start: 0, end: image.len() };
    let records = ctx.search(&mut corpus, &ac, None);

    assert_eq!(records.len(), 1);
    assert_eq!(records[0].artefact, "images/png/png_00000000.png");
    assert_eq!(records[0].offset_start, 60);
}

#[test]
fn scanning_twice_gives_identical_records() {
    let mut image = vec![0x00; 3];
    image.extend_from_slice(&jpeg_file());
    image.extend_from_slice(&bmp_file(70));

    let mut runs = Vec::new();
    for _ in 0..2 {
        let mut corpus = Corpus::new(0);
        let ac = corpus.patterns().unwrap();
        let ctx = Context { mmap: &image, start: 0, end: image.len() };
        let records = ctx.search(&mut corpus, &ac, None);
        runs.push(
            records
                .iter()
                .map(|r| (r.artefact.clone(), r.offset_start, r.offset_end, r.length))
                .collect::<Vec<_>>(),
        );
    }
    assert_eq!(runs[0], runs[1]);
    assert_eq!(runs[0].len(), 2);
}

fn png_descriptor(max_size: usize) -> FileType {
    FileType {
        magic: vec![0x89, 0x50, 0x4E, 0x47, 0x0D, 0x0A, 0x1A, 0x0A],
        ext: String::from("png"),
        carving_func: CarvingFunc::FourccPng,
        category: String::from("images/png"),
        min_size: 0,
        max_size,
        index: 0,
        carving_method: CarvingMethod::Simple,
    }
}

#[test]
fn walk_beyond_max_size_is_abandoned() {
    let image = png_file();

    // generous cap: the 32-byte file carves whole
    let ft = png_descriptor(32);
    let r = carve(&image, &ft);
    assert_eq!(r.length, 32);

    // tight cap: the walk would pass byte 16 and must give up
    let ft = png_descriptor(16);
    let r = carve(&image, &ft);
    assert_eq!(r.offset, 0);
    assert_eq!(r.length, 0);
}

#[test]
fn carved_payload_is_byte_exact() {
    let noise: [u8; 7] = [0x42, 0x11, 0x4D, 0x99, 0x00, 0xFF, 0x13];
    let file = jpeg_file();
    let mut image = noise.to_vec();
    image.extend_from_slice(&file);
    image.extend_from_slice(&noise);

    let mut corpus = Corpus::new(0);
    let ac = corpus.patterns().unwrap();
    let ctx = Context { mmap: &image, start: 0, end: image.len() };
    let records = ctx.search(&mut corpus, &ac, None);

    assert_eq!(records.len(), 1);
    let start = records[0].offset_start as usize;
    let end = records[0].offset_end as usize;
    assert_eq!(&image[start..end], file.as_slice());
}

#[test]
fn worker_chunks_are_scanned_in_isolation() {
    // a BMP in the first worker's chunk, a WAV in the second's
    let mut image = bmp_file(64);
    image.extend_from_slice(&wav_file(64));

    let ctx0 = Context { mmap: &image, start: 0, end: 64 };
    let ctx1 = Context { mmap: &image, start: 64, end: 128 };
    let corpus = Corpus::new(0);
    let ac = corpus.patterns().unwrap();
    let mut alone = ctx0.scan(&corpus, &ac, None);
    alone.extend(ctx1.scan(&corpus, &ac, None));

    let mut corpus = Corpus::new(0);
    let ac = corpus.patterns().unwrap();
    let together = scan_image(&image, &mut corpus, &ac, 2, None);

    assert_eq!(together.len(), alone.len());
    for (record, d) in together.iter().zip(alone.iter()) {
        assert_eq!(record.offset_start, d.start as u64);
        assert_eq!(record.length, d.length as u64);
    }
    assert_eq!(together[0].artefact, "images/bmp/bmp_00000000.bmp");
    assert_eq!(together[1].artefact, "audio/wav/wav_00000000.wav");
}

#[test]
fn carve_may_cross_a_chunk_border() {
    // a PNG whose magic lies in the first worker's chunk but whose body
    // runs into the second worker's
    let mut image = png_file();
    image.extend_from_slice(&[0x00; 8]);
    assert_eq!(image.len(), 40);

    let mut corpus = Corpus::new(0);
    let ac = corpus.patterns().unwrap();
    let records = scan_image(&image, &mut corpus, &ac, 2, None);

    assert_eq!(records.len(), 1);
    assert_eq!(records[0].artefact, "images/png/png_00000000.png");
    assert_eq!(records[0].length, 32);
}
