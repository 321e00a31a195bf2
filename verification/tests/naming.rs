use rodin::audit::{metadata_line, AuditData};
use rodin::carvers::size_carver::SizeCarver;
use rodin::carvers::CarvingResult;
use rodin::digits::{dec_string, hex_string, padded8_string};
use rodin::filetypes::bmp::BMP;
use rodin::filetypes::corpus::Corpus;
use rodin::filetypes::wav::WAV;

#[test]
fn decimal_rendering() {
    assert_eq!(dec_string(0), "0");
    assert_eq!(dec_string(7), "7");
    assert_eq!(dec_string(1234567890), "1234567890");
}

#[test]
fn hexadecimal_rendering() {
    assert_eq!(hex_string(0), "0");
    assert_eq!(hex_string(0x66), "66");
    assert_eq!(hex_string(0xDEADBEEF), "DEADBEEF");
}

#[test]
fn padded_rendering() {
    assert_eq!(padded8_string(0), "00000000");
    assert_eq!(padded8_string(42), "00000042");
    assert_eq!(padded8_string(12345678), "12345678");
    assert_eq!(padded8_string(123456789), "123456789");
}

#[test]
fn file_names_count_up() {
    let mut corpus = Corpus::new(0);
    let mut ft = corpus.0.remove(0);
    assert_eq!(ft.next_file_name(), "images/bmp/bmp_00000000.bmp");
    assert_eq!(ft.next_file_name(), "images/bmp/bmp_00000001.bmp");
    assert_eq!(ft.index, 2);
}

#[test]
fn audit_line_format() {
    let ad = AuditData {
        artefact: String::from("images/bmp/bmp_00000000.bmp"),
        offset_start: 2,
        offset_end: 102,
        length: 100,
    };
    assert_eq!(
        ad.line(),
        "images/bmp/bmp_00000000.bmp: 2-102 (0x2-0x66) 100\n"
    );
}

#[test]
fn metadata_line_format() {
    assert_eq!(
        metadata_line("disk.img", 1024),
        "image name: disk.img, file length: 1024\n\n"
    );
}

#[test]
fn carving_result_new_holds_its_parts() {
    let r = CarvingResult::new(100, "images/bmp/bmp_00000000.bmp", 100);
    assert_eq!(r.offset, 100);
    assert_eq!(r.file_name.unwrap(), "images/bmp/bmp_00000000.bmp");
    assert_eq!(r.length, 100);

    let r = CarvingResult::default();
    assert_eq!(r.offset, 0);
    assert!(r.file_name.is_none());
    assert_eq!(r.length, 0);
}

#[test]
fn size_carver_extensions() {
    assert_eq!(BMP::default().ext(), "bmp");
    assert_eq!(WAV::default().ext(), "wav");
    assert_eq!(BMP::default().size(), 0);
    assert!(!WAV::default().is_genuine());
}

#[test]
fn corpus_lists_four_types() {
    let corpus = Corpus::new(9);
    assert_eq!(corpus.0.len(), 4);
    assert_eq!(corpus.0[0].ext, "bmp");
    assert_eq!(corpus.0[1].ext, "wav");
    assert_eq!(corpus.0[2].ext, "png");
    assert_eq!(corpus.0[3].ext, "jpg");
    assert!(corpus.0.iter().all(|ft| ft.min_size == 9));
    assert!(corpus.0.iter().all(|ft| ft.max_size == 1000000));
    assert!(corpus.0.iter().all(|ft| ft.index == 0));
}

#[test]
fn retain_filters_corpus() {
    let mut corpus = Corpus::new(0);
    corpus.retain(&vec![String::from("png"), String::from("jpg")]);
    assert_eq!(corpus.0.len(), 2);
    assert_eq!(corpus.0[0].ext, "png");
    assert_eq!(corpus.0[1].ext, "jpg");
}

#[test]
fn retain_with_empty_list_keeps_all() {
    let mut corpus = Corpus::new(0);
    corpus.retain(&Vec::new());
    assert_eq!(corpus.0.len(), 4);
}
