use std::io::{Cursor, Read};

use epubsync::fixtures::{
    build_book, build_book_with_cover, build_epub, read_entry, ALL_OPFS, BARE_OPF, CHAPTER_XHTML,
    CONTAINER_XML, COVER_JPEG, EPUB2_OPF, OPF_PATH, TOC_NCX,
};

fn entries(bytes: &[u8]) -> Vec<(String, Vec<u8>, zip::CompressionMethod)> {
    let mut archive = zip::ZipArchive::new(Cursor::new(bytes)).unwrap();
    let mut out = Vec::new();
    for i in 0..archive.len() {
        let mut entry = archive.by_index(i).unwrap();
        let mut data = Vec::new();
        entry.read_to_end(&mut data).unwrap();
        out.push((entry.name().unwrap().to_string(), data, entry.compression()));
    }
    out
}

#[test]
fn build_epub_writes_the_entries_in_order() {
    let bytes = build_epub(EPUB2_OPF).unwrap();
    let got = entries(&bytes);
    let names: Vec<&str> = got.iter().map(|e| e.0.as_str()).collect();
    assert_eq!(
        names,
        [
            "mimetype",
            "META-INF/container.xml",
            OPF_PATH,
            "OEBPS/chapter1.xhtml",
            "OEBPS/toc.ncx",
            "OEBPS/cover.jpg"
        ]
    );
    assert_eq!(got[0].1, b"application/epub+zip");
    assert_eq!(got[0].2, zip::CompressionMethod::Stored);
    assert_eq!(got[1].1, CONTAINER_XML.as_bytes());
    assert_eq!(got[2].1, EPUB2_OPF.as_bytes());
    assert_eq!(got[2].2, zip::CompressionMethod::Deflated);
    assert_eq!(got[3].1, CHAPTER_XHTML.as_bytes());
    assert_eq!(got[4].1, TOC_NCX.as_bytes());
    assert_eq!(got[5].1, COVER_JPEG);
    assert_eq!(got[5].2, zip::CompressionMethod::Stored);
}

#[test]
fn build_book_takes_the_chapter_and_build_epub_is_the_same_bytes_each_time() {
    let chapter = "<html><body><p>The cat sat.</p></body></html>";
    let got = entries(&build_book(BARE_OPF, chapter).unwrap());
    assert_eq!(got[3].1, chapter.as_bytes());
    assert_eq!(build_epub(BARE_OPF).unwrap(), build_epub(BARE_OPF).unwrap());
    assert_eq!(
        build_epub(BARE_OPF).unwrap(),
        build_book(BARE_OPF, CHAPTER_XHTML).unwrap()
    );
}

#[test]
fn build_book_with_cover_stores_the_cover_bytes() {
    let cover = b"<svg xmlns='http://www.w3.org/2000/svg'/>";
    let got = entries(&build_book_with_cover(EPUB2_OPF, CHAPTER_XHTML, cover).unwrap());
    assert_eq!(got[5].1, cover);
}

#[test]
fn every_fixture_opf_builds() {
    assert_eq!(ALL_OPFS.len(), 7);
    for (name, opf) in ALL_OPFS {
        let got = entries(&build_epub(opf).unwrap());
        assert_eq!(got[2].1, opf.as_bytes(), "{name}");
    }
}

use epubsync::fixtures::corrupt_entry_data;

#[test]
fn corrupting_an_entry_breaks_its_read_and_nothing_else() {
    let mut bytes = build_epub(EPUB2_OPF).unwrap();
    let before = bytes.clone();
    assert!(corrupt_entry_data(&mut bytes, b"OEBPS/chapter1.xhtml"));
    let changed: Vec<usize> = (0..bytes.len()).filter(|&i| bytes[i] != before[i]).collect();
    assert_eq!(changed.len(), 1);
    assert_eq!(bytes[changed[0]], before[changed[0]] ^ 0xFF);
    let mut archive = zip::ZipArchive::new(Cursor::new(&bytes[..])).unwrap();
    let mut text = String::new();
    let read = archive
        .by_name("OEBPS/chapter1.xhtml")
        .map_err(|e| e.to_string())
        .and_then(|mut e| e.read_to_string(&mut text).map_err(|e| e.to_string()));
    assert!(read.is_err());
}

#[test]
fn corrupting_a_name_the_zip_lacks_changes_nothing() {
    let mut bytes = build_epub(EPUB2_OPF).unwrap();
    let before = bytes.clone();
    assert!(!corrupt_entry_data(&mut bytes, b"OEBPS/nothing.xhtml"));
    assert_eq!(bytes, before);
    assert!(!corrupt_entry_data(&mut bytes, b""));
}

#[test]
fn read_entry_gives_back_the_text_of_an_entry() {
    let bytes = build_book(EPUB2_OPF, "<p>one two</p>").unwrap();
    assert_eq!(read_entry(&bytes, OPF_PATH).as_deref(), Some(EPUB2_OPF));
    assert_eq!(read_entry(&bytes, "OEBPS/chapter1.xhtml").as_deref(), Some("<p>one two</p>"));
    assert_eq!(read_entry(&bytes, "mimetype").as_deref(), Some("application/epub+zip"));
}

#[test]
fn read_entry_gives_nothing_for_a_missing_entry_bad_text_or_a_bad_archive() {
    let bytes = build_epub(EPUB2_OPF).unwrap();
    assert_eq!(read_entry(&bytes, "OEBPS/missing.xhtml"), None);
    let not_text = build_book_with_cover(EPUB2_OPF, CHAPTER_XHTML, &[0xFF, 0xFE, 0x00]).unwrap();
    assert_eq!(read_entry(&not_text, "OEBPS/cover.jpg"), None);
    assert_eq!(read_entry(b"not a zip", OPF_PATH), None);
}

#[test]
fn a_built_book_reads_back_every_entry() {
    let cover = [1u8, 2, 3];
    let bytes = build_book_with_cover(BARE_OPF, "<p>x</p>", &cover).unwrap();
    assert_eq!(read_entry(&bytes, "mimetype").as_deref(), Some("application/epub+zip"));
    assert_eq!(read_entry(&bytes, "META-INF/container.xml").as_deref(), Some(CONTAINER_XML));
    assert_eq!(read_entry(&bytes, OPF_PATH).as_deref(), Some(BARE_OPF));
    assert_eq!(read_entry(&bytes, "OEBPS/chapter1.xhtml").as_deref(), Some("<p>x</p>"));
    assert_eq!(read_entry(&bytes, "OEBPS/toc.ncx").as_deref(), Some(TOC_NCX));
    let got = entries(&bytes);
    assert_eq!(got[5].1, cover.to_vec());
}
