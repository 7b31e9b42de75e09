//! EPUB files built in memory, for tests. Each test passes its own OPF
//! text, so one builder covers EPUB 2, EPUB 3, and every metadata form.
//! The zip is written by the `zip` crate; the entries, their order, and
//! how each is stored are decided here.

use std::io::{Cursor, Read, Write};

use vstd::prelude::*;
use vstd::string::StringSliceAdditionalSpecFns;
use vstd::utf8::*;
use zip::result::ZipError;
use zip::{ZipArchive, ZipWriter};

verus! {

pub const OPF_PATH: &'static str = "OEBPS/content.opf";

pub const CONTAINER_XML: &'static str = r##"<?xml version="1.0" encoding="UTF-8"?>
<container version="1.0" xmlns="urn:oasis:names:tc:opendocument:xmlns:container">
  <rootfiles>
    <rootfile full-path="OEBPS/content.opf" media-type="application/oebps-package+xml"/>
  </rootfiles>
</container>
"##;

pub const CHAPTER_XHTML: &'static str = r##"<?xml version="1.0" encoding="UTF-8"?>
<html xmlns="http://www.w3.org/1999/xhtml">
<head><title>Chapter 1</title></head>
<body>
<h1>Chapter 1</h1>
<p>It was a dark and stormy night. The rain fell in torrents.</p>
</body>
</html>
"##;

/// A small EPUB 2 OPF in the shape Calibre writes.
pub const EPUB2_OPF: &'static str = r##"<?xml version='1.0' encoding='utf-8'?>
<package xmlns="http://www.idpf.org/2007/opf" unique-identifier="uuid_id" version="2.0">
  <metadata xmlns:dc="http://purl.org/dc/elements/1.1/" xmlns:opf="http://www.idpf.org/2007/opf">
    <dc:identifier id="uuid_id" opf:scheme="uuid">a1b2c3</dc:identifier>
    <dc:title>The Left Hand of Darkness</dc:title>
    <dc:creator opf:file-as="Le Guin, Ursula K." opf:role="aut">Ursula K. Le Guin</dc:creator>
    <dc:language>en</dc:language>
    <dc:publisher>Ace Books</dc:publisher>
    <dc:description>&lt;p&gt;A novel of Winter.&lt;/p&gt;</dc:description>
    <meta name="calibre:series" content="Hainish Cycle"/>
    <meta name="calibre:series_index" content="4"/>
    <meta name="cover" content="cover"/>
  </metadata>
  <manifest>
    <item id="cover" href="cover.jpg" media-type="image/jpeg"/>
    <item id="ch1" href="chapter1.xhtml" media-type="application/xhtml+xml"/>
    <item id="ncx" href="toc.ncx" media-type="application/x-dtbncx+xml"/>
  </manifest>
  <spine toc="ncx">
    <itemref idref="ch1"/>
  </spine>
</package>
"##;

pub const TOC_NCX: &'static str = r##"<?xml version="1.0" encoding="UTF-8"?>
<ncx xmlns="http://www.daisy.org/z3986/2005/ncx/" version="2005-1">
  <head><meta name="dtb:uid" content="a1b2c3"/></head>
  <docTitle><text>Book</text></docTitle>
  <navMap>
    <navPoint id="n1" playOrder="1"><navLabel><text>Chapter 1</text></navLabel><content src="chapter1.xhtml"/></navPoint>
  </navMap>
</ncx>
"##;

/// An EPUB 3 OPF with refinements and a `belongs-to-collection` series.
pub const EPUB3_OPF: &'static str = r##"<?xml version="1.0" encoding="UTF-8"?>
<package xmlns="http://www.idpf.org/2007/opf" version="3.0" unique-identifier="pub-id" xml:lang="en">
  <metadata xmlns:dc="http://purl.org/dc/elements/1.1/">
    <dc:identifier id="pub-id">urn:uuid:d4e5f6</dc:identifier>
    <dc:title id="t1">A Wizard of Earthsea</dc:title>
    <dc:creator id="creator01">Ursula K. Le Guin</dc:creator>
    <meta refines="#creator01" property="role" scheme="marc:relators">aut</meta>
    <meta refines="#creator01" property="file-as">Le Guin, Ursula K.</meta>
    <dc:language>en</dc:language>
    <dc:publisher>Parnassus Press</dc:publisher>
    <dc:description>Ged the sparrowhawk.</dc:description>
    <meta property="dcterms:modified">2024-01-01T00:00:00Z</meta>
    <meta property="belongs-to-collection" id="c01">Earthsea Cycle</meta>
    <meta refines="#c01" property="collection-type">series</meta>
    <meta refines="#c01" property="group-position">1</meta>
  </metadata>
  <manifest>
    <item id="cover" href="cover.jpg" media-type="image/jpeg" properties="cover-image"/>
    <item id="nav" href="nav.xhtml" media-type="application/xhtml+xml" properties="nav"/>
    <item id="ch1" href="chapter1.xhtml" media-type="application/xhtml+xml"/>
  </manifest>
  <spine>
    <itemref idref="ch1"/>
  </spine>
</package>
"##;

/// An EPUB 3 OPF as Calibre writes it: both `file-as` forms on one creator
/// and the Calibre series metas.
pub const EPUB3_CALIBRE_OPF: &'static str = r##"<?xml version='1.0' encoding='utf-8'?>
<package xmlns="http://www.idpf.org/2007/opf" unique-identifier="uuid_id" version="3.0" prefix="calibre: https://calibre-ebook.com">
  <metadata xmlns:dc="http://purl.org/dc/elements/1.1/" xmlns:opf="http://www.idpf.org/2007/opf">
    <dc:identifier id="uuid_id">urn:uuid:112233</dc:identifier>
    <dc:title>The Dispossessed</dc:title>
    <dc:creator id="id" opf:file-as="Le Guin, Ursula K." opf:role="aut">Ursula K. Le Guin</dc:creator>
    <meta refines="#id" property="file-as">Le Guin, Ursula K.</meta>
    <meta refines="#id" property="role" scheme="marc:relators">aut</meta>
    <dc:language>en</dc:language>
    <dc:publisher>Harper &amp; Row</dc:publisher>
    <dc:description>An ambiguous utopia.</dc:description>
    <meta name="calibre:series" content="Hainish Cycle"/>
    <meta name="calibre:series_index" content="5"/>
    <meta property="dcterms:modified">2024-01-01T00:00:00Z</meta>
  </metadata>
  <manifest>
    <item id="cover" href="cover.jpg" media-type="image/jpeg" properties="cover-image"/>
    <item id="ch1" href="chapter1.xhtml" media-type="application/xhtml+xml"/>
  </manifest>
  <spine>
    <itemref idref="ch1"/>
  </spine>
</package>
"##;

/// An EPUB 2 OPF whose `description` carries the Dublin Core namespace as
/// its own default namespace instead of the `dc:` prefix.
pub const DEFAULT_NS_DESCRIPTION_OPF: &'static str = r##"<?xml version="1.0" encoding="UTF-8"?>
<package xmlns="http://www.idpf.org/2007/opf" unique-identifier="bookid" version="2.0">
  <metadata xmlns:dc="http://purl.org/dc/elements/1.1/" xmlns:opf="http://www.idpf.org/2007/opf">
    <dc:identifier id="bookid">isbn-0</dc:identifier>
    <dc:title>The Lathe of Heaven</dc:title>
    <dc:creator opf:file-as="Le Guin, Ursula K.">Ursula K. Le Guin</dc:creator>
    <dc:language>en</dc:language>
    <description xmlns="http://purl.org/dc/elements/1.1/">Dreams that change the world.</description>
  </metadata>
  <manifest>
    <item id="ch1" href="chapter1.xhtml" media-type="application/xhtml+xml"/>
  </manifest>
  <spine>
    <itemref idref="ch1"/>
  </spine>
</package>
"##;

/// An EPUB 3 OPF with two titles, the second marked `main`.
pub const TWO_TITLES_OPF: &'static str = r##"<?xml version="1.0" encoding="UTF-8"?>
<package xmlns="http://www.idpf.org/2007/opf" version="3.0" unique-identifier="pub-id">
  <metadata xmlns:dc="http://purl.org/dc/elements/1.1/">
    <dc:identifier id="pub-id">urn:uuid:aa</dc:identifier>
    <dc:title id="t1">Earthsea</dc:title>
    <meta refines="#t1" property="title-type">collection</meta>
    <dc:title id="t2">The Tombs of Atuan</dc:title>
    <meta refines="#t2" property="title-type">main</meta>
    <dc:creator id="a1">Ursula K. Le Guin</dc:creator>
    <dc:language>en</dc:language>
  </metadata>
  <manifest>
    <item id="ch1" href="chapter1.xhtml" media-type="application/xhtml+xml"/>
  </manifest>
  <spine>
    <itemref idref="ch1"/>
  </spine>
</package>
"##;

/// An EPUB 2 OPF with no series, no publisher, no description, no `file-as`,
/// and no `opf` prefix declared.
pub const BARE_OPF: &'static str = r##"<?xml version="1.0" encoding="UTF-8"?>
<package xmlns="http://www.idpf.org/2007/opf" unique-identifier="bookid" version="2.0">
  <metadata xmlns:dc="http://purl.org/dc/elements/1.1/">
    <dc:identifier id="bookid">isbn-1</dc:identifier>
    <dc:title>Candide</dc:title>
    <dc:creator>Voltaire</dc:creator>
    <dc:language>fr</dc:language>
  </metadata>
  <manifest>
    <item id="ch1" href="chapter1.xhtml" media-type="application/xhtml+xml"/>
  </manifest>
  <spine>
    <itemref idref="ch1"/>
  </spine>
</package>
"##;

/// An EPUB 2 OPF whose cover item names an entry the zip does not hold.
pub const MISSING_COVER_OPF: &'static str = r##"<?xml version="1.0" encoding="UTF-8"?>
<package xmlns="http://www.idpf.org/2007/opf" unique-identifier="bookid" version="2.0">
  <metadata xmlns:dc="http://purl.org/dc/elements/1.1/" xmlns:opf="http://www.idpf.org/2007/opf">
    <dc:identifier id="bookid">isbn-2</dc:identifier>
    <dc:title>The Word for World Is Forest</dc:title>
    <dc:creator opf:file-as="Le Guin, Ursula K.">Ursula K. Le Guin</dc:creator>
    <dc:language>en</dc:language>
    <meta name="cover" content="cover"/>
  </metadata>
  <manifest>
    <item id="cover" href="no-such-cover.jpg" media-type="image/jpeg"/>
    <item id="ch1" href="chapter1.xhtml" media-type="application/xhtml+xml"/>
  </manifest>
  <spine>
    <itemref idref="ch1"/>
  </spine>
</package>
"##;

/// An EPUB 3 OPF in the shape Standard Ebooks writes: tab indentation,
/// refinements on the publisher, and the word count and reading ease.
pub const STANDARD_EBOOKS_OPF: &'static str = r##"<?xml version="1.0" encoding="utf-8"?>
<package xmlns="http://www.idpf.org/2007/opf" dir="ltr" prefix="rdf: http://www.w3.org/1999/02/22-rdf-syntax-ns#" unique-identifier="uid" version="3.0" xml:lang="en-US">
	<metadata xmlns:dc="http://purl.org/dc/elements/1.1/">
		<dc:identifier id="uid">https://standardebooks.org/ebooks/jane-austen/pride-and-prejudice</dc:identifier>
		<dc:date>2014-05-25T00:00:00Z</dc:date>
		<meta property="dcterms:modified">2014-05-25T00:00:00Z</meta>
		<meta property="rdf:type">http://schema.org/Book</meta>
		<dc:publisher id="publisher">Standard Ebooks</dc:publisher>
		<meta property="file-as" refines="#publisher">Standard Ebooks</meta>
		<meta property="role" refines="#publisher" scheme="marc:relators">bkd</meta>
		<dc:description>
			&lt;p&gt;A novel of manners.&lt;/p&gt;
		</dc:description>
		<dc:language>en-GB</dc:language>
		<meta property="schema:wordCount">121970</meta>
		<meta property="schema:educationalLevel">60.95</meta>
		<dc:title id="title">Pride and Prejudice</dc:title>
		<meta property="file-as" refines="#title">Pride and Prejudice</meta>
		<dc:creator id="author">Jane Austen</dc:creator>
		<meta property="file-as" refines="#author">Austen, Jane</meta>
		<meta property="role" refines="#author" scheme="marc:relators">aut</meta>
	</metadata>
	<manifest>
		<item href="cover.jpg" id="cover" media-type="image/jpeg" properties="cover-image"/>
		<item href="chapter1.xhtml" id="ch1" media-type="application/xhtml+xml"/>
	</manifest>
	<spine>
		<itemref idref="ch1"/>
	</spine>
</package>
"##;

/// A 1x1 JPEG the `image` crate decodes, enough for a cover entry.
pub const COVER_JPEG: [u8; 631] = [
    0xFF, 0xD8, 0xFF, 0xE0, 0x00, 0x10, 0x4A, 0x46, 0x49, 0x46, 0x00, 0x01, 0x02, 0x00, 0x00, 0x01,
    0x00, 0x01, 0x00, 0x00, 0xFF, 0xC0, 0x00, 0x11, 0x08, 0x00, 0x01, 0x00, 0x01, 0x03, 0x01, 0x11,
    0x00, 0x02, 0x11, 0x01, 0x03, 0x11, 0x01, 0xFF, 0xDB, 0x00, 0x43, 0x00, 0x05, 0x03, 0x04, 0x04,
    0x04, 0x03, 0x05, 0x04, 0x04, 0x04, 0x05, 0x05, 0x05, 0x06, 0x07, 0x0C, 0x08, 0x07, 0x07, 0x07,
    0x07, 0x0F, 0x0B, 0x0B, 0x09, 0x0C, 0x11, 0x0F, 0x12, 0x12, 0x11, 0x0F, 0x11, 0x11, 0x13, 0x16,
    0x1C, 0x17, 0x13, 0x14, 0x1A, 0x15, 0x11, 0x11, 0x18, 0x21, 0x18, 0x1A, 0x1D, 0x1D, 0x1F, 0x1F,
    0x1F, 0x13, 0x17, 0x22, 0x24, 0x22, 0x1E, 0x24, 0x1C, 0x1E, 0x1F, 0x1E, 0xFF, 0xDB, 0x00, 0x43,
    0x01, 0x05, 0x05, 0x05, 0x07, 0x06, 0x07, 0x0E, 0x08, 0x08, 0x0E, 0x1E, 0x14, 0x11, 0x14, 0x1E,
    0x1E, 0x1E, 0x1E, 0x1E, 0x1E, 0x1E, 0x1E, 0x1E, 0x1E, 0x1E, 0x1E, 0x1E, 0x1E, 0x1E, 0x1E, 0x1E,
    0x1E, 0x1E, 0x1E, 0x1E, 0x1E, 0x1E, 0x1E, 0x1E, 0x1E, 0x1E, 0x1E, 0x1E, 0x1E, 0x1E, 0x1E, 0x1E,
    0x1E, 0x1E, 0x1E, 0x1E, 0x1E, 0x1E, 0x1E, 0x1E, 0x1E, 0x1E, 0x1E, 0x1E, 0x1E, 0x1E, 0x1E, 0x1E,
    0x1E, 0xFF, 0xC4, 0x00, 0x1F, 0x00, 0x00, 0x01, 0x05, 0x01, 0x01, 0x01, 0x01, 0x01, 0x01, 0x00,
    0x00, 0x00, 0x00, 0x00, 0x00, 0x00, 0x00, 0x01, 0x02, 0x03, 0x04, 0x05, 0x06, 0x07, 0x08, 0x09,
    0x0A, 0x0B, 0xFF, 0xC4, 0x00, 0xB5, 0x10, 0x00, 0x02, 0x01, 0x03, 0x03, 0x02, 0x04, 0x03, 0x05,
    0x05, 0x04, 0x04, 0x00, 0x00, 0x01, 0x7D, 0x01, 0x02, 0x03, 0x00, 0x04, 0x11, 0x05, 0x12, 0x21,
    0x31, 0x41, 0x06, 0x13, 0x51, 0x61, 0x07, 0x22, 0x71, 0x14, 0x32, 0x81, 0x91, 0xA1, 0x08, 0x23,
    0x42, 0xB1, 0xC1, 0x15, 0x52, 0xD1, 0xF0, 0x24, 0x33, 0x62, 0x72, 0x82, 0x09, 0x0A, 0x16, 0x17,
    0x18, 0x19, 0x1A, 0x25, 0x26, 0x27, 0x28, 0x29, 0x2A, 0x34, 0x35, 0x36, 0x37, 0x38, 0x39, 0x3A,
    0x43, 0x44, 0x45, 0x46, 0x47, 0x48, 0x49, 0x4A, 0x53, 0x54, 0x55, 0x56, 0x57, 0x58, 0x59, 0x5A,
    0x63, 0x64, 0x65, 0x66, 0x67, 0x68, 0x69, 0x6A, 0x73, 0x74, 0x75, 0x76, 0x77, 0x78, 0x79, 0x7A,
    0x83, 0x84, 0x85, 0x86, 0x87, 0x88, 0x89, 0x8A, 0x92, 0x93, 0x94, 0x95, 0x96, 0x97, 0x98, 0x99,
    0x9A, 0xA2, 0xA3, 0xA4, 0xA5, 0xA6, 0xA7, 0xA8, 0xA9, 0xAA, 0xB2, 0xB3, 0xB4, 0xB5, 0xB6, 0xB7,
    0xB8, 0xB9, 0xBA, 0xC2, 0xC3, 0xC4, 0xC5, 0xC6, 0xC7, 0xC8, 0xC9, 0xCA, 0xD2, 0xD3, 0xD4, 0xD5,
    0xD6, 0xD7, 0xD8, 0xD9, 0xDA, 0xE1, 0xE2, 0xE3, 0xE4, 0xE5, 0xE6, 0xE7, 0xE8, 0xE9, 0xEA, 0xF1,
    0xF2, 0xF3, 0xF4, 0xF5, 0xF6, 0xF7, 0xF8, 0xF9, 0xFA, 0xFF, 0xC4, 0x00, 0x1F, 0x01, 0x00, 0x03,
    0x01, 0x01, 0x01, 0x01, 0x01, 0x01, 0x01, 0x01, 0x01, 0x00, 0x00, 0x00, 0x00, 0x00, 0x00, 0x01,
    0x02, 0x03, 0x04, 0x05, 0x06, 0x07, 0x08, 0x09, 0x0A, 0x0B, 0xFF, 0xC4, 0x00, 0xB5, 0x11, 0x00,
    0x02, 0x01, 0x02, 0x04, 0x04, 0x03, 0x04, 0x07, 0x05, 0x04, 0x04, 0x00, 0x01, 0x02, 0x77, 0x00,
    0x01, 0x02, 0x03, 0x11, 0x04, 0x05, 0x21, 0x31, 0x06, 0x12, 0x41, 0x51, 0x07, 0x61, 0x71, 0x13,
    0x22, 0x32, 0x81, 0x08, 0x14, 0x42, 0x91, 0xA1, 0xB1, 0xC1, 0x09, 0x23, 0x33, 0x52, 0xF0, 0x15,
    0x62, 0x72, 0xD1, 0x0A, 0x16, 0x24, 0x34, 0xE1, 0x25, 0xF1, 0x17, 0x18, 0x19, 0x1A, 0x26, 0x27,
    0x28, 0x29, 0x2A, 0x35, 0x36, 0x37, 0x38, 0x39, 0x3A, 0x43, 0x44, 0x45, 0x46, 0x47, 0x48, 0x49,
    0x4A, 0x53, 0x54, 0x55, 0x56, 0x57, 0x58, 0x59, 0x5A, 0x63, 0x64, 0x65, 0x66, 0x67, 0x68, 0x69,
    0x6A, 0x73, 0x74, 0x75, 0x76, 0x77, 0x78, 0x79, 0x7A, 0x82, 0x83, 0x84, 0x85, 0x86, 0x87, 0x88,
    0x89, 0x8A, 0x92, 0x93, 0x94, 0x95, 0x96, 0x97, 0x98, 0x99, 0x9A, 0xA2, 0xA3, 0xA4, 0xA5, 0xA6,
    0xA7, 0xA8, 0xA9, 0xAA, 0xB2, 0xB3, 0xB4, 0xB5, 0xB6, 0xB7, 0xB8, 0xB9, 0xBA, 0xC2, 0xC3, 0xC4,
    0xC5, 0xC6, 0xC7, 0xC8, 0xC9, 0xCA, 0xD2, 0xD3, 0xD4, 0xD5, 0xD6, 0xD7, 0xD8, 0xD9, 0xDA, 0xE2,
    0xE3, 0xE4, 0xE5, 0xE6, 0xE7, 0xE8, 0xE9, 0xEA, 0xF2, 0xF3, 0xF4, 0xF5, 0xF6, 0xF7, 0xF8, 0xF9,
    0xFA, 0xFF, 0xDA, 0x00, 0x0C, 0x03, 0x01, 0x00, 0x02, 0x11, 0x03, 0x11, 0x00, 0x3F, 0x00, 0xF3,
    0x4A, 0xFB, 0x23, 0xE7, 0x4F, 0xFF, 0xD9,
];

pub const ALL_OPFS: [(&'static str, &'static str); 7] = [
    ("epub2", EPUB2_OPF),
    ("epub3", EPUB3_OPF),
    ("epub3-calibre", EPUB3_CALIBRE_OPF),
    ("default-ns-description", DEFAULT_NS_DESCRIPTION_OPF),
    ("two-titles", TWO_TITLES_OPF),
    ("bare", BARE_OPF),
    ("standard-ebooks", STANDARD_EBOOKS_OPF),
];

/// A zip writer on an in-memory buffer, kept in a private field. The
/// contracts see it through `zip_entries` and `zip_failed`: the entries
/// it holds and whether a call on it has failed.
#[verifier::external_body]
pub struct ArchiveWriter {
    inner: ZipWriter<Cursor<Vec<u8>>>,
}

#[verifier::external_type_specification]
#[verifier::external_body]
pub struct ExZipError(ZipError);

#[verifier::external_type_specification]
#[verifier::external_body]
pub struct ExIoError(std::io::Error);

/// One zip entry as plain values: its name, the chunks of bytes written to
/// it in the order they were written, and whether it is stored rather than
/// deflated.
pub type ZipEntry = (Seq<char>, Seq<Seq<u8>>, bool);

/// The entries a zip writer holds, in the order they were started.
pub uninterp spec fn zip_entries(w: ArchiveWriter) -> Seq<ZipEntry>;

/// Whether a call on the writer has failed; such a writer is not used
/// again.
pub uninterp spec fn zip_failed(w: ArchiveWriter) -> bool;

/// Whether `ZipWriter::start_file` succeeds on a writer that holds
/// `entries`, for an entry called `name`, stored or deflated.
pub uninterp spec fn zip_start_ok(entries: Seq<ZipEntry>, name: Seq<char>, stored: bool) -> bool;

/// Whether `write_all` of `data` succeeds on a writer that holds `entries`,
/// the last of them the one being written.
pub uninterp spec fn zip_write_ok(entries: Seq<ZipEntry>, data: Seq<u8>) -> bool;

/// What `ZipWriter::finish` gives for a writer that holds `entries`: the
/// bytes of the archive, or `None` where it fails.
pub uninterp spec fn zip_finished(entries: Seq<ZipEntry>) -> Option<Seq<u8>>;

/// Calls `ZipWriter::new` on an empty `Cursor`. The writer holds no entry
/// and nothing has failed.
#[verifier::external_body]
fn new_archive() -> (w: ArchiveWriter)
    ensures
        zip_entries(w) == Seq::<ZipEntry>::empty(),
        !zip_failed(w),
{
    ArchiveWriter { inner: ZipWriter::new(Cursor::new(Vec::new())) }
}

/// Calls `ZipWriter::start_file` with the default options and the
/// `Stored` or the `Deflated` method. Whether it succeeds is decided by
/// what the writer holds and by the call's arguments (the name must be
/// new; the bytes go to a `Cursor`, which does not fail); the contract
/// names that decision. On success the writer holds one more entry, with
/// that name and no bytes yet. Of the writer after a failure nothing is
/// said.
#[verifier::external_body]
fn start_entry(w: &mut ArchiveWriter, name: &str, stored: bool) -> (r: Result<(), ZipError>)
    requires
        !zip_failed(*old(w)),
    ensures
        (r is Ok) == zip_start_ok(zip_entries(*old(w)), name@, stored),
        r is Ok ==> !zip_failed(*final(w)),
        r is Ok ==> zip_entries(*final(w)) == zip_entries(*old(w)).push(
            (name@, Seq::<Seq<u8>>::empty(), stored),
        ),
{
    let method = match stored {
        true => zip::CompressionMethod::Stored,
        false => zip::CompressionMethod::Deflated,
    };
    w.inner.start_file(name, zip::write::SimpleFileOptions::default().compression_method(method))
}

/// Calls `Write::write_all` on the writer, whose last entry has been
/// started. Whether it succeeds is decided by what the writer holds and
/// by `data`; the contract names that decision. On success `data` is one
/// more chunk of the last entry. Of the writer after a failure nothing is
/// said.
#[verifier::external_body]
fn write_data(w: &mut ArchiveWriter, data: &[u8]) -> (r: Result<(), std::io::Error>)
    requires
        !zip_failed(*old(w)),
        zip_entries(*old(w)).len() > 0,
    ensures
        (r is Ok) == zip_write_ok(zip_entries(*old(w)), data@),
        r is Ok ==> !zip_failed(*final(w)),
        r is Ok ==> {
            let before = zip_entries(*old(w));
            zip_entries(*final(w)) == before.update(
                before.len() - 1,
                (before.last().0, before.last().1.push(data@), before.last().2),
            )
        },
{
    w.inner.write_all(data)
}

/// The bytes written to an entry, chunk after chunk.
pub open spec fn joined(chunks: Seq<Seq<u8>>) -> Seq<u8>
    decreases chunks.len(),
{
    if chunks.len() == 0 {
        Seq::empty()
    } else {
        joined(chunks.drop_last()) + chunks.last()
    }
}

/// Calls `ZipWriter::finish` and takes the bytes out of the `Cursor`.
/// Success and the bytes are those the contract names for the writer's
/// entries. The archive reads back: each entry, looked up by its name
/// (names are distinct, since `start_file` refuses one already used),
/// gives the bytes written to it.
#[verifier::external_body]
fn finish_archive(w: ArchiveWriter) -> (r: Result<Vec<u8>, ZipError>)
    requires
        !zip_failed(w),
    ensures
        match r {
            Ok(bytes) => zip_finished(zip_entries(w)) == Some(bytes@),
            Err(_) => zip_finished(zip_entries(w)) is None,
        },
        r matches Ok(bytes) ==> forall|i: int|
            0 <= i < zip_entries(w).len() ==> zip_entry_bytes(bytes@, #[trigger] zip_entries(w)[i].0)
                == Some(joined(zip_entries(w)[i].1)),
{
    w.inner.finish().map(|c| c.into_inner())
}

/// The zip writer failed. Building an archive in memory of a handful of
/// small entries with distinct names does not fail in practice.
#[derive(Debug, Clone, Copy, PartialEq, Eq)]
pub struct ArchiveError;

/// The entries after one more file is added to `entries`: started with
/// `name` and the method, then `data` written to it; `None` where either
/// step fails.
pub open spec fn add_file(entries: Seq<ZipEntry>, name: Seq<char>, data: Seq<u8>, stored: bool) -> Option<
    Seq<ZipEntry>,
> {
    let started = entries.push((name, Seq::<Seq<u8>>::empty(), stored));
    if zip_start_ok(entries, name, stored) && zip_write_ok(started, data) {
        Some(entries.push((name, seq![data], stored)))
    } else {
        None
    }
}

/// `add_file` after an earlier step, which may have failed.
pub open spec fn then_add(entries: Option<Seq<ZipEntry>>, name: Seq<char>, data: Seq<u8>, stored: bool) -> Option<
    Seq<ZipEntry>,
> {
    match entries {
        Some(es) => add_file(es, name, data, stored),
        None => None,
    }
}

/// Adds one entry with its bytes.
fn add_entry(w: &mut ArchiveWriter, name: &str, data: &[u8], stored: bool) -> (r: Result<(), ArchiveError>)
    requires
        !zip_failed(*old(w)),
    ensures
        (r is Ok) == (add_file(zip_entries(*old(w)), name@, data@, stored) is Some),
        r is Ok ==> !zip_failed(*final(w)),
        r is Ok ==> add_file(zip_entries(*old(w)), name@, data@, stored) == Some(zip_entries(*final(w))),
{
    let ghost before = zip_entries(*w);
    match start_entry(w, name, stored) {
        Ok(()) => {},
        Err(_) => return Err(ArchiveError),
    }
    match write_data(w, data) {
        Ok(()) => {},
        Err(_) => return Err(ArchiveError),
    }
    assert(seq![data@] =~= Seq::<Seq<u8>>::empty().push(data@));
    assert(zip_entries(*w) =~= before.push((name@, seq![data@], stored)));
    Ok(())
}

/// The entries of a fixture EPUB, in order, where every step succeeds:
/// `mimetype` first and stored, then `container.xml`, the OPF at
/// `OPF_PATH`, the chapter, an NCX, and the cover image stored.
pub open spec fn epub_built(opf: Seq<char>, chapter: Seq<char>, cover: Seq<u8>) -> Option<Seq<ZipEntry>> {
    let e = add_file(Seq::empty(), "mimetype"@, encode_utf8("application/epub+zip"@), true);
    let e = then_add(e, "META-INF/container.xml"@, encode_utf8(CONTAINER_XML@), false);
    let e = then_add(e, OPF_PATH@, encode_utf8(opf), false);
    let e = then_add(e, "OEBPS/chapter1.xhtml"@, encode_utf8(chapter), false);
    let e = then_add(e, "OEBPS/toc.ncx"@, encode_utf8(TOC_NCX@), false);
    then_add(e, "OEBPS/cover.jpg"@, cover, true)
}

/// The entries of a fixture EPUB where every step succeeds, each written
/// in one chunk.
pub open spec fn epub_entries(opf: Seq<char>, chapter: Seq<char>, cover: Seq<u8>) -> Seq<ZipEntry> {
    seq![
        ("mimetype"@, seq![encode_utf8("application/epub+zip"@)], true),
        ("META-INF/container.xml"@, seq![encode_utf8(CONTAINER_XML@)], false),
        (OPF_PATH@, seq![encode_utf8(opf)], false),
        ("OEBPS/chapter1.xhtml"@, seq![encode_utf8(chapter)], false),
        ("OEBPS/toc.ncx"@, seq![encode_utf8(TOC_NCX@)], false),
        ("OEBPS/cover.jpg"@, seq![cover], true),
    ]
}

/// Whether the archive `bytes` reads back as a fixture EPUB of `opf`,
/// `chapter` and `cover`: each of the six entries, looked up by name,
/// gives what was written to it, and the text entries decode to their
/// text.
pub open spec fn reads_back(bytes: Seq<u8>, opf: Seq<char>, chapter: Seq<char>, cover: Seq<u8>) -> bool {
    &&& entry_text(zip_entry_bytes(bytes, "mimetype"@)) == Some("application/epub+zip"@)
    &&& entry_text(zip_entry_bytes(bytes, "META-INF/container.xml"@)) == Some(CONTAINER_XML@)
    &&& entry_text(zip_entry_bytes(bytes, OPF_PATH@)) == Some(opf)
    &&& entry_text(zip_entry_bytes(bytes, "OEBPS/chapter1.xhtml"@)) == Some(chapter)
    &&& entry_text(zip_entry_bytes(bytes, "OEBPS/toc.ncx"@)) == Some(TOC_NCX@)
    &&& zip_entry_bytes(bytes, "OEBPS/cover.jpg"@) == Some(cover)
}

proof fn lemma_one_chunk(d: Seq<u8>)
    ensures
        joined(seq![d]) == d,
{
    let one = seq![d];
    assert(one.drop_last() =~= Seq::<Seq<u8>>::empty());
    assert(one.last() == d);
    assert(joined(one.drop_last()) =~= Seq::<u8>::empty());
    assert(Seq::<u8>::empty() + d =~= d);
}

proof fn lemma_text_entry(t: Seq<char>)
    ensures
        entry_text(Some(encode_utf8(t))) == Some(t),
{
    encode_utf8_valid_utf8(t);
    encode_utf8_decode_utf8(t);
}

/// The bytes of the fixture EPUB, or `None` where the zip writer fails.
pub open spec fn epub_archive(opf: Seq<char>, chapter: Seq<char>, cover: Seq<u8>) -> Option<Seq<u8>> {
    match epub_built(opf, chapter, cover) {
        Some(entries) => zip_finished(entries),
        None => None,
    }
}

/// Builds an EPUB zip in memory like `build_book`, with `cover` as the
/// bytes of the cover entry, so a test can build a book whose cover is
/// not an image.
pub fn build_book_with_cover(opf: &str, chapter: &str, cover: &[u8]) -> (r: Result<Vec<u8>, ArchiveError>)
    ensures
        match r {
            Ok(bytes) => epub_archive(opf@, chapter@, cover@) == Some(bytes@),
            Err(_) => epub_archive(opf@, chapter@, cover@) is None,
        },
        r matches Ok(bytes) ==> reads_back(bytes@, opf@, chapter@, cover@),
{
    let mut w = new_archive();
    if add_entry(&mut w, "mimetype", "application/epub+zip".as_bytes(), true).is_err() {
        return Err(ArchiveError);
    }
    if add_entry(&mut w, "META-INF/container.xml", CONTAINER_XML.as_bytes(), false).is_err() {
        return Err(ArchiveError);
    }
    if add_entry(&mut w, OPF_PATH, opf.as_bytes(), false).is_err() {
        return Err(ArchiveError);
    }
    if add_entry(&mut w, "OEBPS/chapter1.xhtml", chapter.as_bytes(), false).is_err() {
        return Err(ArchiveError);
    }
    if add_entry(&mut w, "OEBPS/toc.ncx", TOC_NCX.as_bytes(), false).is_err() {
        return Err(ArchiveError);
    }
    if add_entry(&mut w, "OEBPS/cover.jpg", cover, true).is_err() {
        return Err(ArchiveError);
    }
    assert(epub_built(opf@, chapter@, cover@) == Some(zip_entries(w)));
    let ghost es = zip_entries(w);
    assert(es =~= epub_entries(opf@, chapter@, cover@));
    match finish_archive(w) {
        Ok(bytes) => {
            proof {
                let b = bytes@;
                assert(zip_entry_bytes(b, es[0].0) == Some(joined(es[0].1)));
                assert(zip_entry_bytes(b, es[1].0) == Some(joined(es[1].1)));
                assert(zip_entry_bytes(b, es[2].0) == Some(joined(es[2].1)));
                assert(zip_entry_bytes(b, es[3].0) == Some(joined(es[3].1)));
                assert(zip_entry_bytes(b, es[4].0) == Some(joined(es[4].1)));
                assert(zip_entry_bytes(b, es[5].0) == Some(joined(es[5].1)));
                lemma_one_chunk(encode_utf8("application/epub+zip"@));
                lemma_one_chunk(encode_utf8(CONTAINER_XML@));
                lemma_one_chunk(encode_utf8(opf@));
                lemma_one_chunk(encode_utf8(chapter@));
                lemma_one_chunk(encode_utf8(TOC_NCX@));
                lemma_one_chunk(cover@);
                lemma_text_entry("application/epub+zip"@);
                lemma_text_entry(CONTAINER_XML@);
                lemma_text_entry(opf@);
                lemma_text_entry(chapter@);
                lemma_text_entry(TOC_NCX@);
            }
            Ok(bytes)
        },
        Err(_) => Err(ArchiveError),
    }
}

/// Builds an EPUB zip like `build_epub`, with `chapter` as the one XHTML
/// chapter, so a test can build a book with a known word count.
pub fn build_book(opf: &str, chapter: &str) -> (r: Result<Vec<u8>, ArchiveError>)
    ensures
        match r {
            Ok(bytes) => epub_archive(opf@, chapter@, COVER_JPEG@) == Some(bytes@),
            Err(_) => epub_archive(opf@, chapter@, COVER_JPEG@) is None,
        },
        r matches Ok(bytes) ==> reads_back(bytes@, opf@, chapter@, COVER_JPEG@),
{
    build_book_with_cover(opf, chapter, &COVER_JPEG)
}

/// Builds an EPUB zip in memory with `mimetype` first and stored, then
/// `container.xml`, the OPF at `OEBPS/content.opf`, the chapter
/// `CHAPTER_XHTML`, an NCX, and a cover image.
pub fn build_epub(opf: &str) -> (r: Result<Vec<u8>, ArchiveError>)
    ensures
        match r {
            Ok(bytes) => epub_archive(opf@, CHAPTER_XHTML@, COVER_JPEG@) == Some(bytes@),
            Err(_) => epub_archive(opf@, CHAPTER_XHTML@, COVER_JPEG@) is None,
        },
        r matches Ok(bytes) ==> reads_back(bytes@, opf@, CHAPTER_XHTML@, COVER_JPEG@),
{
    build_book(opf, CHAPTER_XHTML)
}

/// The bytes of the entry called `name` in the zip archive `archive`, as
/// the `zip` crate reads and inflates them, or `None` where the archive
/// cannot be read, holds no such entry, or the entry fails its check.
pub uninterp spec fn zip_entry_bytes(archive: Seq<u8>, name: Seq<char>) -> Option<Seq<u8>>;

/// Calls `ZipArchive::new` on a `Cursor` over `archive`, then `by_name`
/// and `read_to_end`. The bytes, or that there are none, are those named
/// for the archive and the name.
#[verifier::external_body]
fn entry_bytes(archive: &[u8], name: &str) -> (r: Option<Vec<u8>>)
    ensures
        match r {
            Some(b) => zip_entry_bytes(archive@, name@) == Some(b@),
            None => zip_entry_bytes(archive@, name@) is None,
        },
{
    let mut zip = ZipArchive::new(Cursor::new(archive)).ok()?;
    let mut entry = zip.by_name(name).ok()?;
    let mut bytes = Vec::new();
    entry.read_to_end(&mut bytes).ok()?;
    Some(bytes)
}

/// Calls `std::str::from_utf8`: the text whose UTF-8 encoding is `bytes`,
/// or `None` where `bytes` is not valid UTF-8.
#[verifier::external_body]
fn utf8_text(bytes: &[u8]) -> (r: Option<&str>)
    ensures
        r is Some <==> valid_utf8(bytes@),
        r matches Some(t) ==> t.spec_bytes() == bytes@,
{
    std::str::from_utf8(bytes).ok()
}

/// The text of an entry whose bytes are `bytes`: those bytes decoded,
/// where they are valid UTF-8.
pub open spec fn entry_text(bytes: Option<Seq<u8>>) -> Option<Seq<char>> {
    match bytes {
        Some(b) => if valid_utf8(b) {
            Some(decode_utf8(b))
        } else {
            None
        },
        None => None,
    }
}

/// Reads the entry called `name` out of the zip archive `archive` as
/// text. `None` where the archive cannot be read, has no such entry, the
/// entry fails its check, or its bytes are not UTF-8.
pub fn read_entry(archive: &[u8], name: &str) -> (r: Option<String>)
    ensures
        match r {
            Some(t) => entry_text(zip_entry_bytes(archive@, name@)) == Some(t@),
            None => entry_text(zip_entry_bytes(archive@, name@)) is None,
        },
{
    let bytes = match entry_bytes(archive, name) {
        Some(b) => b,
        None => return None,
    };
    match utf8_text(bytes.as_slice()) {
        Some(t) => {
            proof {
                broadcast use encode_utf8_decode_utf8;

                assert(decode_utf8(encode_utf8(t@)) == t@);
            }
            Some(t.to_owned())
        },
        None => None,
    }
}

/// Whether `name` occurs in `bytes` at `at`.
pub open spec fn occurs_at(bytes: Seq<u8>, name: Seq<u8>, at: int) -> bool {
    0 <= at && at + name.len() <= bytes.len() && bytes.subrange(at, at + name.len()) == name
}

/// The signature of a zip local file header, "PK\x03\x04".
pub open spec fn is_local_header(bytes: Seq<u8>, at: int) -> bool {
    0 <= at && at + 4 <= bytes.len() && bytes[at] == 0x50 && bytes[at + 1] == 0x4B && bytes[at + 2]
        == 0x03 && bytes[at + 3] == 0x04
}

/// The byte `corrupt_entry_data` flips for an entry whose name first
/// occurs at `at`: five bytes into the entry's data, which follows the
/// name and the extra field whose length the header holds.
pub open spec fn flipped_byte(bytes: Seq<u8>, name: Seq<u8>, at: int) -> int {
    let header = at - 30;
    let extra_len = bytes[header + 28] as int + 256 * (bytes[header + 29] as int);
    at + name.len() + extra_len + 5
}

/// The first place `name` occurs in `bytes`.
fn find_name(bytes: &Vec<u8>, name: &[u8]) -> (r: Option<usize>)
    ensures
        match r {
            Some(at) => occurs_at(bytes@, name@, at as int) && forall|j: int|
                0 <= j < at ==> !occurs_at(bytes@, name@, j),
            None => name@.len() == 0 || forall|j: int| 0 <= j ==> !occurs_at(bytes@, name@, j),
        },
{
    let n = name.len();
    if n == 0 || n > bytes.len() {
        proof {
            if n > bytes.len() {
                assert forall|j: int| 0 <= j implies !occurs_at(bytes@, name@, j) by {}
            }
        }
        return None;
    }
    let last = bytes.len() - n;
    let mut at: usize = 0;
    while at <= last
        invariant
            n == name@.len(),
            n >= 1,
            last + n == bytes@.len(),
            bytes@.len() == bytes.len(),
            forall|j: int| 0 <= j < at ==> !occurs_at(bytes@, name@, j),
        decreases last + 1 - at,
    {
        let mut k: usize = 0;
        while k < n && bytes[at + k] == name[k]
            invariant
                n == name@.len(),
                at <= last,
                last + n == bytes@.len(),
                bytes@.len() == bytes.len(),
                k <= n,
                forall|m: int| 0 <= m < k ==> bytes@[at + m] == name@[m],
            decreases n - k,
        {
            k = k + 1;
        }
        if k == n {
            assert(bytes@.subrange(at as int, at + n) =~= name@);
            return Some(at);
        }
        assert(bytes@.subrange(at as int, at + n)[k as int] != name@[k as int]);
        at = at + 1;
    }
    None
}

/// Flips a byte inside the compressed data of the entry named `name`, so
/// reading that entry fails its CRC or its inflate. The entry is the
/// first place the name occurs in the bytes, which for a fixture is its
/// local header. It gives false and changes nothing where the name does
/// not occur, no zip local header stands 30 bytes before it, or the byte
/// lies past the end.
pub fn corrupt_entry_data(bytes: &mut Vec<u8>, name: &[u8]) -> (r: bool)
    ensures
        r ==> exists|at: int|
            {
                &&& occurs_at(old(bytes)@, name@, at)
                &&& forall|j: int| 0 <= j < at ==> !occurs_at(old(bytes)@, name@, j)
                &&& at >= 30 && is_local_header(old(bytes)@, at - 30)
                &&& 0 <= flipped_byte(old(bytes)@, name@, at) < old(bytes)@.len()
                &&& #[trigger] final(bytes)@ == old(bytes)@.update(
                    flipped_byte(old(bytes)@, name@, at),
                    old(bytes)@[flipped_byte(old(bytes)@, name@, at)] ^ 0xFF,
                )
            },
        !r ==> final(bytes)@ == old(bytes)@,
        !r ==> forall|at: int|
            occurs_at(old(bytes)@, name@, at) && (forall|j: int|
                0 <= j < at ==> !occurs_at(old(bytes)@, name@, j)) ==> !(at >= 30 && is_local_header(
                old(bytes)@,
                at - 30,
            ) && 0 <= flipped_byte(old(bytes)@, name@, at) < old(bytes)@.len()),
{
    let found = find_name(bytes, name);
    let at = match found {
        Some(at) => at,
        None => {
            proof {
                assert forall|k: int|
                    occurs_at(bytes@, name@, k) && (forall|j: int|
                        0 <= j < k ==> !occurs_at(bytes@, name@, j)) implies !(k >= 30) by {
                    if k >= 30 {
                        assert(bytes@.subrange(0, 0) =~= name@);
                        assert(occurs_at(bytes@, name@, 0));
                    }
                }
            }
            return false;
        },
    };
    proof {
        assert forall|k: int|
            occurs_at(bytes@, name@, k) && (forall|j: int|
                0 <= j < k ==> !occurs_at(bytes@, name@, j)) implies k == at by {
            if k < at {
                assert(!occurs_at(bytes@, name@, k));
            } else if k > at {
                assert(occurs_at(bytes@, name@, at as int));
            }
        }
    }
    if at < 30 {
        return false;
    }
    let n = name.len();
    let header = at - 30;
    if !(bytes[header] == 0x50 && bytes[header + 1] == 0x4B && bytes[header + 2] == 0x03
        && bytes[header + 3] == 0x04) {
        return false;
    }
    let extra_len = bytes[header + 28] as usize + 256 * (bytes[header + 29] as usize);
    let room = bytes.len() - at - n;
    if room <= extra_len || room - extra_len <= 5 {
        return false;
    }
    let data = at + n + extra_len + 5;
    let ghost before = bytes@;
    proof {
        assert(data == flipped_byte(before, name@, at as int));
    }
    let flipped = bytes[data] ^ 0xFF;
    bytes.set(data, flipped);
    proof {
        assert(occurs_at(before, name@, at as int));
        assert(is_local_header(before, at - 30));
    }
    true
}

} // verus!
