//! The cover of a book as the library holds it: a small JPEG copy, or
//! the reason there is none.
//!
//! The library stores a thumbnail the way it stores the word count, so a
//! display reads one row and opens no zip. The EPUB file gives a
//! `FileCover`: the image the publisher stored, or why there is none.
//! `Cover::from_file` is the one place the two meet. `Cover::row` and
//! `Cover::from_row` turn a cover into the three values of its `covers`
//! row and back, and the two undo each other.

use vstd::prelude::*;

use crate::text::same_text;

verus! {

/// The longest side of a thumbnail, in pixels.
pub const MAX_SIDE: u32 = 480;

/// The JPEG quality of a thumbnail, out of 100.
pub const QUALITY: u8 = 85;

/// The cover an EPUB file gives: the bytes of its cover entry, no cover
/// named, or a cover named and not given, with the reason.
#[derive(Debug, Clone, PartialEq, Eq)]
pub enum FileCover {
    Image(Vec<u8>),
    NoCover,
    Unreadable(String),
}

/// A book's cover, or why the library holds none.
#[derive(Debug, Clone, PartialEq, Eq)]
pub enum Cover {
    /// The thumbnail, as JPEG bytes.
    Image(Vec<u8>),
    /// The book file names no cover.
    NoCover,
    /// The file names a cover it does not give. The text is what the
    /// EPUB reader said.
    Unreadable(String),
    /// The cover bytes are not an image the decoder reads. The text is
    /// the decoder's message, which names the format.
    Undecodable(String),
    /// The library has not read this book's file. The book has no row.
    Unknown,
}

/// A cover as plain values.
pub enum CoverView {
    Image(Seq<u8>),
    NoCover,
    Unreadable(Seq<char>),
    Undecodable(Seq<char>),
    Unknown,
}

impl View for Cover {
    type V = CoverView;

    open spec fn view(&self) -> CoverView {
        match self {
            Cover::Image(b) => CoverView::Image(b@),
            Cover::NoCover => CoverView::NoCover,
            Cover::Unreadable(why) => CoverView::Unreadable(why@),
            Cover::Undecodable(why) => CoverView::Undecodable(why@),
            Cover::Unknown => CoverView::Unknown,
        }
    }
}

/// Whether `b` has the frame of a JPEG file: the start-of-image marker
/// `FF D8` first and the end-of-image marker `FF D9` last.
pub open spec fn is_jpeg(b: Seq<u8>) -> bool {
    &&& b.len() >= 4
    &&& b[0] == 0xFF && b[1] == 0xD8
    &&& b[b.len() - 2] == 0xFF && b[b.len() - 1] == 0xD9
}

/// What the image crate makes of `bytes`: the JPEG encoding, at
/// `quality`, of the RGB copy of the decoded image shrunk to fit a square
/// of `max_side`, or the decoder's or encoder's message.
pub uninterp spec fn thumbnail_of(bytes: Seq<u8>, max_side: u32, quality: u8) -> Result<Seq<u8>, Seq<char>>;

/// The plain values of a thumbnail step's outcome.
pub open spec fn thumbnail_view(thumb: Result<Vec<u8>, String>) -> Result<Seq<u8>, Seq<char>> {
    match thumb {
        Ok(small) => Ok(small@),
        Err(why) => Err(why@),
    }
}

/// Calls the `image` crate: `image::load_from_memory`, then
/// `DynamicImage::thumbnail` and `to_rgb8`, then `JpegEncoder::encode_image`
/// on a `JpegEncoder::new_with_quality` over an empty buffer. The outcome
/// is `thumbnail_of` the arguments, the message of a failure as `anyhow`
/// prints the error with its causes. The encoder writes the start-of-image
/// marker first and the end-of-image marker last.
#[verifier::external_body]
fn encode_thumbnail(bytes: &[u8], max_side: u32, quality: u8) -> (r: Result<Vec<u8>, String>)
    ensures
        thumbnail_view(r) == thumbnail_of(bytes@, max_side, quality),
        r matches Ok(out) ==> is_jpeg(out@),
{
    let run = || -> image::ImageResult<Vec<u8>> {
        let image = image::load_from_memory(bytes)?.thumbnail(max_side, max_side).to_rgb8();
        let mut out = std::io::Cursor::new(Vec::new());
        image::codecs::jpeg::JpegEncoder::new_with_quality(&mut out, quality).encode_image(&image)?;
        Ok(out.into_inner())
    };
    run().map_err(|e| format!("{:#}", anyhow::Error::new(e)))
}

/// A JPEG copy of `bytes` that fits inside a square of `MAX_SIDE`, with
/// the aspect ratio kept. An image already that small is encoded again
/// at the same size, so every stored cover is a JPEG whatever the
/// publisher used. The copy is RGB, because JPEG carries no alpha
/// channel. The error is the decoder's or encoder's message.
pub fn thumbnail(bytes: &[u8]) -> (r: Result<Vec<u8>, String>)
    ensures
        thumbnail_view(r) == thumbnail_of(bytes@, MAX_SIDE, QUALITY),
        r matches Ok(out) ==> is_jpeg(out@),
{
    encode_thumbnail(bytes, MAX_SIDE, QUALITY)
}

/// The cover the library stores for an image whose thumbnail step gave
/// `thumb`: the thumbnail, or the decoder's message.
pub open spec fn thumbnail_cover(thumb: Result<Seq<u8>, Seq<char>>) -> CoverView {
    match thumb {
        Ok(small) => CoverView::Image(small),
        Err(why) => CoverView::Undecodable(why),
    }
}

/// The three values of a `covers` row: the state word, the image, and
/// the detail text. `Cover::from_row` reads the same three back.
pub struct Row<'a> {
    pub state: &'static str,
    pub image: Option<&'a [u8]>,
    pub detail: Option<&'a str>,
}

/// A row as plain values.
pub type RowView = (Seq<char>, Option<Seq<u8>>, Option<Seq<char>>);

impl<'a> View for Row<'a> {
    type V = RowView;

    open spec fn view(&self) -> RowView {
        (
            self.state@,
            match self.image {
                Some(b) => Some(b@),
                None => None,
            },
            match self.detail {
                Some(d) => Some(d@),
                None => None,
            },
        )
    }
}

/// The row a cover is stored as. `Unknown` is the one cover no row holds.
pub open spec fn row_of(c: CoverView) -> Option<RowView> {
    match c {
        CoverView::Image(b) => Some(("image"@, Some(b), None)),
        CoverView::NoCover => Some(("none"@, None, None)),
        CoverView::Unreadable(why) => Some(("unreadable"@, None, Some(why))),
        CoverView::Undecodable(why) => Some(("undecodable"@, None, Some(why))),
        CoverView::Unknown => None,
    }
}

/// The cover a row holds, or none for a row the table does not allow.
pub open spec fn cover_of_row(row: RowView) -> Option<CoverView> {
    let (state, image, detail) = row;
    if state == "image"@ && image is Some && detail is None {
        Some(CoverView::Image(image->0))
    } else if state == "none"@ && image is None && detail is None {
        Some(CoverView::NoCover)
    } else if state == "unreadable"@ && image is None && detail is Some {
        Some(CoverView::Unreadable(detail->0))
    } else if state == "undecodable"@ && image is None && detail is Some {
        Some(CoverView::Undecodable(detail->0))
    } else {
        None
    }
}

/// A `covers` row with a state word or a combination of values the
/// table does not allow.
#[derive(Debug, Clone, PartialEq, Eq)]
pub struct CoverRowError {
    /// The row's state word.
    pub state: String,
}

impl CoverRowError {
    /// The message: "a covers row reads " and the state word.
    pub fn message(&self) -> (r: String)
        ensures
            r@ == "a covers row reads "@ + self.state@,
    {
        let mut r = String::from_str("a covers row reads ");
        r.append(self.state.as_str());
        r
    }
}

/// The plain values of an optional byte vector.
pub open spec fn bytes_view(o: Option<Vec<u8>>) -> Option<Seq<u8>> {
    match o {
        Some(b) => Some(b@),
        None => None,
    }
}

/// The plain values of an optional string.
pub open spec fn text_view(o: Option<String>) -> Option<Seq<char>> {
    match o {
        Some(s) => Some(s@),
        None => None,
    }
}

impl Cover {
    /// The cover to store for an image whose thumbnail step gave `thumb`:
    /// the thumbnail, or `Undecodable` with the decoder's message.
    pub fn from_thumbnail(thumb: Result<Vec<u8>, String>) -> (r: Cover)
        ensures
            r@ == thumbnail_cover(thumbnail_view(thumb)),
    {
        match thumb {
            Ok(small) => Cover::Image(small),
            Err(why) => Cover::Undecodable(why),
        }
    }

    /// The cover to store for a book whose file gave `cover`. Bytes that
    /// decode become a thumbnail; bytes that do not become `Undecodable`
    /// with the decoder's message. A file read never leaves a book
    /// `Unknown`: every cover it gives has a row.
    pub fn from_file(cover: FileCover) -> (r: Cover)
        ensures
            match cover {
                FileCover::Image(bytes) => r@ == thumbnail_cover(thumbnail_of(bytes@, MAX_SIDE, QUALITY))
                    && (r matches Cover::Image(small) ==> is_jpeg(small@)),
                FileCover::NoCover => r@ == CoverView::NoCover,
                FileCover::Unreadable(why) => r@ == CoverView::Unreadable(why@),
            },
            !(r is Unknown),
            row_of(r@) is Some,
    {
        match cover {
            FileCover::Image(bytes) => Cover::from_thumbnail(thumbnail(bytes.as_slice())),
            FileCover::NoCover => Cover::NoCover,
            FileCover::Unreadable(why) => Cover::Unreadable(why),
        }
    }

    /// The values of the `covers` row. `Unknown` is the one variant no
    /// row holds, so it has none to give.
    pub fn row(&self) -> (r: Option<Row<'_>>)
        ensures
            match r {
                Some(row) => row_of(self@) == Some(row@),
                None => row_of(self@) is None,
            },
    {
        match self {
            Cover::Image(bytes) => Some(Row { state: "image", image: Some(bytes.as_slice()), detail: None }),
            Cover::NoCover => Some(Row { state: "none", image: None, detail: None }),
            Cover::Unreadable(why) => Some(Row { state: "unreadable", image: None, detail: Some(why.as_str()) }),
            Cover::Undecodable(why) => Some(Row { state: "undecodable", image: None, detail: Some(why.as_str()) }),
            Cover::Unknown => None,
        }
    }

    /// The variant a `covers` row holds. A state word the table does not
    /// allow, or values that do not go with the word, is an error that
    /// names the word.
    pub fn from_row(state: &str, image: Option<Vec<u8>>, detail: Option<String>) -> (r: Result<Cover, CoverRowError>)
        ensures
            match cover_of_row((state@, bytes_view(image), text_view(detail))) {
                Some(c) => r matches Ok(cover) && cover@ == c,
                None => r matches Err(e) && e.state@ == state@,
            },
    {
        proof {
            reveal_strlit("image");
            reveal_strlit("none");
            reveal_strlit("unreadable");
            reveal_strlit("undecodable");
        }
        let is_image = same_text(state, "image");
        let is_none = same_text(state, "none");
        let is_unreadable = same_text(state, "unreadable");
        let is_undecodable = same_text(state, "undecodable");
        match (image, detail) {
            (Some(bytes), None) if is_image => return Ok(Cover::Image(bytes)),
            (None, None) if is_none => return Ok(Cover::NoCover),
            (None, Some(why)) if is_unreadable => return Ok(Cover::Unreadable(why)),
            (None, Some(why)) if is_undecodable => return Ok(Cover::Undecodable(why)),
            _ => {},
        }
        Err(CoverRowError { state: String::from_str(state) })
    }
}

/// The four state words differ from one another.
proof fn lemma_state_words_differ()
    ensures
        "image"@ != "none"@,
        "image"@ != "unreadable"@,
        "image"@ != "undecodable"@,
        "none"@ != "unreadable"@,
        "none"@ != "undecodable"@,
        "unreadable"@ != "undecodable"@,
{
    reveal_strlit("image");
    reveal_strlit("none");
    reveal_strlit("unreadable");
    reveal_strlit("undecodable");
    assert("image"@.len() == 5);
    assert("none"@.len() == 4);
    assert("unreadable"@.len() == 10);
    assert("undecodable"@.len() == 11);
}

/// Reading a cover back from its row gives the cover: every cover but
/// `Unknown` has a row, and `from_row` on that row's values gives it back.
pub proof fn lemma_row_then_read(c: CoverView)
    requires
        !(c is Unknown),
    ensures
        row_of(c) is Some,
        cover_of_row(row_of(c)->0) == Some(c),
{
    lemma_state_words_differ();
}

/// A row the table allows is the row of the cover read from it: `row`
/// on what `from_row` gives returns the same three values.
pub proof fn lemma_read_then_row(r: RowView)
    requires
        cover_of_row(r) is Some,
    ensures
        row_of(cover_of_row(r)->0) == Some(r),
{
    lemma_state_words_differ();
}

} // verus!
