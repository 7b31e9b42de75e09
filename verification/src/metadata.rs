//! The record a book file and a library row both hold: title, authors,
//! series, publisher and description, and the two numbers measured from
//! the text.
//!
//! A series number and a reading ease are `f64` values in the file. The
//! library carries each as the bit pattern `f64::to_bits` gives, which
//! holds the same value with nothing lost; `f64::from_bits` turns it back.

use vstd::prelude::*;

verus! {

/// One author: the display name and the name it sorts under.
#[derive(Debug, Clone, PartialEq, Eq)]
pub struct Author {
    pub name: String,
    pub sort: String,
}

/// A series and the book's place in it.
#[derive(Debug, Clone, PartialEq, Eq)]
pub struct Series {
    pub name: String,
    /// The book's number in the series, as the bits of its `f64`.
    pub number: Option<u64>,
}

/// The metadata record of a book.
#[derive(Debug, Clone, PartialEq, Eq)]
pub struct Metadata {
    pub title: String,
    pub authors: Vec<Author>,
    pub series: Option<Series>,
    pub publisher: Option<String>,
    pub description: Option<String>,
}

impl Default for Metadata {
    /// An empty record: no title, no authors, and no optional field.
    fn default() -> (m: Metadata)
        ensures
            m.title@ == Seq::<char>::empty(),
            m.authors@.len() == 0,
            m.series is None,
            m.publisher is None,
            m.description is None,
    {
        Metadata {
            title: String::new(),
            authors: Vec::new(),
            series: None,
            publisher: None,
            description: None,
        }
    }
}

/// The numbers measured from a book's text: the word count, and the
/// Flesch reading ease as the bits of its `f64`.
#[derive(Debug, Clone, Copy, PartialEq, Eq)]
pub struct Stats {
    pub word_count: Option<u64>,
    pub reading_ease: Option<u64>,
}

impl Default for Stats {
    /// No numbers.
    fn default() -> (s: Stats)
        ensures
            s.word_count is None,
            s.reading_ease is None,
    {
        Stats { word_count: None, reading_ease: None }
    }
}

impl Stats {
    /// Whether there is no number to hold.
    pub fn is_empty(&self) -> (r: bool)
        ensures
            r == (self.word_count is None && self.reading_ease is None),
    {
        self.word_count.is_none() && self.reading_ease.is_none()
    }
}

/// The reading state of a book on a device.
#[derive(Debug, Clone, Copy, PartialEq, Eq, Structural)]
pub enum ReadStatus {
    Unread,
    Reading,
    Finished,
}

impl ReadStatus {
    /// The state a Kobo `ReadStatus` code names: 0 unread, 1 reading,
    /// 2 finished. No other code names one.
    pub fn from_code(code: i64) -> (r: Option<ReadStatus>)
        ensures
            code == 0 <==> r == Some(ReadStatus::Unread),
            code == 1 <==> r == Some(ReadStatus::Reading),
            code == 2 <==> r == Some(ReadStatus::Finished),
            r is None <==> !(0 <= code <= 2),
    {
        if code == 0 {
            Some(ReadStatus::Unread)
        } else if code == 1 {
            Some(ReadStatus::Reading)
        } else if code == 2 {
            Some(ReadStatus::Finished)
        } else {
            None
        }
    }
}

/// An author as plain values: the name and the sort name.
pub type AuthorView = (Seq<char>, Seq<char>);

/// A series as plain values: the name and the number's bits.
pub type SeriesView = (Seq<char>, Option<u64>);

/// A record as plain values.
pub struct MetadataView {
    pub title: Seq<char>,
    pub authors: Seq<AuthorView>,
    pub series: Option<SeriesView>,
    pub publisher: Option<Seq<char>>,
    pub description: Option<Seq<char>>,
}

impl View for Author {
    type V = AuthorView;

    open spec fn view(&self) -> AuthorView {
        (self.name@, self.sort@)
    }
}

impl View for Series {
    type V = SeriesView;

    open spec fn view(&self) -> SeriesView {
        (self.name@, self.number)
    }
}

impl View for Metadata {
    type V = MetadataView;

    open spec fn view(&self) -> MetadataView {
        MetadataView {
            title: self.title@,
            authors: self.authors@.map_values(|a: Author| a@),
            series: match self.series {
                Some(s) => Some(s@),
                None => None,
            },
            publisher: match self.publisher {
                Some(p) => Some(p@),
                None => None,
            },
            description: match self.description {
                Some(d) => Some(d@),
                None => None,
            },
        }
    }
}

} // verus!
