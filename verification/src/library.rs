//! The records the library gives out — a book, its progress on each
//! device, its history, the looked-up words — and the rules that work on
//! them: the name of a book's file, the day part of a timestamp, the
//! details a book has, and the progress rows grouped by book.

use std::collections::BTreeMap;

use vstd::prelude::*;
use vstd::string::StringSliceAdditionalSpecFns;
use vstd::utf8::encode_utf8;

use crate::metadata::{Author, Metadata, ReadStatus, Series, Stats};
use crate::text::{
    chars_of, day_text, day_of, decimal, decimal_i64, ends_with, lemma_decimal_value,
    text_ends_with,
};

verus! {

/// A book as the library holds it.
#[derive(Debug, Clone, PartialEq, Eq)]
pub struct Book {
    pub id: i64,
    pub revision: i64,
    pub metadata: Metadata,
    pub stats: Stats,
}

/// The name of a book's file in the library folder: the id and
/// ".kepub.epub".
pub fn book_file_name(id: i64) -> (r: String)
    ensures
        r@ == decimal(id as int) + ".kepub.epub"@,
{
    let mut r = decimal_i64(id);
    r.append(".kepub.epub");
    r
}

/// No two books share a file name: the name determines the id.
pub proof fn lemma_book_file_name_injective(a: i64, b: i64)
    requires
        decimal(a as int) + ".kepub.epub"@ == decimal(b as int) + ".kepub.epub"@,
    ensures
        a == b,
{
    let x = decimal(a as int);
    let y = decimal(b as int);
    let s = ".kepub.epub"@;
    assert(x.len() == y.len()) by {
        assert((x + s).len() == (y + s).len());
    }
    assert(x =~= (x + s).subrange(0, x.len() as int));
    assert(y =~= (y + s).subrange(0, y.len() as int));
    lemma_decimal_value(a as int);
    lemma_decimal_value(b as int);
}

/// One optional detail of a book, with its value as the library stores
/// it. A display picks the label and the text for each one. The reading
/// ease is the bits of its `f64`.
#[derive(Debug, Clone, Copy, PartialEq, Eq)]
pub enum Field<'a> {
    Publisher(&'a str),
    Series(&'a Series),
    WordCount(u64),
    ReadingEase(u64),
}

/// A detail as plain values.
pub enum FieldView {
    Publisher(Seq<char>),
    Series(Series),
    WordCount(u64),
    ReadingEase(u64),
}

impl<'a> View for Field<'a> {
    type V = FieldView;

    open spec fn view(&self) -> FieldView {
        match *self {
            Field::Publisher(p) => FieldView::Publisher(p@),
            Field::Series(s) => FieldView::Series(*s),
            Field::WordCount(n) => FieldView::WordCount(n),
            Field::ReadingEase(e) => FieldView::ReadingEase(e),
        }
    }
}

/// The details a book has, in the order a display lists them: publisher,
/// series, word count, reading ease. A detail the book lacks has no entry.
pub open spec fn fields_of(b: Book) -> Seq<FieldView> {
    (match b.metadata.publisher {
        Some(p) => seq![FieldView::Publisher(p@)],
        None => Seq::empty(),
    }) + (match b.metadata.series {
        Some(s) => seq![FieldView::Series(s)],
        None => Seq::empty(),
    }) + (match b.stats.word_count {
        Some(n) => seq![FieldView::WordCount(n)],
        None => Seq::empty(),
    }) + (match b.stats.reading_ease {
        Some(e) => seq![FieldView::ReadingEase(e)],
        None => Seq::empty(),
    })
}

/// The plain values of a list of details.
pub open spec fn field_views<'a>(fs: Seq<Field<'a>>) -> Seq<FieldView> {
    fs.map_values(|f: Field<'a>| f@)
}

impl Book {
    /// The optional details the book has, in the order a display lists
    /// them. A detail the book does not have gets no entry.
    pub fn fields(&self) -> (r: Vec<Field<'_>>)
        ensures
            field_views(r@) == fields_of(*self),
    {
        let m = &self.metadata;
        let mut r: Vec<Field<'_>> = Vec::new();
        let ghost want = fields_of(*self);
        if let Some(p) = &m.publisher {
            r.push(Field::Publisher(p.as_str()));
        }
        assert(field_views(r@) =~= (match self.metadata.publisher {
            Some(p) => seq![FieldView::Publisher(p@)],
            None => Seq::empty(),
        }));
        let ghost a = field_views(r@);
        if let Some(s) = &m.series {
            r.push(Field::Series(s));
        }
        assert(field_views(r@) =~= a + (match self.metadata.series {
            Some(s) => seq![FieldView::Series(s)],
            None => Seq::empty(),
        }));
        let ghost b = field_views(r@);
        if let Some(n) = self.stats.word_count {
            r.push(Field::WordCount(n));
        }
        assert(field_views(r@) =~= b + (match self.stats.word_count {
            Some(n) => seq![FieldView::WordCount(n)],
            None => Seq::empty(),
        }));
        let ghost c = field_views(r@);
        if let Some(e) = self.stats.reading_ease {
            r.push(Field::ReadingEase(e));
        }
        assert(field_views(r@) =~= c + (match self.stats.reading_ease {
            Some(e) => seq![FieldView::ReadingEase(e)],
            None => Seq::empty(),
        }));
        assert(field_views(r@) =~= want);
        r
    }
}

/// What an import did.
#[derive(Debug, Clone, PartialEq, Eq)]
pub enum ImportOutcome {
    /// The file is in the library. `made_sort` lists the authors that got
    /// a sort name made from the display name.
    Imported { id: i64, made_sort: Vec<Author> },
    /// A book with the same title and first author is already in the
    /// library, and `force` was not given.
    Exists { id: i64 },
}

/// Whether `d` is the day part of the timestamp `t`: its first ten
/// characters, or all of it where it has fewer.
pub open spec fn is_day_of(t: Seq<char>, d: &str) -> bool {
    d@ == day_text(t)
}

/// The day part of an optional timestamp.
pub open spec fn is_optional_day(t: Option<String>, r: Option<&str>) -> bool {
    match t {
        Some(t) => r matches Some(d) && is_day_of(t@, d),
        None => r is None,
    }
}

fn optional_day(t: &Option<String>) -> (r: Option<&str>)
    ensures
        is_optional_day(*t, r),
{
    match t {
        Some(t) => Some(day_of(t.as_str())),
        None => None,
    }
}

/// The current reading progress on one device for the book it is keyed
/// by: the newest history row for the book and the device.
#[derive(Debug, Clone, PartialEq, Eq)]
pub struct ProgressRow {
    pub device_serial: String,
    pub percent: i64,
    pub status: ReadStatus,
    pub last_read: Option<String>,
    /// The Kobo's reading time in seconds.
    pub time_spent: Option<i64>,
    /// When the status last turned finished. Set on the row that first
    /// reads as finished and carried to every row after it, so a book
    /// opened again keeps the date.
    pub finished_at: Option<String>,
}

impl ProgressRow {
    /// The day part of `last_read`: the first ten characters of the
    /// timestamp, as "2026-09-08".
    pub fn day(&self) -> (r: Option<&str>)
        ensures
            is_optional_day(self.last_read, r),
    {
        optional_day(&self.last_read)
    }

    /// The day part of `finished_at`, as "2026-05-12".
    pub fn finished_day(&self) -> (r: Option<&str>)
        ensures
            is_optional_day(self.finished_at, r),
    {
        optional_day(&self.finished_at)
    }
}

/// One row of a book's progress history: what one sync read for the
/// book on one device. `seen_at` is the time of that sync.
#[derive(Debug, Clone, PartialEq, Eq)]
pub struct HistoryRow {
    pub device_serial: String,
    pub percent: i64,
    pub status: ReadStatus,
    pub last_read: Option<String>,
    pub time_spent: Option<i64>,
    pub finished_at: Option<String>,
    pub seen_at: String,
}

impl HistoryRow {
    /// The day part of `last_read`, as "2026-09-08".
    pub fn day(&self) -> (r: Option<&str>)
        ensures
            is_optional_day(self.last_read, r),
    {
        optional_day(&self.last_read)
    }

    /// The day part of `seen_at`, as "2026-09-19".
    pub fn seen_day(&self) -> (r: &str)
        ensures
            is_day_of(self.seen_at@, r),
    {
        day_of(self.seen_at.as_str())
    }
}

/// One looked-up word, with the title of the book it came from. The
/// title comes from the book row, which stays after the book is removed.
#[derive(Debug, Clone, PartialEq, Eq)]
pub struct WordRow {
    pub word: String,
    pub device_serial: String,
    pub book_id: i64,
    pub book_title: String,
    pub dict_suffix: Option<String>,
    pub looked_up_at: String,
}

impl WordRow {
    /// The day part of `looked_up_at`: the first ten characters of the
    /// timestamp, as "2026-09-08".
    pub fn day(&self) -> (r: &str)
        ensures
            is_day_of(self.looked_up_at@, r),
    {
        day_of(self.looked_up_at.as_str())
    }
}

/// The progress rows of one book among `rows`, in the order they come.
pub open spec fn rows_of_book(rows: Seq<(i64, ProgressRow)>, id: i64) -> Seq<ProgressRow>
    decreases rows.len(),
{
    if rows.len() == 0 {
        Seq::empty()
    } else if rows.last().0 == id {
        rows_of_book(rows.drop_last(), id).push(rows.last().1)
    } else {
        rows_of_book(rows.drop_last(), id)
    }
}

/// Whether some row of `rows` is for book `id`.
pub open spec fn has_book(rows: Seq<(i64, ProgressRow)>, id: i64) -> bool {
    exists|i: int| 0 <= i < rows.len() && #[trigger] rows[i].0 == id
}

proof fn lemma_rows_of_book_empty(rows: Seq<(i64, ProgressRow)>, id: i64)
    ensures
        (rows_of_book(rows, id).len() == 0) == !has_book(rows, id),
    decreases rows.len(),
{
    if rows.len() > 0 {
        let front = rows.drop_last();
        lemma_rows_of_book_empty(front, id);
        if has_book(front, id) {
            let i = choose|i: int| 0 <= i < front.len() && #[trigger] front[i].0 == id;
            assert(rows[i].0 == id);
        }
        if has_book(rows, id) && rows.last().0 != id {
            let i = choose|i: int| 0 <= i < rows.len() && #[trigger] rows[i].0 == id;
            assert(front[i].0 == id);
        }
        if rows.last().0 == id {
            assert(rows[rows.len() - 1].0 == id);
        }
    }
}

/// The progress rows grouped by book id, each book's rows in the order
/// they come. `Library::progress` reads them ordered by book and device,
/// so each book's list is in device order. A book with no row has no
/// entry.
pub fn group_progress(rows: Vec<(i64, ProgressRow)>) -> (m: BTreeMap<i64, Vec<ProgressRow>>)
    ensures
        forall|id: i64| #[trigger] m@.contains_key(id) <==> has_book(rows@, id),
        forall|id: i64| #[trigger] m@.contains_key(id) ==> m@[id]@ == rows_of_book(rows@, id),
{
    let ghost all = rows@;
    let mut m: BTreeMap<i64, Vec<ProgressRow>> = BTreeMap::new();
    for row in it: rows.into_iter()
        invariant
            it.seq() == all,
            forall|id: i64| #[trigger] m@.contains_key(id) <==> rows_of_book(all.take(it.index() as int), id).len() > 0,
            forall|id: i64| #[trigger] m@.contains_key(id) ==> m@[id]@ == rows_of_book(all.take(it.index() as int), id),
    {
        let ghost done = all.take(it.index() as int);
        let ghost next = all.take(it.index() + 1);
        proof {
            assert(next.drop_last() =~= done);
            assert(next.last() == row);
        }
        let (id, progress) = row;
        let mut list = match m.remove(&id) {
            Some(list) => list,
            None => Vec::new(),
        };
        list.push(progress);
        m.insert(id, list);
        proof {
            assert forall|k: i64| #[trigger] m@.contains_key(k) <==> rows_of_book(next, k).len() > 0 by {
            }
            assert forall|k: i64| #[trigger] m@.contains_key(k) implies m@[k]@ == rows_of_book(next, k) by {
            }
        }
    }
    proof {
        assert(all.take(all.len() as int) =~= all);
        assert forall|id: i64| #[trigger] m@.contains_key(id) <==> has_book(rows@, id) by {
            lemma_rows_of_book_empty(all, id);
        }
    }
    m
}

/// The optional word count a `book_stats` column holds, as the library
/// gives it: the integer read as unsigned.
pub open spec fn word_count_of(column: Option<i64>) -> Option<u64> {
    match column {
        Some(n) => Some(n as u64),
        None => None,
    }
}

/// The series two `books` columns make: a series when the name column
/// holds a name, with the number column beside it; none otherwise, and
/// the number is not read.
pub open spec fn series_of(name: Option<String>, number: Option<u64>) -> Option<Series> {
    match name {
        Some(name) => Some(Series { name, number }),
        None => None,
    }
}

/// A `books` row joined to its `book_stats` row as a Book with no
/// authors; the caller fills them in from `book_authors`. The series
/// number and the reading ease are the bits of their `f64` columns.
pub fn book_from_columns(
    id: i64,
    revision: i64,
    title: String,
    series_name: Option<String>,
    series_number: Option<u64>,
    publisher: Option<String>,
    description: Option<String>,
    word_count: Option<i64>,
    reading_ease: Option<u64>,
) -> (b: Book)
    ensures
        b.id == id,
        b.revision == revision,
        b.metadata.title == title,
        b.metadata.authors@.len() == 0,
        b.metadata.series == series_of(series_name, series_number),
        b.metadata.publisher == publisher,
        b.metadata.description == description,
        b.stats.word_count == word_count_of(word_count),
        b.stats.reading_ease == reading_ease,
{
    let series = match series_name {
        Some(name) => Some(Series { name, number: series_number }),
        None => None,
    };
    let word_count = match word_count {
        Some(n) => Some(n as u64),
        None => None,
    };
    Book {
        id,
        revision,
        metadata: Metadata { title, authors: Vec::new(), series, publisher, description },
        stats: Stats { word_count, reading_ease },
    }
}

// The decisions of an import.

/// Whether a file name marks a KEPUB, which import copies as it is: a
/// name that ends in ".kepub.epub" or in ".kepub".
pub open spec fn is_kepub_name(name: Option<Seq<char>>) -> bool {
    match name {
        Some(n) => ends_with(n, ".kepub.epub"@) || ends_with(n, ".kepub"@),
        None => false,
    }
}

/// Whether the source file, by its name, is a KEPUB to copy rather than
/// an EPUB to convert. A path with no name, or one that is not UTF-8, is
/// converted.
pub fn is_kepub(file_name: Option<&str>) -> (r: bool)
    ensures
        r == is_kepub_name(
            match file_name {
                Some(n) => Some(n@),
                None => None,
            },
        ),
{
    match file_name {
        Some(n) => {
            let cs = chars_of(n);
            text_ends_with(&cs, ".kepub.epub") || text_ends_with(&cs, ".kepub")
        },
        None => false,
    }
}

/// The name an import looks for among the books already in the library:
/// the first author's. A record with no author matches no book.
pub fn first_author_name(record: &Metadata) -> (r: Option<&str>)
    ensures
        record.authors@.len() == 0 ==> r is None,
        record.authors@.len() > 0 ==> (r matches Some(n) && n@ == record.authors@[0].name@),
{
    if record.authors.len() == 0 {
        None
    } else {
        Some(record.authors[0].name.as_str())
    }
}

/// Where an import stops before it writes anything: at the book with the
/// same title and first author, unless `force` is given.
pub fn stop_at_same(force: bool, same: Option<i64>) -> (r: Option<ImportOutcome>)
    ensures
        r == (if !force && same is Some {
            Some(ImportOutcome::Exists { id: same->0 })
        } else {
            None
        }),
{
    if !force {
        if let Some(id) = same {
            return Some(ImportOutcome::Exists { id });
        }
    }
    None
}

/// Whether import measures the text: the file carries no word count.
pub fn needs_measure(file_stats: &Stats) -> (r: bool)
    ensures
        r == (file_stats.word_count is None),
{
    file_stats.word_count.is_none()
}

/// Whether import writes the record and the stats into the library
/// file: some author got a made sort name, or the numbers were measured.
pub fn needs_file_write(made_sort: &Vec<Author>, measured: bool) -> (r: bool)
    ensures
        r == (made_sort@.len() > 0 || measured),
{
    made_sort.len() > 0 || measured
}

/// A book file the library names is a KEPUB by its name, so an import of
/// a library file copies it as it is.
pub proof fn lemma_library_files_are_kepubs(id: i64)
    ensures
        is_kepub_name(Some(decimal(id as int) + ".kepub.epub"@)),
{
    let x = decimal(id as int);
    let s = ".kepub.epub"@;
    let n = x + s;
    assert(n.subrange(n.len() - s.len(), n.len() as int) =~= s);
}

/// The place of a kind of detail in the list: publisher, series, word
/// count, reading ease.
pub open spec fn field_rank(f: FieldView) -> int {
    match f {
        FieldView::Publisher(_) => 0,
        FieldView::Series(_) => 1,
        FieldView::WordCount(_) => 2,
        FieldView::ReadingEase(_) => 3,
    }
}

/// Each detail stands in the list exactly when the book has it, with the
/// book's value, whatever the other fields hold; the details come in the
/// order publisher, series, word count, reading ease, each at most once.
pub proof fn lemma_fields_are_the_details_the_book_has(b: Book)
    ensures
        forall|p: Seq<char>|
            #[trigger] fields_of(b).contains(FieldView::Publisher(p))
                <==> (b.metadata.publisher matches Some(q) && q@ == p),
        forall|s: Series|
            #[trigger] fields_of(b).contains(FieldView::Series(s))
                <==> b.metadata.series == Some(s),
        forall|n: u64|
            #[trigger] fields_of(b).contains(FieldView::WordCount(n))
                <==> b.stats.word_count == Some(n),
        forall|e: u64|
            #[trigger] fields_of(b).contains(FieldView::ReadingEase(e))
                <==> b.stats.reading_ease == Some(e),
        forall|i: int, j: int|
            0 <= i < j < fields_of(b).len() ==> field_rank(#[trigger] fields_of(b)[i]) < field_rank(
                #[trigger] fields_of(b)[j],
            ),
{
    let a = match b.metadata.publisher {
        Some(p) => seq![FieldView::Publisher(p@)],
        None => Seq::<FieldView>::empty(),
    };
    let sr = match b.metadata.series {
        Some(s) => seq![FieldView::Series(s)],
        None => Seq::<FieldView>::empty(),
    };
    let w = match b.stats.word_count {
        Some(n) => seq![FieldView::WordCount(n)],
        None => Seq::<FieldView>::empty(),
    };
    let e = match b.stats.reading_ease {
        Some(x) => seq![FieldView::ReadingEase(x)],
        None => Seq::<FieldView>::empty(),
    };
    let fs = fields_of(b);
    assert(fs =~= a + sr + w + e);
    assert forall|i: int| 0 <= i < fs.len() implies {
        let k = field_rank(#[trigger] fs[i]);
        &&& (k == 0 ==> i < a.len() && fs[i] == a[i])
        &&& (k == 1 ==> a.len() <= i < a.len() + sr.len() && fs[i] == sr[i - a.len()])
        &&& (k == 2 ==> a.len() + sr.len() <= i < a.len() + sr.len() + w.len() && fs[i] == w[i - a.len() - sr.len()])
        &&& (k == 3 ==> a.len() + sr.len() + w.len() <= i && fs[i] == e[i - a.len() - sr.len() - w.len()])
    } by {
        if i < a.len() {
            assert(fs[i] == a[i]);
        } else if i < a.len() + sr.len() {
            assert(fs[i] == sr[i - a.len()]);
        } else if i < a.len() + sr.len() + w.len() {
            assert(fs[i] == w[i - a.len() - sr.len()]);
        } else {
            assert(fs[i] == e[i - a.len() - sr.len() - w.len()]);
        }
    }
    assert forall|p: Seq<char>|
        #[trigger] fs.contains(FieldView::Publisher(p))
            <== (b.metadata.publisher matches Some(q) && q@ == p) by {
        if b.metadata.publisher is Some {
            assert(fs[0] == a[0]);
        }
    }
    assert forall|s: Series|
        #[trigger] fs.contains(FieldView::Series(s))
            <== b.metadata.series == Some(s) by {
        if b.metadata.series is Some {
            assert(fs[a.len() as int] == sr[0]);
        }
    }
    assert forall|n: u64|
        #[trigger] fs.contains(FieldView::WordCount(n))
            <== b.stats.word_count == Some(n) by {
        if b.stats.word_count is Some {
            assert(fs[(a.len() + sr.len()) as int] == w[0]);
        }
    }
    assert forall|x: u64|
        #[trigger] fs.contains(FieldView::ReadingEase(x))
            <== b.stats.reading_ease == Some(x) by {
        if b.stats.reading_ease is Some {
            assert(fs[(a.len() + sr.len() + w.len()) as int] == e[0]);
        }
    }
}

} // verus!
