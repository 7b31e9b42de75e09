//! The edit form: one input per field of the record, as the reader has
//! typed it. `Form::new` fills the inputs from a book, `Form::apply` puts
//! one change into them, and `Form::record` reads them back as the
//! `Metadata` record that an edit writes.
//!
//! `Form::record` follows the rules of the command line's edit. Each text
//! is trimmed, and an empty text clears its field: no publisher, no
//! series, no description. An empty title is an error, because every
//! book needs a title. An author row with an empty name is dropped. An
//! author with an empty sort name gets the sort name that `sort_name`
//! makes from the display name. An empty series name clears the series,
//! and the number beside it is not read. A number that is not a number
//! is an error.
//!
//! The description is the one field the form does not trim. It goes
//! into the record as the reader typed it, HTML included, so the markup
//! a publisher wrote survives an edit of the other fields. A description
//! of only white space clears the field.
//!
//! Two rules come from outside the form. The sort name made from a
//! display name is the library's `sort_name` rule, and a series number is
//! an `f64` that the form parses and formats, carried as its bits; both
//! are given as functions.

use vstd::prelude::*;

use crate::library::Book;
use crate::metadata::{Author, Metadata, Series};
use crate::text::{blank, is_blank, lemma_trimmed_empty, trim, trimmed};

verus! {

/// One author row: the display name and the sort name beside it.
#[derive(Debug, Clone, PartialEq, Eq)]
pub struct AuthorField {
    pub name: String,
    pub sort: String,
}

/// The edit form: the text of each input, as the reader has typed it.
#[derive(Debug, Clone, PartialEq, Eq)]
pub struct Form {
    pub id: i64,
    pub title: String,
    pub authors: Vec<AuthorField>,
    pub series: String,
    pub series_number: String,
    pub publisher: String,
    /// The text of the description editor.
    pub description: String,
    /// Why the last Save did not save, shown under the buttons.
    pub error: Option<String>,
}

/// A change to one input of the form. The description editor performs
/// the reader's edit itself, and the change carries its text after it.
#[derive(Debug, Clone, PartialEq, Eq)]
pub enum Change {
    Title(String),
    AuthorName(usize, String),
    AuthorSort(usize, String),
    AddAuthor,
    RemoveAuthor(usize),
    Series(String),
    SeriesNumber(String),
    Publisher(String),
    Description(String),
}

/// The text an optional string gives an input: the string, or nothing.
pub open spec fn input_text(o: Option<String>) -> Seq<char> {
    match o {
        Some(s) => s@,
        None => Seq::empty(),
    }
}

/// The author rows of a record's authors, each with its name and sort.
pub open spec fn author_rows_match(rows: Seq<AuthorField>, authors: Seq<Author>) -> bool {
    &&& rows.len() == authors.len()
    &&& forall|i: int|
        0 <= i < rows.len() ==> #[trigger] rows[i].name@ == authors[i].name@ && rows[i].sort@
            == authors[i].sort@
}

/// Whether `f` is the form `Form::new` makes for `book`: each input
/// holds its field's text, an absent field gives an empty input, and the
/// series number is what `format_number` writes.
pub open spec fn is_form_of<F: Fn(u64) -> String>(book: Book, f: Form, format_number: F) -> bool {
    &&& f.id == book.id
    &&& f.title@ == book.metadata.title@
    &&& author_rows_match(f.authors@, book.metadata.authors@)
    &&& f.series@ == match book.metadata.series {
        Some(s) => s.name@,
        None => Seq::empty(),
    }
    &&& match book.metadata.series {
        Some(Series { number: Some(n), .. }) => call_ensures(format_number, (n,), f.series_number),
        _ => f.series_number@ == Seq::<char>::empty(),
    }
    &&& f.publisher@ == input_text(book.metadata.publisher)
    &&& f.description@ == input_text(book.metadata.description)
    &&& f.error is None
}

impl Form {
    /// The form for a book, with each input filled from its record. A
    /// field the record does not hold gives an empty input. A series
    /// number is written by `format_number`.
    pub fn new<F: Fn(u64) -> String>(book: &Book, format_number: F) -> (f: Form)
        requires
            forall|n: u64| call_requires(format_number, (n,)),
        ensures
            is_form_of(*book, f, format_number),
    {
        let m = &book.metadata;
        let mut authors: Vec<AuthorField> = Vec::new();
        let mut i: usize = 0;
        while i < m.authors.len()
            invariant
                i <= m.authors@.len(),
                authors@.len() == i,
                forall|j: int|
                    0 <= j < i ==> #[trigger] authors@[j].name@ == m.authors@[j].name@
                        && authors@[j].sort@ == m.authors@[j].sort@,
            decreases m.authors.len() - i,
        {
            authors.push(AuthorField { name: m.authors[i].name.clone(), sort: m.authors[i].sort.clone() });
            i = i + 1;
        }
        let series = match &m.series {
            Some(s) => s.name.clone(),
            None => String::new(),
        };
        let series_number = match &m.series {
            Some(s) => match s.number {
                Some(n) => format_number(n),
                None => String::new(),
            },
            None => String::new(),
        };
        let publisher = match &m.publisher {
            Some(p) => p.clone(),
            None => String::new(),
        };
        let description = match &m.description {
            Some(d) => d.clone(),
            None => String::new(),
        };
        Form {
            id: book.id,
            title: m.title.clone(),
            authors,
            series,
            series_number,
            publisher,
            description,
            error: None,
        }
    }
}

/// An author row as plain values: the name and the sort name.
pub type AuthorFieldView = (Seq<char>, Seq<char>);

impl View for AuthorField {
    type V = AuthorFieldView;

    open spec fn view(&self) -> AuthorFieldView {
        (self.name@, self.sort@)
    }
}

/// The form as plain values.
pub struct FormView {
    pub id: i64,
    pub title: Seq<char>,
    pub authors: Seq<AuthorFieldView>,
    pub series: Seq<char>,
    pub series_number: Seq<char>,
    pub publisher: Seq<char>,
    pub description: Seq<char>,
    pub error: Option<Seq<char>>,
}

impl View for Form {
    type V = FormView;

    open spec fn view(&self) -> FormView {
        FormView {
            id: self.id,
            title: self.title@,
            authors: self.authors@.map_values(|a: AuthorField| a@),
            series: self.series@,
            series_number: self.series_number@,
            publisher: self.publisher@,
            description: self.description@,
            error: match self.error {
                Some(e) => Some(e@),
                None => None,
            },
        }
    }
}

/// A change as plain values.
pub enum ChangeView {
    Title(Seq<char>),
    AuthorName(usize, Seq<char>),
    AuthorSort(usize, Seq<char>),
    AddAuthor,
    RemoveAuthor(usize),
    Series(Seq<char>),
    SeriesNumber(Seq<char>),
    Publisher(Seq<char>),
    Description(Seq<char>),
}

impl View for Change {
    type V = ChangeView;

    open spec fn view(&self) -> ChangeView {
        match self {
            Change::Title(t) => ChangeView::Title(t@),
            Change::AuthorName(i, t) => ChangeView::AuthorName(*i, t@),
            Change::AuthorSort(i, t) => ChangeView::AuthorSort(*i, t@),
            Change::AddAuthor => ChangeView::AddAuthor,
            Change::RemoveAuthor(i) => ChangeView::RemoveAuthor(*i),
            Change::Series(t) => ChangeView::Series(t@),
            Change::SeriesNumber(t) => ChangeView::SeriesNumber(t@),
            Change::Publisher(t) => ChangeView::Publisher(t@),
            Change::Description(t) => ChangeView::Description(t@),
        }
    }
}

/// The form after one change: the input it names holds the new text, an
/// author row past the end is left alone, and the error is cleared.
pub open spec fn applied(f: FormView, c: ChangeView) -> FormView {
    let f = FormView { error: None, ..f };
    match c {
        ChangeView::Title(t) => FormView { title: t, ..f },
        ChangeView::AuthorName(i, t) => if i < f.authors.len() {
            FormView { authors: f.authors.update(i as int, (t, f.authors[i as int].1)), ..f }
        } else {
            f
        },
        ChangeView::AuthorSort(i, t) => if i < f.authors.len() {
            FormView { authors: f.authors.update(i as int, (f.authors[i as int].0, t)), ..f }
        } else {
            f
        },
        ChangeView::AddAuthor => FormView {
            authors: f.authors.push((Seq::empty(), Seq::empty())),
            ..f
        },
        ChangeView::RemoveAuthor(i) => if i < f.authors.len() {
            FormView { authors: f.authors.remove(i as int), ..f }
        } else {
            f
        },
        ChangeView::Series(t) => FormView { series: t, ..f },
        ChangeView::SeriesNumber(t) => FormView { series_number: t, ..f },
        ChangeView::Publisher(t) => FormView { publisher: t, ..f },
        ChangeView::Description(t) => FormView { description: t, ..f },
    }
}

impl Form {
    /// Puts the text of one input into the form. It also clears the
    /// error, so a corrected input does not sit under a stale message.
    pub fn apply(&mut self, change: Change)
        ensures
            final(self)@ == applied(old(self)@, change@),
    {
        let ghost before = self@;
        let ghost c = change@;
        self.error = None;
        match change {
            Change::Title(t) => self.title = t,
            Change::AuthorName(i, t) => {
                if i < self.authors.len() {
                    let mut a = self.authors.remove(i);
                    a.name = t;
                    self.authors.insert(i, a);
                }
            },
            Change::AuthorSort(i, t) => {
                if i < self.authors.len() {
                    let mut a = self.authors.remove(i);
                    a.sort = t;
                    self.authors.insert(i, a);
                }
            },
            Change::AddAuthor => self.authors.push(AuthorField { name: String::new(), sort: String::new() }),
            Change::RemoveAuthor(i) => {
                if i < self.authors.len() {
                    self.authors.remove(i);
                }
            },
            Change::Series(t) => self.series = t,
            Change::SeriesNumber(t) => self.series_number = t,
            Change::Publisher(t) => self.publisher = t,
            Change::Description(t) => self.description = t,
        }
        assert(self@.authors =~= applied(before, c).authors);
    }
}

/// The author rows a record keeps: those whose name is not blank once
/// trimmed, in their order.
pub open spec fn kept_rows(rows: Seq<AuthorFieldView>) -> Seq<AuthorFieldView>
    decreases rows.len(),
{
    if rows.len() == 0 {
        Seq::empty()
    } else if trimmed(rows.last().0).len() > 0 {
        kept_rows(rows.drop_last()).push(rows.last())
    } else {
        kept_rows(rows.drop_last())
    }
}

/// Whether `a` is the author a kept row makes: the trimmed name, and the
/// trimmed sort name, or where that is empty, one that `sort_name` made
/// from the trimmed name.
pub open spec fn is_author_of<F: Fn(&str) -> String>(row: AuthorFieldView, a: Author, sort_name: F) -> bool {
    &&& a.name@ == trimmed(row.0)
    &&& if trimmed(row.1).len() > 0 {
        a.sort@ == trimmed(row.1)
    } else {
        exists|n: &str| n@ == trimmed(row.0) && #[trigger] call_ensures(sort_name, (n,), a.sort)
    }
}

/// Whether `authors` are the authors the rows make, one per kept row.
pub open spec fn are_authors_of<F: Fn(&str) -> String>(
    rows: Seq<AuthorFieldView>,
    authors: Seq<Author>,
    sort_name: F,
) -> bool {
    &&& authors.len() == kept_rows(rows).len()
    &&& forall|i: int| 0 <= i < authors.len() ==> is_author_of(kept_rows(rows)[i], #[trigger] authors[i], sort_name)
}

/// Whether `parse` turns the text `t` into `r`.
pub open spec fn parses_to<G: Fn(&str) -> Option<u64>>(parse: G, t: Seq<char>, r: Option<u64>) -> bool {
    exists|s: &str| s@ == t && #[trigger] call_ensures(parse, (s,), r)
}

/// Whether the `f64` with bits `b` is NaN: every exponent bit set and a
/// fraction that is not zero.
pub open spec fn is_nan_bits(b: u64) -> bool {
    (b >> 52u64) & 0x7FFu64 == 0x7FFu64 && b & 0xF_FFFF_FFFF_FFFFu64 != 0
}

/// Whether `b` are the bits of a NaN.
fn nan_bits(b: u64) -> (r: bool)
    ensures
        r == is_nan_bits(b),
{
    (b >> 52u64) & 0x7FFu64 == 0x7FFu64 && b & 0xF_FFFF_FFFF_FFFFu64 != 0
}

/// Whether the text `t` is not a number: `parse` gives nothing for it,
/// or gives the bits of a NaN.
pub open spec fn not_a_number<G: Fn(&str) -> Option<u64>>(parse: G, t: Seq<char>) -> bool {
    exists|s: &str, v: Option<u64>|
        s@ == t && #[trigger] call_ensures(parse, (s,), v) && (v is None || is_nan_bits(v->0))
}

/// The message of an empty title.
pub open spec fn empty_title_message() -> Seq<char> {
    "The title is empty."@
}

/// The message of a series number that does not parse.
pub open spec fn bad_number_message() -> Seq<char> {
    "The series number is not a number."@
}

/// Whether `r` is what `Form::record` gives for `f`: the empty-title
/// error exactly when the title trims to nothing; otherwise the
/// bad-number error exactly when a series is named and its trimmed
/// number is not a number (`parse_number` gives nothing, or a NaN);
/// otherwise the record of the trimmed inputs.
pub open spec fn record_result<F: Fn(&str) -> String, G: Fn(&str) -> Option<u64>>(
    f: Form,
    r: Result<Metadata, String>,
    sort_name: F,
    parse_number: G,
) -> bool {
    &&& trimmed(f.title@).len() == 0 ==> (r matches Err(e) && e@ == empty_title_message())
    &&& trimmed(f.title@).len() > 0 && trimmed(f.series@).len() > 0 && trimmed(f.series_number@).len()
        > 0 && r is Err ==> (r matches Err(e) && e@ == bad_number_message() && not_a_number(
        parse_number,
        trimmed(f.series_number@),
    ))
    &&& trimmed(f.title@).len() > 0 && (trimmed(f.series@).len() == 0 || trimmed(
        f.series_number@,
    ).len() == 0) ==> r is Ok
    &&& r matches Ok(m) ==> {
        &&& trimmed(f.title@).len() > 0
        &&& m.title@ == trimmed(f.title@)
        &&& are_authors_of(f@.authors, m.authors@, sort_name)
        &&& match m.series {
            None => trimmed(f.series@).len() == 0,
            Some(s) => {
                &&& trimmed(f.series@).len() > 0
                &&& s.name@ == trimmed(f.series@)
                &&& if trimmed(f.series_number@).len() == 0 {
                    s.number is None
                } else {
                    &&& s.number is Some
                    &&& parses_to(parse_number, trimmed(f.series_number@), s.number)
                    &&& !is_nan_bits(s.number->0)
                }
            },
        }
        &&& m.publisher matches Some(p) ==> p@ == trimmed(f.publisher@)
        &&& (m.publisher is None <==> trimmed(f.publisher@).len() == 0)
        &&& m.description matches Some(d) ==> d@ == f.description@
        &&& (m.description is None <==> is_blank(f.description@))
    }
}

proof fn lemma_kept_rows_push(rows: Seq<AuthorFieldView>, row: AuthorFieldView)
    ensures
        kept_rows(rows.push(row)) == if trimmed(row.0).len() > 0 {
            kept_rows(rows).push(row)
        } else {
            kept_rows(rows)
        },
{
    assert(rows.push(row).drop_last() =~= rows);
}

impl Form {
    /// The record the inputs make, or one sentence that says why they make
    /// none. The module doc lists the rules. `sort_name` makes a sort name
    /// from a display name, and `parse_number` reads a series number,
    /// giving the bits of its `f64`, or none for a text it does not read.
    /// A number that reads as NaN is not a number, and is an error too.
    pub fn record<F: Fn(&str) -> String, G: Fn(&str) -> Option<u64>>(
        &self,
        sort_name: F,
        parse_number: G,
    ) -> (r: Result<Metadata, String>)
        requires
            forall|n: &str| call_requires(sort_name, (n,)),
            forall|n: &str| call_requires(parse_number, (n,)),
        ensures
            record_result(*self, r, sort_name, parse_number),
    {
        let title = trim(self.title.as_str());
        if title.as_str().is_empty() {
            return Err(String::from_str("The title is empty."));
        }
        let mut authors: Vec<Author> = Vec::new();
        let mut i: usize = 0;
        let ghost rows = self@.authors;
        while i < self.authors.len()
            invariant
                i <= self.authors@.len(),
                rows == self@.authors,
                forall|n: &str| call_requires(sort_name, (n,)),
                are_authors_of(rows.take(i as int), authors@, sort_name),
            decreases self.authors.len() - i,
        {
            let ghost before = authors@;
            proof {
                assert(rows.take(i + 1) =~= rows.take(i as int).push(rows[i as int]));
                lemma_kept_rows_push(rows.take(i as int), rows[i as int]);
            }
            let row = &self.authors[i];
            let name = trim(row.name.as_str());
            if !name.as_str().is_empty() {
                let sort = trim(row.sort.as_str());
                let ghost mut witness: Option<&str> = None;
                let sort = if sort.as_str().is_empty() {
                    let n = name.as_str();
                    let made = sort_name(n);
                    proof {
                        witness = Some(n);
                    }
                    made
                } else {
                    sort
                };
                authors.push(Author { name, sort });
                proof {
                    let k = kept_rows(rows.take(i + 1));
                    assert(k.last() == rows[i as int]);
                    if trimmed(rows[i as int].1).len() == 0 {
                        let n = witness->0;
                        assert(call_ensures(sort_name, (n,), authors@.last().sort));
                    }
                    assert(is_author_of(k.last(), authors@.last(), sort_name));
                    assert forall|j: int| 0 <= j < authors@.len() implies is_author_of(
                        k[j],
                        #[trigger] authors@[j],
                        sort_name,
                    ) by {
                        if j < before.len() {
                            assert(authors@[j] == before[j]);
                            assert(k[j] == kept_rows(rows.take(i as int))[j]);
                        }
                    }
                }
            }
            i = i + 1;
        }
        proof {
            assert(rows.take(i as int) =~= rows);
        }
        let name = trim(self.series.as_str());
        let series = if name.as_str().is_empty() {
            None
        } else {
            let text = trim(self.series_number.as_str());
            let number = if text.as_str().is_empty() {
                None
            } else {
                let t = text.as_str();
                let parsed = parse_number(t);
                proof {
                    assert(call_ensures(parse_number, (t,), parsed));
                }
                match parsed {
                    Some(bits) => {
                        if nan_bits(bits) {
                            return Err(String::from_str("The series number is not a number."));
                        }
                        Some(bits)
                    },
                    None => {
                        return Err(String::from_str("The series number is not a number."));
                    },
                }
            };
            Some(Series { name, number })
        };
        let publisher = trim(self.publisher.as_str());
        let publisher = if publisher.as_str().is_empty() {
            None
        } else {
            Some(publisher)
        };
        let description = if blank(self.description.as_str()) {
            None
        } else {
            Some(self.description.clone())
        };
        Ok(Metadata { title, authors, series, publisher, description })
    }
}

/// Whether a text is as the form leaves it: not empty, and with no white
/// space at either end.
pub open spec fn settled(t: Seq<char>) -> bool {
    t.len() > 0 && trimmed(t) == t
}

proof fn lemma_trimmed_nothing()
    ensures
        trimmed(Seq::<char>::empty()) == Seq::<char>::empty(),
{
    lemma_trimmed_empty(Seq::<char>::empty());
}

proof fn lemma_all_rows_kept(rows: Seq<AuthorFieldView>)
    requires
        forall|i: int| 0 <= i < rows.len() ==> trimmed(#[trigger] rows[i].0).len() > 0,
    ensures
        kept_rows(rows) == rows,
    decreases rows.len(),
{
    if rows.len() > 0 {
        assert(trimmed(rows[rows.len() - 1].0).len() > 0);
        lemma_all_rows_kept(rows.drop_last());
        assert(rows.drop_last().push(rows.last()) =~= rows);
    }
}

/// A record whose texts are settled comes back unchanged from a trip
/// through the form: `Form::record` on the form `Form::new` makes gives
/// the same record, provided that a series number `format_number` writes
/// is settled text that `parse_number` reads back as the same bits, and
/// the number is not a NaN, which the form refuses. The sort names are
/// settled, so no sort name is made.
pub proof fn lemma_record_survives_the_form<
    F: Fn(u64) -> String,
    P: Fn(&str) -> String,
    G: Fn(&str) -> Option<u64>,
>(book: Book, f: Form, r: Result<Metadata, String>, format_number: F, sort_name: P, parse_number: G)
    requires
        is_form_of(book, f, format_number),
        record_result(f, r, sort_name, parse_number),
        settled(book.metadata.title@),
        forall|i: int|
            0 <= i < book.metadata.authors@.len() ==> settled(#[trigger] book.metadata.authors@[i].name@)
                && settled(book.metadata.authors@[i].sort@),
        book.metadata.series matches Some(s) ==> settled(s.name@),
        book.metadata.series matches Some(s) ==> (s.number matches Some(n) ==> !is_nan_bits(n)),
        book.metadata.publisher matches Some(p) ==> settled(p@),
        book.metadata.description matches Some(d) ==> !is_blank(d@),
        forall|n: u64, out: String|
            #[trigger] call_ensures(format_number, (n,), out) ==> settled(out@) && forall|v: Option<u64>|
                #[trigger] parses_to(parse_number, out@, v) ==> v == Some(n),
    ensures
        r matches Ok(m) && m@ == book.metadata@,
{
    lemma_trimmed_nothing();
    lemma_trimmed_empty(Seq::<char>::empty());
    let md = book.metadata;
    let rows = f@.authors;
    assert forall|i: int| 0 <= i < rows.len() implies trimmed(#[trigger] rows[i].0).len() > 0 by {
        assert(rows[i] == f.authors@[i]@);
        assert(settled(md.authors@[i].name@));
    }
    lemma_all_rows_kept(rows);
    match md.series {
        Some(s) => {
            match s.number {
                Some(n) => {
                    assert(call_ensures(format_number, (n,), f.series_number));
                    if r is Err {
                        assert(not_a_number(parse_number, f.series_number@));
                        let (s0, v0) = choose|s0: &str, v0: Option<u64>|
                            s0@ == f.series_number@ && #[trigger] call_ensures(parse_number, (s0,), v0)
                                && (v0 is None || is_nan_bits(v0->0));
                        assert(parses_to(parse_number, f.series_number@, v0));
                    }
                },
                None => {},
            }
        },
        None => {},
    }
    let m = r->Ok_0;
    assert(m@.authors =~= md@.authors) by {
        assert forall|i: int| 0 <= i < m.authors@.len() implies m@.authors[i] == md@.authors[i] by {
            assert(is_author_of(rows[i], m.authors@[i], sort_name));
            assert(rows[i] == f.authors@[i]@);
            assert(settled(md.authors@[i].sort@));
        }
    }
    match md.series {
        Some(s) => {
            match s.number {
                Some(n) => {
                    let ms = m.series->0;
                    assert(parses_to(parse_number, f.series_number@, ms.number));
                },
                None => {},
            }
        },
        None => {},
    }
    match md.description {
        Some(d) => {},
        None => {
            assert(is_blank(f.description@));
        },
    }
}

/// Removing an author row takes out exactly that row: the rows before it
/// stay where they are, the rows after it move up by one, and the other
/// inputs keep their text. An index past the last row changes no row.
pub proof fn lemma_remove_author_row(f: FormView, i: usize)
    ensures
        i < f.authors.len() ==> {
            let g = applied(f, ChangeView::RemoveAuthor(i)).authors;
            &&& g.len() == f.authors.len() - 1
            &&& forall|j: int| 0 <= j < i ==> #[trigger] g[j] == f.authors[j]
            &&& forall|j: int| i <= j < g.len() ==> #[trigger] g[j] == f.authors[j + 1]
        },
        i >= f.authors.len() ==> applied(f, ChangeView::RemoveAuthor(i)).authors == f.authors,
        applied(f, ChangeView::RemoveAuthor(i)).title == f.title,
        applied(f, ChangeView::RemoveAuthor(i)).series == f.series,
        applied(f, ChangeView::RemoveAuthor(i)).series_number == f.series_number,
        applied(f, ChangeView::RemoveAuthor(i)).publisher == f.publisher,
        applied(f, ChangeView::RemoveAuthor(i)).description == f.description,
        applied(f, ChangeView::RemoveAuthor(i)).error is None,
{
}

/// Typing into an author row changes that row's name or sort name and
/// nothing else; adding a row puts an empty one at the end.
pub proof fn lemma_author_row_edits(f: FormView, i: usize, t: Seq<char>)
    ensures
        i < f.authors.len() ==> {
            let g = applied(f, ChangeView::AuthorName(i, t)).authors;
            &&& g.len() == f.authors.len()
            &&& g[i as int] == (t, f.authors[i as int].1)
            &&& forall|j: int| 0 <= j < g.len() && j != i ==> #[trigger] g[j] == f.authors[j]
        },
        i < f.authors.len() ==> {
            let g = applied(f, ChangeView::AuthorSort(i, t)).authors;
            &&& g.len() == f.authors.len()
            &&& g[i as int] == (f.authors[i as int].0, t)
            &&& forall|j: int| 0 <= j < g.len() && j != i ==> #[trigger] g[j] == f.authors[j]
        },
        ({
            let g = applied(f, ChangeView::AddAuthor).authors;
            &&& g.len() == f.authors.len() + 1
            &&& g[g.len() - 1] == (Seq::<char>::empty(), Seq::<char>::empty())
            &&& forall|j: int| 0 <= j < f.authors.len() ==> #[trigger] g[j] == f.authors[j]
        }),
{
}

} // verus!
