//! The text the viewer shows that the library decides: the count of
//! books or words, the remove dialog's title, and the file part of a path.

use std::collections::BTreeMap;

use vstd::prelude::*;

use crate::cover::{Cover, CoverView, FileCover};
use crate::library::{Book, ProgressRow, WordRow, is_day_of, is_optional_day};
use crate::metadata::ReadStatus;
use crate::text::{chars_of, decimal, decimal_u64, push_char, string_of};

verus! {

/// "1 book", "23 books", "1 word", "12 words": the number, a space, the
/// noun, and an "s" unless the number is one.
pub open spec fn count_text(n: nat, noun: Seq<char>) -> Seq<char> {
    decimal(n as int) + seq![' '] + noun + (if n == 1 {
        Seq::<char>::empty()
    } else {
        seq!['s']
    })
}

/// The count of a pane: "1 book", "23 books", "1 word", "12 words".
pub fn count(n: usize, noun: &str) -> (r: String)
    ensures
        r@ == count_text(n as nat, noun@),
{
    let mut r = decimal_u64(n as u64);
    push_char(&mut r, ' ');
    r.append(noun);
    if n != 1 {
        push_char(&mut r, 's');
    }
    r
}

/// The remove dialog's title: "Remove “The Left Hand of Darkness”?".
pub fn title(book: &str) -> (r: String)
    ensures
        r@ == "Remove \u{201C}"@ + book@ + "\u{201D}?"@,
{
    let mut r = String::from_str("Remove \u{201C}");
    r.append(book);
    r.append("\u{201D}?");
    r
}

/// The index just past the last '/' in `p`, or 0 when it holds none.
pub open spec fn last_piece_start(p: Seq<char>) -> int
    decreases p.len(),
{
    if p.len() == 0 {
        0
    } else if p.last() == '/' {
        p.len() as int
    } else {
        last_piece_start(p.drop_last())
    }
}

/// The last component of a path, as `Path::components` gives it on Unix
/// when it is a name or "..": the last piece between slashes, where an
/// empty piece (a repeated or trailing slash) and a "." piece count for
/// nothing. A path of only such pieces, or the root, has none.
pub open spec fn final_component(p: Seq<char>) -> Option<Seq<char>>
    decreases p.len(),
{
    let k = last_piece_start(p);
    let piece = p.subrange(k, p.len() as int);
    if piece.len() > 0 && piece != "."@ {
        Some(piece)
    } else if k <= 0 || k > p.len() {
        None
    } else {
        final_component(p.subrange(0, k - 1))
    }
}

/// What `Path::file_name` gives: the final component unless it is "..".
pub open spec fn path_file_name(p: Seq<char>) -> Option<Seq<char>> {
    match final_component(p) {
        Some(c) => if c == ".."@ {
            None
        } else {
            Some(c)
        },
        None => None,
    }
}

proof fn lemma_last_piece_start_at(p: Seq<char>, k: int)
    requires
        0 <= k <= p.len(),
        k > 0 ==> p[k - 1] == '/',
        forall|j: int| k <= j < p.len() ==> p[j] != '/',
    ensures
        last_piece_start(p) == k,
    decreases p.len(),
{
    if p.len() > k {
        let q = p.drop_last();
        assert forall|j: int| k <= j < q.len() implies q[j] != '/' by {
            assert(q[j] == p[j]);
        }
        if k > 0 {
            assert(q[k - 1] == p[k - 1]);
        }
        lemma_last_piece_start_at(q, k);
    }
}

/// The last part of a path, or the whole path when it has none: the
/// path's file name as `Path::file_name` finds it, else the path itself.
/// The path is given as text, as `Path::to_string_lossy` writes it.
pub fn file_name(path: &str) -> (r: String)
    ensures
        r@ == match path_file_name(path@) {
            Some(name) => name,
            None => path@,
        },
{
    let cs = chars_of(path);
    let ghost p = path@;
    let mut end: usize = cs.len();
    let mut found: Option<(usize, usize)> = None;
    assert(p.subrange(0, end as int) =~= p);
    loop
        invariant_except_break
            cs@ == p,
            end <= cs@.len(),
            final_component(p) == final_component(p.subrange(0, end as int)),
            found is None,
        ensures
            cs@ == p,
            match found {
                Some((a, b)) => a <= b <= cs@.len() && final_component(p) == Some(
                    p.subrange(a as int, b as int),
                ),
                None => final_component(p) is None,
            },
        decreases end,
    {
        let ghost q = p.subrange(0, end as int);
        let mut k: usize = end;
        while k > 0 && cs[k - 1] != '/'
            invariant
                cs@ == p,
                k <= end <= cs@.len(),
                forall|j: int| k <= j < end ==> cs@[j] != '/',
            decreases k,
        {
            k = k - 1;
        }
        proof {
            assert forall|j: int| k <= j < q.len() implies q[j] != '/' by {
                assert(q[j] == p[j]);
            }
            if k > 0 {
                assert(q[k - 1] == p[k - 1]);
            }
            lemma_last_piece_start_at(q, k as int);
            assert(q.subrange(k as int, q.len() as int) =~= p.subrange(k as int, end as int));
        }
        let is_dot = end - k == 1 && cs[k] == '.';
        proof {
            reveal_strlit(".");
            assert(".".view().len() == 1);
            if end == k + 1 {
                assert(p.subrange(k as int, end as int) == "."@ <==> p[k as int] == '.') by {
                    if p[k as int] == '.' {
                        assert(p.subrange(k as int, end as int) =~= "."@);
                    } else {
                        assert(p.subrange(k as int, end as int)[0] != "."@[0]);
                    }
                }
            }
        }
        if end > k && !is_dot {
            found = Some((k, end));
            break;
        }
        if k == 0 {
            break;
        }
        proof {
            assert(q.subrange(0, k - 1) =~= p.subrange(0, k - 1));
        }
        end = k - 1;
    }
    match found {
        Some((a, b)) => {
            let is_parent = b - a == 2 && cs[a] == '.' && cs[a + 1] == '.';
            proof {
                reveal_strlit("..");
                assert("..".view().len() == 2);
                let c = p.subrange(a as int, b as int);
                if b == a + 2 {
                    if cs[a as int] == '.' && cs[a + 1] == '.' {
                        assert(c =~= ".."@);
                    } else if cs[a as int] != '.' {
                        assert(c[0] != ".."@[0]);
                    } else {
                        assert(c[1] != ".."@[1]);
                    }
                } else {
                    assert(c.len() != ".."@.len());
                }
            }
            if is_parent {
                String::from_str(path)
            } else {
                string_of(&cs, a, b)
            }
        },
        None => String::from_str(path),
    }
}

/// The toolbar's count: the count of the pane, or while the filter is
/// set, "4 of 23 books".
pub fn toolbar_count(shown: usize, total: usize, noun: &str, filtered: bool) -> (r: String)
    ensures
        r@ == if filtered {
            decimal(shown as int) + " of "@ + count_text(total as nat, noun@)
        } else {
            count_text(total as nat, noun@)
        },
{
    let all = count(total, noun);
    if filtered {
        let mut r = decimal_u64(shown as u64);
        r.append(" of ");
        r.append(all.as_str());
        r
    } else {
        all
    }
}

/// What a device block says of when a book was read.
#[derive(Debug, Clone, Copy, PartialEq, Eq)]
pub enum LastSeen<'a> {
    /// The book is finished, on this day.
    Finished(&'a str),
    /// The book was last read on this day.
    Read(&'a str),
    /// The device has not opened the book.
    NotOpened,
}

/// When a device last saw a book: the day it was finished for a
/// finished book that has that day, else the day it was last read, else
/// not opened.
pub fn last_seen(p: &ProgressRow) -> (r: LastSeen<'_>)
    ensures
        match r {
            LastSeen::Finished(d) => p.status == ReadStatus::Finished && (p.finished_at matches Some(
                t,
            ) && is_day_of(t@, d)),
            LastSeen::Read(d) => !(p.status == ReadStatus::Finished && p.finished_at is Some) && (
            p.last_read matches Some(t) && is_day_of(t@, d)),
            LastSeen::NotOpened => !(p.status == ReadStatus::Finished && p.finished_at is Some)
                && p.last_read is None,
        },
{
    match (p.status, p.finished_day(), p.day()) {
        (ReadStatus::Finished, Some(day), _) => LastSeen::Finished(day),
        (_, _, Some(day)) => LastSeen::Read(day),
        (_, _, None) => LastSeen::NotOpened,
    }
}

/// The reading time a device block shows: the device's count of
/// seconds, when it counted any.
pub fn reading_seconds(p: &ProgressRow) -> (r: Option<i64>)
    ensures
        r == match p.time_spent {
            Some(s) => if s > 0 {
                Some(s)
            } else {
                None
            },
            None => None,
        },
{
    match p.time_spent {
        Some(s) => if s > 0 {
            Some(s)
        } else {
            None
        },
        None => None,
    }
}

/// What the Progress column shows for a book's latest progress.
#[derive(Debug, Clone, Copy, PartialEq, Eq)]
pub enum ProgressCell {
    /// A finished book: the word READ.
    Read,
    /// A book being read: a bar and the percent.
    Bar(i64),
    /// No progress row, or a book not started: nothing.
    Blank,
}

/// The Progress cell of a book whose latest progress row is `latest`.
pub fn progress_cell(latest: Option<&ProgressRow>) -> (r: ProgressCell)
    ensures
        r == match latest {
            Some(p) => if p.status == ReadStatus::Finished {
                ProgressCell::Read
            } else if p.status == ReadStatus::Reading {
                ProgressCell::Bar(p.percent)
            } else {
                ProgressCell::Blank
            },
            None => ProgressCell::Blank,
        },
{
    match latest {
        Some(p) => match p.status {
            ReadStatus::Finished => ProgressCell::Read,
            ReadStatus::Reading => ProgressCell::Bar(p.percent),
            ReadStatus::Unread => ProgressCell::Blank,
        },
        None => ProgressCell::Blank,
    }
}

/// The words of `words` looked up in book `id`, in their order.
pub open spec fn words_in(words: Seq<WordRow>, id: i64) -> Seq<WordRow>
    decreases words.len(),
{
    if words.len() == 0 {
        Seq::empty()
    } else if words.last().book_id == id {
        words_in(words.drop_last(), id).push(words.last())
    } else {
        words_in(words.drop_last(), id)
    }
}

/// The words looked up in one book, in the order of the list: the
/// sidebar's WORDS block.
pub fn words_of_book(words: &Vec<WordRow>, id: i64) -> (r: Vec<&WordRow>)
    ensures
        r@.map_values(|w: &WordRow| *w) == words_in(words@, id),
{
    let mut r: Vec<&WordRow> = Vec::new();
    let mut i: usize = 0;
    while i < words.len()
        invariant
            i <= words@.len(),
            r@.map_values(|w: &WordRow| *w) == words_in(words@.take(i as int), id),
        decreases words.len() - i,
    {
        proof {
            assert(words@.take(i + 1).drop_last() =~= words@.take(i as int));
        }
        if words[i].book_id == id {
            r.push(&words[i]);
        }
        proof {
            assert(r@.map_values(|w: &WordRow| *w) =~= words_in(words@.take(i + 1), id));
        }
        i = i + 1;
    }
    assert(words@.take(i as int) =~= words@);
    r
}

/// The index of the first book with id `id`, if any.
pub fn position_of_book(books: &Vec<Book>, id: i64) -> (r: Option<usize>)
    ensures
        match r {
            Some(i) => i < books@.len() && books@[i as int].id == id && forall|j: int|
                0 <= j < i ==> #[trigger] books@[j].id != id,
            None => forall|j: int| 0 <= j < books@.len() ==> #[trigger] books@[j].id != id,
        },
{
    let mut i: usize = 0;
    while i < books.len()
        invariant
            i <= books@.len(),
            forall|j: int| 0 <= j < i ==> #[trigger] books@[j].id != id,
        decreases books.len() - i,
    {
        if books[i].id == id {
            return Some(i);
        }
        i = i + 1;
    }
    None
}

/// What the sidebar keeps for a book's cover: the thumbnail to draw; no
/// cover, whatever the reason, drawn as "No cover"; or nothing, for a
/// book the library has not read yet, which the next selection asks
/// about again.
pub fn sidebar_cover(c: &Cover) -> (r: Option<Option<&[u8]>>)
    ensures
        match *c {
            Cover::Image(bytes) => r matches Some(Some(b)) && b@ == bytes@,
            Cover::Unknown => r is None,
            _ => r == Some(None::<&[u8]>),
        },
{
    match c {
        Cover::Image(bytes) => Some(Some(bytes.as_slice())),
        Cover::NoCover | Cover::Unreadable(_) | Cover::Undecodable(_) => Some(None),
        Cover::Unknown => None,
    }
}

/// The full-size cover a click on the thumbnail shows: the bytes the
/// file gives, or the status line's message.
pub fn full_cover(c: FileCover) -> (r: Result<Vec<u8>, String>)
    ensures
        match c {
            FileCover::Image(bytes) => r == Ok::<Vec<u8>, String>(bytes),
            FileCover::NoCover => r matches Err(m) && m@ == "The book file gives no cover."@,
            FileCover::Unreadable(why) => r matches Err(m) && m@ == "Cover failed: "@ + why@,
        },
{
    match c {
        FileCover::Image(bytes) => Ok(bytes),
        FileCover::NoCover => Err(String::from_str("The book file gives no cover.")),
        FileCover::Unreadable(why) => {
            let mut m = String::from_str("Cover failed: ");
            m.append(why.as_str());
            Err(m)
        },
    }
}

/// The rows a pane of `len` rows builds: from the row at the top of the
/// view, pulled back so that a full view stays filled at the end, to one
/// view further, cut at the end. `first_in_view` is the row the scroll
/// offset falls in, and `in_view` the rows that fit, one more than the
/// height holds since the top row is cut.
pub fn visible_rows(first_in_view: usize, in_view: usize, len: usize) -> (r: (usize, usize))
    ensures
        r.0 == if len >= in_view {
            if first_in_view < len - in_view {
                first_in_view
            } else {
                (len - in_view) as usize
            }
        } else {
            0
        },
        r.1 == if r.0 + in_view < len {
            r.0 + in_view
        } else {
            len as int
        },
        r.0 <= r.1 <= len,
{
    let floor = len.saturating_sub(in_view);
    let first = if first_in_view < floor {
        first_in_view
    } else {
        floor
    };
    let last = if in_view < len - first {
        first + in_view
    } else {
        len
    };
    (first, last)
}

/// The layers over the viewer's window: the book shown in the sidebar,
/// the full-size cover over the window, and the book the remove dialog
/// asks about.
#[derive(Debug, Clone, Copy, PartialEq, Eq, Structural)]
pub struct Overlays {
    pub selected: Option<i64>,
    pub full_cover: bool,
    pub removing: Option<i64>,
}

impl Overlays {
    /// No sidebar, no cover, no dialog.
    pub fn new() -> (r: Overlays)
        ensures
            r == (Overlays { selected: None, full_cover: false, removing: None }),
    {
        Overlays { selected: None, full_cover: false, removing: None }
    }

    /// Escape, or the sidebar's close button. It closes the top layer
    /// only: the remove dialog while it is shown, else the full-size
    /// cover, else the sidebar.
    pub fn close(&mut self)
        ensures
            *final(self) == if old(self).removing is Some {
                Overlays { removing: None, ..*old(self) }
            } else if old(self).full_cover {
                Overlays { full_cover: false, ..*old(self) }
            } else {
                Overlays { selected: None, ..*old(self) }
            },
    {
        if self.removing.is_some() {
            self.removing = None;
        } else if self.full_cover {
            self.full_cover = false;
        } else {
            self.selected = None;
        }
    }

    /// The Remove… button: the dialog opens on the book in the sidebar.
    pub fn ask_remove(&mut self)
        ensures
            *final(self) == (Overlays { removing: old(self).selected, ..*old(self) }),
    {
        self.removing = self.selected;
    }

    /// The dialog's Cancel button, or a click outside the dialog.
    pub fn cancel_remove(&mut self)
        ensures
            *final(self) == (Overlays { removing: None, ..*old(self) }),
    {
        self.removing = None;
    }

    /// The dialog's Remove button: the dialog closes, and the book it
    /// asked about is the one to remove.
    pub fn confirm_remove(&mut self) -> (r: Option<i64>)
        ensures
            r == old(self).removing,
            *final(self) == (Overlays { removing: None, ..*old(self) }),
    {
        let r = self.removing;
        self.removing = None;
        r
    }

    /// A click on a row: the sidebar shows the book with that id, or
    /// closes when no book has it.
    pub fn select(&mut self, books: &Vec<Book>, id: i64)
        ensures
            final(self).selected == (if exists|j: int| 0 <= j < books@.len() && #[trigger] books@[j].id == id {
                Some(id)
            } else {
                None
            }),
            final(self).full_cover == old(self).full_cover,
            final(self).removing == old(self).removing,
    {
        match position_of_book(books, id) {
            Some(i) => {
                assert(books@[i as int].id == id);
                self.selected = Some(id);
            },
            None => {
                self.selected = None;
            },
        }
    }

    /// A click on the full-size cover.
    pub fn hide_cover(&mut self)
        ensures
            *final(self) == (Overlays { full_cover: false, ..*old(self) }),
    {
        self.full_cover = false;
    }
}

/// The entry the sidebar keeps for a cover the library gave: the
/// thumbnail, or `None` for a book with no cover to draw, whatever the
/// reason; no entry at all for a book the library has not read yet.
pub open spec fn cover_entry(c: Cover) -> Option<Option<Vec<u8>>> {
    match c {
        Cover::Image(bytes) => Some(Some(bytes)),
        Cover::Unknown => None,
        _ => Some(None),
    }
}

/// The map after the cover of book `id` came back as `c`: an entry once
/// made stays as it is, and a new one is made as `cover_entry` says.
pub open spec fn covers_after(m: Map<i64, Option<Vec<u8>>>, id: i64, c: Cover) -> Map<i64, Option<Vec<u8>>> {
    if m.contains_key(id) {
        m
    } else {
        match cover_entry(c) {
            Some(entry) => m.insert(id, entry),
            None => m,
        }
    }
}

/// The covers the sidebar has read, by book id. Each book's cover is read
/// once; the entries of other books stay as they are.
pub struct CoverMap {
    covers: BTreeMap<i64, Option<Vec<u8>>>,
}

impl View for CoverMap {
    type V = Map<i64, Option<Vec<u8>>>;

    closed spec fn view(&self) -> Map<i64, Option<Vec<u8>>> {
        self.covers@
    }
}

impl CoverMap {
    /// A map with no cover read.
    pub fn new() -> (r: CoverMap)
        ensures
            r@ == Map::<i64, Option<Vec<u8>>>::empty(),
    {
        CoverMap { covers: BTreeMap::new() }
    }

    /// Whether the cover of book `id` is still to be read: it has no
    /// entry yet.
    pub fn wants(&self, id: i64) -> (r: bool)
        ensures
            r == !self@.contains_key(id),
    {
        broadcast use vstd::laws_cmp::group_laws_cmp;

        !self.covers.contains_key(&id)
    }

    /// Keeps the cover the library gave for book `id`. A book that has
    /// an entry keeps it; a new entry is the thumbnail, or `None` for a
    /// cover there is nothing to draw of; a book the library has not
    /// read yet gets no entry, so a later selection asks again.
    pub fn store(&mut self, id: i64, c: Cover)
        ensures
            final(self)@ == covers_after(old(self)@, id, c),
    {
        broadcast use vstd::laws_cmp::group_laws_cmp;

        if self.covers.contains_key(&id) {
            return;
        }
        match c {
            Cover::Image(bytes) => {
                self.covers.insert(id, Some(bytes));
            },
            Cover::NoCover | Cover::Unreadable(_) | Cover::Undecodable(_) => {
                self.covers.insert(id, None);
            },
            Cover::Unknown => {},
        }
    }

    /// The entry of book `id`: the thumbnail, `None` for no cover to
    /// draw, or nothing for a cover not read.
    pub fn get(&self, id: i64) -> (r: Option<&Option<Vec<u8>>>)
        ensures
            match r {
                Some(e) => self@.contains_key(id) && *e == self@[id],
                None => !self@.contains_key(id),
            },
    {
        broadcast use vstd::laws_cmp::group_laws_cmp;

        self.covers.get(&id)
    }
}

/// A cover is read once per book: once a book has an entry, storing a
/// second cover for it leaves the map as it was; a book gets an entry
/// unless the library has not read it; and the entries of other books
/// are never touched.
pub proof fn lemma_cover_read_once(m: Map<i64, Option<Vec<u8>>>, id: i64, c: Cover, d: Cover, other: i64)
    requires
        other != id,
    ensures
        covers_after(m, id, c).contains_key(id) ==> covers_after(covers_after(m, id, c), id, d)
            == covers_after(m, id, c),
        covers_after(m, id, c).contains_key(other) == m.contains_key(other),
        m.contains_key(other) ==> covers_after(m, id, c)[other] == m[other],
        covers_after(m, id, c).contains_key(id) == (m.contains_key(id) || !(c is Unknown)),
{
}

/// The status bar's counts: "3 reading · 12 finished · 4 this year".
pub fn status_counts(reading: usize, finished: usize, this_year: usize) -> (r: String)
    ensures
        r@ == decimal(reading as int) + " reading \u{B7} "@ + decimal(finished as int)
            + " finished \u{B7} "@ + decimal(this_year as int) + " this year"@,
{
    let mut r = decimal_u64(reading as u64);
    r.append(" reading \u{B7} ");
    let f = decimal_u64(finished as u64);
    r.append(f.as_str());
    r.append(" finished \u{B7} ");
    let y = decimal_u64(this_year as u64);
    r.append(y.as_str());
    r.append(" this year");
    r
}

/// The columns of the table, each a key it can be sorted by.
#[derive(Debug, Clone, Copy, PartialEq, Eq, Structural)]
pub enum SortKey {
    Id,
    Title,
    Author,
    Series,
    Words,
    Ease,
    Progress,
    LastRead,
    Finished,
}

/// The order of the table: by the first key, ties broken by the next,
/// and the whole order turned around when `descending`.
#[derive(Debug, Clone, PartialEq, Eq)]
pub struct Sort {
    pub keys: Vec<SortKey>,
    pub descending: bool,
}

/// The sort after a click on the header of `key`: a table sorted by that
/// key alone turns its order around; any other sort becomes that key
/// alone, ascending.
pub open spec fn clicked(keys: Seq<SortKey>, descending: bool, key: SortKey) -> (Seq<SortKey>, bool) {
    if keys == seq![key] {
        (keys, !descending)
    } else {
        (seq![key], false)
    }
}

impl Sort {
    /// The table sorted by `key` alone, ascending.
    pub fn on(key: SortKey) -> (r: Sort)
        ensures
            r.keys@ == seq![key],
            !r.descending,
    {
        Sort { keys: vec![key], descending: false }
    }

    /// A click on the header of the column `key`.
    pub fn click(&mut self, key: SortKey)
        ensures
            (final(self).keys@, final(self).descending) == clicked(old(self).keys@, old(self).descending, key),
    {
        if self.keys.len() == 1 && self.keys[0] == key {
            assert(self.keys@ =~= seq![key]);
            self.descending = !self.descending;
        } else {
            assert(self.keys@ != seq![key]);
            *self = Sort::on(key);
        }
    }
}

/// A click on a header always leaves the table sorted by that key alone,
/// and a second click on the same header turns the order around.
pub proof fn lemma_click_twice(keys: Seq<SortKey>, descending: bool, key: SortKey)
    ensures
        clicked(keys, descending, key).0 == seq![key],
        clicked(clicked(keys, descending, key).0, clicked(keys, descending, key).1, key)
            == (seq![key], !clicked(keys, descending, key).1),
{
}

/// A click on a header sorts by that key alone. The order is turned
/// around only when the table was sorted by that key alone and
/// ascending; a click on any other sort gives the key ascending,
/// whatever the old direction.
pub proof fn lemma_click_sorts_by_key(keys: Seq<SortKey>, descending: bool, key: SortKey)
    ensures
        clicked(keys, descending, key).0 == seq![key],
        clicked(keys, descending, key).1 == (keys == seq![key] && !descending),
{
}

/// The count says the noun in the plural, with an "s", for every number
/// but one, and "1 " and the noun for one.
pub proof fn lemma_count_plural(n: nat, noun: Seq<char>)
    ensures
        n != 1 ==> count_text(n, noun) == decimal(n as int) + seq![' '] + noun + seq!['s'],
        n != 1 ==> count_text(n, noun).last() == 's',
        n == 1 ==> count_text(n, noun) == seq!['1', ' '] + noun,
{
    if n == 1 {
        assert(decimal(1) == seq!['1']);
        assert(count_text(n, noun) =~= seq!['1', ' '] + noun);
    } else {
        assert(count_text(n, noun) =~= decimal(n as int) + seq![' '] + noun + seq!['s']);
    }
}

/// The entry a first read makes: the thumbnail's bytes for an image,
/// `None` for no cover, an unreadable one or an undecodable one, and no
/// entry for a book the library has not read.
pub proof fn lemma_cover_entries(m: Map<i64, Option<Vec<u8>>>, id: i64, c: Cover)
    requires
        !m.contains_key(id),
    ensures
        c matches Cover::Image(b) ==> covers_after(m, id, c).contains_key(id) && covers_after(m, id, c)[id]
            == Some(b),
        (c is NoCover || c is Unreadable || c is Undecodable) ==> covers_after(m, id, c).contains_key(id)
            && covers_after(m, id, c)[id] is None,
        c is Unknown ==> covers_after(m, id, c) == m,
{
}

} // verus!
