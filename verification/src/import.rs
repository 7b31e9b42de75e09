//! The order of an import's steps, as a machine that takes what the last
//! step found and names the next step to take.
//!
//! An import reads the source file's record, measures a file that carries
//! no word count, and, unless forced, looks for a book with the same
//! title and first author and stops at one. It then converts or copies the file into a temp
//! file in the library folder, inserts the book row, and renames the temp
//! file to the book's name. It writes made sort names and measured
//! numbers into that file, and stores the thumbnail of the cover when the
//! source still gives one. A step that fails ends the import, and the
//! temp file goes with it.
//!
//! The caller performs each step and reports it back with an `Event`.

use vstd::prelude::*;

use crate::library::{is_kepub, is_kepub_name};

verus! {

/// What the last step of an import found.
#[derive(Debug, Clone, Copy, PartialEq, Eq, Structural)]
pub enum Event {
    /// The source file's record was read. `word_count_missing` says the
    /// file carries no word count; `made_sort` says some author got a
    /// sort name made from the display name.
    Read { word_count_missing: bool, made_sort: bool },
    /// The text was measured.
    Measured,
    /// The library was searched for the same title and first author.
    Found(Option<i64>),
    /// The temp file in the library folder was made.
    TempMade,
    /// The source was converted or copied into the temp file.
    Placed,
    /// The book row was inserted with this id.
    Inserted(i64),
    /// The temp file was renamed to the book's name.
    Persisted,
    /// The record and the stats were written into the book's file.
    FileWritten,
    /// The source's cover was read, or it no longer opened.
    CoverRead(bool),
    /// The cover row was written.
    CoverStored,
}

/// The next step of an import.
#[derive(Debug, Clone, Copy, PartialEq, Eq, Structural)]
pub enum Action {
    /// Measure the text of the source.
    Measure,
    /// Look for a book with the same title and first author.
    FindSame,
    /// Make the temp file in the library folder.
    MakeTemp,
    /// Copy the source, a KEPUB, into the temp file.
    Copy,
    /// Convert the source into a KEPUB in the temp file.
    Convert,
    /// Insert the book row.
    Insert,
    /// Rename the temp file to the file of book `id`.
    Persist(i64),
    /// Write the record and the stats into the file of book `id`.
    WriteFile(i64),
    /// Read the cover of the source.
    ReadCover,
    /// Store the thumbnail of the cover for book `id`.
    StoreCover(i64),
    /// The import ends: book `id` is already in the library.
    Exists(i64),
    /// The import ends: the file is in the library as book `id`.
    Imported(i64),
    /// The event does not answer the step the import is at; nothing is
    /// done.
    OutOfOrder,
}

/// Where an import stands: the step whose event it waits for.
#[derive(Debug, Clone, Copy, PartialEq, Eq, Structural)]
pub enum Phase {
    Reading,
    Measuring,
    Finding,
    MakingTemp,
    Placing,
    Inserting,
    Persisting,
    WritingFile,
    ReadingCover,
    StoringCover,
    Done,
}

/// One import under way.
#[derive(Debug, Clone, Copy, PartialEq, Eq, Structural)]
pub struct Import {
    /// Import even when the same book is in the library.
    pub force: bool,
    /// The source is a KEPUB, copied as it is.
    pub kepub: bool,
    /// The text is measured, so the numbers go into the file.
    pub measured: bool,
    /// Some author got a made sort name, which goes into the file.
    pub made_sort: bool,
    /// The id of the inserted book.
    pub id: i64,
    pub phase: Phase,
}

/// The step after the record is read and measured: a forced import
/// goes on to the temp file without searching, any other one looks for
/// the same book first.
pub open spec fn search_or_place(s: Import) -> (Import, Action) {
    if s.force {
        (Import { phase: Phase::MakingTemp, ..s }, Action::MakeTemp)
    } else {
        (Import { phase: Phase::Finding, ..s }, Action::FindSame)
    }
}

/// The import after `e` and the step it takes next. An event that does
/// not answer the current phase leaves the import as it is.
pub open spec fn step(s: Import, e: Event) -> (Import, Action) {
    match (s.phase, e) {
        (Phase::Reading, Event::Read { word_count_missing, made_sort }) => {
            let s = Import { measured: word_count_missing, made_sort, ..s };
            if word_count_missing {
                (Import { phase: Phase::Measuring, ..s }, Action::Measure)
            } else {
                search_or_place(s)
            }
        },
        (Phase::Measuring, Event::Measured) => search_or_place(s),
        (Phase::Finding, Event::Found(same)) => if !s.force && same is Some {
            (Import { phase: Phase::Done, ..s }, Action::Exists(same->0))
        } else {
            (Import { phase: Phase::MakingTemp, ..s }, Action::MakeTemp)
        },
        (Phase::MakingTemp, Event::TempMade) => (
            Import { phase: Phase::Placing, ..s },
            if s.kepub {
                Action::Copy
            } else {
                Action::Convert
            },
        ),
        (Phase::Placing, Event::Placed) => (Import { phase: Phase::Inserting, ..s }, Action::Insert),
        (Phase::Inserting, Event::Inserted(id)) => (
            Import { id, phase: Phase::Persisting, ..s },
            Action::Persist(id),
        ),
        (Phase::Persisting, Event::Persisted) => if s.made_sort || s.measured {
            (Import { phase: Phase::WritingFile, ..s }, Action::WriteFile(s.id))
        } else {
            (Import { phase: Phase::ReadingCover, ..s }, Action::ReadCover)
        },
        (Phase::WritingFile, Event::FileWritten) => (
            Import { phase: Phase::ReadingCover, ..s },
            Action::ReadCover,
        ),
        (Phase::ReadingCover, Event::CoverRead(read)) => if read {
            (Import { phase: Phase::StoringCover, ..s }, Action::StoreCover(s.id))
        } else {
            (Import { phase: Phase::Done, ..s }, Action::Imported(s.id))
        },
        (Phase::StoringCover, Event::CoverStored) => (
            Import { phase: Phase::Done, ..s },
            Action::Imported(s.id),
        ),
        _ => (s, Action::OutOfOrder),
    }
}

impl Import {
    /// An import of the file named `file_name`, about to read it. A
    /// `.kepub.epub` or `.kepub` name marks a KEPUB, which is copied.
    pub fn new(force: bool, file_name: Option<&str>) -> (r: Import)
        ensures
            r.force == force,
            r.kepub == is_kepub_name(
                match file_name {
                    Some(n) => Some(n@),
                    None => None,
                },
            ),
            r.measured == false,
            r.made_sort == false,
            r.id == 0,
            r.phase == Phase::Reading,
    {
        Import {
            force,
            kepub: is_kepub(file_name),
            measured: false,
            made_sort: false,
            id: 0,
            phase: Phase::Reading,
        }
    }

    /// Moves on from the read record: to the temp file when forced, else
    /// to the search for the same book.
    fn search_or_place(&mut self) -> (a: Action)
        ensures
            (*final(self), a) == search_or_place(*old(self)),
    {
        if self.force {
            self.phase = Phase::MakingTemp;
            Action::MakeTemp
        } else {
            self.phase = Phase::Finding;
            Action::FindSame
        }
    }

    /// Takes what the last step found and gives the next step.
    pub fn next(&mut self, e: Event) -> (a: Action)
        ensures
            (*final(self), a) == step(*old(self), e),
    {
        match (self.phase, e) {
            (Phase::Reading, Event::Read { word_count_missing, made_sort }) => {
                self.measured = word_count_missing;
                self.made_sort = made_sort;
                if word_count_missing {
                    self.phase = Phase::Measuring;
                    Action::Measure
                } else {
                    self.search_or_place()
                }
            },
            (Phase::Measuring, Event::Measured) => self.search_or_place(),
            (Phase::Finding, Event::Found(same)) => {
                match same {
                    Some(id) if !self.force => {
                        self.phase = Phase::Done;
                        Action::Exists(id)
                    },
                    _ => {
                        self.phase = Phase::MakingTemp;
                        Action::MakeTemp
                    },
                }
            },
            (Phase::MakingTemp, Event::TempMade) => {
                self.phase = Phase::Placing;
                if self.kepub {
                    Action::Copy
                } else {
                    Action::Convert
                }
            },
            (Phase::Placing, Event::Placed) => {
                self.phase = Phase::Inserting;
                Action::Insert
            },
            (Phase::Inserting, Event::Inserted(id)) => {
                self.id = id;
                self.phase = Phase::Persisting;
                Action::Persist(id)
            },
            (Phase::Persisting, Event::Persisted) => {
                if self.made_sort || self.measured {
                    self.phase = Phase::WritingFile;
                    Action::WriteFile(self.id)
                } else {
                    self.phase = Phase::ReadingCover;
                    Action::ReadCover
                }
            },
            (Phase::WritingFile, Event::FileWritten) => {
                self.phase = Phase::ReadingCover;
                Action::ReadCover
            },
            (Phase::ReadingCover, Event::CoverRead(read)) => {
                if read {
                    self.phase = Phase::StoringCover;
                    Action::StoreCover(self.id)
                } else {
                    self.phase = Phase::Done;
                    Action::Imported(self.id)
                }
            },
            (Phase::StoringCover, Event::CoverStored) => {
                self.phase = Phase::Done;
                Action::Imported(self.id)
            },
            _ => Action::OutOfOrder,
        }
    }
}

/// The order of the phases.
pub open spec fn rank(p: Phase) -> nat {
    match p {
        Phase::Reading => 0,
        Phase::Measuring => 1,
        Phase::Finding => 2,
        Phase::MakingTemp => 3,
        Phase::Placing => 4,
        Phase::Inserting => 5,
        Phase::Persisting => 6,
        Phase::WritingFile => 7,
        Phase::ReadingCover => 8,
        Phase::StoringCover => 9,
        Phase::Done => 10,
    }
}

/// Whether a step writes to the library folder or the database.
pub open spec fn is_write(a: Action) -> bool {
    match a {
        Action::MakeTemp | Action::Copy | Action::Convert | Action::Insert | Action::Persist(_)
        | Action::WriteFile(_) | Action::StoreCover(_) => true,
        _ => false,
    }
}

/// The import after each of `events` in turn, and the steps it named.
pub open spec fn run(s: Import, events: Seq<Event>) -> (Import, Seq<Action>)
    decreases events.len(),
{
    if events.len() == 0 {
        (s, Seq::empty())
    } else {
        let (t, a) = step(s, events[0]);
        let (u, rest) = run(t, events.drop_first());
        (u, seq![a] + rest)
    }
}

/// Each event either moves an import to a later phase or, answering no
/// step, leaves it as it was. A forced import never searches for the
/// same book, and only an import that is not forced stops at one.
pub proof fn lemma_step_moves_forward(s: Import, e: Event)
    ensures
        step(s, e).1 == Action::OutOfOrder ==> step(s, e).0 == s,
        step(s, e).1 != Action::OutOfOrder ==> rank(step(s, e).0.phase) > rank(s.phase),
        step(s, e).1 is Exists ==> s.phase == Phase::Finding && !s.force && step(s, e).0.phase
            == Phase::Done,
        is_write(step(s, e).1) ==> rank(step(s, e).0.phase) > rank(Phase::Finding),
        s.force ==> step(s, e).1 != Action::FindSame,
{
}

/// A finished import takes no more steps.
pub proof fn lemma_done_is_final(s: Import, events: Seq<Event>)
    requires
        s.phase == Phase::Done,
    ensures
        run(s, events).0 == s,
        forall|i: int| 0 <= i < events.len() ==> #[trigger] run(s, events).1[i] == Action::OutOfOrder,
        run(s, events).1.len() == events.len(),
    decreases events.len(),
{
    if events.len() > 0 {
        lemma_done_is_final(s, events.drop_first());
    }
}

proof fn lemma_no_stop_after_search(s: Import, events: Seq<Event>)
    requires
        rank(s.phase) > rank(Phase::Finding),
    ensures
        run(s, events).1.len() == events.len(),
        forall|i: int| 0 <= i < events.len() ==> !(#[trigger] run(s, events).1[i] is Exists),
    decreases events.len(),
{
    if events.len() > 0 {
        let (t, a) = step(s, events[0]);
        lemma_step_moves_forward(s, events[0]);
        lemma_no_stop_after_search(t, events.drop_first());
        let acts = run(s, events).1;
        assert forall|i: int| 0 <= i < events.len() implies !(#[trigger] acts[i] is Exists) by {
            if i > 0 {
                assert(acts[i] == run(t, events.drop_first()).1[i - 1]);
            }
        }
    }
}

/// An import that stops at the same book has written nothing: no step
/// that writes comes before the stop, and no step at all comes after it.
pub proof fn lemma_stop_writes_nothing(s: Import, events: Seq<Event>)
    ensures
        run(s, events).1.len() == events.len(),
        forall|i: int, j: int|
            0 <= i < j < events.len() && #[trigger] run(s, events).1[j] is Exists ==> !is_write(
                #[trigger] run(s, events).1[i],
            ),
        forall|i: int, j: int|
            0 <= i < j < events.len() && #[trigger] run(s, events).1[i] is Exists ==> #[trigger] run(
                s,
                events,
            ).1[j] == Action::OutOfOrder,
    decreases events.len(),
{
    if events.len() > 0 {
        let (t, a) = step(s, events[0]);
        let rest = events.drop_first();
        lemma_step_moves_forward(s, events[0]);
        lemma_stop_writes_nothing(t, rest);
        let acts = run(s, events).1;
        assert(acts[0] == a);
        assert forall|k: int| 0 < k < events.len() implies #[trigger] acts[k] == run(t, rest).1[k - 1] by {}
        if is_write(a) {
            lemma_no_stop_after_search(t, rest);
        }
        if a is Exists {
            lemma_done_is_final(t, rest);
        }
        assert forall|i: int, j: int|
            0 <= i < j < events.len() && #[trigger] acts[j] is Exists implies !is_write(#[trigger] acts[i]) by {
            if i == 0 {
                if is_write(a) {
                    assert(!(run(t, rest).1[j - 1] is Exists));
                }
            } else {
                assert(acts[i] == run(t, rest).1[i - 1]);
                assert(acts[j] == run(t, rest).1[j - 1]);
            }
        }
        assert forall|i: int, j: int|
            0 <= i < j < events.len() && #[trigger] acts[i] is Exists implies #[trigger] acts[j] == Action::OutOfOrder by {
            assert(acts[j] == run(t, rest).1[j - 1]);
            if i > 0 {
                assert(acts[i] == run(t, rest).1[i - 1]);
            }
        }
    }
}

/// What the record read tells an import stays with it to the end: after
/// the read, no step changes whether the import is forced, copies a
/// KEPUB, measured the text, or made a sort name, so the file is written
/// exactly when a sort name was made or the text measured. The book's id
/// changes only when the row is inserted.
pub proof fn lemma_read_facts_stay(s: Import, e: Event)
    requires
        s.phase != Phase::Reading,
    ensures
        step(s, e).0.force == s.force,
        step(s, e).0.kepub == s.kepub,
        step(s, e).0.measured == s.measured,
        step(s, e).0.made_sort == s.made_sort,
        !(s.phase == Phase::Inserting && e is Inserted) ==> step(s, e).0.id == s.id,
{
}

/// Whether a step puts the source into the temp file.
pub open spec fn places(a: Action) -> bool {
    a is Copy || a is Convert
}

/// The book row is inserted only after the source is in the temp file:
/// in a run from before the temp file, every Insert comes after a Copy
/// or a Convert.
pub proof fn lemma_insert_follows_placing(s: Import, events: Seq<Event>)
    requires
        rank(s.phase) <= rank(Phase::MakingTemp),
    ensures
        run(s, events).1.len() == events.len(),
        forall|j: int|
            0 <= j < events.len() && #[trigger] run(s, events).1[j] is Insert ==> exists|i: int|
                0 <= i < j && places(#[trigger] run(s, events).1[i]),
    decreases events.len(),
{
    if events.len() > 0 {
        let (t, a) = step(s, events[0]);
        let rest = events.drop_first();
        lemma_step_moves_forward(s, events[0]);
        let acts = run(s, events).1;
        assert(acts[0] == a);
        if places(a) {
            assert(run(t, rest).1.len() == rest.len()) by {
                lemma_run_len(t, rest);
            }
            assert forall|j: int| 0 <= j < events.len() && #[trigger] acts[j] is Insert implies exists|i: int|
                0 <= i < j && places(#[trigger] acts[i]) by {
                assert(!(a is Insert));
                assert(places(acts[0]));
            }
        } else if a is Exists {
            lemma_done_is_final(t, rest);
            assert forall|j: int| 0 <= j < events.len() implies !(#[trigger] acts[j] is Insert) by {
                if j > 0 {
                    assert(acts[j] == run(t, rest).1[j - 1]);
                }
            }
        } else {
            assert(rank(t.phase) <= rank(Phase::MakingTemp));
            lemma_insert_follows_placing(t, rest);
            assert forall|j: int| 0 <= j < events.len() && #[trigger] acts[j] is Insert implies exists|i: int|
                0 <= i < j && places(#[trigger] acts[i]) by {
                assert(j > 0);
                assert(acts[j] == run(t, rest).1[j - 1]);
                let i = choose|i: int| 0 <= i < j - 1 && places(#[trigger] run(t, rest).1[i]);
                assert(acts[i + 1] == run(t, rest).1[i]);
            }
        }
    }
}

/// A run names one step per event.
proof fn lemma_run_len(s: Import, events: Seq<Event>)
    ensures
        run(s, events).1.len() == events.len(),
    decreases events.len(),
{
    if events.len() > 0 {
        lemma_run_len(step(s, events[0]).0, events.drop_first());
    }
}

/// After the rename, the import writes the record and the stats into
/// the book's file exactly when the record read made a sort name or the
/// text was measured, and otherwise goes on to the cover.
pub proof fn lemma_persisted_writes_file_when_needed(s: Import)
    requires
        s.phase == Phase::Persisting,
    ensures
        (s.made_sort || s.measured) ==> step(s, Event::Persisted).1 == Action::WriteFile(s.id),
        !(s.made_sort || s.measured) ==> step(s, Event::Persisted).1 == Action::ReadCover,
        step(s, Event::Persisted).0.id == s.id,
{
}

proof fn lemma_write_before_imported(t: Import, events: Seq<Event>)
    requires
        t.phase != Phase::Reading,
        t.measured || t.made_sort,
        rank(t.phase) <= rank(Phase::Persisting) || t.phase == Phase::Done,
    ensures
        run(t, events).1.len() == events.len(),
        forall|j: int|
            0 <= j < events.len() && #[trigger] run(t, events).1[j] is Imported ==> exists|i: int|
                0 <= i < j && #[trigger] run(t, events).1[i] is WriteFile,
    decreases events.len(),
{
    lemma_run_len(t, events);
    if events.len() > 0 {
        let (t2, a) = step(t, events[0]);
        let rest = events.drop_first();
        let acts = run(t, events).1;
        assert(acts[0] == a);
        assert forall|k: int| 0 < k < events.len() implies #[trigger] acts[k] == run(t2, rest).1[k - 1] by {}
        if t.phase == Phase::Done {
            lemma_done_is_final(t, events);
        } else if a is WriteFile {
            assert forall|j: int| 0 <= j < events.len() && #[trigger] acts[j] is Imported implies exists|i: int|
                0 <= i < j && #[trigger] acts[i] is WriteFile by {
                assert(j > 0);
                assert(acts[0] is WriteFile);
            }
        } else {
            lemma_read_facts_stay(t, events[0]);
            lemma_step_moves_forward(t, events[0]);
            assert(!(a is Imported));
            lemma_write_before_imported(t2, rest);
            assert forall|j: int| 0 <= j < events.len() && #[trigger] acts[j] is Imported implies exists|i: int|
                0 <= i < j && #[trigger] acts[i] is WriteFile by {
                assert(j > 0);
                assert(run(t2, rest).1[j - 1] is Imported);
                let i = choose|i: int| 0 <= i < j - 1 && #[trigger] run(t2, rest).1[i] is WriteFile;
                assert(acts[i + 1] is WriteFile);
            }
        }
    }
}

proof fn lemma_no_write(t: Import, events: Seq<Event>)
    requires
        t.phase != Phase::Reading,
        !t.measured,
        !t.made_sort,
    ensures
        run(t, events).1.len() == events.len(),
        forall|j: int| 0 <= j < events.len() ==> !(#[trigger] run(t, events).1[j] is WriteFile),
    decreases events.len(),
{
    lemma_run_len(t, events);
    if events.len() > 0 {
        let (t2, a) = step(t, events[0]);
        let rest = events.drop_first();
        let acts = run(t, events).1;
        lemma_read_facts_stay(t, events[0]);
        lemma_step_moves_forward(t, events[0]);
        lemma_no_write(t2, rest);
        assert forall|j: int| 0 <= j < events.len() implies !(#[trigger] acts[j] is WriteFile) by {
            if j > 0 {
                assert(acts[j] == run(t2, rest).1[j - 1]);
            }
        }
    }
}

/// The measured numbers and made sort names reach the book's file: in a
/// run from an import about to read, whose read says the file carries no
/// word count or some author got a made sort name, every `Imported`
/// comes after a `WriteFile`. Where the read says neither, no step of
/// the run writes the file.
pub proof fn lemma_import_writes_file_iff_needed(
    s: Import,
    events: Seq<Event>,
    word_count_missing: bool,
    made_sort: bool,
)
    requires
        s.phase == Phase::Reading,
        events.len() > 0,
        events[0] == (Event::Read { word_count_missing, made_sort }),
    ensures
        run(s, events).1.len() == events.len(),
        (word_count_missing || made_sort) ==> forall|j: int|
            0 <= j < events.len() && #[trigger] run(s, events).1[j] is Imported ==> exists|i: int|
                0 <= i < j && #[trigger] run(s, events).1[i] is WriteFile,
        !(word_count_missing || made_sort) ==> forall|j: int|
            0 <= j < events.len() ==> !(#[trigger] run(s, events).1[j] is WriteFile),
{
    lemma_run_len(s, events);
    let (t, a) = step(s, events[0]);
    let rest = events.drop_first();
    let acts = run(s, events).1;
    assert(acts[0] == a);
    assert forall|k: int| 0 < k < events.len() implies #[trigger] acts[k] == run(t, rest).1[k - 1] by {}
    assert(t.measured == word_count_missing && t.made_sort == made_sort);
    assert(t.phase != Phase::Reading);
    assert(!(a is Imported) && !(a is WriteFile));
    if word_count_missing || made_sort {
        lemma_write_before_imported(t, rest);
        assert forall|j: int| 0 <= j < events.len() && #[trigger] acts[j] is Imported implies exists|i: int|
            0 <= i < j && #[trigger] acts[i] is WriteFile by {
            assert(j > 0);
            assert(run(t, rest).1[j - 1] is Imported);
            let i = choose|i: int| 0 <= i < j - 1 && #[trigger] run(t, rest).1[i] is WriteFile;
            assert(acts[i + 1] is WriteFile);
        }
    } else {
        lemma_no_write(t, rest);
        assert forall|j: int| 0 <= j < events.len() implies !(#[trigger] acts[j] is WriteFile) by {
            if j > 0 {
                assert(acts[j] == run(t, rest).1[j - 1]);
            }
        }
    }
}

/// What each answer leads to: a KEPUB is copied and any other file
/// converted; a book found by an import that is not forced ends it with
/// that book's id, and no book found goes on to the temp file; the
/// inserted id is the one the file is renamed to and every later step
/// names; a cover read is stored, and the import ends with the book's id
/// when the cover is stored or none was read.
pub proof fn lemma_import_answers(s: Import, id: i64, found: i64)
    ensures
        s.phase == Phase::MakingTemp ==> step(s, Event::TempMade).1 == (if s.kepub {
            Action::Copy
        } else {
            Action::Convert
        }),
        s.phase == Phase::Finding && !s.force ==> step(s, Event::Found(Some(found))).1 == Action::Exists(found),
        s.phase == Phase::Finding ==> step(s, Event::Found(None)).1 == Action::MakeTemp,
        s.phase == Phase::Inserting ==> step(s, Event::Inserted(id)).1 == Action::Persist(id)
            && step(s, Event::Inserted(id)).0.id == id,
        s.phase == Phase::ReadingCover ==> step(s, Event::CoverRead(true)).1 == Action::StoreCover(s.id)
            && step(s, Event::CoverRead(false)).1 == Action::Imported(s.id),
        s.phase == Phase::StoringCover ==> step(s, Event::CoverStored).1 == Action::Imported(s.id),
        s.phase == Phase::WritingFile ==> step(s, Event::FileWritten).1 == Action::ReadCover,
        s.phase == Phase::Placing ==> step(s, Event::Placed).1 == Action::Insert,
{
}

} // verus!
