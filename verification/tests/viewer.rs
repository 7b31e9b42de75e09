use epubsync::viewer::{count, file_name, status_counts, title, CoverMap, Sort, SortKey};

#[test]
fn title_names_the_book_in_quotes() {
    assert_eq!(
        title("The Left Hand of Darkness"),
        "Remove “The Left Hand of Darkness”?"
    );
}

#[test]
fn count_says_one_book_and_many_books() {
    assert_eq!(count(1, "book"), "1 book");
    assert_eq!(count(23, "book"), "23 books");
    assert_eq!(count(0, "word"), "0 words");
    assert_eq!(count(12, "word"), "12 words");
}

#[test]
fn file_name_is_the_last_part_of_a_path() {
    assert_eq!(file_name("/home/a/books/lhod.epub"), "lhod.epub");
    assert_eq!(file_name("lhod.epub"), "lhod.epub");
    assert_eq!(file_name("/home/a/books/"), "books");
    assert_eq!(file_name("/home/a/books/."), "books");
    assert_eq!(file_name("a//b"), "b");
}

#[test]
fn a_path_with_no_file_name_is_shown_whole() {
    assert_eq!(file_name("/"), "/");
    assert_eq!(file_name("/home/.."), "/home/..");
    assert_eq!(file_name("."), ".");
    assert_eq!(file_name(""), "");
}

use epubsync::cover::{Cover, FileCover};
use epubsync::library::{Book, ProgressRow, WordRow};
use epubsync::metadata::{Metadata, ReadStatus, Stats};
use epubsync::viewer::{
    full_cover, last_seen, position_of_book, progress_cell, reading_seconds, sidebar_cover,
    toolbar_count, visible_rows, words_of_book, LastSeen, Overlays, ProgressCell,
};

fn row(status: ReadStatus, percent: i64) -> ProgressRow {
    ProgressRow {
        device_serial: "N1".into(),
        percent,
        status,
        last_read: Some("2026-09-01T10:00:00Z".into()),
        time_spent: Some(12_000),
        finished_at: None,
    }
}

#[test]
fn the_toolbar_counts_the_filtered_rows_of_all() {
    assert_eq!(toolbar_count(4, 23, "book", true), "4 of 23 books");
    assert_eq!(toolbar_count(23, 23, "book", false), "23 books");
    assert_eq!(toolbar_count(1, 1, "word", true), "1 of 1 word");
}

#[test]
fn a_device_block_says_finished_read_or_not_opened() {
    let mut p = row(ReadStatus::Finished, 100);
    p.finished_at = Some("2026-05-12T10:00:00Z".into());
    assert_eq!(last_seen(&p), LastSeen::Finished("2026-05-12"));
    p.finished_at = None;
    assert_eq!(last_seen(&p), LastSeen::Read("2026-09-01"));
    let mut p = row(ReadStatus::Reading, 37);
    p.finished_at = Some("2026-05-12T10:00:00Z".into());
    assert_eq!(last_seen(&p), LastSeen::Read("2026-09-01"));
    p.last_read = None;
    assert_eq!(last_seen(&p), LastSeen::NotOpened);
}

#[test]
fn reading_time_shows_only_when_counted() {
    let mut p = row(ReadStatus::Reading, 37);
    assert_eq!(reading_seconds(&p), Some(12_000));
    p.time_spent = Some(0);
    assert_eq!(reading_seconds(&p), None);
    p.time_spent = None;
    assert_eq!(reading_seconds(&p), None);
}

#[test]
fn the_progress_cell_shows_read_a_bar_or_nothing() {
    assert_eq!(progress_cell(Some(&row(ReadStatus::Finished, 100))), ProgressCell::Read);
    assert_eq!(progress_cell(Some(&row(ReadStatus::Reading, 37))), ProgressCell::Bar(37));
    assert_eq!(progress_cell(Some(&row(ReadStatus::Unread, 0))), ProgressCell::Blank);
    assert_eq!(progress_cell(None), ProgressCell::Blank);
}

fn word(word: &str, book_id: i64) -> WordRow {
    WordRow {
        word: word.into(),
        device_serial: "N1".into(),
        book_id,
        book_title: "T".into(),
        dict_suffix: None,
        looked_up_at: "2026-01-01".into(),
    }
}

#[test]
fn the_sidebar_lists_the_words_of_its_book_in_order() {
    let words = vec![word("ansible", 1), word("kemmer", 2), word("shifgrethor", 1)];
    let mine: Vec<&str> = words_of_book(&words, 1).iter().map(|w| w.word.as_str()).collect();
    assert_eq!(mine, ["ansible", "shifgrethor"]);
    assert!(words_of_book(&words, 3).is_empty());
}

#[test]
fn covers_in_the_sidebar_and_over_the_window() {
    assert_eq!(sidebar_cover(&Cover::Image(vec![1, 2])), Some(Some(&[1u8, 2][..])));
    assert_eq!(sidebar_cover(&Cover::NoCover), Some(None));
    assert_eq!(sidebar_cover(&Cover::Unreadable("x".into())), Some(None));
    assert_eq!(sidebar_cover(&Cover::Undecodable("x".into())), Some(None));
    assert_eq!(sidebar_cover(&Cover::Unknown), None);
    assert_eq!(full_cover(FileCover::Image(vec![7])), Ok(vec![7]));
    assert_eq!(
        full_cover(FileCover::NoCover),
        Err("The book file gives no cover.".to_string())
    );
    assert_eq!(
        full_cover(FileCover::Unreadable("no entry".into())),
        Err("Cover failed: no entry".to_string())
    );
}

#[test]
fn the_pane_builds_the_rows_in_view() {
    assert_eq!(visible_rows(0, 10, 100), (0, 10));
    assert_eq!(visible_rows(50, 10, 100), (50, 60));
    assert_eq!(visible_rows(95, 10, 100), (90, 100));
    assert_eq!(visible_rows(3, 10, 4), (0, 4));
    assert_eq!(visible_rows(0, 10, 0), (0, 0));
}

fn book(id: i64) -> Book {
    Book {
        id,
        revision: 1,
        metadata: Metadata::default(),
        stats: Stats::default(),
    }
}

#[test]
fn escape_closes_the_dialog_first_and_keeps_the_selection() {
    let books = vec![book(1), book(2)];
    let mut layers = Overlays::new();
    layers.select(&books, 2);
    assert_eq!(layers.selected, Some(2));
    layers.ask_remove();
    assert_eq!(layers.removing, Some(2));
    layers.close();
    assert_eq!(layers.removing, None);
    assert_eq!(layers.selected, Some(2));
    layers.close();
    assert_eq!(layers.selected, None);
}

#[test]
fn escape_closes_the_full_cover_and_keeps_the_selection() {
    let books = vec![book(1)];
    let mut layers = Overlays::new();
    layers.select(&books, 1);
    layers.full_cover = true;
    layers.close();
    assert!(!layers.full_cover);
    assert_eq!(layers.selected, Some(1));
}

#[test]
fn confirm_remove_gives_the_book_and_closes_the_dialog() {
    let books = vec![book(1)];
    let mut layers = Overlays::new();
    layers.select(&books, 1);
    layers.ask_remove();
    assert_eq!(layers.confirm_remove(), Some(1));
    assert_eq!(layers.removing, None);
    assert_eq!(layers.confirm_remove(), None);
    layers.select(&books, 9);
    assert_eq!(layers.selected, None);
    assert_eq!(position_of_book(&books, 1), Some(0));
    assert_eq!(position_of_book(&books, 9), None);
}

#[test]
fn a_cover_is_read_once_per_book_and_unknown_makes_no_entry() {
    let mut covers = CoverMap::new();
    assert!(covers.wants(1));
    covers.store(1, Cover::Unknown);
    assert!(covers.wants(1));
    assert_eq!(covers.get(1), None);

    covers.store(1, Cover::Image(vec![0xFF, 0xD8, 0xFF, 0xD9]));
    assert!(!covers.wants(1));
    assert_eq!(covers.get(1), Some(&Some(vec![0xFF, 0xD8, 0xFF, 0xD9])));

    // A second read of the same book changes nothing.
    covers.store(1, Cover::NoCover);
    assert_eq!(covers.get(1), Some(&Some(vec![0xFF, 0xD8, 0xFF, 0xD9])));

    for (id, c) in [
        (2, Cover::NoCover),
        (3, Cover::Unreadable("gone".into())),
        (4, Cover::Undecodable("svg".into())),
    ] {
        covers.store(id, c);
        assert_eq!(covers.get(id), Some(&None));
    }
    assert_eq!(covers.get(1), Some(&Some(vec![0xFF, 0xD8, 0xFF, 0xD9])));
}

#[test]
fn the_status_bar_counts_reading_finished_and_this_year() {
    assert_eq!(status_counts(3, 12, 4), "3 reading · 12 finished · 4 this year");
    assert_eq!(status_counts(0, 1, 0), "0 reading · 1 finished · 0 this year");
}

#[test]
fn a_header_click_sorts_by_its_column_and_a_second_turns_the_order() {
    let mut sort = Sort::on(SortKey::Id);
    assert_eq!(sort, Sort { keys: vec![SortKey::Id], descending: false });
    sort.click(SortKey::Title);
    assert_eq!(sort, Sort { keys: vec![SortKey::Title], descending: false });
    sort.click(SortKey::Title);
    assert_eq!(sort, Sort { keys: vec![SortKey::Title], descending: true });
    sort.click(SortKey::Title);
    assert!(!sort.descending);
    let mut two = Sort { keys: vec![SortKey::Author, SortKey::Title], descending: true };
    two.click(SortKey::Author);
    assert_eq!(two, Sort { keys: vec![SortKey::Author], descending: false });
}
