use epubsync::library::{
    book_file_name, book_from_columns, first_author_name, group_progress, is_kepub,
    needs_file_write, needs_measure, stop_at_same, Book, Field, HistoryRow, ImportOutcome,
    ProgressRow, WordRow,
};
use epubsync::metadata::{Author, Metadata, ReadStatus, Series, Stats};

fn bits(x: f64) -> u64 {
    x.to_bits()
}

#[test]
fn fields_lists_the_details_the_book_has() {
    let mut book = Book {
        id: 1,
        revision: 1,
        metadata: Metadata {
            title: "Can You Forgive Her?".into(),
            publisher: Some("Chapman & Hall".into()),
            series: Some(Series {
                name: "Palliser".into(),
                number: Some(bits(1.0)),
            }),
            ..Metadata::default()
        },
        stats: Stats {
            word_count: Some(121_970),
            reading_ease: Some(bits(60.95)),
        },
    };
    let series = book.metadata.series.clone().unwrap();
    assert_eq!(
        book.fields(),
        [
            Field::Publisher("Chapman & Hall"),
            Field::Series(&series),
            Field::WordCount(121_970),
            Field::ReadingEase(bits(60.95)),
        ]
    );

    book.metadata.series = None;
    book.stats.reading_ease = None;
    assert_eq!(
        book.fields(),
        [
            Field::Publisher("Chapman & Hall"),
            Field::WordCount(121_970)
        ]
    );
}

#[test]
fn a_book_with_no_details_lists_none() {
    let book = Book {
        id: 2,
        revision: 1,
        metadata: Metadata::default(),
        stats: Stats::default(),
    };
    assert!(book.fields().is_empty());
}

#[test]
fn a_book_file_is_named_by_its_id() {
    assert_eq!(book_file_name(1), "1.kepub.epub");
    assert_eq!(book_file_name(13), "13.kepub.epub");
    assert_eq!(book_file_name(0), "0.kepub.epub");
    assert_eq!(book_file_name(-7), "-7.kepub.epub");
    assert_eq!(
        book_file_name(i64::MAX),
        format!("{}.kepub.epub", i64::MAX)
    );
    assert_eq!(
        book_file_name(i64::MIN),
        format!("{}.kepub.epub", i64::MIN)
    );
}

fn progress(serial: &str, percent: i64, status: ReadStatus, last_read: Option<&str>) -> ProgressRow {
    ProgressRow {
        device_serial: serial.into(),
        percent,
        status,
        last_read: last_read.map(String::from),
        time_spent: None,
        finished_at: None,
    }
}

#[test]
fn the_day_is_the_first_ten_characters_of_a_timestamp() {
    let mut p = progress("N1", 37, ReadStatus::Reading, Some("2026-09-08T10:00:00Z"));
    assert_eq!(p.day(), Some("2026-09-08"));
    assert_eq!(p.finished_day(), None);
    p.finished_at = Some("2026-05-12T10:00:00Z".into());
    assert_eq!(p.finished_day(), Some("2026-05-12"));
    p.last_read = Some("2026-09".into());
    assert_eq!(p.day(), Some("2026-09"));
    p.last_read = None;
    assert_eq!(p.day(), None);
}

#[test]
fn the_day_keeps_ten_characters_however_many_bytes_they_take() {
    // "é" takes two bytes; the day counts characters.
    let mut p = progress("N1", 1, ReadStatus::Reading, Some("ééééééééééé"));
    assert_eq!(p.day(), Some("éééééééééé"));
    p.last_read = Some("2026-09-0é-x".into());
    assert_eq!(p.day(), Some("2026-09-0é"));
    p.last_read = Some("2026-09-é".into());
    assert_eq!(p.day(), Some("2026-09-é"));
}

#[test]
fn history_and_word_rows_give_their_days() {
    let h = HistoryRow {
        device_serial: "N2".into(),
        percent: 100,
        status: ReadStatus::Finished,
        last_read: None,
        time_spent: None,
        finished_at: Some("2026-08-01".into()),
        seen_at: "2026-08-02T09:00:00Z".into(),
    };
    assert_eq!(h.seen_day(), "2026-08-02");
    assert_eq!(h.day(), None);
    let w = WordRow {
        word: "ansible".into(),
        device_serial: "N123".into(),
        book_id: 1,
        book_title: "The Left Hand of Darkness".into(),
        dict_suffix: Some("-en".into()),
        looked_up_at: "2026-01-01T12:00:00Z".into(),
    };
    assert_eq!(w.day(), "2026-01-01");
}

#[test]
fn progress_groups_by_book_in_the_order_read() {
    let rows = vec![
        (1, progress("N1", 37, ReadStatus::Reading, Some("2026-09-01"))),
        (1, progress("N2", 100, ReadStatus::Finished, None)),
        (2, progress("N1", 5, ReadStatus::Reading, None)),
    ];
    let all = group_progress(rows.clone());
    assert_eq!(all.len(), 2);
    assert_eq!(all[&1], vec![rows[0].1.clone(), rows[1].1.clone()]);
    assert_eq!(all[&2], vec![rows[2].1.clone()]);
    assert!(!all.contains_key(&3));
    assert!(group_progress(Vec::new()).is_empty());
}

#[test]
fn a_row_becomes_a_book_with_no_authors() {
    let book = book_from_columns(
        4,
        2,
        "The Dispossessed".into(),
        Some("Hainish Cycle".into()),
        Some(bits(5.0)),
        None,
        Some("An ambiguous utopia.".into()),
        Some(90_000),
        None,
    );
    assert_eq!(book.id, 4);
    assert_eq!(book.revision, 2);
    assert!(book.metadata.authors.is_empty());
    assert_eq!(
        book.metadata.series,
        Some(Series {
            name: "Hainish Cycle".into(),
            number: Some(bits(5.0))
        })
    );
    assert_eq!(book.stats.word_count, Some(90_000));

    // A number with no series name is not read.
    let book = book_from_columns(5, 1, "T".into(), None, Some(bits(2.0)), None, None, None, None);
    assert_eq!(book.metadata.series, None);
}

#[test]
fn a_kepub_is_named_kepub_epub_or_kepub() {
    assert!(is_kepub(Some("lhod.kepub.epub")));
    assert!(is_kepub(Some("other.kepub")));
    assert!(!is_kepub(Some("lhod.epub")));
    assert!(!is_kepub(Some("kepub.epub.zip")));
    assert!(!is_kepub(None));
}

#[test]
fn import_stops_on_the_same_book_unless_forced() {
    assert_eq!(stop_at_same(false, Some(3)), Some(ImportOutcome::Exists { id: 3 }));
    assert_eq!(stop_at_same(true, Some(3)), None);
    assert_eq!(stop_at_same(false, None), None);
    let record = Metadata {
        title: "Candide".into(),
        authors: vec![Author {
            name: "Voltaire".into(),
            sort: "Voltaire".into(),
        }],
        ..Metadata::default()
    };
    assert_eq!(first_author_name(&record), Some("Voltaire"));
    assert_eq!(first_author_name(&Metadata::default()), None);
}

#[test]
fn import_measures_and_writes_only_when_it_must() {
    let carried = Stats {
        word_count: Some(121_970),
        reading_ease: Some(bits(60.95)),
    };
    assert!(!needs_measure(&carried));
    assert!(needs_measure(&Stats::default()));
    assert!(!Stats { word_count: None, reading_ease: Some(1) }.is_empty());
    assert!(Stats::default().is_empty());
    let made = vec![Author {
        name: "Voltaire".into(),
        sort: "Voltaire".into(),
    }];
    assert!(needs_file_write(&made, false));
    assert!(needs_file_write(&Vec::new(), true));
    assert!(!needs_file_write(&Vec::new(), false));
}

#[test]
fn a_kobo_status_code_names_a_state() {
    assert_eq!(ReadStatus::from_code(0), Some(ReadStatus::Unread));
    assert_eq!(ReadStatus::from_code(1), Some(ReadStatus::Reading));
    assert_eq!(ReadStatus::from_code(2), Some(ReadStatus::Finished));
    assert_eq!(ReadStatus::from_code(3), None);
    assert_eq!(ReadStatus::from_code(-1), None);
}

#[test]
fn distinct_ids_name_distinct_files_and_each_is_a_kepub() {
    let names: Vec<String> = [-10i64, -1, 0, 1, 10, 100, 101].iter().map(|&id| book_file_name(id)).collect();
    for (i, a) in names.iter().enumerate() {
        assert!(is_kepub(Some(a)));
        for b in &names[i + 1..] {
            assert_ne!(a, b);
        }
    }
}

#[test]
fn the_day_of_a_day_is_the_same_day() {
    let w = WordRow {
        word: "kemmer".into(),
        device_serial: "N1".into(),
        book_id: 1,
        book_title: "T".into(),
        dict_suffix: None,
        looked_up_at: "2026-01-02T03:04:05Z".into(),
    };
    let day = w.day().to_string();
    let again = WordRow { looked_up_at: day.clone(), ..w };
    assert_eq!(again.day(), day);
}
