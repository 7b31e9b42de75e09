use epubsync::import::{Action, Event, Import, Phase};

#[test]
fn an_epub_import_converts_inserts_renames_writes_and_stores_the_cover() {
    let mut import = Import::new(false, Some("candide.epub"));
    assert_eq!(
        import.next(Event::Read { word_count_missing: true, made_sort: true }),
        Action::Measure
    );
    assert_eq!(import.next(Event::Measured), Action::FindSame);
    assert_eq!(import.next(Event::Found(None)), Action::MakeTemp);
    assert_eq!(import.next(Event::TempMade), Action::Convert);
    assert_eq!(import.next(Event::Placed), Action::Insert);
    assert_eq!(import.next(Event::Inserted(1)), Action::Persist(1));
    assert_eq!(import.next(Event::Persisted), Action::WriteFile(1));
    assert_eq!(import.next(Event::FileWritten), Action::ReadCover);
    assert_eq!(import.next(Event::CoverRead(true)), Action::StoreCover(1));
    assert_eq!(import.next(Event::CoverStored), Action::Imported(1));
    assert_eq!(import.phase, Phase::Done);
}

#[test]
fn a_kepub_with_its_numbers_and_sort_names_is_copied_and_not_written() {
    let mut import = Import::new(false, Some("lhod.kepub.epub"));
    assert_eq!(
        import.next(Event::Read { word_count_missing: false, made_sort: false }),
        Action::FindSame
    );
    assert_eq!(import.next(Event::Found(None)), Action::MakeTemp);
    assert_eq!(import.next(Event::TempMade), Action::Copy);
    assert_eq!(import.next(Event::Placed), Action::Insert);
    assert_eq!(import.next(Event::Inserted(6)), Action::Persist(6));
    assert_eq!(import.next(Event::Persisted), Action::ReadCover);
    assert_eq!(import.next(Event::CoverRead(false)), Action::Imported(6));
}

#[test]
fn the_import_stops_at_the_same_book_unless_forced() {
    let mut import = Import::new(false, Some("lhod.epub"));
    import.next(Event::Read { word_count_missing: false, made_sort: false });
    assert_eq!(import.next(Event::Found(Some(3))), Action::Exists(3));
    assert_eq!(import.next(Event::TempMade), Action::OutOfOrder);
    assert_eq!(import.phase, Phase::Done);

    let mut forced = Import::new(true, Some("lhod.epub"));
    assert_eq!(
        forced.next(Event::Read { word_count_missing: false, made_sort: false }),
        Action::MakeTemp
    );
    assert_eq!(forced.next(Event::Found(Some(3))), Action::OutOfOrder);
    assert_eq!(forced.next(Event::TempMade), Action::Convert);
}

#[test]
fn a_forced_import_that_measures_goes_on_without_searching() {
    let mut forced = Import::new(true, Some("lhod.kepub.epub"));
    assert_eq!(
        forced.next(Event::Read { word_count_missing: true, made_sort: false }),
        Action::Measure
    );
    assert_eq!(forced.next(Event::Measured), Action::MakeTemp);
    assert_eq!(forced.next(Event::TempMade), Action::Copy);
}

#[test]
fn an_event_out_of_order_changes_nothing() {
    let mut import = Import::new(false, None);
    let before = import;
    assert_eq!(import.next(Event::Placed), Action::OutOfOrder);
    assert_eq!(import, before);
    assert!(!import.kepub);
}
