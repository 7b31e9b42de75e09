use epubsync::form::{AuthorField, Change, Form};
use epubsync::library::Book;
use epubsync::metadata::{Author, Metadata, Series, Stats};

/// A form with a title and every other input empty.
fn form() -> Form {
    Form {
        id: 1,
        title: "A Book".to_string(),
        authors: Vec::new(),
        series: String::new(),
        series_number: String::new(),
        publisher: String::new(),
        description: String::new(),
        error: None,
    }
}

fn author(name: &str, sort: &str) -> AuthorField {
    AuthorField {
        name: name.to_string(),
        sort: sort.to_string(),
    }
}

/// The sort name the form makes here: the display name as it is.
fn same_name(name: &str) -> String {
    name.to_string()
}

fn parse(text: &str) -> Option<u64> {
    text.parse::<f64>().ok().map(f64::to_bits)
}

fn format_number(bits: u64) -> String {
    f64::from_bits(bits).to_string()
}

#[test]
fn an_empty_title_is_an_error() {
    let mut form = form();
    form.title = "  ".to_string();
    assert_eq!(form.record(same_name, parse), Err("The title is empty.".to_string()));
}

/// The library's sort name for the one display name these tests give
/// without a sort name: the last name first.
fn sort_name(name: &str) -> String {
    match name {
        "Ursula K. Le Guin" => "Le Guin, Ursula K.".to_string(),
        other => other.to_string(),
    }
}

#[test]
fn an_empty_sort_name_is_made_from_the_display_name() {
    let mut form = form();
    form.authors = vec![author("Ursula K. Le Guin", " "), author("Ann Leckie", "L, A")];
    let authors = form.record(sort_name, parse).unwrap().authors;
    assert_eq!(authors[0].sort, "Le Guin, Ursula K.");
    assert_eq!(authors[1].sort, "L, A");
}

#[test]
fn an_empty_sort_name_is_made_by_the_sort_name_rule() {
    let mut form = form();
    form.authors = vec![author("Ann Leckie", " "), author("Ursula K. Le Guin", "L, A")];
    let made = |name: &str| format!("made from {name}");
    let authors = form.record(made, parse).unwrap().authors;
    assert_eq!(authors[0].sort, "made from Ann Leckie");
    assert_eq!(authors[1].sort, "L, A");
}

#[test]
fn a_series_number_that_reads_as_nan_is_an_error() {
    let mut form = form();
    form.series = "Imperial Radch".to_string();
    form.series_number = "NaN".to_string();
    assert_eq!(
        form.record(same_name, parse),
        Err("The series number is not a number.".to_string())
    );
    form.series_number = "inf".to_string();
    assert_eq!(
        form.record(same_name, parse).unwrap().series.unwrap().number,
        Some(f64::INFINITY.to_bits())
    );
}

#[test]
fn an_author_row_with_an_empty_name_is_dropped() {
    let mut form = form();
    form.authors = vec![author("Ann Leckie", ""), author("  ", "Nobody")];
    let authors = form.record(same_name, parse).unwrap().authors;
    assert_eq!(authors.len(), 1);
    assert_eq!(authors[0].name, "Ann Leckie");
}

#[test]
fn an_empty_series_name_clears_the_series_and_its_number() {
    let mut form = form();
    form.series_number = "3".to_string();
    assert_eq!(form.record(same_name, parse).unwrap().series, None);
}

#[test]
fn a_series_number_parses_or_is_an_error() {
    let mut form = form();
    form.series = "Imperial Radch".to_string();
    form.series_number = "2.5".to_string();
    assert_eq!(
        form.record(same_name, parse).unwrap().series,
        Some(Series {
            name: "Imperial Radch".to_string(),
            number: Some(2.5f64.to_bits()),
        })
    );

    form.series_number = "two".to_string();
    assert_eq!(
        form.record(same_name, parse),
        Err("The series number is not a number.".to_string())
    );
}

#[test]
fn an_empty_publisher_and_a_blank_description_clear_their_fields() {
    let mut form = form();
    form.publisher = "  ".to_string();
    form.description = "  \n  ".to_string();
    let record = form.record(same_name, parse).unwrap();
    assert_eq!(record.publisher, None);
    assert_eq!(record.description, None);
}

#[test]
fn a_full_record_survives_a_trip_through_the_form() {
    let record = Metadata {
        title: "Ancillary Justice".to_string(),
        authors: vec![Author {
            name: "Ann Leckie".to_string(),
            sort: "Leckie, Ann".to_string(),
        }],
        series: Some(Series {
            name: "Imperial Radch".to_string(),
            number: Some(1.0f64.to_bits()),
        }),
        publisher: Some("Orbit".to_string()),
        description: Some("<p>A ship, a body.</p>".to_string()),
    };
    let book = Book {
        id: 1,
        revision: 0,
        metadata: record.clone(),
        stats: Stats::default(),
    };
    assert_eq!(
        Form::new(&book, format_number).record(same_name, parse).unwrap(),
        record
    );
}

#[test]
fn texts_are_trimmed_and_the_description_is_not() {
    let mut form = form();
    form.title = "  The Left Hand  ".to_string();
    form.authors = vec![author(" Ursula K. Le Guin\t", " Le Guin, U. K. ")];
    form.series = " Hainish ".to_string();
    form.series_number = " 4.5 ".to_string();
    form.publisher = " Ace ".to_string();
    form.description = " <p>Winter.</p>\n".to_string();
    let record = form.record(same_name, parse).unwrap();
    assert_eq!(record.title, "The Left Hand");
    assert_eq!(record.authors, vec![Author { name: "Ursula K. Le Guin".into(), sort: "Le Guin, U. K.".into() }]);
    assert_eq!(record.series, Some(Series { name: "Hainish".into(), number: Some(4.5f64.to_bits()) }));
    assert_eq!(record.publisher.as_deref(), Some("Ace"));
    assert_eq!(record.description.as_deref(), Some(" <p>Winter.</p>\n"));
}

#[test]
fn apply_puts_each_change_in_its_input_and_clears_the_error() {
    let mut form = form();
    form.error = Some("The title is empty.".into());
    form.apply(Change::Title("New".into()));
    assert_eq!(form.title, "New");
    assert_eq!(form.error, None);
    form.apply(Change::AddAuthor);
    form.apply(Change::AuthorName(0, "Ann Leckie".into()));
    form.apply(Change::AuthorSort(0, "Leckie, Ann".into()));
    assert_eq!(form.authors, vec![author("Ann Leckie", "Leckie, Ann")]);
    form.apply(Change::AuthorName(5, "Nobody".into()));
    assert_eq!(form.authors.len(), 1);
    form.apply(Change::Series("Imperial Radch".into()));
    form.apply(Change::SeriesNumber("1".into()));
    form.apply(Change::Publisher("Orbit".into()));
    form.apply(Change::Description("<p>A ship.</p>".into()));
    assert_eq!(
        (form.series.as_str(), form.series_number.as_str(), form.publisher.as_str(), form.description.as_str()),
        ("Imperial Radch", "1", "Orbit", "<p>A ship.</p>")
    );
    form.apply(Change::RemoveAuthor(3));
    assert_eq!(form.authors.len(), 1);
    form.apply(Change::RemoveAuthor(0));
    assert!(form.authors.is_empty());
}

#[test]
fn new_fills_the_inputs_from_the_book() {
    let book = Book {
        id: 7,
        revision: 1,
        metadata: Metadata {
            title: "Candide".into(),
            authors: vec![Author { name: "Voltaire".into(), sort: "Voltaire".into() }],
            ..Metadata::default()
        },
        stats: Stats::default(),
    };
    let form = Form::new(&book, format_number);
    assert_eq!(form.id, 7);
    assert_eq!(form.title, "Candide");
    assert_eq!(form.authors, vec![author("Voltaire", "Voltaire")]);
    assert_eq!((form.series.as_str(), form.series_number.as_str()), ("", ""));
    assert_eq!((form.publisher.as_str(), form.description.as_str()), ("", ""));
    assert_eq!(form.error, None);
}
