use epubsync::cover::{thumbnail, Cover, CoverRowError, FileCover};
use epubsync::fixtures::COVER_JPEG;

#[test]
fn a_cover_image_becomes_a_jpeg_thumbnail() {
    let Cover::Image(bytes) = Cover::from_file(FileCover::Image(COVER_JPEG.to_vec())) else {
        panic!("no image");
    };
    assert_eq!(&bytes[..3], b"\xFF\xD8\xFF");
    assert_eq!(&bytes[bytes.len() - 2..], b"\xFF\xD9");
    assert_eq!(bytes, thumbnail(&COVER_JPEG).unwrap());
    // The stored copy is the encoder's output, not the publisher's bytes.
    assert_ne!(bytes, COVER_JPEG.to_vec());
}

#[test]
fn cover_bytes_that_are_not_an_image_give_undecodable() {
    let cover = Cover::from_file(FileCover::Image(
        b"<svg xmlns='http://www.w3.org/2000/svg'/>".to_vec(),
    ));
    let Cover::Undecodable(why) = cover else {
        panic!("{cover:?}");
    };
    assert!(!why.is_empty());
}

#[test]
fn a_file_with_no_cover_or_a_missing_one_keeps_its_reason() {
    assert_eq!(Cover::from_file(FileCover::NoCover), Cover::NoCover);
    assert_eq!(
        Cover::from_file(FileCover::Unreadable("no entry OEBPS/no-such-cover.jpg".into())),
        Cover::Unreadable("no entry OEBPS/no-such-cover.jpg".into())
    );
}

#[test]
fn each_cover_but_unknown_reads_back_from_its_row() {
    let covers = [
        Cover::Image(vec![1, 2, 3]),
        Cover::NoCover,
        Cover::Unreadable("gone".into()),
        Cover::Undecodable("not an image".into()),
    ];
    for cover in covers {
        let row = cover.row().unwrap();
        let back = Cover::from_row(
            row.state,
            row.image.map(|b| b.to_vec()),
            row.detail.map(|d| d.to_string()),
        )
        .unwrap();
        assert_eq!(back, cover);
    }
    assert!(Cover::Unknown.row().is_none());
}

#[test]
fn the_rows_hold_the_state_words() {
    assert_eq!(Cover::Image(vec![9]).row().unwrap().state, "image");
    assert_eq!(Cover::NoCover.row().unwrap().state, "none");
    let unreadable = Cover::Unreadable("why".into());
    let row = unreadable.row().unwrap();
    assert_eq!((row.state, row.image, row.detail), ("unreadable", None, Some("why")));
    let undecodable = Cover::Undecodable("why".into());
    let row = undecodable.row().unwrap();
    assert_eq!((row.state, row.image, row.detail), ("undecodable", None, Some("why")));
}

#[test]
fn a_cover_row_the_table_does_not_allow_is_an_error() {
    let err = Cover::from_row("none", Some(b"\xFF\xD8\xFF".to_vec()), None).unwrap_err();
    assert!(err.message().contains("none"), "{}", err.message());
    assert_eq!(err.message(), "a covers row reads none");
}

#[test]
fn an_unknown_state_word_is_an_error_that_names_it() {
    assert_eq!(
        Cover::from_row("blurry", None, None),
        Err(CoverRowError { state: "blurry".into() })
    );
    assert!(Cover::from_row("image", None, None).is_err());
    assert!(Cover::from_row("unreadable", None, None).is_err());
}

#[test]
fn a_thumbnail_outcome_becomes_the_stored_cover() {
    assert_eq!(Cover::from_thumbnail(Ok(vec![0xFF, 0xD8, 0xFF, 0xD9])), Cover::Image(vec![0xFF, 0xD8, 0xFF, 0xD9]));
    assert_eq!(
        Cover::from_thumbnail(Err("The image format could not be determined".into())),
        Cover::Undecodable("The image format could not be determined".into())
    );
}
