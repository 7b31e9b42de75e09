# epubsync

The rules of the EpubSync library as a Verus crate: the book records, the
name of a book's file, the stored cover and its database row, the day part
of a timestamp, the progress rows grouped by book, the decisions of an
import, the edit form, the text and the layers of the viewer, and the EPUB
fixtures that tests build.

- `src/` is the verified library. `text` holds the character-level helpers
  (decimal numbers, white space, trimming, the day of a timestamp),
  `metadata` the record types, `cover` the cover and its row, `library`
  the records the library gives out and the import decisions, `form` the
  edit form, `viewer` the viewer's text, layers, cover map, sort and status counts, `import`
  the order of an import's steps, and `fixtures` the EPUB zip builder and
  reader.
- `app/` holds what reads and writes: opening the library under its lock,
  the SQLite queries, the import that performs the steps `import` names,
  the viewer's state and update loop, the fixture files on disk, and the
  viewer's pixel arithmetic.
- `tests/` runs the library on concrete values.

Series numbers and reading ease values are `f64` in the files and the
database; the library carries each as its `f64::to_bits` pattern.
