use book_catalog::author::DBAuthor;
use book_catalog::binding::Binding;
use book_catalog::book::DBBook;
use book_catalog::database::{BookRecord, Database, NewBook};
use book_catalog::error::{DBError, Error, ErrorKind};

fn author(id: u128, first_name: &str) -> DBAuthor {
    DBAuthor { id, first_name: first_name.to_string(), last_name: "Writer".to_string() }
}

fn record(id: i32, author_id: u128, isbn: &str) -> BookRecord {
    BookRecord {
        author_id,
        book: DBBook {
            id,
            isbn: isbn.to_string(),
            title: "Title".to_string(),
            description: None,
            binding: Binding::Hardcover,
        },
    }
}

fn new_book(author_id: u128, isbn: &str) -> NewBook {
    NewBook {
        author_id,
        isbn: isbn.to_string(),
        title: "Title".to_string(),
        description: None,
        binding: Binding::Hardcover,
    }
}

#[test]
fn new_database_is_empty() {
    let db = Database::new();
    assert!(db.authors().is_empty());
    assert!(db.books().is_empty());
    assert!(!db.author_exists(0));
    assert_eq!(db.select_author(0), None);
    assert_eq!(db.select_book(""), None);
    assert_eq!(db.select_author_of(1), None);
    assert!(db.select_books_of(0).is_empty());
}

#[test]
fn from_rows_holds_rows_that_keep_the_rules() {
    let authors = vec![author(1, "One"), author(2, "Two")];
    let books = vec![record(5, 2, "a"), record(3, 1, "b"), record(9, 2, "c")];
    let db = Database::from_rows(authors, books).unwrap();
    assert_eq!(db.authors(), &vec![author(1, "One"), author(2, "Two")]);
    assert_eq!(db.books(), &vec![record(5, 2, "a"), record(3, 1, "b"), record(9, 2, "c")]);
    assert_eq!(db.select_author(2), Some(&author(2, "Two")));
    assert_eq!(db.select_book("b"), Some(&record(3, 1, "b").book));
    assert_eq!(db.select_author_of(3), Some(&author(1, "One")));
    assert_eq!(db.select_books_of(2), vec![&record(5, 2, "a").book, &record(9, 2, "c").book]);
}

#[test]
fn from_rows_numbers_the_next_book_after_the_highest() {
    let mut db = Database::from_rows(
        vec![author(1, "One")],
        vec![record(5, 1, "a"), record(9, 1, "b"), record(3, 1, "c")],
    )
    .unwrap();
    assert_eq!(db.insert_book(new_book(1, "d")), Ok(10));
}

#[test]
fn from_rows_numbers_the_first_book_one_even_after_negative_numbers() {
    let mut db =
        Database::from_rows(vec![author(1, "One")], vec![record(-4, 1, "a")]).unwrap();
    assert_eq!(db.insert_book(new_book(1, "b")), Ok(1));
    let mut empty = Database::from_rows(vec![author(1, "One")], vec![]).unwrap();
    assert_eq!(empty.insert_book(new_book(1, "b")), Ok(1));
}

#[test]
fn from_rows_refuses_an_author_key_twice() {
    let refused = Database::from_rows(vec![author(1, "One"), author(1, "Same")], vec![]);
    assert_eq!(
        refused.err(),
        Some(DBError { message: "the author key is already in use".to_string() })
    );
}

#[test]
fn from_rows_refuses_a_book_number_twice() {
    let refused = Database::from_rows(
        vec![author(1, "One")],
        vec![record(1, 1, "a"), record(2, 1, "b"), record(1, 1, "c")],
    );
    assert_eq!(
        refused.err(),
        Some(DBError { message: "the book number is already in use".to_string() })
    );
}

#[test]
fn from_rows_refuses_a_book_without_its_author() {
    let refused = Database::from_rows(vec![author(1, "One")], vec![record(1, 2, "a")]);
    assert_eq!(
        refused.err(),
        Some(DBError { message: "the book refers to an author that does not exist".to_string() })
    );
}

#[test]
fn from_rows_reports_the_first_rule_broken() {
    let refused = Database::from_rows(
        vec![author(1, "One"), author(1, "Same")],
        vec![record(1, 7, "a"), record(1, 7, "b")],
    );
    assert_eq!(
        refused.err(),
        Some(DBError { message: "the author key is already in use".to_string() })
    );
    let refused =
        Database::from_rows(vec![author(1, "One")], vec![record(1, 7, "a"), record(1, 7, "b")]);
    assert_eq!(
        refused.err(),
        Some(DBError { message: "the book number is already in use".to_string() })
    );
}

#[test]
fn insert_author_refuses_a_taken_key() {
    let mut db = Database::new();
    assert_eq!(db.insert_author(author(1, "One")), Ok(()));
    assert_eq!(
        db.insert_author(author(1, "Same")),
        Err(DBError { message: "the author key is already in use".to_string() })
    );
    assert_eq!(db.insert_author(author(2, "Two")), Ok(()));
    assert_eq!(db.authors(), &vec![author(1, "One"), author(2, "Two")]);
    assert!(db.author_exists(1));
    assert!(db.author_exists(2));
    assert!(!db.author_exists(3));
}

#[test]
fn insert_book_refuses_a_missing_author() {
    let mut db = Database::new();
    assert_eq!(
        db.insert_book(new_book(1, "a")),
        Err(DBError { message: "the book refers to an author that does not exist".to_string() })
    );
    assert!(db.books().is_empty());
    assert_eq!(db.insert_author(author(1, "One")), Ok(()));
    assert_eq!(db.insert_book(new_book(1, "a")), Ok(1));
    assert_eq!(db.insert_book(new_book(1, "a")), Ok(2));
    assert_eq!(db.books(), &vec![record(1, 1, "a"), record(2, 1, "a")]);
}

#[test]
fn insert_book_refuses_once_the_numbers_have_run_out() {
    let mut db =
        Database::from_rows(vec![author(1, "One")], vec![record(i32::MAX - 1, 1, "a")]).unwrap();
    assert_eq!(db.insert_book(new_book(1, "b")), Ok(i32::MAX));
    assert_eq!(
        db.insert_book(new_book(1, "c")),
        Err(DBError { message: "the book numbers are exhausted".to_string() })
    );
    assert_eq!(db.books().len(), 2);
}

#[test]
fn select_author_of_joins_book_and_author() {
    let db = Database::from_rows(
        vec![author(1, "One"), author(2, "Two")],
        vec![record(1, 2, "a"), record(2, 1, "b")],
    )
    .unwrap();
    assert_eq!(db.select_author_of(1), Some(&author(2, "Two")));
    assert_eq!(db.select_author_of(2), Some(&author(1, "One")));
    assert_eq!(db.select_author_of(3), None);
}

#[test]
fn select_books_of_keeps_stored_order_and_leaves_others_out() {
    let db = Database::from_rows(
        vec![author(1, "One"), author(2, "Two"), author(3, "Three")],
        vec![record(4, 2, "a"), record(3, 1, "b"), record(2, 2, "c"), record(1, 2, "a")],
    )
    .unwrap();
    assert_eq!(
        db.select_books_of(2),
        vec![&record(4, 2, "a").book, &record(2, 2, "c").book, &record(1, 2, "a").book]
    );
    assert_eq!(db.select_books_of(1), vec![&record(3, 1, "b").book]);
    assert!(db.select_books_of(3).is_empty());
    assert!(db.select_books_of(4).is_empty());
}

#[test]
fn select_book_finds_the_first_row_with_the_isbn() {
    let db = Database::from_rows(
        vec![author(1, "One")],
        vec![record(4, 1, "a"), record(3, 1, "b"), record(2, 1, "b")],
    )
    .unwrap();
    assert_eq!(db.select_book("b"), Some(&record(3, 1, "b").book));
    assert_eq!(db.select_book("a"), Some(&record(4, 1, "a").book));
    assert_eq!(db.select_book("c"), None);
    assert_eq!(db.select_book("B"), None);
}

#[test]
fn storage_error_fails_the_request_under_its_own_message() {
    let e = Error::from(DBError::new("connection reset".to_string()));
    assert_eq!(e, Error { kind: ErrorKind::Database, message: "connection reset".to_string() });
}

#[test]
fn connection_failure_keeps_the_pool_message() {
    let e = Error::connection("timed out waiting for connection".to_string());
    assert_eq!(e.kind, ErrorKind::Connection);
    assert_eq!(e.message, "timed out waiting for connection");
    let m = Error::malformed_id("invalid length: found 3".to_string());
    assert_eq!(m.kind, ErrorKind::MalformedId);
    assert_eq!(m.message, "invalid length: found 3");
    let o = Error::orphan();
    assert_eq!(o.kind, ErrorKind::AuthorNotFound);
    assert_eq!(o.message, "the book has no author");
}
