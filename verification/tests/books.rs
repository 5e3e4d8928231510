use book_catalog::author::{AddAuthorResult, Author, AuthorMutation, AuthorQuery};
use book_catalog::binding::Binding;
use book_catalog::book::{AddBookResult, AddBookSuccess, Book, BookMutation, BookQuery, DBBook};
use book_catalog::database::{BookRecord, Database, NewBook};
use book_catalog::error::{AuthorNotFoundError, ErrorKind};

const ADA: u128 = 0xa1a2a3a4_b1b2_c1c2_d1d2_d3d4d5d6d7d8;
const ADA_TOKEN: &str = "a1a2a3a4-b1b2-c1c2-d1d2-d3d4d5d6d7d8";
const MARY_TOKEN: &str = "00000000-0000-0000-0000-000000000002";

fn two_authors() -> Database {
    let mut db = Database::new();
    assert!(AuthorMutation
        .add_author_with_key(&mut db, ADA, "Ada".to_string(), "Lovelace".to_string())
        .is_ok());
    assert!(AuthorMutation
        .add_author_with_key(&mut db, 2, "Mary".to_string(), "Shelley".to_string())
        .is_ok());
    db
}

fn notes(id: i32) -> Book {
    Book {
        id,
        isbn: "123".to_string(),
        title: "Notes".to_string(),
        description: None,
        binding: Binding::Paperback,
    }
}

fn add_notes(db: &mut Database) {
    let added = BookMutation.add_book(
        db,
        ADA_TOKEN,
        "123".to_string(),
        "Notes".to_string(),
        None,
        Binding::Paperback,
    );
    assert_eq!(added, Ok(AddBookResult::Success(AddBookSuccess { id: db.books().len() as i32 })));
}

#[test]
fn ada_writes_notes() {
    let mut db = Database::new();
    let added = AuthorMutation.add_author(&mut db, "Ada".to_string(), "Lovelace".to_string());
    let a1 = match added {
        Ok(AddAuthorResult::Success(success)) => success.id,
        Err(e) => panic!("refused: {}", e.message),
    };
    let stored = BookMutation.add_book(
        &mut db,
        &a1,
        "123".to_string(),
        "Notes".to_string(),
        None,
        Binding::Paperback,
    );
    assert_eq!(stored, Ok(AddBookResult::Success(AddBookSuccess { id: 1 })));
    let book = BookQuery.book(&db, "123").unwrap();
    assert_eq!(book.author(&db).unwrap().first_name, "Ada");
    let author = AuthorQuery.author(&db, &a1).unwrap().unwrap();
    assert_eq!(author.books(&db), Ok(vec![notes(1)]));
}

#[test]
fn add_book_numbers_books_from_one() {
    let mut db = two_authors();
    add_notes(&mut db);
    let second = BookMutation.add_book(
        &mut db,
        MARY_TOKEN,
        "456".to_string(),
        "Frankenstein".to_string(),
        Some("A modern Prometheus".to_string()),
        Binding::Hardcover,
    );
    assert_eq!(second, Ok(AddBookResult::Success(AddBookSuccess { id: 2 })));
    assert_eq!(
        db.books(),
        &vec![
            BookRecord {
                author_id: ADA,
                book: DBBook {
                    id: 1,
                    isbn: "123".to_string(),
                    title: "Notes".to_string(),
                    description: None,
                    binding: Binding::Paperback,
                },
            },
            BookRecord {
                author_id: 2,
                book: DBBook {
                    id: 2,
                    isbn: "456".to_string(),
                    title: "Frankenstein".to_string(),
                    description: Some("A modern Prometheus".to_string()),
                    binding: Binding::Hardcover,
                },
            },
        ]
    );
}

#[test]
fn add_book_to_a_missing_author_is_turned_down_and_stores_nothing() {
    let mut db = two_authors();
    add_notes(&mut db);
    let missing = "00000000-0000-0000-0000-000000000009";
    let outcome = BookMutation.add_book(
        &mut db,
        missing,
        "789".to_string(),
        "Ghost".to_string(),
        None,
        Binding::Hardcover,
    );
    assert_eq!(
        outcome,
        Ok(AddBookResult::AuthorNotFound(AuthorNotFoundError { id: missing.to_string() }))
    );
    assert_eq!(db.books().len(), 1);
    assert_eq!(BookQuery.books(&db), vec![notes(1)]);
    assert_eq!(BookQuery.book(&db, "789"), None);
}

#[test]
fn add_book_names_the_missing_author_by_the_written_form_of_the_key() {
    let mut db = Database::new();
    let outcome = BookMutation.add_book(
        &mut db,
        "{A1A2A3A4-B1B2-C1C2-D1D2-D3D4D5D6D7D8}",
        "789".to_string(),
        "Ghost".to_string(),
        None,
        Binding::Hardcover,
    );
    assert_eq!(
        outcome,
        Ok(AddBookResult::AuthorNotFound(AuthorNotFoundError { id: ADA_TOKEN.to_string() }))
    );
    assert_eq!(db.books().len(), 0);
}

#[test]
fn add_book_with_a_malformed_author_identifier_fails_and_stores_nothing() {
    let mut db = two_authors();
    let outcome = BookMutation.add_book(
        &mut db,
        "a1a2a3a4-b1b2-c1c2-d1d2",
        "789".to_string(),
        "Ghost".to_string(),
        None,
        Binding::Hardcover,
    );
    let e = outcome.unwrap_err();
    assert_eq!(e.kind, ErrorKind::MalformedId);
    assert_eq!(e.message, "invalid group count: expected 5, found 4");
    assert_eq!(db.books().len(), 0);
}

#[test]
fn add_book_gives_a_number_that_no_book_had() {
    let mut db = two_authors();
    add_notes(&mut db);
    add_notes(&mut db);
    let before: Vec<i32> = db.books().iter().map(|row| row.book.id).collect();
    let outcome = BookMutation.add_new_book(
        &mut db,
        NewBook {
            author_id: 2,
            isbn: "456".to_string(),
            title: "Frankenstein".to_string(),
            description: None,
            binding: Binding::Hardcover,
        },
    );
    let id = match outcome {
        Ok(AddBookResult::Success(success)) => success.id,
        other => panic!("not stored: {:?}", other),
    };
    assert_eq!(id, 3);
    assert!(!before.contains(&id));
    assert_eq!(db.books().len(), before.len() + 1);
    assert_eq!(db.books()[2].book.id, id);
    assert_eq!(db.books()[2].author_id, 2);
}

#[test]
fn add_book_after_the_last_number_is_refused() {
    let authors = two_authors().authors().clone();
    let last = BookRecord {
        author_id: ADA,
        book: DBBook {
            id: i32::MAX,
            isbn: "999".to_string(),
            title: "Last".to_string(),
            description: None,
            binding: Binding::Hardcover,
        },
    };
    let mut db = Database::from_rows(authors, vec![last]).unwrap();
    let outcome = BookMutation.add_book(
        &mut db,
        ADA_TOKEN,
        "123".to_string(),
        "Notes".to_string(),
        None,
        Binding::Paperback,
    );
    let e = outcome.unwrap_err();
    assert_eq!(e.kind, ErrorKind::Database);
    assert_eq!(e.message, "the book numbers are exhausted");
    assert_eq!(db.books().len(), 1);
}

#[test]
fn book_is_found_by_isbn_and_leads_to_its_author() {
    let mut db = two_authors();
    add_notes(&mut db);
    let book = BookQuery.book(&db, "123");
    assert_eq!(book, Some(notes(1)));
    assert_eq!(
        book.unwrap().author(&db),
        Ok(Author {
            id: ADA_TOKEN.to_string(),
            first_name: "Ada".to_string(),
            last_name: "Lovelace".to_string(),
        })
    );
}

#[test]
fn book_with_an_unknown_isbn_is_absent() {
    let mut db = two_authors();
    assert_eq!(BookQuery.book(&db, "123"), None);
    add_notes(&mut db);
    assert_eq!(BookQuery.book(&db, "124"), None);
    assert_eq!(BookQuery.book(&db, ""), None);
    assert_eq!(BookQuery.book(&db, "12"), None);
}

#[test]
fn book_with_a_shared_isbn_is_the_one_stored_first() {
    let mut db = two_authors();
    add_notes(&mut db);
    let copy = BookMutation.add_book(
        &mut db,
        MARY_TOKEN,
        "123".to_string(),
        "Copy".to_string(),
        None,
        Binding::Hardcover,
    );
    assert_eq!(copy, Ok(AddBookResult::Success(AddBookSuccess { id: 2 })));
    assert_eq!(BookQuery.book(&db, "123"), Some(notes(1)));
    assert_eq!(BookQuery.books(&db).len(), 2);
}

#[test]
fn books_lists_every_book_in_stored_order() {
    let mut db = two_authors();
    assert_eq!(BookQuery.books(&db), Vec::<Book>::new());
    add_notes(&mut db);
    add_notes(&mut db);
    assert_eq!(BookQuery.books(&db), vec![notes(1), notes(2)]);
}

#[test]
fn books_of_an_author_hold_each_of_its_books_once() {
    let mut db = two_authors();
    add_notes(&mut db);
    let other = BookMutation.add_book(
        &mut db,
        MARY_TOKEN,
        "456".to_string(),
        "Frankenstein".to_string(),
        None,
        Binding::Hardcover,
    );
    assert!(other.is_ok());
    add_notes(&mut db);
    let ada = AuthorQuery.author(&db, ADA_TOKEN).unwrap().unwrap();
    let books = ada.books(&db).unwrap();
    assert_eq!(books, vec![notes(1), notes(3)]);
    assert_eq!(books.iter().filter(|b| **b == notes(1)).count(), 1);
    let mary = AuthorQuery.author(&db, MARY_TOKEN).unwrap().unwrap();
    assert_eq!(mary.books(&db).unwrap().len(), 1);
}

#[test]
fn walking_from_books_to_author_to_books_comes_back() {
    let mut db = two_authors();
    add_notes(&mut db);
    for book in BookQuery.books(&db) {
        let author = book.author(&db).unwrap();
        let again = author.books(&db).unwrap();
        assert!(again.contains(&book));
    }
}

#[test]
fn author_of_a_book_that_is_not_stored_is_a_failure() {
    let db = two_authors();
    let e = notes(7).author(&db).unwrap_err();
    assert_eq!(e.kind, ErrorKind::AuthorNotFound);
    assert_eq!(e.message, "the book has no author");
}

#[test]
fn from_row_copies_the_columns() {
    let row = DBBook {
        id: 4,
        isbn: "456".to_string(),
        title: "Frankenstein".to_string(),
        description: Some("A modern Prometheus".to_string()),
        binding: Binding::Hardcover,
    };
    assert_eq!(
        Book::from_row(&row),
        Book {
            id: 4,
            isbn: "456".to_string(),
            title: "Frankenstein".to_string(),
            description: Some("A modern Prometheus".to_string()),
            binding: Binding::Hardcover,
        }
    );
    assert_eq!(row.clone(), row);
    assert_eq!(notes(1).clone(), notes(1));
}
