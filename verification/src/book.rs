//! Books: the stored columns, the object handed out, and their resolvers.

use vstd::prelude::*;

use crate::author::{Author, AuthorView};
use crate::binding::Binding;
use crate::database::{Database, NewBook};
use crate::error::{outcome, AuthorNotFoundError, Error, Failure};
use crate::ident::{key_token, parse_key, parsed_key, token_of};
use crate::tables::{data_of, NewBookView, Tables, EXHAUSTED};

verus! {

/// The columns of a stored book that are read back.
#[derive(Debug, PartialEq, Eq)]
pub struct DBBook {
    pub id: i32,
    pub isbn: String,
    pub title: String,
    pub description: Option<String>,
    pub binding: Binding,
}

/// A book as handed out. `id` is the storage's own number for the book; it
/// finds the book's author again and is not meant to be shown.
#[derive(Debug, PartialEq, Eq)]
pub struct Book {
    pub id: i32,
    pub isbn: String,
    pub title: String,
    pub description: Option<String>,
    pub binding: Binding,
}

/// A book, stored or handed out, as a mathematical value.
pub struct BookView {
    pub id: i32,
    pub isbn: Seq<char>,
    pub title: Seq<char>,
    pub description: Option<Seq<char>>,
    pub binding: Binding,
}

/// Copies an optional text.
fn clone_text(text: &Option<String>) -> (r: Option<String>)
    ensures
        r == *text,
{
    match text {
        Some(s) => Some(s.clone()),
        None => None,
    }
}

impl View for DBBook {
    type V = BookView;

    open spec fn view(&self) -> BookView {
        BookView {
            id: self.id,
            isbn: self.isbn@,
            title: self.title@,
            description: self.description.deep_view(),
            binding: self.binding,
        }
    }
}

impl DeepView for DBBook {
    type V = BookView;

    open spec fn deep_view(&self) -> BookView {
        self@
    }
}

impl Clone for DBBook {
    fn clone(&self) -> (r: DBBook)
        ensures
            r == *self,
    {
        DBBook {
            id: self.id,
            isbn: self.isbn.clone(),
            title: self.title.clone(),
            description: clone_text(&self.description),
            binding: self.binding,
        }
    }
}

impl View for Book {
    type V = BookView;

    open spec fn view(&self) -> BookView {
        BookView {
            id: self.id,
            isbn: self.isbn@,
            title: self.title@,
            description: self.description.deep_view(),
            binding: self.binding,
        }
    }
}

impl DeepView for Book {
    type V = BookView;

    open spec fn deep_view(&self) -> BookView {
        self@
    }
}

impl Clone for Book {
    fn clone(&self) -> (r: Book)
        ensures
            r == *self,
    {
        Book {
            id: self.id,
            isbn: self.isbn.clone(),
            title: self.title.clone(),
            description: clone_text(&self.description),
            binding: self.binding,
        }
    }
}

impl Book {
    /// Maps the stored columns to the object handed out.
    pub fn from_row(row: &DBBook) -> (b: Book)
        ensures
            b@ == row@,
    {
        Book {
            id: row.id,
            isbn: row.isbn.clone(),
            title: row.title.clone(),
            description: clone_text(&row.description),
            binding: row.binding,
        }
    }

    /// What `author` answers: the author that the book belongs to, or the
    /// failure to find one. A book that is stored always has its author, so
    /// the failure means that no book with this number is stored.
    pub open spec fn author_spec(book: BookView, db: Tables) -> Result<AuthorView, Failure> {
        match db.owner(book.id) {
            Some(row) => Ok(row.exposed()),
            None => Err(Failure::orphan()),
        }
    }

    /// The author of this book. Each call reads the storage anew.
    pub fn author(&self, db: &Database) -> (r: Result<Author, Error>)
        ensures
            outcome(r) == Book::author_spec(self@, db@),
            r.is_ok() == db@.has_book(self.id),
            r matches Ok(a) ==> a@.wf(),
    {
        match db.select_author_of(self.id) {
            Some(row) => Ok(Author::from_row(row)),
            None => Err(Error::orphan()),
        }
    }
}

/// The resolvers that read books.
#[derive(Clone, Copy, Debug, Default)]
pub struct BookQuery;

impl BookQuery {
    /// What `book` answers: the first stored book with the ISBN, or absence
    /// where no book has it.
    pub open spec fn book_spec(db: Tables, isbn: Seq<char>) -> Option<BookView> {
        match db.book(isbn) {
            Some(row) => Some(row.data),
            None => None,
        }
    }

    /// Looks one book up by ISBN.
    pub fn book(&self, db: &Database, isbn: &str) -> (r: Option<Book>)
        ensures
            r.deep_view() == BookQuery::book_spec(db@, isbn@),
    {
        match db.select_book(isbn) {
            Some(row) => Some(Book::from_row(row)),
            None => None,
        }
    }

    /// What `books` answers: every book, in stored order.
    pub open spec fn books_spec(db: Tables) -> Seq<BookView> {
        db.all_books()
    }

    /// All books.
    pub fn books(&self, db: &Database) -> (r: Vec<Book>)
        ensures
            r.deep_view() == BookQuery::books_spec(db@),
    {
        let rows = db.books();
        let mut books: Vec<Book> = Vec::new();
        let mut i: usize = 0;
        while i < rows.len()
            invariant
                0 <= i <= rows.len(),
                books.len() == i,
                forall|j: int| 0 <= j < i ==> (#[trigger] books[j])@ == rows[j].book@,
            decreases rows.len() - i,
        {
            books.push(Book::from_row(&rows[i].book));
            i += 1;
        }
        assert(books.deep_view() =~= rows.deep_view().map_values(data_of()));
        books
    }
}

/// The number of a book that was added.
#[derive(Debug, PartialEq, Eq)]
pub struct AddBookSuccess {
    pub id: i32,
}

/// How adding a book ended: stored, or turned down because its author does
/// not exist. Neither is a failure of the request.
#[derive(Debug, PartialEq, Eq)]
pub enum AddBookResult {
    Success(AddBookSuccess),
    AuthorNotFound(AuthorNotFoundError),
}

/// An `AddBookResult` as a mathematical value.
pub enum AddBookOutcome {
    /// The number of the book that was stored.
    Success(i32),
    /// The token of the key that no author has.
    AuthorNotFound(Seq<char>),
}

impl DeepView for AddBookResult {
    type V = AddBookOutcome;

    open spec fn deep_view(&self) -> AddBookOutcome {
        match self {
            AddBookResult::Success(success) => AddBookOutcome::Success(success.id),
            AddBookResult::AuthorNotFound(missing) => AddBookOutcome::AuthorNotFound(missing.id@),
        }
    }
}

/// The resolvers that add books.
#[derive(Clone, Copy, Debug, Default)]
pub struct BookMutation;

impl BookMutation {
    /// The tables after a book was added: one more row where its author
    /// exists and a number is left, the same tables otherwise.
    pub open spec fn tables_after(db: Tables, book: NewBookView) -> Tables {
        if db.has_author(book.author_id) && db.last_book_id < i32::MAX {
            db.with_book(book)
        } else {
            db
        }
    }

    /// What adding a book answers: the book's number; the token of the
    /// author's key where no author has it; or the storage's refusal where
    /// the numbers have run out.
    pub open spec fn answer(db: Tables, book: NewBookView) -> Result<AddBookOutcome, Failure> {
        if !db.has_author(book.author_id) {
            Ok(AddBookOutcome::AuthorNotFound(key_token(book.author_id)))
        } else if db.last_book_id < i32::MAX {
            Ok(AddBookOutcome::Success(db.next_book_id()))
        } else {
            Err(Failure::database(EXHAUSTED@))
        }
    }

    /// Adds a book whose author is given by key: looks whether the author
    /// exists, and only then stores the book.
    pub fn add_new_book(&self, db: &mut Database, book: NewBook) -> (r: Result<
        AddBookResult,
        Error,
    >)
        ensures
            outcome(r) == BookMutation::answer(old(db)@, book@),
            final(db)@ == BookMutation::tables_after(old(db)@, book@),
    {
        if db.author_exists(book.author_id) {
            match db.insert_book(book) {
                Ok(id) => Ok(AddBookResult::Success(AddBookSuccess { id })),
                Err(e) => Err(Error::from(e)),
            }
        } else {
            Ok(AddBookResult::AuthorNotFound(AuthorNotFoundError { id: token_of(book.author_id) }))
        }
    }

    /// What `add_book` answers: the failure to read the author's identifier,
    /// or what adding the book under the key that it names answers.
    pub open spec fn add_book_spec(
        db: Tables,
        author_id: Seq<char>,
        isbn: Seq<char>,
        title: Seq<char>,
        description: Option<Seq<char>>,
        binding: Binding,
    ) -> Result<AddBookOutcome, Failure> {
        match parsed_key(author_id) {
            Ok(key) => BookMutation::answer(
                db,
                NewBookView { author_id: key, isbn, title, description, binding },
            ),
            Err(message) => Err(Failure::malformed_id(message)),
        }
    }

    /// The tables after `add_book`.
    pub open spec fn add_book_tables(
        db: Tables,
        author_id: Seq<char>,
        isbn: Seq<char>,
        title: Seq<char>,
        description: Option<Seq<char>>,
        binding: Binding,
    ) -> Tables {
        match parsed_key(author_id) {
            Ok(key) => BookMutation::tables_after(
                db,
                NewBookView { author_id: key, isbn, title, description, binding },
            ),
            Err(_) => db,
        }
    }

    /// Adds a book to the author that an identifier names.
    pub fn add_book(
        &self,
        db: &mut Database,
        author_id: &str,
        isbn: String,
        title: String,
        description: Option<String>,
        binding: Binding,
    ) -> (r: Result<AddBookResult, Error>)
        ensures
            outcome(r) == BookMutation::add_book_spec(
                old(db)@,
                author_id@,
                isbn@,
                title@,
                description.deep_view(),
                binding,
            ),
            final(db)@ == BookMutation::add_book_tables(
                old(db)@,
                author_id@,
                isbn@,
                title@,
                description.deep_view(),
                binding,
            ),
    {
        match parse_key(author_id) {
            Err(message) => Err(Error::malformed_id(message)),
            Ok(key) => self.add_new_book(
                db,
                NewBook { author_id: key, isbn, title, description, binding },
            ),
        }
    }
}

} // verus!
