//! The storage held in memory: the rows of the two tables, and the
//! statements that read and fill them. A `Database` is well formed at all
//! times: author keys and book numbers are unique, and every book refers to
//! an author that is there.

use vstd::prelude::*;

use crate::author::DBAuthor;
use crate::binding::Binding;
use crate::book::DBBook;
use crate::error::DBError;
use crate::tables::{
    data_of, highest_id, ids_unique, keys_unique, lemma_highest_id_bounds, owned_by, BookRow,
    NewBookView, Tables, DUPLICATE_AUTHOR, DUPLICATE_BOOK, EXHAUSTED, MISSING_AUTHOR,
};

verus! {

/// A book as stored: the columns that are read back, and the key of the
/// author that the book belongs to.
#[derive(Debug, PartialEq, Eq)]
pub struct BookRecord {
    pub author_id: u128,
    pub book: DBBook,
}

impl View for BookRecord {
    type V = BookRow;

    open spec fn view(&self) -> BookRow {
        BookRow { author_id: self.author_id, data: self.book@ }
    }
}

impl DeepView for BookRecord {
    type V = BookRow;

    open spec fn deep_view(&self) -> BookRow {
        self@
    }
}

/// A book to be stored; the storage numbers it.
#[derive(Debug, PartialEq, Eq)]
pub struct NewBook {
    pub author_id: u128,
    pub isbn: String,
    pub title: String,
    pub description: Option<String>,
    pub binding: Binding,
}

impl View for NewBook {
    type V = NewBookView;

    open spec fn view(&self) -> NewBookView {
        NewBookView {
            author_id: self.author_id,
            isbn: self.isbn@,
            title: self.title@,
            description: self.description.deep_view(),
            binding: self.binding,
        }
    }
}

/// The place of the row with a key, if one has it.
fn position_of_key(authors: &Vec<DBAuthor>, key: u128) -> (found: Option<usize>)
    ensures
        match found {
            Some(i) => i < authors.len() && authors[i as int].id == key,
            None => forall|j: int| 0 <= j < authors.len() ==> (#[trigger] authors[j]).id != key,
        },
{
    let mut i: usize = 0;
    while i < authors.len()
        invariant
            0 <= i <= authors.len(),
            forall|j: int| 0 <= j < i ==> (#[trigger] authors[j]).id != key,
        decreases authors.len() - i,
    {
        if authors[i].id == key {
            return Some(i);
        }
        i += 1;
    }
    None
}

/// The place of the row with a number, if one has it.
fn position_of_id(books: &Vec<BookRecord>, id: i32) -> (found: Option<usize>)
    ensures
        match found {
            Some(i) => i < books.len() && books[i as int].book.id == id,
            None => forall|j: int| 0 <= j < books.len() ==> (#[trigger] books[j]).book.id != id,
        },
{
    let mut i: usize = 0;
    while i < books.len()
        invariant
            0 <= i <= books.len(),
            forall|j: int| 0 <= j < i ==> (#[trigger] books[j]).book.id != id,
        decreases books.len() - i,
    {
        if books[i].book.id == id {
            return Some(i);
        }
        i += 1;
    }
    None
}

/// Tells whether all keys differ.
fn keys_differ(authors: &Vec<DBAuthor>) -> (b: bool)
    ensures
        b == keys_unique(authors.deep_view()),
{
    let ghost rows = authors.deep_view();
    let mut j: usize = 0;
    while j < authors.len()
        invariant
            0 <= j <= authors.len(),
            rows == authors.deep_view(),
            forall|a: int, b: int|
                0 <= a < b < j ==> (#[trigger] rows[a]).id != (#[trigger] rows[b]).id,
        decreases authors.len() - j,
    {
        let mut i: usize = 0;
        while i < j
            invariant
                0 <= i <= j < authors.len(),
                rows == authors.deep_view(),
                forall|a: int| 0 <= a < i ==> (#[trigger] rows[a]).id != rows[j as int].id,
            decreases j - i,
        {
            if authors[i].id == authors[j].id {
                assert(rows[i as int].id == rows[j as int].id);
                return false;
            }
            i += 1;
        }
        j += 1;
    }
    true
}

/// Tells whether all numbers differ.
fn ids_differ(books: &Vec<BookRecord>) -> (b: bool)
    ensures
        b == ids_unique(books.deep_view()),
{
    let ghost rows = books.deep_view();
    let mut j: usize = 0;
    while j < books.len()
        invariant
            0 <= j <= books.len(),
            rows == books.deep_view(),
            forall|a: int, b: int|
                0 <= a < b < j ==> (#[trigger] rows[a]).data.id != (#[trigger] rows[b]).data.id,
        decreases books.len() - j,
    {
        let mut i: usize = 0;
        while i < j
            invariant
                0 <= i <= j < books.len(),
                rows == books.deep_view(),
                forall|a: int|
                    0 <= a < i ==> (#[trigger] rows[a]).data.id != rows[j as int].data.id,
            decreases j - i,
        {
            if books[i].book.id == books[j].book.id {
                assert(rows[i as int].data.id == rows[j as int].data.id);
                return false;
            }
            i += 1;
        }
        j += 1;
    }
    true
}

/// Tells whether every book refers to one of the authors.
fn references_hold(authors: &Vec<DBAuthor>, books: &Vec<BookRecord>) -> (b: bool)
    ensures
        b == Tables::loaded(authors.deep_view(), books.deep_view()).references_resolve(),
{
    let ghost tables = Tables::loaded(authors.deep_view(), books.deep_view());
    let mut i: usize = 0;
    while i < books.len()
        invariant
            0 <= i <= books.len(),
            tables == Tables::loaded(authors.deep_view(), books.deep_view()),
            forall|a: int| 0 <= a < i ==> tables.has_author((#[trigger] tables.books[a]).author_id),
        decreases books.len() - i,
    {
        match position_of_key(authors, books[i].author_id) {
            Some(k) => {
                assert(tables.authors[k as int].id == tables.books[i as int].author_id);
            },
            None => {
                assert(!tables.has_author(tables.books[i as int].author_id));
                return false;
            },
        }
        i += 1;
    }
    true
}

/// The greatest number among the rows, and 0 where none is positive.
fn highest(books: &Vec<BookRecord>) -> (top: i32)
    ensures
        top == highest_id(books.deep_view()),
{
    let ghost rows = books.deep_view();
    let mut top: i32 = 0;
    let mut i: usize = 0;
    assert(rows.take(0) =~= Seq::empty());
    while i < books.len()
        invariant
            0 <= i <= books.len(),
            rows == books.deep_view(),
            top == highest_id(rows.take(i as int)),
        decreases books.len() - i,
    {
        assert(rows.take(i + 1).drop_last() =~= rows.take(i as int));
        if books[i].book.id > top {
            top = books[i].book.id;
        }
        i += 1;
    }
    assert(rows.take(i as int) =~= rows);
    top
}

/// The storage, held in memory.
pub struct Database {
    authors: Vec<DBAuthor>,
    books: Vec<BookRecord>,
    last_book_id: i32,
}

impl View for Database {
    type V = Tables;

    closed spec fn view(&self) -> Tables {
        Tables {
            authors: self.authors.deep_view(),
            books: self.books.deep_view(),
            last_book_id: self.last_book_id,
        }
    }
}

impl Database {
    /// What holds of every `Database`: its content is well formed.
    #[verifier::type_invariant]
    pub open spec fn inv(&self) -> bool {
        self@.wf()
    }

    /// An empty storage.
    pub fn new() -> (db: Database)
        ensures
            db@ == Tables::empty(),
    {
        let db = Database { authors: Vec::new(), books: Vec::new(), last_book_id: 0 };
        assert(db@.authors =~= Seq::empty());
        assert(db@.books =~= Seq::empty());
        db
    }

    /// Holds the given rows, if they keep the rules: no key and no number
    /// twice, and no book without its author. Rows that break one are
    /// refused under the message of the first rule broken.
    pub fn from_rows(authors: Vec<DBAuthor>, books: Vec<BookRecord>) -> (r: Result<
        Database,
        DBError,
    >)
        ensures
            match r {
                Ok(db) => db@ == Tables::loaded(authors.deep_view(), books.deep_view())
                    && db@.wf(),
                Err(e) => !Tables::loaded(authors.deep_view(), books.deep_view()).wf()
                    && e.message@ == Tables::loaded(
                    authors.deep_view(),
                    books.deep_view(),
                ).violation(),
            },
    {
        if !keys_differ(&authors) {
            return Err(DBError::new(DUPLICATE_AUTHOR.to_owned()));
        }
        if !ids_differ(&books) {
            return Err(DBError::new(DUPLICATE_BOOK.to_owned()));
        }
        if !references_hold(&authors, &books) {
            return Err(DBError::new(MISSING_AUTHOR.to_owned()));
        }
        let last_book_id = highest(&books);
        proof {
            lemma_highest_id_bounds(books.deep_view());
        }
        Ok(Database { authors, books, last_book_id })
    }

    /// All author rows, in stored order.
    pub fn authors(&self) -> (rows: &Vec<DBAuthor>)
        ensures
            rows.deep_view() == self@.authors,
    {
        &self.authors
    }

    /// All book rows, in stored order.
    pub fn books(&self) -> (rows: &Vec<BookRecord>)
        ensures
            rows.deep_view() == self@.books,
    {
        &self.books
    }

    /// Looks an author up by key.
    pub fn select_author(&self, key: u128) -> (found: Option<&DBAuthor>)
        ensures
            match found {
                Some(row) => self@.author(key) == Some(row@),
                None => self@.author(key).is_none(),
            },
    {
        proof {
            use_type_invariant(self);
        }
        match position_of_key(&self.authors, key) {
            Some(i) => {
                assert(self@.authors[i as int].id == key);
                Some(&self.authors[i])
            },
            None => {
                assert forall|j: int| 0 <= j < self@.authors.len() implies (
                #[trigger] self@.authors[j]).id != key by {
                    assert(self.authors[j].id != key);
                }
                None
            },
        }
    }

    /// Looks a book up by ISBN. Where several rows have it, the one stored
    /// first is found.
    pub fn select_book(&self, isbn: &str) -> (found: Option<&DBBook>)
        ensures
            match found {
                Some(row) => self@.book(isbn@) matches Some(first) && first.data == row@,
                None => self@.book(isbn@).is_none(),
            },
    {
        let wanted: String = isbn.to_owned();
        let mut i: usize = 0;
        while i < self.books.len()
            invariant
                0 <= i <= self.books.len(),
                wanted@ == isbn@,
                forall|j: int| 0 <= j < i ==> (#[trigger] self@.books[j]).data.isbn != isbn@,
            decreases self.books.len() - i,
        {
            if self.books[i].book.isbn == wanted {
                assert(self@.books[i as int].data == self.books[i as int].book@);
                proof {
                    self@.lemma_first_with_isbn(i as int, isbn@);
                }
                return Some(&self.books[i].book);
            }
            assert(self@.books[i as int].data.isbn != isbn@);
            i += 1;
        }
        assert forall|k: int| !self@.first_with_isbn(k, isbn@) by {
            if 0 <= k < self@.books.len() {
                assert(self@.books[k].data.isbn != isbn@);
            }
        }
        None
    }

    /// Looks up the author that the book with this number belongs to. None
    /// is found if, and only if, no book has the number.
    pub fn select_author_of(&self, book_id: i32) -> (found: Option<&DBAuthor>)
        ensures
            match found {
                Some(row) => self@.owner(book_id) == Some(row@),
                None => self@.owner(book_id).is_none(),
            },
            found.is_some() == self@.has_book(book_id),
    {
        proof {
            use_type_invariant(self);
        }
        match position_of_id(&self.books, book_id) {
            Some(i) => {
                assert(self@.books[i as int].data.id == book_id);
                let found = self.select_author(self.books[i].author_id);
                assert(self@.has_author(self@.books[i as int].author_id));
                found
            },
            None => {
                assert forall|j: int| 0 <= j < self@.books.len() implies (
                #[trigger] self@.books[j]).data.id != book_id by {
                    assert(self.books[j].book.id != book_id);
                }
                None
            },
        }
    }

    /// The books of the author with this key, in stored order.
    pub fn select_books_of(&self, key: u128) -> (rows: Vec<&DBBook>)
        ensures
            rows.deep_view() == self@.books_of(key),
    {
        let mut rows: Vec<&DBBook> = Vec::new();
        let mut i: usize = 0;
        assert(self@.books.take(0) =~= Seq::empty());
        assert(Seq::<BookRow>::empty().filter(owned_by(key)) =~= Seq::empty()) by {
            reveal(Seq::filter);
        }
        assert(rows.deep_view() =~= Seq::<BookRow>::empty().map_values(data_of()));
        while i < self.books.len()
            invariant
                0 <= i <= self.books.len(),
                rows.deep_view() == self@.books.take(i as int).filter(
                    owned_by(key),
                ).map_values(data_of()),
            decreases self.books.len() - i,
        {
            let ghost seen = self@.books.take(i as int);
            let ghost kept = rows.deep_view();
            proof {
                assert(self@.books.take(i + 1) =~= seen.push(self@.books[i as int]));
                seen.lemma_filter_push(self@.books[i as int], owned_by(key));
            }
            if self.books[i].author_id == key {
                rows.push(&self.books[i].book);
                assert(rows.deep_view() =~= kept.push(self@.books[i as int].data));
                assert(seen.filter(owned_by(key)).push(self@.books[i as int]).map_values(data_of())
                    =~= seen.filter(owned_by(key)).map_values(data_of()).push(
                    self@.books[i as int].data,
                ));
            }
            i += 1;
        }
        assert(self@.books.take(i as int) =~= self@.books);
        rows
    }

    /// Tells whether an author with this key is stored.
    pub fn author_exists(&self, key: u128) -> (b: bool)
        ensures
            b == self@.has_author(key),
    {
        self.select_author(key).is_some()
    }

    /// Stores one more author row. A key that is already in the table is
    /// refused, and the table stays as it is.
    pub fn insert_author(&mut self, row: DBAuthor) -> (r: Result<(), DBError>)
        ensures
            match r {
                Ok(_) => !old(self)@.has_author(row.id) && final(self)@ == old(self)@.with_author(
                    row@,
                ),
                Err(e) => old(self)@.has_author(row.id) && final(self)@ == old(self)@
                    && e.message@ == DUPLICATE_AUTHOR@,
            },
    {
        proof {
            use_type_invariant(&*self);
        }
        if self.author_exists(row.id) {
            return Err(DBError::new(DUPLICATE_AUTHOR.to_owned()));
        }
        let ghost before = self@;
        let ghost added = row@;
        // The rows are taken out, extended and put back, so that `self` is
        // well formed at every step.
        let mut held = Database::new();
        core::mem::swap(self, &mut held);
        let Database { mut authors, books, last_book_id } = held;
        authors.push(row);
        proof {
            let after = Database { authors, books, last_book_id }@;
            assert(after.authors =~= before.authors.push(added));
            assert(after.books =~= before.books);
            before.lemma_with_author_wf(added);
        }
        *self = Database { authors, books, last_book_id };
        Ok(())
    }

    /// Stores one more book under the next number and hands the number
    /// back. A book whose author is not there is refused, and so is any
    /// book once the numbers have run out; the table then stays as it is.
    pub fn insert_book(&mut self, book: NewBook) -> (r: Result<i32, DBError>)
        ensures
            match r {
                Ok(id) => {
                    &&& old(self)@.has_author(book.author_id)
                    &&& old(self)@.last_book_id < i32::MAX
                    &&& id == old(self)@.next_book_id()
                    &&& final(self)@ == old(self)@.with_book(book@)
                },
                Err(e) => {
                    &&& final(self)@ == old(self)@
                    &&& if !old(self)@.has_author(book.author_id) {
                        e.message@ == MISSING_AUTHOR@
                    } else {
                        old(self)@.last_book_id == i32::MAX && e.message@ == EXHAUSTED@
                    }
                },
            },
    {
        proof {
            use_type_invariant(&*self);
        }
        if !self.author_exists(book.author_id) {
            return Err(DBError::new(MISSING_AUTHOR.to_owned()));
        }
        if self.last_book_id == i32::MAX {
            return Err(DBError::new(EXHAUSTED.to_owned()));
        }
        let ghost before = self@;
        let ghost added = book@;
        let mut held = Database::new();
        core::mem::swap(self, &mut held);
        let Database { authors, mut books, last_book_id } = held;
        let id: i32 = last_book_id + 1;
        books.push(
            BookRecord {
                author_id: book.author_id,
                book: DBBook {
                    id,
                    isbn: book.isbn,
                    title: book.title,
                    description: book.description,
                    binding: book.binding,
                },
            },
        );
        proof {
            let after = Database { authors, books, last_book_id: id }@;
            assert(after.authors =~= before.authors);
            assert(after.books =~= before.books.push(added.numbered(id)));
            before.lemma_with_book_wf(added);
        }
        *self = Database { authors, books, last_book_id: id };
        Ok(id)
    }
}

} // verus!
