//! Authors: the stored row, the object handed out, and their resolvers.

use vstd::prelude::*;

use crate::book::{Book, BookView};
use crate::database::Database;
use crate::error::{outcome, Error, Failure};
use crate::ident::{is_canonical, key_token, names, parse_key, parsed_key, random_key, token_of};
use crate::tables::{Tables, DUPLICATE_AUTHOR};

verus! {

/// An author as stored: one row of the author table.
#[derive(Debug, PartialEq, Eq)]
pub struct DBAuthor {
    pub id: u128,
    pub first_name: String,
    pub last_name: String,
}

/// A stored author as a mathematical value.
pub struct AuthorRow {
    pub id: u128,
    pub first_name: Seq<char>,
    pub last_name: Seq<char>,
}

impl View for DBAuthor {
    type V = AuthorRow;

    open spec fn view(&self) -> AuthorRow {
        AuthorRow { id: self.id, first_name: self.first_name@, last_name: self.last_name@ }
    }
}

impl DeepView for DBAuthor {
    type V = AuthorRow;

    open spec fn deep_view(&self) -> AuthorRow {
        self@
    }
}

impl Clone for DBAuthor {
    fn clone(&self) -> (r: DBAuthor)
        ensures
            r == *self,
    {
        DBAuthor {
            id: self.id,
            first_name: self.first_name.clone(),
            last_name: self.last_name.clone(),
        }
    }
}

/// An author as handed out: the key is an opaque token.
#[derive(Debug, PartialEq, Eq)]
pub struct Author {
    pub id: String,
    pub first_name: String,
    pub last_name: String,
}

/// An author object as a mathematical value.
pub struct AuthorView {
    pub id: Seq<char>,
    pub first_name: Seq<char>,
    pub last_name: Seq<char>,
}

impl View for Author {
    type V = AuthorView;

    open spec fn view(&self) -> AuthorView {
        AuthorView { id: self.id@, first_name: self.first_name@, last_name: self.last_name@ }
    }
}

impl DeepView for Author {
    type V = AuthorView;

    open spec fn deep_view(&self) -> AuthorView {
        self@
    }
}

impl Clone for Author {
    fn clone(&self) -> (r: Author)
        ensures
            r == *self,
    {
        Author {
            id: self.id.clone(),
            first_name: self.first_name.clone(),
            last_name: self.last_name.clone(),
        }
    }
}

impl AuthorRow {
    /// The object that stands for this row outside: the same names, and the
    /// key written as its token.
    pub open spec fn exposed(self) -> AuthorView {
        AuthorView {
            id: key_token(self.id),
            first_name: self.first_name,
            last_name: self.last_name,
        }
    }
}

impl AuthorView {
    /// An author object is well formed when its identifier is the token of
    /// a key, in the form in which tokens are written.
    pub open spec fn wf(self) -> bool {
        is_canonical(self.id)
    }

    /// The key that the identifier names.
    pub open spec fn key(self) -> u128
        recommends
            self.wf(),
    {
        match parsed_key(self.id) {
            Ok(key) => key,
            Err(_) => 0,
        }
    }

    /// The row that stands behind this object.
    pub open spec fn stored(self) -> AuthorRow
        recommends
            self.wf(),
    {
        AuthorRow { id: self.key(), first_name: self.first_name, last_name: self.last_name }
    }
}

/// The objects that stand for a sequence of rows, in the same order.
pub open spec fn exposed_rows(rows: Seq<AuthorRow>) -> Seq<AuthorView> {
    rows.map_values(|row: AuthorRow| row.exposed())
}

impl Author {
    /// Maps a stored row to the object handed out.
    pub fn from_row(row: &DBAuthor) -> (a: Author)
        ensures
            a@ == row@.exposed(),
            a@.wf(),
            a@.stored() == row@,
    {
        Author {
            id: token_of(row.id),
            first_name: row.first_name.clone(),
            last_name: row.last_name.clone(),
        }
    }

    /// What `books` answers: the books of the author that the identifier
    /// names, in stored order, or the failure to read the identifier.
    pub open spec fn books_spec(author: AuthorView, db: Tables) -> Result<Seq<BookView>, Failure> {
        match parsed_key(author.id) {
            Ok(key) => Ok(db.books_of(key)),
            Err(message) => Err(Failure::malformed_id(message)),
        }
    }

    /// The books of this author. Each call reads the storage anew.
    pub fn books(&self, db: &Database) -> (r: Result<Vec<Book>, Error>)
        ensures
            outcome(r) == Author::books_spec(self@, db@),
    {
        match parse_key(self.id.as_str()) {
            Err(message) => Err(Error::malformed_id(message)),
            Ok(key) => {
                let rows = db.select_books_of(key);
                let mut books: Vec<Book> = Vec::new();
                let mut i: usize = 0;
                while i < rows.len()
                    invariant
                        0 <= i <= rows.len(),
                        books.len() == i,
                        forall|j: int| 0 <= j < i ==> (#[trigger] books[j])@ == rows[j]@,
                    decreases rows.len() - i,
                {
                    books.push(Book::from_row(rows[i]));
                    i += 1;
                }
                assert(books.deep_view() =~= rows.deep_view());
                Ok(books)
            },
        }
    }
}

/// The resolvers that read authors.
#[derive(Clone, Copy, Debug, Default)]
pub struct AuthorQuery;

impl AuthorQuery {
    /// What `author` answers: the author with the key that the identifier
    /// names, absence where no author has it, or the failure to read the
    /// identifier.
    pub open spec fn author_spec(db: Tables, id: Seq<char>) -> Result<Option<AuthorView>, Failure> {
        match parsed_key(id) {
            Ok(key) => Ok(
                match db.author(key) {
                    Some(row) => Some(row.exposed()),
                    None => None,
                },
            ),
            Err(message) => Err(Failure::malformed_id(message)),
        }
    }

    /// Looks one author up by identifier.
    pub fn author(&self, db: &Database, id: &str) -> (r: Result<Option<Author>, Error>)
        ensures
            outcome(r) == AuthorQuery::author_spec(db@, id@),
            r matches Ok(Some(a)) ==> a@.wf(),
    {
        match parse_key(id) {
            Err(message) => Err(Error::malformed_id(message)),
            Ok(key) => match db.select_author(key) {
                Some(row) => Ok(Some(Author::from_row(row))),
                None => Ok(None),
            },
        }
    }

    /// What `authors` answers: every author, in stored order.
    pub open spec fn authors_spec(db: Tables) -> Seq<AuthorView> {
        exposed_rows(db.authors)
    }

    /// All authors.
    pub fn authors(&self, db: &Database) -> (r: Vec<Author>)
        ensures
            r.deep_view() == AuthorQuery::authors_spec(db@),
            forall|i: int| 0 <= i < r.len() ==> (#[trigger] r[i])@.wf(),
    {
        let rows = db.authors();
        let mut authors: Vec<Author> = Vec::new();
        let mut i: usize = 0;
        while i < rows.len()
            invariant
                0 <= i <= rows.len(),
                authors.len() == i,
                forall|j: int| 0 <= j < i ==> (#[trigger] authors[j])@ == rows[j]@.exposed(),
                forall|j: int| 0 <= j < i ==> (#[trigger] authors[j])@.wf(),
            decreases rows.len() - i,
        {
            authors.push(Author::from_row(&rows[i]));
            i += 1;
        }
        assert(authors.deep_view() =~= exposed_rows(rows.deep_view()));
        authors
    }
}

/// The identifier of an author that was added.
#[derive(Debug, PartialEq, Eq)]
pub struct AddAuthorSuccess {
    pub id: String,
}

/// How adding an author ended.
#[derive(Debug, PartialEq, Eq)]
pub enum AddAuthorResult {
    Success(AddAuthorSuccess),
}

/// An `AddAuthorResult` as a mathematical value.
pub enum AddAuthorOutcome {
    /// The token of the key under which the author was stored.
    Success(Seq<char>),
}

impl DeepView for AddAuthorResult {
    type V = AddAuthorOutcome;

    open spec fn deep_view(&self) -> AddAuthorOutcome {
        match self {
            AddAuthorResult::Success(success) => AddAuthorOutcome::Success(success.id@),
        }
    }
}

/// The resolvers that add authors.
#[derive(Clone, Copy, Debug, Default)]
pub struct AuthorMutation;

impl AuthorMutation {
    /// The tables after an author was added under a key: one more row, or
    /// the same tables where the key is taken.
    pub open spec fn tables_after(
        db: Tables,
        key: u128,
        first_name: Seq<char>,
        last_name: Seq<char>,
    ) -> Tables {
        if db.has_author(key) {
            db
        } else {
            db.with_author(AuthorRow { id: key, first_name, last_name })
        }
    }

    /// What adding an author under a key answers: the key's token, or the
    /// storage's refusal where the key is taken.
    pub open spec fn answer(db: Tables, key: u128) -> Result<AddAuthorOutcome, Failure> {
        if db.has_author(key) {
            Err(Failure::database(DUPLICATE_AUTHOR@))
        } else {
            Ok(AddAuthorOutcome::Success(key_token(key)))
        }
    }

    /// Adds an author under a given key.
    pub fn add_author_with_key(
        &self,
        db: &mut Database,
        key: u128,
        first_name: String,
        last_name: String,
    ) -> (r: Result<AddAuthorResult, Error>)
        ensures
            outcome(r) == AuthorMutation::answer(old(db)@, key),
            final(db)@ == AuthorMutation::tables_after(old(db)@, key, first_name@, last_name@),
            r matches Ok(AddAuthorResult::Success(s)) ==> names(s.id@, key),
    {
        match db.insert_author(DBAuthor { id: key, first_name, last_name }) {
            Ok(_) => Ok(AddAuthorResult::Success(AddAuthorSuccess { id: token_of(key) })),
            Err(e) => Err(Error::from(e)),
        }
    }

    /// Adds an author under a key drawn at random, and answers with the
    /// key's token. The insert itself is unconditional; only a key that
    /// happens to be taken makes the storage refuse it.
    pub fn add_author(&self, db: &mut Database, first_name: String, last_name: String) -> (r:
        Result<AddAuthorResult, Error>)
        ensures
            exists|key: u128|
                {
                    &&& outcome(r) == AuthorMutation::answer(old(db)@, key)
                    &&& final(db)@ == AuthorMutation::tables_after(
                        old(db)@,
                        key,
                        first_name@,
                        last_name@,
                    )
                },
            match r {
                Ok(AddAuthorResult::Success(s)) => {
                    let added = AuthorView {
                        id: s.id@,
                        first_name: first_name@,
                        last_name: last_name@,
                    };
                    &&& added.wf()
                    &&& !old(db)@.has_author(added.key())
                    &&& final(db)@ == old(db)@.with_author(added.stored())
                },
                Err(e) => final(db)@ == old(db)@ && e@ == Failure::database(DUPLICATE_AUTHOR@),
            },
    {
        let key = random_key();
        let r = self.add_author_with_key(db, key, first_name, last_name);
        assert(outcome(r) == AuthorMutation::answer(old(db)@, key));
        r
    }
}

} // verus!
