//! What holds of the resolvers taken together.
//!
//! Each law is stated of the tables as mathematical values and of the
//! answers that the resolvers' contracts promise. An author is given as the
//! object that the resolvers hand out; its row is the one that stands behind
//! it.

use vstd::prelude::*;

use crate::author::{AddAuthorOutcome, Author, AuthorMutation, AuthorQuery, AuthorView};
use crate::binding::Binding;
use crate::book::{AddBookOutcome, Book, BookMutation, BookQuery};
use crate::ident::{key_token, parsed_key};
use crate::tables::{owned_by, NewBookView, Tables};

verus! {

/// Whether a value stands at exactly one place of a sequence.
pub open spec fn occurs_once<T>(s: Seq<T>, x: T) -> bool {
    exists|i: int|
        {
            &&& 0 <= i < s.len()
            &&& #[trigger] s[i] == x
            &&& forall|j: int| 0 <= j < s.len() && #[trigger] s[j] == x ==> j == i
        }
}

/// From an author object to its row and back gives the object: a
/// well-formed author object is the one that stands for its own row.
pub proof fn law_author_stands_for_its_row(author: AuthorView)
    requires
        author.wf(),
    ensures
        author.stored().exposed() == author,
{
}

/// An author that is stored is found under its identifier, with the names
/// it was stored with, and is among all authors.
pub proof fn law_stored_author_is_found(db: Tables, author: AuthorView)
    requires
        db.wf(),
        author.wf(),
        db.authors.contains(author.stored()),
    ensures
        AuthorQuery::author_spec(db, author.id) matches Ok(Some(found)) && found == author,
        AuthorQuery::authors_spec(db).contains(author),
{
    let i = choose|i: int| 0 <= i < db.authors.len() && db.authors[i] == author.stored();
    db.lemma_author_at(i);
    assert(AuthorQuery::authors_spec(db)[i] == author);
}

/// An author that was just added is found under the identifier that adding
/// it answered, and is among all authors.
pub proof fn law_added_author_is_found(db: Tables, author: AuthorView)
    requires
        db.wf(),
        author.wf(),
        !db.has_author(author.key()),
    ensures
        AuthorMutation::answer(db, author.key()) matches Ok(AddAuthorOutcome::Success(id))
            && id == author.id,
        ({
            let after = AuthorMutation::tables_after(
                db,
                author.key(),
                author.first_name,
                author.last_name,
            );
            &&& after.wf()
            &&& AuthorQuery::author_spec(after, author.id) matches Ok(Some(found)) && found
                == author
            &&& AuthorQuery::authors_spec(after).contains(author)
        }),
{
    let after = db.with_author(author.stored());
    db.lemma_with_author_wf(author.stored());
    assert(after.authors[db.authors.len() as int] == author.stored());
    law_stored_author_is_found(after, author);
}

/// A stored book whose ISBN no earlier book has is found under that ISBN,
/// and its author is the one it was stored for.
pub proof fn law_book_leads_to_author(db: Tables, author: AuthorView, i: int)
    requires
        db.wf(),
        author.wf(),
        db.authors.contains(author.stored()),
        0 <= i < db.books.len(),
        db.books[i].author_id == author.key(),
        db.first_with_isbn(i, db.books[i].data.isbn),
    ensures
        BookQuery::book_spec(db, db.books[i].data.isbn) == Some(db.books[i].data),
        Book::author_spec(db.books[i].data, db) matches Ok(found) && found == author,
{
    db.lemma_first_with_isbn(i, db.books[i].data.isbn);
    law_book_has_its_author(db, author, i);
}

/// The author of a stored book is the one it was stored for, whatever the
/// book's ISBN.
pub proof fn law_book_has_its_author(db: Tables, author: AuthorView, i: int)
    requires
        db.wf(),
        author.wf(),
        db.authors.contains(author.stored()),
        0 <= i < db.books.len(),
        db.books[i].author_id == author.key(),
    ensures
        Book::author_spec(db.books[i].data, db) matches Ok(found) && found == author,
{
    db.lemma_book_at(i);
    let k = choose|k: int| 0 <= k < db.authors.len() && db.authors[k] == author.stored();
    db.lemma_author_at(k);
}

/// The books of an author hold each stored book of that author exactly
/// once.
pub proof fn law_author_lists_book_once(db: Tables, author: AuthorView, i: int)
    requires
        db.wf(),
        author.wf(),
        0 <= i < db.books.len(),
        db.books[i].author_id == author.key(),
    ensures
        Author::books_spec(author, db) matches Ok(books) && occurs_once(books, db.books[i].data),
{
    let key = author.key();
    let kept = db.books.filter(owned_by(key));
    let books = db.books_of(key);
    db.lemma_books_of_author(key);
    db.books.lemma_filter_contains(owned_by(key), i);
    let at = choose|at: int| 0 <= at < kept.len() && kept[at] == db.books[i];
    assert(books[at] == db.books[i].data);
    assert forall|j: int| 0 <= j < books.len() && #[trigger] books[j] == db.books[i].data implies j
        == at by {
        assert(kept[j].data.id == kept[at].data.id);
    }
}

/// Adding a book to an author that does not exist answers with that
/// author's token and leaves the tables, and so the book table, as they
/// were.
pub proof fn law_missing_author_changes_nothing(
    db: Tables,
    author_id: Seq<char>,
    isbn: Seq<char>,
    title: Seq<char>,
    description: Option<Seq<char>>,
    binding: Binding,
)
    requires
        parsed_key(author_id) matches Ok(key) && !db.has_author(key),
    ensures
        BookMutation::add_book_spec(db, author_id, isbn, title, description, binding) matches Ok(
            AddBookOutcome::AuthorNotFound(id),
        ) && parsed_key(author_id) matches Ok(key) && id == key_token(key),
        BookMutation::add_book_tables(db, author_id, isbn, title, description, binding) == db,
{
}

/// Adding a book to an author that exists, while a number is left, answers
/// with a number that no book had, and stores exactly one more row: the
/// book under that number. The authors stay as they were.
pub proof fn law_existing_author_gets_book(
    db: Tables,
    author_id: Seq<char>,
    isbn: Seq<char>,
    title: Seq<char>,
    description: Option<Seq<char>>,
    binding: Binding,
)
    requires
        db.wf(),
        parsed_key(author_id) matches Ok(key) && db.has_author(key),
        db.last_book_id < i32::MAX,
    ensures
        ({
            let after = BookMutation::add_book_tables(
                db,
                author_id,
                isbn,
                title,
                description,
                binding,
            );
            &&& BookMutation::add_book_spec(
                db,
                author_id,
                isbn,
                title,
                description,
                binding,
            ) matches Ok(AddBookOutcome::Success(id))
            &&& !db.has_book(id)
            &&& parsed_key(author_id) matches Ok(key)
            &&& after.books == db.books.push(
                NewBookView { author_id: key, isbn, title, description, binding }.numbered(id),
            )
            &&& after.books.len() == db.books.len() + 1
            &&& after.authors == db.authors
            &&& after.wf()
        }),
{
    let key = parsed_key(author_id)->Ok_0;
    db.lemma_with_book_wf(NewBookView { author_id: key, isbn, title, description, binding });
}

/// An identifier that is a key is answered with absence, not with a
/// failure, where no author has the key, and only there.
pub proof fn law_unknown_author_is_absent(db: Tables, id: Seq<char>)
    requires
        db.wf(),
        parsed_key(id).is_ok(),
    ensures
        AuthorQuery::author_spec(db, id) matches Ok(found) && parsed_key(id) matches Ok(key) && (
        found.is_none() <==> !db.has_author(key)),
{
}

/// An ISBN is answered with absence where no book has it, and only there.
pub proof fn law_unknown_book_is_absent(db: Tables, isbn: Seq<char>)
    ensures
        BookQuery::book_spec(db, isbn).is_none() <==> forall|i: int|
            0 <= i < db.books.len() ==> (#[trigger] db.books[i]).data.isbn != isbn,
{
    if BookQuery::book_spec(db, isbn).is_none() {
        assert forall|i: int| 0 <= i < db.books.len() implies (#[trigger] db.books[i]).data.isbn
            != isbn by {
            if db.books[i].data.isbn == isbn {
                lemma_some_book_is_first(db, isbn, i);
            }
        }
    } else {
        let k = choose|k: int| db.first_with_isbn(k, isbn);
        assert(db.books[k].data.isbn == isbn);
    }
}

/// Where a book has an ISBN, some book is the first to have it.
proof fn lemma_some_book_is_first(db: Tables, isbn: Seq<char>, i: int)
    requires
        0 <= i < db.books.len(),
        db.books[i].data.isbn == isbn,
    ensures
        exists|k: int| db.first_with_isbn(k, isbn),
    decreases i,
{
    if exists|j: int| 0 <= j < i && (#[trigger] db.books[j]).data.isbn == isbn {
        let j = choose|j: int| 0 <= j < i && (#[trigger] db.books[j]).data.isbn == isbn;
        lemma_some_book_is_first(db, isbn, j);
    } else {
        assert(db.first_with_isbn(i, isbn));
    }
}

/// From all books to a book's author and on to that author's books, the
/// walk comes back to the book: after an author and then a book of that
/// author are added, the book is among all books, its author is the author
/// added, and that author's books hold the book.
pub proof fn law_traversal_returns_to_book(db: Tables, author: AuthorView, book: NewBookView)
    requires
        db.wf(),
        author.wf(),
        !db.has_author(author.key()),
        book.author_id == author.key(),
        db.last_book_id < i32::MAX,
    ensures
        ({
            let with_author = AuthorMutation::tables_after(
                db,
                author.key(),
                author.first_name,
                author.last_name,
            );
            let after = BookMutation::tables_after(with_author, book);
            let added = book.numbered(with_author.next_book_id()).data;
            &&& after.wf()
            &&& BookQuery::books_spec(after).contains(added)
            &&& Book::author_spec(added, after) matches Ok(found) && found == author
            &&& Author::books_spec(author, after) matches Ok(books) && books.contains(added)
        }),
{
    let with_author = db.with_author(author.stored());
    db.lemma_with_author_wf(author.stored());
    assert(with_author.authors[db.authors.len() as int] == author.stored());
    assert(with_author.has_author(author.key()));
    let after = with_author.with_book(book);
    with_author.lemma_with_book_wf(book);
    let at = db.books.len() as int;
    let added = book.numbered(with_author.next_book_id()).data;
    assert(after.books[at].data == added);
    assert(after.authors[db.authors.len() as int] == author.stored());
    assert(BookQuery::books_spec(after)[at] == added);
    law_book_has_its_author(after, author, at);
    law_author_lists_book_once(after, author, at);
}

} // verus!
