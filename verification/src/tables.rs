//! The content of the storage as mathematical values: the two tables, what
//! it means for them to be well formed, and what each statement finds in
//! them or makes of them.

use vstd::prelude::*;

use crate::author::AuthorRow;
use crate::binding::Binding;
use crate::book::BookView;

verus! {

/// A stored book as a mathematical value.
pub struct BookRow {
    pub author_id: u128,
    pub data: BookView,
}

/// A book to be stored, as a mathematical value.
pub struct NewBookView {
    pub author_id: u128,
    pub isbn: Seq<char>,
    pub title: Seq<char>,
    pub description: Option<Seq<char>>,
    pub binding: Binding,
}

impl NewBookView {
    /// The row that this book becomes under a number.
    pub open spec fn numbered(self, id: i32) -> BookRow {
        BookRow {
            author_id: self.author_id,
            data: BookView {
                id,
                isbn: self.isbn,
                title: self.title,
                description: self.description,
                binding: self.binding,
            },
        }
    }
}

/// The books that belong to the author with a key.
pub open spec fn owned_by(key: u128) -> spec_fn(BookRow) -> bool {
    |row: BookRow| row.author_id == key
}

/// The columns of a stored book that are read back.
pub open spec fn data_of() -> spec_fn(BookRow) -> BookView {
    |row: BookRow| row.data
}

/// What the storage says of an author whose key is already in the table.
pub const DUPLICATE_AUTHOR: &'static str = "the author key is already in use";

/// What the storage says of a book whose number is already in the table.
pub const DUPLICATE_BOOK: &'static str = "the book number is already in use";

/// What the storage says of a book whose author is not there.
pub const MISSING_AUTHOR: &'static str = "the book refers to an author that does not exist";

/// What the storage says once the numbers of books have run out.
pub const EXHAUSTED: &'static str = "the book numbers are exhausted";

/// No two author rows share a key.
pub open spec fn keys_unique(authors: Seq<AuthorRow>) -> bool {
    forall|i: int, j: int|
        0 <= i < j < authors.len() ==> (#[trigger] authors[i]).id != (#[trigger] authors[j]).id
}

/// No two book rows share a number.
pub open spec fn ids_unique(books: Seq<BookRow>) -> bool {
    forall|i: int, j: int|
        0 <= i < j < books.len() ==> (#[trigger] books[i]).data.id != (#[trigger] books[j]).data.id
}

/// The greatest number among the rows, and 0 where none is positive.
pub open spec fn highest_id(books: Seq<BookRow>) -> i32
    decreases books.len(),
{
    if books.len() == 0 {
        0
    } else {
        let rest = highest_id(books.drop_last());
        if books.last().data.id > rest {
            books.last().data.id
        } else {
            rest
        }
    }
}

/// The content of the storage: the author rows and the book rows, each in
/// the order in which they were stored, and the last number given to a book.
pub struct Tables {
    pub authors: Seq<AuthorRow>,
    pub books: Seq<BookRow>,
    pub last_book_id: i32,
}

impl Tables {
    /// No authors, no books, no number given yet.
    pub open spec fn empty() -> Tables {
        Tables { authors: Seq::empty(), books: Seq::empty(), last_book_id: 0 }
    }

    /// No book has a number beyond the last one given.
    pub open spec fn book_ids_bounded(self) -> bool {
        forall|i: int|
            0 <= i < self.books.len() ==> (#[trigger] self.books[i]).data.id <= self.last_book_id
    }

    /// Every book refers to an author that is there.
    pub open spec fn references_resolve(self) -> bool {
        forall|i: int|
            0 <= i < self.books.len() ==> self.has_author((#[trigger] self.books[i]).author_id)
    }

    /// The integrity of the storage.
    pub open spec fn wf(self) -> bool {
        &&& keys_unique(self.authors)
        &&& ids_unique(self.books)
        &&& self.book_ids_bounded()
        &&& self.references_resolve()
    }

    /// Whether an author row has this key.
    pub open spec fn has_author(self, key: u128) -> bool {
        exists|i: int| 0 <= i < self.authors.len() && (#[trigger] self.authors[i]).id == key
    }

    /// The author row with this key, if there is one.
    pub open spec fn author(self, key: u128) -> Option<AuthorRow> {
        if self.has_author(key) {
            Some(
                self.authors[choose|i: int|
                    0 <= i < self.authors.len() && (#[trigger] self.authors[i]).id == key],
            )
        } else {
            None
        }
    }

    /// Whether a book row has this number.
    pub open spec fn has_book(self, id: i32) -> bool {
        exists|i: int| 0 <= i < self.books.len() && (#[trigger] self.books[i]).data.id == id
    }

    /// The book row with this number, if there is one.
    pub open spec fn book_numbered(self, id: i32) -> Option<BookRow> {
        if self.has_book(id) {
            Some(
                self.books[choose|i: int|
                    0 <= i < self.books.len() && (#[trigger] self.books[i]).data.id == id],
            )
        } else {
            None
        }
    }

    /// Whether row `i` is the first book row with this ISBN.
    pub open spec fn first_with_isbn(self, i: int, isbn: Seq<char>) -> bool {
        &&& 0 <= i < self.books.len()
        &&& self.books[i].data.isbn == isbn
        &&& forall|j: int| 0 <= j < i ==> (#[trigger] self.books[j]).data.isbn != isbn
    }

    /// The first book row with this ISBN, if any row has it. ISBNs are not
    /// kept unique, so later rows may share it.
    pub open spec fn book(self, isbn: Seq<char>) -> Option<BookRow> {
        if exists|i: int| self.first_with_isbn(i, isbn) {
            Some(self.books[choose|i: int| self.first_with_isbn(i, isbn)])
        } else {
            None
        }
    }

    /// The author that the book with this number belongs to: the join of the
    /// two tables on the author's key, narrowed to the book.
    pub open spec fn owner(self, book_id: i32) -> Option<AuthorRow> {
        match self.book_numbered(book_id) {
            Some(row) => self.author(row.author_id),
            None => None,
        }
    }

    /// The books of the author with this key, in stored order: the join of
    /// the two tables on the author's key, narrowed to the author.
    pub open spec fn books_of(self, key: u128) -> Seq<BookView> {
        self.books.filter(owned_by(key)).map_values(data_of())
    }

    /// All books, in stored order.
    pub open spec fn all_books(self) -> Seq<BookView> {
        self.books.map_values(data_of())
    }

    /// The tables after one more author row.
    pub open spec fn with_author(self, row: AuthorRow) -> Tables {
        Tables { authors: self.authors.push(row), ..self }
    }

    /// The number that the next book gets.
    pub open spec fn next_book_id(self) -> i32 {
        (self.last_book_id + 1) as i32
    }

    /// The tables after one more book, stored under the next number.
    pub open spec fn with_book(self, book: NewBookView) -> Tables {
        Tables {
            books: self.books.push(book.numbered(self.next_book_id())),
            last_book_id: self.next_book_id(),
            ..self
        }
    }

    /// The tables that hold the given rows. The last number given is taken
    /// to be the greatest one among the books.
    pub open spec fn loaded(authors: Seq<AuthorRow>, books: Seq<BookRow>) -> Tables {
        Tables { authors, books, last_book_id: highest_id(books) }
    }

    /// The message of the first rule that rows break: keys of authors
    /// first, then numbers of books, then the books' references.
    pub open spec fn violation(self) -> Seq<char> {
        if !keys_unique(self.authors) {
            DUPLICATE_AUTHOR@
        } else if !ids_unique(self.books) {
            DUPLICATE_BOOK@
        } else {
            MISSING_AUTHOR@
        }
    }
}


/// No number among the rows is greater than `highest_id`.
pub proof fn lemma_highest_id_bounds(books: Seq<BookRow>)
    ensures
        forall|i: int| 0 <= i < books.len() ==> (#[trigger] books[i]).data.id <= highest_id(books),
    decreases books.len(),
{
    if books.len() > 0 {
        lemma_highest_id_bounds(books.drop_last());
        assert forall|i: int| 0 <= i < books.len() implies (#[trigger] books[i]).data.id
            <= highest_id(books) by {
            if i < books.len() - 1 {
                assert(books.drop_last()[i] == books[i]);
            }
        }
    }
}

impl Tables {
    /// In well-formed tables, a key finds the one row that has it.
    pub proof fn lemma_author_at(self, i: int)
        requires
            self.wf(),
            0 <= i < self.authors.len(),
        ensures
            self.has_author(self.authors[i].id),
            self.author(self.authors[i].id) == Some(self.authors[i]),
    {
    }

    /// In well-formed tables, a number finds the one row that has it.
    pub proof fn lemma_book_at(self, i: int)
        requires
            self.wf(),
            0 <= i < self.books.len(),
        ensures
            self.has_book(self.books[i].data.id),
            self.book_numbered(self.books[i].data.id) == Some(self.books[i]),
    {
    }

    /// The first row with an ISBN is the one that the ISBN finds.
    pub proof fn lemma_first_with_isbn(self, i: int, isbn: Seq<char>)
        requires
            self.first_with_isbn(i, isbn),
        ensures
            self.book(isbn) == Some(self.books[i]),
    {
        let k = choose|k: int| self.first_with_isbn(k, isbn);
        if k < i {
            assert(self.books[k].data.isbn != isbn);
        }
        if i < k {
            assert(self.books[i].data.isbn == isbn);
        }
    }

    /// One more author, under a key that is free, keeps the tables well
    /// formed.
    pub proof fn lemma_with_author_wf(self, row: AuthorRow)
        requires
            self.wf(),
            !self.has_author(row.id),
        ensures
            self.with_author(row).wf(),
            forall|key: u128|
                self.has_author(key) ==> #[trigger] self.with_author(row).has_author(key),
    {
        let after = self.with_author(row);
        assert forall|key: u128| self.has_author(key) implies #[trigger] after.has_author(
            key,
        ) by {
            let k = choose|k: int|
                0 <= k < self.authors.len() && (#[trigger] self.authors[k]).id == key;
            assert(after.authors[k].id == key);
        }
        assert forall|i: int| 0 <= i < after.books.len() implies after.has_author(
            (#[trigger] after.books[i]).author_id,
        ) by {
            let key = self.books[i].author_id;
            assert(self.has_author(key));
            assert(after.has_author(key));
        }
    }

    /// One more book, of an author that is there and while a number is
    /// left, keeps the tables well formed; the number is a new one.
    pub proof fn lemma_with_book_wf(self, book: NewBookView)
        requires
            self.wf(),
            self.has_author(book.author_id),
            self.last_book_id < i32::MAX,
        ensures
            self.with_book(book).wf(),
            !self.has_book(self.next_book_id()),
    {
        let after = self.with_book(book);
        assert forall|i: int| 0 <= i < after.books.len() implies after.has_author(
            (#[trigger] after.books[i]).author_id,
        ) by {
            let key = after.books[i].author_id;
            if i < self.books.len() {
                assert(self.books[i].author_id == key);
            }
            assert(self.has_author(key));
            let k = choose|k: int|
                0 <= k < self.authors.len() && (#[trigger] self.authors[k]).id == key;
            assert(after.authors[k].id == key);
        }
        assert forall|i: int, j: int| 0 <= i < j < after.books.len() implies (
        #[trigger] after.books[i]).data.id != (#[trigger] after.books[j]).data.id by {
            assert(self.books[i].data.id <= self.last_book_id);
        }
        assert forall|i: int| 0 <= i < self.books.len() implies (#[trigger] self.books[i]).data.id
            != self.next_book_id() by {
            assert(self.books[i].data.id <= self.last_book_id);
        }
    }

    /// Among the books of one author, as among all books, no number occurs
    /// twice, and each of them is a stored book of that author.
    pub proof fn lemma_books_of_author(self, key: u128)
        requires
            ids_unique(self.books),
        ensures
            ids_unique(self.books.filter(owned_by(key))),
            forall|j: int|
                0 <= j < self.books.filter(owned_by(key)).len() ==> {
                    &&& self.books.contains(#[trigger] self.books.filter(owned_by(key))[j])
                    &&& self.books.filter(owned_by(key))[j].author_id == key
                },
        decreases self.books.len(),
    {
        let kept = self.books.filter(owned_by(key));
        if self.books.len() == 0 {
            assert(kept.len() == 0) by {
                reveal(Seq::filter);
            }
        } else {
            let last = self.books.last();
            let rest = Tables { books: self.books.drop_last(), ..self };
            assert(rest.books.push(last) =~= self.books);
            rest.books.lemma_filter_push(last, owned_by(key));
            assert forall|i: int, j: int| 0 <= i < j < rest.books.len() implies (
            #[trigger] rest.books[i]).data.id != (#[trigger] rest.books[j]).data.id by {
                assert(rest.books[i] == self.books[i]);
                assert(rest.books[j] == self.books[j]);
            }
            rest.lemma_books_of_author(key);
            let before = rest.books.filter(owned_by(key));
            assert forall|j: int| 0 <= j < kept.len() implies {
                &&& self.books.contains(#[trigger] kept[j])
                &&& kept[j].author_id == key
            } by {
                if j < before.len() {
                    assert(rest.books.contains(before[j]));
                    let k = choose|k: int| 0 <= k < rest.books.len() && rest.books[k] == before[j];
                    assert(self.books[k] == kept[j]);
                } else {
                    assert(kept[j] == self.books[self.books.len() - 1]);
                }
            }
            assert forall|i: int, j: int| 0 <= i < j < kept.len() implies (
            #[trigger] kept[i]).data.id != (#[trigger] kept[j]).data.id by {
                if j == before.len() {
                    assert(rest.books.contains(before[i]));
                    let k = choose|k: int| 0 <= k < rest.books.len() && rest.books[k] == before[i];
                    assert(self.books[k].data.id != self.books[self.books.len() - 1].data.id);
                } else {
                    assert(before[i].data.id != before[j].data.id);
                }
            }
        }
    }
}

} // verus!
