//! A verified core for a small catalogue of authors and their books.
//!
//! The catalogue is two tables, one author to many books. `tables` says what
//! they hold and what it means for them to be well formed; `database` keeps
//! them in memory and answers the statements that read and fill them;
//! `author` and `book` hold the objects handed out and the resolvers that
//! produce them; `laws` states what holds of the resolvers taken together.
//! Identifiers cross the boundary as text (`ident`), bindings as upper-case
//! tokens (`binding`), and failures as an `Error` with the message of the
//! layer that failed (`error`).

pub mod author;
pub mod binding;
pub mod book;
pub mod database;
pub mod error;
pub mod ident;
pub mod laws;
pub mod tables;
