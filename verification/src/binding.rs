//! The binding of a book and the tokens that name it at the boundary.

use vstd::prelude::*;

verus! {

/// How a book is bound.
#[derive(Clone, Copy, Debug, PartialEq, Eq, Structural)]
pub enum Binding {
    Hardcover,
    Paperback,
}

impl Binding {
    /// The upper-case token that stands for a binding outside the library.
    pub open spec fn token_text(self) -> Seq<char> {
        match self {
            Binding::Hardcover => "HARDCOVER"@,
            Binding::Paperback => "PAPERBACK"@,
        }
    }

    /// The binding that a token stands for, if it stands for one.
    pub open spec fn of_token(token: Seq<char>) -> Option<Binding> {
        if token == "HARDCOVER"@ {
            Some(Binding::Hardcover)
        } else if token == "PAPERBACK"@ {
            Some(Binding::Paperback)
        } else {
            None
        }
    }

    /// Writes the binding as its token.
    pub fn token(&self) -> (s: &'static str)
        ensures
            s@ == self.token_text(),
    {
        match self {
            Binding::Hardcover => "HARDCOVER",
            Binding::Paperback => "PAPERBACK",
        }
    }

    /// Reads a token. Tokens are case-sensitive; anything but the two
    /// upper-case names is no binding.
    pub fn from_token(token: &str) -> (b: Option<Binding>)
        ensures
            b == Binding::of_token(token@),
    {
        let given: String = token.to_owned();
        if given == "HARDCOVER".to_owned() {
            Some(Binding::Hardcover)
        } else if given == "PAPERBACK".to_owned() {
            Some(Binding::Paperback)
        } else {
            None
        }
    }

    /// Reading the token of a binding gives the binding back.
    pub proof fn token_round_trip(self)
        ensures
            Binding::of_token(self.token_text()) == Some(self),
    {
        reveal_strlit("HARDCOVER");
        reveal_strlit("PAPERBACK");
        assert("HARDCOVER"@[0] == 'H');
        assert("PAPERBACK"@[0] == 'P');
    }
}

} // verus!
