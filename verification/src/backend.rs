//! The database systems a query can be rendered for.
use vstd::prelude::*;

verus! {

/// A database system, as far as rendering a query depends on it.
#[derive(Clone, Copy, Debug, PartialEq, Eq, Structural)]
pub enum Backend {
    /// PostgreSQL: identifiers are quoted with `"`.
    Pg,
    /// SQLite: identifiers are quoted with a backtick.
    Sqlite,
    /// MySQL: identifiers are quoted with a backtick.
    Mysql,
}

impl Backend {
    /// The character that opens and closes a quoted identifier.
    pub open spec fn identifier_quote(self) -> char {
        match self {
            Backend::Pg => '"',
            Backend::Sqlite => '`',
            Backend::Mysql => '`',
        }
    }

    /// Whether the backend has a PostgreSQL-like `ON CONFLICT` clause.
    pub open spec fn supports_on_conflict(self) -> bool {
        match self {
            Backend::Pg => true,
            Backend::Sqlite => true,
            Backend::Mysql => false,
        }
    }

    /// Whether `DEFAULT` may stand for a value in an `INSERT`.
    pub open spec fn supports_default_keyword(self) -> bool {
        match self {
            Backend::Pg => true,
            Backend::Sqlite => false,
            Backend::Mysql => true,
        }
    }

    /// The quote character of identifiers.
    pub fn quote_char(&self) -> (c: char)
        ensures
            c == self.identifier_quote(),
    {
        match self {
            Backend::Pg => '"',
            Backend::Sqlite => '`',
            Backend::Mysql => '`',
        }
    }

    /// Whether `DEFAULT` may stand for a value in an `INSERT`.
    pub fn has_default_keyword(&self) -> (b: bool)
        ensures
            b == self.supports_default_keyword(),
    {
        match self {
            Backend::Sqlite => false,
            _ => true,
        }
    }
}

} // verus!
