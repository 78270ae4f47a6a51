//! Errors of SQL parsing and inspection.
use vstd::prelude::*;

verus! {

/// Errors of SQL parsing and inspection.
#[derive(Debug)]
#[non_exhaustive]
pub enum ParserError {
    /// The SQL text could not be turned into one statement.
    ParseSql(String),
    /// The statement is not of a kind the operation supports.
    Validation(String),
    /// An argument is not acceptable.
    InvalidArgument(String),
}

/// The message of a parser error.
pub open spec fn parser_error_message(e: ParserError) -> Seq<char> {
    match e {
        ParserError::ParseSql(m) => "error occurred while parsing SQL: "@ + m@,
        ParserError::Validation(m) => m@,
        ParserError::InvalidArgument(m) => m@,
    }
}

impl ParserError {
    /// A parse error with the given message.
    pub fn parse_sql(msg: &str) -> (r: Self)
        ensures
            r matches ParserError::ParseSql(m) && m@ == msg@,
    {
        ParserError::ParseSql(String::from_str(msg))
    }

    /// A validation error with the given message.
    pub fn error(msg: &str) -> (r: Self)
        ensures
            r matches ParserError::Validation(m) && m@ == msg@,
    {
        ParserError::Validation(String::from_str(msg))
    }

    /// An invalid-argument error with the given message.
    pub fn invalid_argument(msg: &str) -> (r: Self)
        ensures
            r matches ParserError::InvalidArgument(m) && m@ == msg@,
    {
        ParserError::InvalidArgument(String::from_str(msg))
    }

    /// The human-readable message of this error.
    pub fn to_string(&self) -> (r: String)
        ensures
            r@ == parser_error_message(*self),
    {
        match self {
            ParserError::ParseSql(m) => {
                let mut r = String::from_str("error occurred while parsing SQL: ");
                r.append(m.as_str());
                r
            },
            ParserError::Validation(m) => m.clone(),
            ParserError::InvalidArgument(m) => m.clone(),
        }
    }
}

/// The placeholder prefix of the database dialect: `$` (PostgreSQL and
/// SQLite numbering, the default when no MySQL backend is chosen).
pub fn placeholder_prefix() -> (r: &'static str)
    ensures
        r@ == "$"@,
{
    "$"
}

} // verus!
