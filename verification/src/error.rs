//! The structured error taxonomy: every parse, codec, catalog and
//! evaluation failure is one of these variants, carrying the offending
//! token, value or line where there is one.

use vstd::prelude::*;

verus! {

/// An error raised while compiling or executing a statement.
#[derive(Debug, PartialEq, Eq, Clone)]
pub enum SqlError {
    /// A state of a command parser met a token it cannot accept.
    SyntaxError(String),
    /// The token stream ended before a command was complete.
    UnexpectedEnd,
    /// The leading token of a statement names no known command.
    UnknownCommand(String),
    /// A column datatype keyword names no known type.
    UnknownType(String),
    /// A literal that should be a byte numeral is not a numeral.
    NotANumber(String),
    /// A byte numeral whose value exceeds 255.
    ValueOutOfRange(String),
    /// An integer field was decoded from an empty byte slice.
    EmptyValue,
    /// A varchar field holds bytes that are not valid UTF-8.
    InvalidUtf8,
    /// A line of a stored table definition cannot be parsed.
    CatalogCorrupt(String),
    /// An INSERT names no value for this table column.
    MissingColumnValue(String),
    /// A predicate still holds a column reference after binding.
    UnboundColumn,
    /// A predicate compares two values of differing kinds.
    TypeMismatch,
    /// A predicate applies an operator its operand kind does not allow.
    InvalidOperator,
}

/// Mathematical image of an [`SqlError`].
pub enum ErrorV {
    SyntaxError(Seq<char>),
    UnexpectedEnd,
    UnknownCommand(Seq<char>),
    UnknownType(Seq<char>),
    NotANumber(Seq<char>),
    ValueOutOfRange(Seq<char>),
    EmptyValue,
    InvalidUtf8,
    CatalogCorrupt(Seq<char>),
    MissingColumnValue(Seq<char>),
    UnboundColumn,
    TypeMismatch,
    InvalidOperator,
}

impl View for SqlError {
    type V = ErrorV;

    open spec fn view(&self) -> ErrorV {
        match self {
            SqlError::SyntaxError(t) => ErrorV::SyntaxError(t@),
            SqlError::UnexpectedEnd => ErrorV::UnexpectedEnd,
            SqlError::UnknownCommand(t) => ErrorV::UnknownCommand(t@),
            SqlError::UnknownType(t) => ErrorV::UnknownType(t@),
            SqlError::NotANumber(t) => ErrorV::NotANumber(t@),
            SqlError::ValueOutOfRange(t) => ErrorV::ValueOutOfRange(t@),
            SqlError::EmptyValue => ErrorV::EmptyValue,
            SqlError::InvalidUtf8 => ErrorV::InvalidUtf8,
            SqlError::CatalogCorrupt(t) => ErrorV::CatalogCorrupt(t@),
            SqlError::MissingColumnValue(t) => ErrorV::MissingColumnValue(t@),
            SqlError::UnboundColumn => ErrorV::UnboundColumn,
            SqlError::TypeMismatch => ErrorV::TypeMismatch,
            SqlError::InvalidOperator => ErrorV::InvalidOperator,
        }
    }
}

/// The human-readable text of an error, as sent back to a client.
pub open spec fn message_spec(e: ErrorV) -> Seq<char> {
    match e {
        ErrorV::SyntaxError(t) => "Unexpected token at or near '"@ + t + "'"@,
        ErrorV::UnexpectedEnd => "Unexpected end of statement"@,
        ErrorV::UnknownCommand(t) => "Unknown command '"@ + t + "'"@,
        ErrorV::UnknownType(t) => "Unknown data type '"@ + t + "'"@,
        ErrorV::NotANumber(t) => "Not a number: '"@ + t + "'"@,
        ErrorV::ValueOutOfRange(t) => "Value out of range: '"@ + t + "'"@,
        ErrorV::EmptyValue => "Unable to parse an integer from an empty field"@,
        ErrorV::InvalidUtf8 => "Field holds invalid UTF-8"@,
        ErrorV::CatalogCorrupt(l) => "Corrupt table definition at line '"@ + l + "'"@,
        ErrorV::MissingColumnValue(c) => "INSERT statement is missing data for column '"@ + c
            + "'"@,
        ErrorV::UnboundColumn =>
        "Logical expression has not been properly filled. (Do you have a typo in a column name?)"@,
        ErrorV::TypeMismatch => "Logical expression is comparing 2 differing datatypes"@,
        ErrorV::InvalidOperator => "Invalid operator for datatype"@,
    }
}

impl SqlError {
    /// Renders the error as its client-facing text; see [`message_spec`].
    pub fn message(&self) -> (r: String)
        ensures
            r@ == message_spec(self@),
    {
        match self {
            SqlError::SyntaxError(t) => {
                let mut s = String::from_str("Unexpected token at or near '");
                s.append(t.as_str());
                s.append("'");
                s
            },
            SqlError::UnexpectedEnd => String::from_str("Unexpected end of statement"),
            SqlError::UnknownCommand(t) => {
                let mut s = String::from_str("Unknown command '");
                s.append(t.as_str());
                s.append("'");
                s
            },
            SqlError::UnknownType(t) => {
                let mut s = String::from_str("Unknown data type '");
                s.append(t.as_str());
                s.append("'");
                s
            },
            SqlError::NotANumber(t) => {
                let mut s = String::from_str("Not a number: '");
                s.append(t.as_str());
                s.append("'");
                s
            },
            SqlError::ValueOutOfRange(t) => {
                let mut s = String::from_str("Value out of range: '");
                s.append(t.as_str());
                s.append("'");
                s
            },
            SqlError::EmptyValue => String::from_str(
                "Unable to parse an integer from an empty field",
            ),
            SqlError::InvalidUtf8 => String::from_str("Field holds invalid UTF-8"),
            SqlError::CatalogCorrupt(l) => {
                let mut s = String::from_str("Corrupt table definition at line '");
                s.append(l.as_str());
                s.append("'");
                s
            },
            SqlError::MissingColumnValue(c) => {
                let mut s = String::from_str("INSERT statement is missing data for column '");
                s.append(c.as_str());
                s.append("'");
                s
            },
            SqlError::UnboundColumn => String::from_str(
                "Logical expression has not been properly filled. (Do you have a typo in a column name?)",
            ),
            SqlError::TypeMismatch => String::from_str(
                "Logical expression is comparing 2 differing datatypes",
            ),
            SqlError::InvalidOperator => String::from_str("Invalid operator for datatype"),
        }
    }
}

/// The image of a `Result` under the views of its two sides.
pub open spec fn res_view<T: View, E: View>(r: Result<T, E>) -> Result<T::V, E::V> {
    match r {
        Ok(t) => Ok(t@),
        Err(e) => Err(e@),
    }
}

} // verus!
