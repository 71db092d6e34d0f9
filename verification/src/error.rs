//! The errors a query can end in, and the five classes they fall into.

use vstd::prelude::*;

verus! {

/// Why the lexer stopped.
#[derive(Clone, Copy, Debug, PartialEq, Eq, Structural)]
pub enum LexFault {
    /// A character that starts no token.
    InvalidCharacter(char),
    /// A `"` without a closing `"`.
    UnterminatedString,
    /// A `=` that is not followed by a second `=`.
    SingleEquals,
}

/// Which rule of the grammar the tokens broke.
#[derive(Clone, Copy, Debug, PartialEq, Eq, Structural)]
pub enum SyntaxFault {
    /// The tokens ended where one more was expected.
    UnexpectedEof,
    MissingSelect,
    ExpectedColumn,
    ExpectedColumnAfterComma,
    MissingFrom,
    ExpectedDataset,
    ExpectedFilterColumn,
    /// The token after the column of a comparison is no operator.
    ExpectedOperator,
    /// The right-hand side of a comparison is neither a number nor a string.
    InvalidFilterValue,
    /// `and` / `or` was expected between two comparisons.
    ExpectedLogicalOp,
}

/// Why a predicate could not be evaluated on a row.
#[derive(Clone, Copy, Debug, PartialEq, Eq, Structural)]
pub enum EvalFault {
    /// The field in column `col` is compared as a number and is none.
    NotANumber { col: usize },
    /// The row has no field in column `col`.
    MissingField { col: usize },
}

/// The class of an error.
#[derive(Clone, Copy, Debug, PartialEq, Eq, Structural)]
pub enum ErrorClass {
    Lex,
    Syntax,
    Semantic,
    Eval,
    Storage,
}

#[derive(Clone, Debug, PartialEq, Eq)]
pub enum QueryError {
    BadSyntax(SyntaxFault),
    BadLex(LexFault),
    /// A number literal that does not fit; carries the literal.
    NumParseError(String),
    /// A column name that the dataset's header does not hold.
    UnknownColumn(String),
    /// A dataset name that the registry does not hold.
    UnknownDataset(String),
    /// A string compared with a numeric operator, or a number with `is`.
    TypeMismatch,
    QueryFailed(EvalFault),
    /// The dataset is known, but its rows were not handed over yet.
    NotLoaded(String),
    FileError(String),
    BadCSV(String),
}

/// What a `QueryError` says, with its texts as sequences of characters.
pub ghost enum QueryErrorView {
    BadSyntax(SyntaxFault),
    BadLex(LexFault),
    NumParseError(Seq<char>),
    UnknownColumn(Seq<char>),
    UnknownDataset(Seq<char>),
    TypeMismatch,
    QueryFailed(EvalFault),
    NotLoaded(Seq<char>),
    FileError(Seq<char>),
    BadCSV(Seq<char>),
}

impl QueryErrorView {
    pub open spec fn class(self) -> ErrorClass {
        match self {
            QueryErrorView::BadLex(_) => ErrorClass::Lex,
            QueryErrorView::BadSyntax(_) => ErrorClass::Syntax,
            QueryErrorView::NumParseError(_) => ErrorClass::Semantic,
            QueryErrorView::UnknownColumn(_) => ErrorClass::Semantic,
            QueryErrorView::UnknownDataset(_) => ErrorClass::Semantic,
            QueryErrorView::TypeMismatch => ErrorClass::Semantic,
            QueryErrorView::QueryFailed(_) => ErrorClass::Eval,
            QueryErrorView::NotLoaded(_) => ErrorClass::Storage,
            QueryErrorView::FileError(_) => ErrorClass::Storage,
            QueryErrorView::BadCSV(_) => ErrorClass::Storage,
        }
    }
}

impl View for QueryError {
    type V = QueryErrorView;

    open spec fn view(&self) -> QueryErrorView {
        match self {
            QueryError::BadSyntax(f) => QueryErrorView::BadSyntax(*f),
            QueryError::BadLex(f) => QueryErrorView::BadLex(*f),
            QueryError::NumParseError(s) => QueryErrorView::NumParseError(s@),
            QueryError::UnknownColumn(s) => QueryErrorView::UnknownColumn(s@),
            QueryError::UnknownDataset(s) => QueryErrorView::UnknownDataset(s@),
            QueryError::TypeMismatch => QueryErrorView::TypeMismatch,
            QueryError::QueryFailed(f) => QueryErrorView::QueryFailed(*f),
            QueryError::NotLoaded(s) => QueryErrorView::NotLoaded(s@),
            QueryError::FileError(s) => QueryErrorView::FileError(s@),
            QueryError::BadCSV(s) => QueryErrorView::BadCSV(s@),
        }
    }
}

impl QueryError {
    /// The class of this error: lexical, syntactic, semantic, evaluation or
    /// storage.
    pub fn class(&self) -> (c: ErrorClass)
        ensures
            c == self@.class(),
    {
        match self {
            QueryError::BadLex(_) => ErrorClass::Lex,
            QueryError::BadSyntax(_) => ErrorClass::Syntax,
            QueryError::NumParseError(_) => ErrorClass::Semantic,
            QueryError::UnknownColumn(_) => ErrorClass::Semantic,
            QueryError::UnknownDataset(_) => ErrorClass::Semantic,
            QueryError::TypeMismatch => ErrorClass::Semantic,
            QueryError::QueryFailed(_) => ErrorClass::Eval,
            QueryError::NotLoaded(_) => ErrorClass::Storage,
            QueryError::FileError(_) => ErrorClass::Storage,
            QueryError::BadCSV(_) => ErrorClass::Storage,
        }
    }
}

} // verus!
