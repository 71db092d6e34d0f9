//! Predicates over one row: numeric comparisons, string equality, and `and` /
//! `or` of two predicates, evaluated left to right with short circuit.

use vstd::prelude::*;
use crate::error::{EvalFault, QueryError, QueryErrorView};
use crate::text::{parse_unsigned, same_text, texts, unsigned_of};

verus! {

#[derive(Clone, Copy, Debug, PartialEq, Eq, Structural)]
pub enum NumberOp {
    LT,
    LEQ,
    GT,
    GEQ,
    EQ,
}

impl NumberOp {
    /// What the operator says of `left` and `right`.
    pub open spec fn holds(self, left: usize, right: usize) -> bool {
        match self {
            NumberOp::LT => left < right,
            NumberOp::LEQ => left <= right,
            NumberOp::GT => left > right,
            NumberOp::GEQ => left >= right,
            NumberOp::EQ => left == right,
        }
    }
}

#[derive(Clone, Copy, Debug, PartialEq, Eq, Structural)]
pub enum LogicalOp {
    And,
    Or,
}

/// Compares the field in column `col`, read as a number, with `val`.
#[derive(Debug)]
pub struct NumberFilter {
    pub col: usize,
    pub op: NumberOp,
    pub val: usize,
}

/// Holds of a row whose field in column `col` is exactly `val`.
#[derive(Debug)]
pub struct StringFilter {
    pub col: usize,
    pub val: String,
}

/// Two predicates joined by `and` or `or`; it owns both.
#[derive(Debug)]
pub struct LogicalFilter {
    pub f1: Box<FilterRule>,
    pub op: LogicalOp,
    pub f2: Box<FilterRule>,
}

/// A predicate tree.
#[derive(Debug)]
pub enum FilterRule {
    Number(NumberFilter),
    Text(StringFilter),
    Logical(LogicalFilter),
}

/// The mathematical form of a predicate tree.
#[allow(inconsistent_fields)]
pub ghost enum Predicate {
    Number { col: usize, op: NumberOp, val: usize },
    Text { col: usize, val: Seq<char> },
    Logical { left: Box<Predicate>, op: LogicalOp, right: Box<Predicate> },
}

/// Whether the left operand alone decides `op`.
pub open spec fn decided_by_left(op: LogicalOp, left: bool) -> bool {
    match op {
        LogicalOp::And => !left,
        LogicalOp::Or => left,
    }
}

/// The value of predicate `p` on `row`, or why it has none. Under `and` and
/// `or` the right operand counts only where the left one does not decide.
pub open spec fn eval(p: Predicate, row: Seq<Seq<char>>) -> Result<bool, EvalFault>
    decreases p,
{
    match p {
        Predicate::Number { col, op, val } => {
            if col >= row.len() {
                Err(EvalFault::MissingField { col })
            } else {
                match unsigned_of(row[col as int]) {
                    Some(n) => Ok(op.holds(n, val)),
                    None => Err(EvalFault::NotANumber { col }),
                }
            }
        },
        Predicate::Text { col, val } => {
            if col >= row.len() {
                Err(EvalFault::MissingField { col })
            } else {
                Ok(row[col as int] == val)
            }
        },
        Predicate::Logical { left, op, right } => {
            match eval(*left, row) {
                Err(e) => Err(e),
                Ok(l) => if decided_by_left(op, l) {
                    Ok(l)
                } else {
                    eval(*right, row)
                },
            }
        },
    }
}

/// Whether every column that `p` reads is below `width`.
pub open spec fn reads_within(p: Predicate, width: nat) -> bool
    decreases p,
{
    match p {
        Predicate::Number { col, op, val } => col < width,
        Predicate::Text { col, val } => col < width,
        Predicate::Logical { left, op, right } => reads_within(*left, width) && reads_within(
            *right,
            width,
        ),
    }
}

/// An evaluation's outcome as a query's outcome.
pub open spec fn as_query_outcome(r: Result<bool, EvalFault>) -> Result<bool, QueryErrorView> {
    match r {
        Ok(b) => Ok(b),
        Err(f) => Err(QueryErrorView::QueryFailed(f)),
    }
}

/// What an executable evaluation returned, with the error by its view.
pub open spec fn outcome(r: Result<bool, QueryError>) -> Result<bool, QueryErrorView> {
    match r {
        Ok(b) => Ok(b),
        Err(e) => Err(e@),
    }
}

impl View for NumberFilter {
    type V = Predicate;

    open spec fn view(&self) -> Predicate {
        Predicate::Number { col: self.col, op: self.op, val: self.val }
    }
}

impl View for StringFilter {
    type V = Predicate;

    open spec fn view(&self) -> Predicate {
        Predicate::Text { col: self.col, val: self.val@ }
    }
}

impl FilterRule {
    pub open spec fn model(self) -> Predicate
        decreases self,
    {
        match self {
            FilterRule::Number(f) => f@,
            FilterRule::Text(f) => f@,
            FilterRule::Logical(f) => Predicate::Logical {
                left: Box::new((*f.f1).model()),
                op: f.op,
                right: Box::new((*f.f2).model()),
            },
        }
    }
}

impl View for FilterRule {
    type V = Predicate;

    open spec fn view(&self) -> Predicate {
        self.model()
    }
}

impl View for LogicalFilter {
    type V = Predicate;

    open spec fn view(&self) -> Predicate {
        Predicate::Logical {
            left: Box::new((*self.f1).model()),
            op: self.op,
            right: Box::new((*self.f2).model()),
        }
    }
}

impl NumberOp {
    /// Applies the operator.
    pub fn apply(&self, left: usize, right: usize) -> (r: bool)
        ensures
            r == self.holds(left, right),
    {
        match self {
            NumberOp::LT => left < right,
            NumberOp::LEQ => left <= right,
            NumberOp::GT => left > right,
            NumberOp::GEQ => left >= right,
            NumberOp::EQ => left == right,
        }
    }
}

impl NumberFilter {
    /// Reads the field in column `col` as an unsigned number and compares it
    /// with `val`. Fails where the row has no such field or the field is no
    /// number.
    pub fn filter(&self, x: &Vec<String>) -> (r: Result<bool, QueryError>)
        ensures
            outcome(r) == as_query_outcome(eval(self@, texts(x@))),
    {
        if self.col >= x.len() {
            return Err(QueryError::QueryFailed(EvalFault::MissingField { col: self.col }));
        }
        match parse_unsigned(x[self.col].as_str()) {
            Some(num) => Ok(self.op.apply(num, self.val)),
            None => Err(QueryError::QueryFailed(EvalFault::NotANumber { col: self.col })),
        }
    }
}

impl StringFilter {
    /// Whether the field in column `col` is exactly `val`. Fails only where
    /// the row has no such field.
    pub fn filter(&self, x: &Vec<String>) -> (r: Result<bool, QueryError>)
        ensures
            outcome(r) == as_query_outcome(eval(self@, texts(x@))),
            self.col < x@.len() ==> r is Ok,
    {
        if self.col >= x.len() {
            return Err(QueryError::QueryFailed(EvalFault::MissingField { col: self.col }));
        }
        Ok(same_text(x[self.col].as_str(), self.val.as_str()))
    }
}

impl LogicalFilter {
    /// Evaluates the left operand, and the right one only where the left one
    /// does not decide. The first error ends the evaluation.
    pub fn filter(&self, x: &Vec<String>) -> (r: Result<bool, QueryError>)
        ensures
            outcome(r) == as_query_outcome(eval(self@, texts(x@))),
        decreases self,
    {
        let r1 = self.f1.filter(x)?;
        let decided = match self.op {
            LogicalOp::And => !r1,
            LogicalOp::Or => r1,
        };
        if decided {
            Ok(r1)
        } else {
            self.f2.filter(x)
        }
    }
}

impl FilterRule {
    /// Evaluates the predicate on one row.
    pub fn filter(&self, x: &Vec<String>) -> (r: Result<bool, QueryError>)
        ensures
            outcome(r) == as_query_outcome(eval(self@, texts(x@))),
        decreases self,
    {
        match self {
            FilterRule::Number(f) => f.filter(x),
            FilterRule::Text(f) => f.filter(x),
            FilterRule::Logical(f) => f.filter(x),
        }
    }
}

/// Under `and`, a left operand that is false decides: the result is false
/// whatever the right operand is, also where the right one alone would fail.
pub proof fn lemma_and_short_circuits(left: Predicate, right: Predicate, row: Seq<Seq<char>>)
    requires
        eval(left, row) == Ok::<bool, EvalFault>(false),
    ensures
        eval(
            Predicate::Logical { left: Box::new(left), op: LogicalOp::And, right: Box::new(right) },
            row,
        ) == Ok::<bool, EvalFault>(false),
{
}

/// Under `or`, a left operand that is true decides: the result is true
/// whatever the right operand is.
pub proof fn lemma_or_short_circuits(left: Predicate, right: Predicate, row: Seq<Seq<char>>)
    requires
        eval(left, row) == Ok::<bool, EvalFault>(true),
    ensures
        eval(
            Predicate::Logical { left: Box::new(left), op: LogicalOp::Or, right: Box::new(right) },
            row,
        ) == Ok::<bool, EvalFault>(true),
{
}

/// An error of the left operand is the error of the whole, and the right
/// operand does not count.
pub proof fn lemma_left_error_ends(
    left: Predicate,
    op: LogicalOp,
    right: Predicate,
    row: Seq<Seq<char>>,
)
    requires
        eval(left, row) is Err,
    ensures
        eval(Predicate::Logical { left: Box::new(left), op, right: Box::new(right) }, row) == eval(
            left,
            row,
        ),
{
}

/// On a row that has every column the predicate reads, only a field that is
/// no number can make the evaluation fail.
pub proof fn lemma_eval_within(p: Predicate, row: Seq<Seq<char>>)
    requires
        reads_within(p, row.len()),
    ensures
        match eval(p, row) {
            Ok(_) => true,
            Err(EvalFault::NotANumber { col }) => col < row.len() && unsigned_of(row[col as int])
                is None,
            Err(EvalFault::MissingField { col }) => false,
        },
    decreases p,
{
    match p {
        Predicate::Logical { left, op, right } => {
            lemma_eval_within(*left, row);
            lemma_eval_within(*right, row);
        },
        _ => {},
    }
}

} // verus!
