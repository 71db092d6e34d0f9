//! The parser: from tokens to a query.
//!
//! ```text
//! query       := "select" column_list "from" identifier [where_clause]
//! column_list := identifier ("," identifier)*
//! where_clause:= "where" predicate
//! predicate   := comparison (("and" | "or") predicate)?
//! comparison  := identifier (numeric_op number | "is" string)
//! ```
//!
//! Parsing has two halves, because the header of the dataset is needed in the
//! middle: `parse_target` reads the columns and the dataset's name, and `parse`
//! takes the header of that dataset, resolves the columns and reads the
//! predicate.

use vstd::prelude::*;
use crate::error::{QueryError, QueryErrorView, SyntaxFault};
use crate::filter::{
    FilterRule,
    LogicalFilter,
    LogicalOp,
    NumberFilter,
    NumberOp,
    Predicate,
    StringFilter,
    reads_within,
};
use crate::lexer::{Item, Lexer, Token, TokenType, TokenView, items, rest};
use crate::text::{
    find_text,
    is_first_position,
    lemma_position_found,
    parse_unsigned,
    position_of,
    texts,
    unsigned_of,
};

verus! {

/// A parsed query: the positions of the selected columns in the dataset's
/// header, the dataset's name, and the predicate, if there is one.
#[derive(Debug)]
pub struct ParsedQuery {
    pub cols: Vec<usize>,
    pub from: String,
    pub filter: Option<FilterRule>,
}

pub ghost struct QueryView {
    pub cols: Seq<usize>,
    pub from: Seq<char>,
    pub filter: Option<Predicate>,
}

impl QueryView {
    /// Whether every column that the query selects or reads is below `width`.
    pub open spec fn fits(self, width: nat) -> bool {
        &&& forall|k: int| 0 <= k < self.cols.len() ==> self.cols[k] < width
        &&& match self.filter {
            Some(p) => reads_within(p, width),
            None => true,
        }
    }
}

impl View for ParsedQuery {
    type V = QueryView;

    open spec fn view(&self) -> QueryView {
        QueryView {
            cols: self.cols@,
            from: self.from@,
            filter: match self.filter {
                Some(f) => Some(f@),
                None => None,
            },
        }
    }
}

/// The first half of a query: the names of the selected columns, in the
/// order written, and the dataset's name.
#[derive(Debug)]
pub struct Target {
    pub col_names: Vec<String>,
    pub from: String,
}

pub ghost struct TargetView {
    pub col_names: Seq<Seq<char>>,
    pub from: Seq<char>,
}

impl View for Target {
    type V = TargetView;

    open spec fn view(&self) -> TargetView {
        TargetView { col_names: texts(self.col_names@), from: self.from@ }
    }
}

/// The text of a token; empty where it has none.
pub open spec fn text_of(t: TokenView) -> Seq<char> {
    match t.lexeme {
        Some(w) => w,
        None => Seq::empty(),
    }
}

/// The next token, where one is expected: the end of the tokens and a fault
/// of the lexer are errors of their own.
pub open spec fn head_token(toks: Seq<Item>) -> Result<TokenView, QueryErrorView> {
    if toks.len() == 0 {
        Err(QueryErrorView::BadSyntax(SyntaxFault::UnexpectedEof))
    } else {
        match toks[0] {
            Ok(t) => Ok(t),
            Err(f) => Err(QueryErrorView::BadLex(f)),
        }
    }
}

/// The next token, which has to be of `kind`; `fault` says what is missing
/// where it is of another.
pub open spec fn expect(toks: Seq<Item>, kind: TokenType, fault: SyntaxFault) -> Result<
    TokenView,
    QueryErrorView,
> {
    match head_token(toks) {
        Ok(t) => if t.kind == kind {
            Ok(t)
        } else {
            Err(QueryErrorView::BadSyntax(fault))
        },
        Err(e) => Err(e),
    }
}

/// Whether there is a next token and it is of `kind`.
pub open spec fn next_is(toks: Seq<Item>, kind: TokenType) -> bool {
    toks.len() > 0 && toks[0] is Ok && toks[0]->Ok_0.kind == kind
}

/// `("," identifier)*` after the columns in `acc`: all the columns, and the
/// tokens that follow them.
pub open spec fn more_columns(toks: Seq<Item>, acc: Seq<Seq<char>>) -> Result<
    (Seq<Seq<char>>, Seq<Item>),
    QueryErrorView,
>
    decreases toks.len(),
{
    if next_is(toks, TokenType::Comma) {
        match expect(rest(toks), TokenType::Identifier, SyntaxFault::ExpectedColumnAfterComma) {
            Ok(t) => more_columns(rest(rest(toks)), acc.push(text_of(t))),
            Err(e) => Err(e),
        }
    } else {
        Ok((acc, toks))
    }
}

/// `"select" column_list`: the columns' names and the tokens that follow.
pub open spec fn select_spec(toks: Seq<Item>) -> Result<
    (Seq<Seq<char>>, Seq<Item>),
    QueryErrorView,
> {
    match expect(toks, TokenType::Select, SyntaxFault::MissingSelect) {
        Ok(_) => match expect(rest(toks), TokenType::Identifier, SyntaxFault::ExpectedColumn) {
            Ok(t) => more_columns(rest(rest(toks)), seq![text_of(t)]),
            Err(e) => Err(e),
        },
        Err(e) => Err(e),
    }
}

/// `"from" identifier`: the dataset's name and the tokens that follow.
pub open spec fn from_spec(toks: Seq<Item>) -> Result<(Seq<char>, Seq<Item>), QueryErrorView> {
    match expect(toks, TokenType::From, SyntaxFault::MissingFrom) {
        Ok(_) => match expect(rest(toks), TokenType::Identifier, SyntaxFault::ExpectedDataset) {
            Ok(t) => Ok((text_of(t), rest(rest(toks)))),
            Err(e) => Err(e),
        },
        Err(e) => Err(e),
    }
}

/// The first half of a query.
pub open spec fn target_spec(toks: Seq<Item>) -> Result<(TargetView, Seq<Item>), QueryErrorView> {
    match select_spec(toks) {
        Ok((col_names, after_select)) => match from_spec(after_select) {
            Ok((from, after_from)) => Ok((TargetView { col_names, from }, after_from)),
            Err(e) => Err(e),
        },
        Err(e) => Err(e),
    }
}

/// The position of the column `name` in the header: the first, where the
/// header holds it more than once.
pub open spec fn column_index(headers: Seq<Seq<char>>, name: Seq<char>) -> Option<int> {
    position_of(headers, name)
}

/// The positions of `names` in `headers`, or the first of them that
/// `headers` does not hold.
pub open spec fn resolve(names: Seq<Seq<char>>, headers: Seq<Seq<char>>) -> Result<
    Seq<usize>,
    QueryErrorView,
>
    decreases names.len(),
{
    if names.len() == 0 {
        Ok(Seq::empty())
    } else {
        match resolve(names.drop_last(), headers) {
            Ok(cols) => match column_index(headers, names.last()) {
                Some(i) => Ok(cols.push(i as usize)),
                None => Err(QueryErrorView::UnknownColumn(names.last())),
            },
            Err(e) => Err(e),
        }
    }
}

/// The numeric operator that a token kind stands for.
pub open spec fn number_op(kind: TokenType) -> Option<NumberOp> {
    match kind {
        TokenType::LT => Some(NumberOp::LT),
        TokenType::GT => Some(NumberOp::GT),
        TokenType::LEQ => Some(NumberOp::LEQ),
        TokenType::GEQ => Some(NumberOp::GEQ),
        TokenType::EQ => Some(NumberOp::EQ),
        _ => None,
    }
}

/// The logical operator that a token kind stands for.
pub open spec fn logic_op(kind: TokenType) -> Option<LogicalOp> {
    match kind {
        TokenType::And => Some(LogicalOp::And),
        TokenType::Or => Some(LogicalOp::Or),
        _ => None,
    }
}

/// The error for a token of kind `op` that stands where the operator of a
/// comparison should and does not go with the value: a type mismatch for
/// an operator of the other kind of value, bad syntax for what is no
/// operator.
pub open spec fn wrong_operator(op: TokenType) -> QueryErrorView {
    if op == TokenType::Is || number_op(op) is Some {
        QueryErrorView::TypeMismatch
    } else {
        QueryErrorView::BadSyntax(SyntaxFault::ExpectedOperator)
    }
}

/// The comparison of column `col` that operator token `op` and value token
/// `value` make. A number takes a numeric operator and has to fit in a
/// `usize`; a string takes `is`; nothing else is a value. The value is
/// looked at first, then the operator.
pub open spec fn leaf(col: usize, op: TokenType, value: TokenView) -> Result<
    Predicate,
    QueryErrorView,
> {
    if value.kind == TokenType::Number {
        match unsigned_of(text_of(value)) {
            Some(val) => match number_op(op) {
                Some(o) => Ok(Predicate::Number { col, op: o, val }),
                None => Err(wrong_operator(op)),
            },
            None => Err(QueryErrorView::NumParseError(text_of(value))),
        }
    } else if value.kind == TokenType::String {
        if op == TokenType::Is {
            Ok(Predicate::Text { col, val: text_of(value) })
        } else {
            Err(wrong_operator(op))
        }
    } else {
        Err(QueryErrorView::BadSyntax(SyntaxFault::InvalidFilterValue))
    }
}

/// `comparison`: three tokens, a column of `headers`, an operator and a
/// value.
pub open spec fn comparison_spec(toks: Seq<Item>, headers: Seq<Seq<char>>) -> Result<
    Predicate,
    QueryErrorView,
> {
    match expect(toks, TokenType::Identifier, SyntaxFault::ExpectedFilterColumn) {
        Ok(c) => match column_index(headers, text_of(c)) {
            Some(col) => match head_token(rest(toks)) {
                Ok(op) => match head_token(rest(rest(toks))) {
                    Ok(value) => leaf(col as usize, op.kind, value),
                    Err(e) => Err(e),
                },
                Err(e) => Err(e),
            },
            None => Err(QueryErrorView::UnknownColumn(text_of(c))),
        },
        Err(e) => Err(e),
    }
}

/// `predicate`: a comparison, and after `and` or `or` the predicate that the
/// rest makes, as its right operand.
pub open spec fn filter_spec(toks: Seq<Item>, headers: Seq<Seq<char>>) -> Result<
    (Predicate, Seq<Item>),
    QueryErrorView,
>
    decreases toks.len(),
{
    let after = rest(rest(rest(toks)));
    match comparison_spec(toks, headers) {
        Ok(p) => if next_is(after, TokenType::And) || next_is(after, TokenType::Or) {
            match filter_spec(rest(after), headers) {
                Ok((q, left_over)) => Ok(
                    (
                        Predicate::Logical {
                            left: Box::new(p),
                            op: logic_op(after[0]->Ok_0.kind)->0,
                            right: Box::new(q),
                        },
                        left_over,
                    ),
                ),
                Err(e) => Err(e),
            }
        } else {
            Ok((p, after))
        },
        Err(e) => Err(e),
    }
}

/// A numeric operator before a string never makes a comparison, and `is`
/// before a number that fits none either: whatever follows, the predicate
/// fails with `TypeMismatch`, a semantic error.
pub proof fn lemma_operator_against_value(toks: Seq<Item>, headers: Seq<Seq<char>>)
    requires
        expect(toks, TokenType::Identifier, SyntaxFault::ExpectedFilterColumn) is Ok,
        headers.contains(text_of(toks[0]->Ok_0)),
        head_token(rest(toks)) is Ok,
        head_token(rest(rest(toks))) is Ok,
        ({
            let op = head_token(rest(toks))->Ok_0.kind;
            let value = head_token(rest(rest(toks)))->Ok_0;
            ||| number_op(op) is Some && value.kind == TokenType::String
            ||| op == TokenType::Is && value.kind == TokenType::Number && unsigned_of(
                text_of(value),
            ) is Some
        }),
    ensures
        filter_spec(toks, headers) == Err::<(Predicate, Seq<Item>), QueryErrorView>(
            QueryErrorView::TypeMismatch,
        ),
        where_spec(seq![Ok(plain_where())] + toks, headers) == Err::<
            (Option<Predicate>, Seq<Item>),
            QueryErrorView,
        >(QueryErrorView::TypeMismatch),
        filter_spec(toks, headers)->Err_0.class() == crate::error::ErrorClass::Semantic,
{
    lemma_position_found(headers, text_of(toks[0]->Ok_0));
    let clause = seq![Ok::<TokenView, crate::error::LexFault>(plain_where())] + toks;
    assert(rest(clause) =~= toks);
}

/// The token `where`.
pub open spec fn plain_where() -> TokenView {
    TokenView { kind: TokenType::Where, lexeme: None }
}

/// `[where_clause]`: no predicate where the next token is not `where`.
pub open spec fn where_spec(toks: Seq<Item>, headers: Seq<Seq<char>>) -> Result<
    (Option<Predicate>, Seq<Item>),
    QueryErrorView,
> {
    if next_is(toks, TokenType::Where) {
        match filter_spec(rest(toks), headers) {
            Ok((p, left_over)) => Ok((Some(p), left_over)),
            Err(e) => Err(e),
        }
    } else {
        Ok((None, toks))
    }
}

/// The second half of a query: the columns of `target` resolved against
/// `headers`, then the predicate that `toks` hold.
pub open spec fn finish_spec(target: TargetView, toks: Seq<Item>, headers: Seq<Seq<char>>) -> Result<
    (QueryView, Seq<Item>),
    QueryErrorView,
> {
    match resolve(target.col_names, headers) {
        Ok(cols) => match where_spec(toks, headers) {
            Ok((filter, left_over)) => Ok((QueryView { cols, from: target.from, filter }, left_over)),
            Err(e) => Err(e),
        },
        Err(e) => Err(e),
    }
}

/// The query that `toks` make against a dataset whose header is `headers`.
pub open spec fn parse_spec(toks: Seq<Item>, headers: Seq<Seq<char>>) -> Result<
    QueryView,
    QueryErrorView,
> {
    match target_spec(toks) {
        Ok((target, after)) => match finish_spec(target, after, headers) {
            Ok((q, _)) => Ok(q),
            Err(e) => Err(e),
        },
        Err(e) => Err(e),
    }
}

/// Where some selected column is absent from the header, resolving fails,
/// with a semantic error that names the first such column.
pub proof fn lemma_absent_column_fails(names: Seq<Seq<char>>, headers: Seq<Seq<char>>)
    requires
        exists|i: int| 0 <= i < names.len() && !headers.contains(#[trigger] names[i]),
    ensures
        resolve(names, headers) is Err,
        resolve(names, headers)->Err_0 is UnknownColumn,
        resolve(names, headers)->Err_0.class() == crate::error::ErrorClass::Semantic,
        names.contains(resolve(names, headers)->Err_0->UnknownColumn_0),
        !headers.contains(resolve(names, headers)->Err_0->UnknownColumn_0),
    decreases names.len(),
{
    let i = choose|i: int| 0 <= i < names.len() && !headers.contains(#[trigger] names[i]);
    if i < names.len() - 1 {
        assert(names.drop_last()[i] == names[i]);
        lemma_absent_column_fails(names.drop_last(), headers);
        let bad = resolve(names.drop_last(), headers)->Err_0->UnknownColumn_0;
        let k = choose|k: int| 0 <= k < names.drop_last().len() && names.drop_last()[k] == bad;
        assert(names[k] == bad);
    } else {
        match resolve(names.drop_last(), headers) {
            Ok(_) => {
                if column_index(headers, names.last()) is Some {
                    let c = choose|c: int| is_first_position(headers, names.last(), c);
                    assert(headers[c] == names.last());
                }
                assert(names[names.len() - 1] == names.last());
            },
            Err(_) => {
                lemma_resolve_error(names.drop_last(), headers);
                let bad = resolve(names.drop_last(), headers)->Err_0->UnknownColumn_0;
                let k = choose|k: int|
                    0 <= k < names.drop_last().len() && names.drop_last()[k] == bad;
                assert(names[k] == bad);
            },
        }
    }
}

/// A query that selects a column which the dataset's header does not hold
/// never parses: once its first half is read, the second half fails with a
/// semantic error, `UnknownColumn`, whatever the predicate is.
pub proof fn lemma_unknown_column_is_semantic(toks: Seq<Item>, headers: Seq<Seq<char>>)
    requires
        target_spec(toks) is Ok,
        exists|i: int|
            0 <= i < target_spec(toks)->Ok_0.0.col_names.len() && !headers.contains(
                #[trigger] target_spec(toks)->Ok_0.0.col_names[i],
            ),
    ensures
        parse_spec(toks, headers) is Err,
        parse_spec(toks, headers)->Err_0 is UnknownColumn,
        parse_spec(toks, headers)->Err_0.class() == crate::error::ErrorClass::Semantic,
        !headers.contains(parse_spec(toks, headers)->Err_0->UnknownColumn_0),
{
    lemma_absent_column_fails(target_spec(toks)->Ok_0.0.col_names, headers);
}

/// Resolving fails only with an unknown column, which is one of the names
/// and absent from the header.
pub proof fn lemma_resolve_error(names: Seq<Seq<char>>, headers: Seq<Seq<char>>)
    requires
        resolve(names, headers) is Err,
    ensures
        resolve(names, headers)->Err_0 is UnknownColumn,
        names.contains(resolve(names, headers)->Err_0->UnknownColumn_0),
        !headers.contains(resolve(names, headers)->Err_0->UnknownColumn_0),
    decreases names.len(),
{
    if names.len() > 0 {
        match resolve(names.drop_last(), headers) {
            Ok(_) => {
                assert(names[names.len() - 1] == names.last());
                if headers.contains(names.last()) {
                    lemma_position_found(headers, names.last());
                }
            },
            Err(_) => {
                lemma_resolve_error(names.drop_last(), headers);
                let bad = resolve(names.drop_last(), headers)->Err_0->UnknownColumn_0;
                let k = choose|k: int|
                    0 <= k < names.drop_last().len() && names.drop_last()[k] == bad;
                assert(names[k] == bad);
            },
        }
    }
}

/// The position of the column `name` in `headers`.
pub fn find_column(headers: &Vec<String>, name: &str) -> (r: Option<usize>)
    ensures
        match r {
            Some(i) => column_index(texts(headers@), name@) == Some(i as int) && i < headers@.len(),
            None => column_index(texts(headers@), name@) is None && !texts(headers@).contains(
                name@,
            ),
        },
{
    find_text(headers, name)
}

/// The positions of the selected columns in the header, in the order
/// selected. Fails with `UnknownColumn` and the first name that the header
/// does not hold.
pub fn resolve_columns(names: &Vec<String>, headers: &Vec<String>) -> (r: Result<
    Vec<usize>,
    QueryError,
>)
    ensures
        match resolve(texts(names@), texts(headers@)) {
            Ok(cols) => r is Ok && r->Ok_0@ == cols,
            Err(e) => r is Err && r->Err_0@ == e,
        },
        r is Ok ==> r->Ok_0@.len() == names@.len() && forall|k: int|
            0 <= k < r->Ok_0@.len() ==> r->Ok_0@[k] < headers@.len(),
{
    let ghost ns = texts(names@);
    let ghost hs = texts(headers@);
    let mut cols: Vec<usize> = Vec::new();
    let mut i: usize = 0;
    assert(ns.take(0) =~= Seq::<Seq<char>>::empty());
    while i < names.len()
        invariant
            i <= names@.len(),
            ns == texts(names@),
            hs == texts(headers@),
            resolve(ns.take(i as int), hs) == Ok::<Seq<usize>, QueryErrorView>(cols@),
            cols@.len() == i,
            forall|k: int| 0 <= k < cols@.len() ==> cols@[k] < headers@.len(),
        decreases names@.len() - i,
    {
        proof {
            assert(ns.take(i + 1).drop_last() =~= ns.take(i as int));
            assert(ns.take(i + 1).last() == names@[i as int]@);
        }
        match find_column(headers, names[i].as_str()) {
            Some(c) => {
                cols.push(c);
            },
            None => {
                proof {
                    lemma_resolve_prefix(ns, hs, i + 1);
                }
                return Err(QueryError::UnknownColumn(names[i].clone()));
            },
        }
        i = i + 1;
    }
    proof {
        assert(ns.take(i as int) =~= ns);
    }
    Ok(cols)
}

/// An error in resolving a prefix of the names is the error of resolving all
/// of them.
pub proof fn lemma_resolve_prefix(names: Seq<Seq<char>>, headers: Seq<Seq<char>>, k: int)
    requires
        0 <= k <= names.len(),
        resolve(names.take(k), headers) is Err,
    ensures
        resolve(names, headers) == resolve(names.take(k), headers),
    decreases names.len(),
{
    if k == names.len() {
        assert(names.take(k) =~= names);
    } else {
        assert(names.drop_last().take(k) =~= names.take(k));
        lemma_resolve_prefix(names.drop_last(), headers, k);
    }
}

fn lexeme_text(t: Token) -> (s: String)
    ensures
        s@ == text_of(t@),
{
    match t.lexemme {
        Some(s) => s,
        None => String::new(),
    }
}

/// A parser over the text of one query.
pub struct Parser {
    lexer: Lexer,
}

impl View for Parser {
    type V = Seq<Item>;

    /// The tokens that are still to be read.
    closed spec fn view(&self) -> Seq<Item> {
        self.lexer@
    }
}

impl Parser {
    /// A parser at the start of `input_query`.
    pub fn new(input_query: &str) -> (p: Parser)
        ensures
            p@ == items(input_query@, 0),
    {
        Parser { lexer: Lexer::new(input_query) }
    }

    /// Takes the next token. The end of the tokens is `UnexpectedEof`.
    pub fn get_next(&mut self) -> (r: Result<Token, QueryError>)
        ensures
            final(self)@ == rest(old(self)@),
            match head_token(old(self)@) {
                Ok(t) => r is Ok && r->Ok_0@ == t,
                Err(e) => r is Err && r->Err_0@ == e,
            },
    {
        match self.lexer.next() {
            Some(item) => item,
            None => Err(QueryError::BadSyntax(SyntaxFault::UnexpectedEof)),
        }
    }

    /// Takes the next token, which has to be of kind `token_type`; where it is
    /// of another, the error is `BadSyntax(err)`.
    pub fn match_next(&mut self, token_type: TokenType, err: SyntaxFault) -> (r: Result<
        Token,
        QueryError,
    >)
        ensures
            final(self)@ == rest(old(self)@),
            match expect(old(self)@, token_type, err) {
                Ok(t) => r is Ok && r->Ok_0@ == t,
                Err(e) => r is Err && r->Err_0@ == e,
            },
    {
        let next_token = self.get_next()?;
        if next_token.kind == token_type {
            Ok(next_token)
        } else {
            Err(QueryError::BadSyntax(err))
        }
    }

    /// Whether there is a next token and it is of kind `token_type`. Takes
    /// nothing.
    pub fn peek_next_type(&self, token_type: TokenType) -> (b: bool)
        ensures
            b == next_is(self@, token_type),
    {
        match self.lexer.peek() {
            Some(Ok(t)) => t.kind == token_type,
            _ => false,
        }
    }

    /// Reads `"select"` and the list of columns: their names, in the order
    /// written.
    pub fn parse_select(&mut self) -> (r: Result<Vec<String>, QueryError>)
        ensures
            match select_spec(old(self)@) {
                Ok((names, left)) => r is Ok && texts(r->Ok_0@) == names && final(self)@ == left,
                Err(e) => r is Err && r->Err_0@ == e,
            },
    {
        let ghost start = self@;
        self.match_next(TokenType::Select, SyntaxFault::MissingSelect)?;
        let first_col = self.match_next(TokenType::Identifier, SyntaxFault::ExpectedColumn)?;
        let mut cols: Vec<String> = Vec::new();
        cols.push(lexeme_text(first_col));
        assert(texts(cols@) =~= seq![text_of(first_col@)]);
        while self.peek_next_type(TokenType::Comma)
            invariant
                start == old(self)@,
                more_columns(self@, texts(cols@)) == select_spec(start),
            decreases self@.len(),
        {
            let ghost names = texts(cols@);
            let _comma = self.get_next();
            let next_col = self.match_next(
                TokenType::Identifier,
                SyntaxFault::ExpectedColumnAfterComma,
            )?;
            cols.push(lexeme_text(next_col));
            assert(texts(cols@) =~= names.push(text_of(next_col@)));
        }
        Ok(cols)
    }

    /// Reads `"from"` and the dataset's name.
    pub fn parse_from(&mut self) -> (r: Result<String, QueryError>)
        ensures
            match from_spec(old(self)@) {
                Ok((name, left)) => r is Ok && r->Ok_0@ == name && final(self)@ == left,
                Err(e) => r is Err && r->Err_0@ == e,
            },
    {
        self.match_next(TokenType::From, SyntaxFault::MissingFrom)?;
        let from = self.match_next(TokenType::Identifier, SyntaxFault::ExpectedDataset)?;
        Ok(lexeme_text(from))
    }

    /// Reads the first half of a query: what is selected, and from which
    /// dataset.
    pub fn parse_target(&mut self) -> (r: Result<Target, QueryError>)
        ensures
            match target_spec(old(self)@) {
                Ok((target, left)) => r is Ok && r->Ok_0@ == target && final(self)@ == left,
                Err(e) => r is Err && r->Err_0@ == e,
            },
    {
        let col_names = self.parse_select()?;
        let from = self.parse_from()?;
        Ok(Target { col_names, from })
    }

    /// The numeric operator that a token kind stands for. `is` in its place is
    /// a `TypeMismatch`, anything else bad syntax.
    pub fn map_num_op(kind: TokenType) -> (r: Result<NumberOp, QueryError>)
        ensures
            match number_op(kind) {
                Some(o) => r == Ok::<NumberOp, QueryError>(o),
                None => r is Err && r->Err_0@ == wrong_operator(kind),
            },
    {
        match kind {
            TokenType::LT => Ok(NumberOp::LT),
            TokenType::GT => Ok(NumberOp::GT),
            TokenType::LEQ => Ok(NumberOp::LEQ),
            TokenType::GEQ => Ok(NumberOp::GEQ),
            TokenType::EQ => Ok(NumberOp::EQ),
            TokenType::Is => Err(QueryError::TypeMismatch),
            _ => Err(QueryError::BadSyntax(SyntaxFault::ExpectedOperator)),
        }
    }

    /// The logical operator that a token kind stands for.
    pub fn map_logic_op(kind: TokenType) -> (r: Result<LogicalOp, QueryError>)
        ensures
            match logic_op(kind) {
                Some(o) => r == Ok::<LogicalOp, QueryError>(o),
                None => r is Err && r->Err_0@ == QueryErrorView::BadSyntax(
                    SyntaxFault::ExpectedLogicalOp,
                ),
            },
    {
        match kind {
            TokenType::And => Ok(LogicalOp::And),
            TokenType::Or => Ok(LogicalOp::Or),
            _ => Err(QueryError::BadSyntax(SyntaxFault::ExpectedLogicalOp)),
        }
    }

    /// Builds the comparison of column `col` from its operator and value
    /// tokens.
    pub fn make_leaf(col: usize, op: TokenType, value: Token) -> (r: Result<FilterRule, QueryError>)
        ensures
            match leaf(col, op, value@) {
                Ok(p) => r is Ok && r->Ok_0@ == p,
                Err(e) => r is Err && r->Err_0@ == e,
            },
            r is Ok ==> forall|w: nat| col < w ==> #[trigger] reads_within(r->Ok_0@, w),
    {
        match value.kind {
            TokenType::Number => {
                let num_lexemme = lexeme_text(value);
                match parse_unsigned(num_lexemme.as_str()) {
                    Some(val) => {
                        let op = Parser::map_num_op(op)?;
                        Ok(FilterRule::Number(NumberFilter { col, op, val }))
                    },
                    None => Err(QueryError::NumParseError(num_lexemme)),
                }
            },
            TokenType::String => {
                match op {
                    TokenType::Is => Ok(
                        FilterRule::Text(StringFilter { col, val: lexeme_text(value) }),
                    ),
                    _ => match Parser::map_num_op(op) {
                        Ok(_) => Err(QueryError::TypeMismatch),
                        Err(e) => Err(e),
                    },
                }
            },
            _ => Err(QueryError::BadSyntax(SyntaxFault::InvalidFilterValue)),
        }
    }

    /// Reads a predicate: a comparison, and after `and` or `or` the rest as
    /// its right operand, so that `f1 and f2 and f3` is `f1 and (f2 and f3)`.
    /// Every column the predicate reads is a position in `headers`.
    pub fn parse_filter(&mut self, headers: &Vec<String>) -> (r: Result<FilterRule, QueryError>)
        ensures
            match filter_spec(old(self)@, texts(headers@)) {
                Ok((p, left)) => r is Ok && r->Ok_0@ == p && final(self)@ == left,
                Err(e) => r is Err && r->Err_0@ == e,
            },
            r is Ok ==> reads_within(r->Ok_0@, headers@.len() as nat),
        decreases old(self)@.len(),
    {
        let col_token = self.match_next(
            TokenType::Identifier,
            SyntaxFault::ExpectedFilterColumn,
        )?;
        let col_name = lexeme_text(col_token);
        let col = match find_column(headers, col_name.as_str()) {
            Some(c) => c,
            None => {
                return Err(QueryError::UnknownColumn(col_name));
            },
        };
        let filter_kind = self.get_next()?;
        let filter_val = self.get_next()?;
        let filter = Parser::make_leaf(col, filter_kind.kind, filter_val)?;
        assert(reads_within(filter@, headers@.len() as nat));
        let is_logical = self.peek_next_type(TokenType::And) || self.peek_next_type(
            TokenType::Or,
        );
        if is_logical {
            let logical_kind = self.get_next()?;
            let op = Parser::map_logic_op(logical_kind.kind)?;
            let f2 = self.parse_filter(headers)?;
            Ok(FilterRule::Logical(LogicalFilter { f1: Box::new(filter), op, f2: Box::new(f2) }))
        } else {
            Ok(filter)
        }
    }

    /// Reads the `where` clause, if the next token is `where`.
    pub fn parse_where(&mut self, headers: &Vec<String>) -> (r: Result<
        Option<FilterRule>,
        QueryError,
    >)
        ensures
            match where_spec(old(self)@, texts(headers@)) {
                Ok((Some(p), left)) => {
                    &&& r is Ok
                    &&& r->Ok_0 is Some
                    &&& r->Ok_0->0@ == p
                    &&& final(self)@ == left
                },
                Ok((None, left)) => r is Ok && r->Ok_0 is None && final(self)@ == left,
                Err(e) => r is Err && r->Err_0@ == e,
            },
            r is Ok && r->Ok_0 is Some ==> reads_within(r->Ok_0->0@, headers@.len() as nat),
    {
        if !self.peek_next_type(TokenType::Where) {
            Ok(None)
        } else {
            let _where = self.get_next();
            let filter = self.parse_filter(headers)?;
            Ok(Some(filter))
        }
    }

    /// Reads the second half of a query, after `parse_target`: resolves the
    /// selected columns against `headers`, the header of the dataset that
    /// `target` names, and reads the predicate. A selected column that the
    /// header does not hold is an `UnknownColumn`, before anything of the
    /// predicate is read. In the query that comes back every column is a
    /// position in the header.
    pub fn parse(&mut self, target: Target, headers: &Vec<String>) -> (r: Result<
        ParsedQuery,
        QueryError,
    >)
        ensures
            match finish_spec(target@, old(self)@, texts(headers@)) {
                Ok((q, left)) => r is Ok && r->Ok_0@ == q && final(self)@ == left,
                Err(e) => r is Err && r->Err_0@ == e,
            },
            r is Ok ==> r->Ok_0@.fits(headers@.len() as nat),
    {
        let cols = resolve_columns(&target.col_names, headers)?;
        let filter = self.parse_where(headers)?;
        Ok(ParsedQuery { cols, from: target.from, filter })
    }
}

} // verus!
