//! The lexer: from the text of a query to its tokens, one at a time.
//!
//! A lexer owns the text and a position in it. What it still has to give is
//! its view: the sequence of the tokens from the position on, which ends with
//! the first fault, if there is one.

use vstd::prelude::*;
use vstd::string::*;
use crate::error::{LexFault, QueryError, QueryErrorView};
use crate::text::{is_letter, is_number, is_space, same_text};

verus! {

#[derive(Clone, Copy, Debug, PartialEq, Eq, Structural)]
pub enum TokenType {
    Select,
    From,
    Where,
    Comma,
    Identifier,
    Number,
    String,
    LT,
    LEQ,
    GT,
    GEQ,
    EQ,
    Is,
    And,
    Or,
}

/// A token: its kind, and its text where the kind alone does not give it
/// (identifiers, numbers, strings).
#[derive(Clone, Debug, PartialEq)]
pub struct Token {
    pub kind: TokenType,
    pub lexemme: Option<String>,
}

pub ghost struct TokenView {
    pub kind: TokenType,
    pub lexeme: Option<Seq<char>>,
}

impl View for Token {
    type V = TokenView;

    open spec fn view(&self) -> TokenView {
        TokenView {
            kind: self.kind,
            lexeme: match self.lexemme {
                Some(s) => Some(s@),
                None => None,
            },
        }
    }
}

/// What the lexer gives at one step: a token, or the fault that ends it.
pub type Item = Result<TokenView, LexFault>;

/// The four kinds of run that the lexer reads as far as they go.
#[derive(Clone, Copy, Debug, PartialEq, Eq, Structural)]
pub enum Run {
    /// White space between tokens.
    Space,
    /// The digits of a number after its first.
    Digits,
    /// The characters of a word after its first: letters, digits, `_`, `.`, `*`.
    Word,
    /// The inside of a quoted string: everything but `"`.
    Quoted,
}

pub open spec fn in_run(run: Run, c: char) -> bool {
    match run {
        Run::Space => is_space(c),
        Run::Digits => is_number(c),
        Run::Word => is_letter(c) || is_number(c) || c == '_' || c == '.' || c == '*',
        Run::Quoted => c != '"',
    }
}

/// Where the run that starts at `i` ends: the first position from `i` on
/// whose character is not of the run, or the end of the text.
pub open spec fn run_end(s: Seq<char>, i: int, run: Run) -> int
    decreases s.len() - i,
{
    if 0 <= i < s.len() && in_run(run, s[i]) {
        run_end(s, i + 1, run)
    } else {
        i
    }
}

/// A token without text.
pub open spec fn plain(kind: TokenType) -> TokenView {
    TokenView { kind, lexeme: None }
}

/// The token that the word `w` is: one of the six keywords, matched with
/// case, or else an identifier.
pub open spec fn word_token(w: Seq<char>) -> TokenView {
    if w == "select"@ {
        plain(TokenType::Select)
    } else if w == "where"@ {
        plain(TokenType::Where)
    } else if w == "from"@ {
        plain(TokenType::From)
    } else if w == "and"@ {
        plain(TokenType::And)
    } else if w == "or"@ {
        plain(TokenType::Or)
    } else if w == "is"@ {
        plain(TokenType::Is)
    } else {
        TokenView { kind: TokenType::Identifier, lexeme: Some(w) }
    }
}

/// One step of the lexer on `s` from `pos`: what it gives, and where it
/// stands afterwards. `None` is the end of the text. After a fault it stands
/// at the end, so that nothing follows a fault.
pub open spec fn scan(s: Seq<char>, pos: int) -> (Option<Item>, int) {
    let j = run_end(s, pos, Run::Space);
    let end = s.len() as int;
    if j >= end {
        (None, end)
    } else {
        let c = s[j];
        let eq_follows = j + 1 < end && s[j + 1] == '=';
        if c == ',' {
            (Some(Ok(plain(TokenType::Comma))), j + 1)
        } else if c == '<' {
            if eq_follows {
                (Some(Ok(plain(TokenType::LEQ))), j + 2)
            } else {
                (Some(Ok(plain(TokenType::LT))), j + 1)
            }
        } else if c == '>' {
            if eq_follows {
                (Some(Ok(plain(TokenType::GEQ))), j + 2)
            } else {
                (Some(Ok(plain(TokenType::GT))), j + 1)
            }
        } else if c == '=' {
            if eq_follows {
                (Some(Ok(plain(TokenType::EQ))), j + 2)
            } else {
                (Some(Err(LexFault::SingleEquals)), end)
            }
        } else if c == '"' {
            let e = run_end(s, j + 1, Run::Quoted);
            if e >= end {
                (Some(Err(LexFault::UnterminatedString)), end)
            } else {
                (
                    Some(
                        Ok(
                            TokenView {
                                kind: TokenType::String,
                                lexeme: Some(s.subrange(j + 1, e)),
                            },
                        ),
                    ),
                    e + 1,
                )
            }
        } else if is_number(c) {
            let e = run_end(s, j + 1, Run::Digits);
            (Some(Ok(TokenView { kind: TokenType::Number, lexeme: Some(s.subrange(j, e)) })), e)
        } else if is_letter(c) {
            let e = run_end(s, j + 1, Run::Word);
            (Some(Ok(word_token(s.subrange(j, e)))), e)
        } else {
            (Some(Err(LexFault::InvalidCharacter(c))), end)
        }
    }
}

/// Everything the lexer gives on `s` from `pos` on.
pub open spec fn items(s: Seq<char>, pos: int) -> Seq<Item>
    decreases s.len() - pos,
{
    let (item, next) = scan(s, pos);
    match item {
        None => Seq::empty(),
        Some(it) => if next <= pos || next > s.len() {
            seq![it]
        } else {
            seq![it] + items(s, next)
        },
    }
}

/// A run ends at or after its start and within the text; every character in
/// it is of the run, and the character at its end, if there is one, is not.
pub proof fn lemma_run_end(s: Seq<char>, i: int, run: Run)
    requires
        0 <= i <= s.len(),
    ensures
        i <= run_end(s, i, run) <= s.len(),
        forall|k: int| i <= k < run_end(s, i, run) ==> in_run(run, #[trigger] s[k]),
        run_end(s, i, run) < s.len() ==> !in_run(run, s[run_end(s, i, run)]),
    decreases s.len() - i,
{
    if i < s.len() && in_run(run, s[i]) {
        lemma_run_end(s, i + 1, run);
    }
}

/// A step that gives something moves forward, and no step leaves the text.
pub proof fn lemma_scan_advances(s: Seq<char>, pos: int)
    requires
        0 <= pos <= s.len(),
    ensures
        scan(s, pos).1 <= s.len(),
        scan(s, pos).0 is Some ==> pos < scan(s, pos).1,
        scan(s, pos).0 is None ==> scan(s, pos).1 == s.len(),
{
    lemma_run_end(s, pos, Run::Space);
    let j = run_end(s, pos, Run::Space);
    if j < s.len() {
        lemma_run_end(s, j + 1, Run::Quoted);
        lemma_run_end(s, j + 1, Run::Digits);
        lemma_run_end(s, j + 1, Run::Word);
    }
}

/// The items from `pos` on are the one that the next step gives, then those
/// from where that step ends; at the end of the text there are none.
pub proof fn lemma_items_unfold(s: Seq<char>, pos: int)
    requires
        0 <= pos <= s.len(),
    ensures
        scan(s, pos).0 is None ==> items(s, pos) == Seq::<Item>::empty(),
        scan(s, pos).0 is Some ==> items(s, pos).len() > 0 && items(s, pos)[0] == scan(
            s,
            pos,
        ).0->0 && items(s, pos).skip(1) == items(s, scan(s, pos).1),
        items(s, s.len() as int) == Seq::<Item>::empty(),
{
    lemma_scan_advances(s, pos);
    lemma_scan_advances(s, s.len() as int);
    if scan(s, pos).0 is Some {
        let next = scan(s, pos).1;
        assert((seq![scan(s, pos).0->0] + items(s, next)).skip(1) =~= items(s, next));
    }
}

/// Whether a token of this kind carries its text.
pub open spec fn has_text(kind: TokenType) -> bool {
    kind == TokenType::Identifier || kind == TokenType::Number || kind == TokenType::String
}

/// Identifiers, numbers and strings carry their text, and no other token
/// carries one.
pub proof fn lemma_scan_lexeme(s: Seq<char>, pos: int)
    requires
        0 <= pos <= s.len(),
        scan(s, pos).0 is Some,
        scan(s, pos).0->0 is Ok,
    ensures
        scan(s, pos).0->0->Ok_0.lexeme is Some <==> has_text(scan(s, pos).0->0->Ok_0.kind),
{
    lemma_run_end(s, pos, Run::Space);
}

/// Lexing fails fast: a fault is the last item.
pub proof fn lemma_fault_is_last(s: Seq<char>, pos: int, i: int)
    requires
        0 <= pos <= s.len(),
        0 <= i < items(s, pos).len(),
        items(s, pos)[i] is Err,
    ensures
        i == items(s, pos).len() - 1,
    decreases s.len() - pos,
{
    lemma_scan_advances(s, pos);
    lemma_items_unfold(s, pos);
    let next = scan(s, pos).1;
    if i == 0 {
        assert(next == s.len());
        assert(items(s, pos).skip(1).len() == 0);
    } else {
        assert(items(s, pos).skip(1)[i - 1] == items(s, pos)[i]);
        lemma_fault_is_last(s, next, i - 1);
    }
}

/// White space before a token is skipped: the items from a position on are
/// those from the end of the white space that starts there.
pub proof fn lemma_space_is_skipped(s: Seq<char>, pos: int)
    requires
        0 <= pos <= s.len(),
    ensures
        items(s, pos) == items(s, run_end(s, pos, Run::Space)),
{
    let j = run_end(s, pos, Run::Space);
    lemma_run_end(s, pos, Run::Space);
    assert(run_end(s, j, Run::Space) == j);
    assert(scan(s, pos) == scan(s, j));
    lemma_scan_advances(s, pos);
    lemma_scan_advances(s, j);
}

/// What a step of the executable lexer returned, held against an item.
pub open spec fn shows(r: Option<Result<Token, QueryError>>, item: Option<Item>) -> bool {
    match r {
        None => item is None,
        Some(Ok(t)) => item == Some(Ok::<TokenView, LexFault>(t@)),
        Some(Err(e)) => item is Some && item->0 is Err && e@ == QueryErrorView::BadLex(
            item->0->Err_0,
        ),
    }
}

/// The first of a sequence of items, if there is one.
pub open spec fn first_of(toks: Seq<Item>) -> Option<Item> {
    if toks.len() > 0 {
        Some(toks[0])
    } else {
        None
    }
}

/// What is left of a sequence of items after its first.
pub open spec fn rest(toks: Seq<Item>) -> Seq<Item> {
    if toks.len() > 0 {
        toks.skip(1)
    } else {
        toks
    }
}

/// A lexer over a text that it owns.
pub struct Lexer {
    src: String,
    pos: usize,
}

fn in_run_at(run: Run, c: char) -> (b: bool)
    ensures
        b == in_run(run, c),
{
    match run {
        Run::Space => c.is_whitespace(),
        Run::Digits => c.is_numeric(),
        Run::Word => c.is_alphabetic() || c.is_numeric() || c == '_' || c == '.' || c == '*',
        Run::Quoted => c != '"',
    }
}

fn token(kind: TokenType) -> (t: Token)
    ensures
        t@ == plain(kind),
{
    Token { kind, lexemme: None }
}

/// The token that a word is: a keyword or an identifier.
pub fn alpha(word: &str) -> (t: Token)
    ensures
        t@ == word_token(word@),
{
    if same_text(word, "select") {
        token(TokenType::Select)
    } else if same_text(word, "where") {
        token(TokenType::Where)
    } else if same_text(word, "from") {
        token(TokenType::From)
    } else if same_text(word, "and") {
        token(TokenType::And)
    } else if same_text(word, "or") {
        token(TokenType::Or)
    } else if same_text(word, "is") {
        token(TokenType::Is)
    } else {
        Token { kind: TokenType::Identifier, lexemme: Some(word.to_owned()) }
    }
}

impl View for Lexer {
    type V = Seq<Item>;

    /// What is still to come.
    closed spec fn view(&self) -> Seq<Item> {
        items(self.src@, self.pos as int)
    }
}

impl Lexer {
    #[verifier::type_invariant]
    closed spec fn inv(&self) -> bool {
        self.pos <= self.src@.len()
    }

    /// A lexer at the start of `query`.
    pub fn new(query: &str) -> (l: Lexer)
        ensures
            l@ == items(query@, 0),
    {
        Lexer { src: query.to_owned(), pos: 0 }
    }

    fn run(&self, from: usize, end: usize, run: Run) -> (e: usize)
        requires
            from <= end == self.src@.len(),
        ensures
            e == run_end(self.src@, from as int, run),
            from <= e <= self.src@.len(),
    {
        let mut i: usize = from;
        loop
            invariant
                from <= i <= end,
                end == self.src@.len(),
                run_end(self.src@, from as int, run) == run_end(self.src@, i as int, run),
            ensures
                i == run_end(self.src@, from as int, run),
            decreases end - i,
        {
            if i >= end {
                break ;
            }
            if !in_run_at(run, self.src.as_str().get_char(i)) {
                break ;
            }
            i = i + 1;
        }
        i
    }

    fn text(&self, from: usize, to: usize) -> (s: String)
        requires
            from <= to <= self.src@.len(),
        ensures
            s@ == self.src@.subrange(from as int, to as int),
    {
        self.src.as_str().substring_char(from, to).to_owned()
    }

    /// One step from the current position, without taking it.
    fn step(&self) -> (r: (Option<Result<Token, QueryError>>, usize))
        ensures
            shows(r.0, scan(self.src@, self.pos as int).0),
            r.1 == scan(self.src@, self.pos as int).1,
            r.1 <= self.src@.len(),
    {
        proof {
            use_type_invariant(self);
            lemma_scan_advances(self.src@, self.pos as int);
        }
        let end = self.src.as_str().unicode_len();
        let j = self.run(self.pos, end, Run::Space);
        if j >= end {
            return (None, end);
        }
        let c = self.src.as_str().get_char(j);
        let eq_follows = j + 1 < end && self.src.as_str().get_char(j + 1) == '=';
        if c == ',' {
            (Some(Ok(token(TokenType::Comma))), j + 1)
        } else if c == '<' {
            if eq_follows {
                (Some(Ok(token(TokenType::LEQ))), j + 2)
            } else {
                (Some(Ok(token(TokenType::LT))), j + 1)
            }
        } else if c == '>' {
            if eq_follows {
                (Some(Ok(token(TokenType::GEQ))), j + 2)
            } else {
                (Some(Ok(token(TokenType::GT))), j + 1)
            }
        } else if c == '=' {
            if eq_follows {
                (Some(Ok(token(TokenType::EQ))), j + 2)
            } else {
                (Some(Err(QueryError::BadLex(LexFault::SingleEquals))), end)
            }
        } else if c == '"' {
            let e = self.run(j + 1, end, Run::Quoted);
            if e >= end {
                (Some(Err(QueryError::BadLex(LexFault::UnterminatedString))), end)
            } else {
                let t = Token { kind: TokenType::String, lexemme: Some(self.text(j + 1, e)) };
                (Some(Ok(t)), e + 1)
            }
        } else if c.is_numeric() {
            let e = self.run(j + 1, end, Run::Digits);
            let t = Token { kind: TokenType::Number, lexemme: Some(self.text(j, e)) };
            (Some(Ok(t)), e)
        } else if c.is_alphabetic() {
            let e = self.run(j + 1, end, Run::Word);
            let word = self.text(j, e);
            (Some(Ok(alpha(word.as_str()))), e)
        } else {
            (Some(Err(QueryError::BadLex(LexFault::InvalidCharacter(c)))), end)
        }
    }

    /// The next item, which stays to come. `None` at the end of the text.
    pub fn peek(&self) -> (r: Option<Result<Token, QueryError>>)
        ensures
            shows(r, first_of(self@)),
    {
        proof {
            use_type_invariant(self);
            lemma_items_unfold(self.src@, self.pos as int);
        }
        self.step().0
    }

    /// Gives the next item and moves past it. `None` at the end of the text,
    /// and from then on; a fault is given once, and nothing follows it.
    pub fn next(&mut self) -> (r: Option<Result<Token, QueryError>>)
        ensures
            shows(r, first_of(old(self)@)),
            final(self)@ == rest(old(self)@),
    {
        proof {
            use_type_invariant(&*self);
            lemma_items_unfold(self.src@, self.pos as int);
        }
        let (item, next) = self.step();
        self.pos = next;
        item
    }
}

} // verus!
