//! Recursive-descent parser for the calculator language. A token sequence
//! becomes one expression tree per top-level statement, with explicit
//! precedence climbing (or < and < equality < comparison < term < factor <
//! unary < primary) and a two-token lookahead rule for assignments
//! (`IDENT ':' statement`). Parsing never aborts: a missing `)` records a
//! diagnostic and substitutes a placeholder, any other unexpected token falls
//! through a default production, and a statement that consumes nothing is
//! followed by skipping one token so that a pass over the tokens always
//! terminates. The exact behaviour is pinned by the spec-level parser
//! `spec_parse_all`, which the executable parser is proved to match.

use vstd::prelude::*;
use crate::lexer::SpecToken;
use crate::lexer::SpecTokenKind;
use crate::lexer::Token;
use crate::lexer::TokenKind;
use crate::lexer::copy_bytes;

verus! {

// ---------------------------------------------------------------------------
// Expression trees
// ---------------------------------------------------------------------------

/// Mathematical image of an evaluated value shape.
pub enum SpecAtom {
    Boolean(bool),
    Number(u64),
    Name(Seq<u8>),
}

/// Mathematical image of an expression tree.
pub enum SpecExpr {
    Nothing,
    Literal(SpecAtom),
    Unary(Box<SpecExpr>, SpecToken),
    Binary(Box<SpecExpr>, Box<SpecExpr>, SpecToken),
    Logical(Box<SpecExpr>, Box<SpecExpr>, SpecToken),
    Group(Box<SpecExpr>),
    Variable(Seq<u8>, Box<SpecExpr>),
}

/// The only evaluated value shape: a boolean, a number (an IEEE-754 binary64
/// bit pattern), or a deferred name reference resolved during evaluation.
pub enum Atom {
    Boolean(bool),
    Number(u64),
    Name(Vec<u8>),
}

impl View for Atom {
    type V = SpecAtom;

    open spec fn view(&self) -> SpecAtom {
        match self {
            Atom::Boolean(b) => SpecAtom::Boolean(*b),
            Atom::Number(bits) => SpecAtom::Number(*bits),
            Atom::Name(text) => SpecAtom::Name(text@),
        }
    }
}

impl DeepView for Atom {
    type V = SpecAtom;

    open spec fn deep_view(&self) -> SpecAtom {
        self.view()
    }
}

impl Atom {
    /// The bit pattern when this atom is a number.
    pub fn number(&self) -> (r: Option<u64>)
        ensures
            r == (match self@ {
                SpecAtom::Number(bits) => Some(bits),
                _ => None::<u64>,
            }),
    {
        match self {
            Atom::Number(bits) => Some(*bits),
            _ => None,
        }
    }

    pub fn duplicate(&self) -> (r: Atom)
        ensures
            r@ == self@,
    {
        match self {
            Atom::Boolean(b) => Atom::Boolean(*b),
            Atom::Number(bits) => Atom::Number(*bits),
            Atom::Name(text) => Atom::Name(copy_bytes(text)),
        }
    }
}

/// The AST node. Children are exclusively owned by their parent node.
pub enum Expression {
    Nothing,
    Literal(Atom),
    Unary(Box<Expression>, Token),
    Binary(Box<Expression>, Box<Expression>, Token),
    Logical(Box<Expression>, Box<Expression>, Token),
    Group(Box<Expression>),
    Variable(Vec<u8>, Box<Expression>),
}

impl View for Expression {
    type V = SpecExpr;

    open spec fn view(&self) -> SpecExpr
        decreases self,
    {
        match self {
            Expression::Nothing => SpecExpr::Nothing,
            Expression::Literal(a) => SpecExpr::Literal(a@),
            Expression::Unary(e, t) => SpecExpr::Unary(Box::new((**e)@), t@),
            Expression::Binary(l, r, t) => SpecExpr::Binary(Box::new((**l)@), Box::new((**r)@), t@),
            Expression::Logical(l, r, t) => SpecExpr::Logical(
                Box::new((**l)@),
                Box::new((**r)@),
                t@,
            ),
            Expression::Group(e) => SpecExpr::Group(Box::new((**e)@)),
            Expression::Variable(name, e) => SpecExpr::Variable(name@, Box::new((**e)@)),
        }
    }
}

impl DeepView for Expression {
    type V = SpecExpr;

    open spec fn deep_view(&self) -> SpecExpr {
        self.view()
    }
}

impl Expression {
    /// A structural copy whose mathematical image is the same.
    pub fn duplicate(&self) -> (r: Expression)
        ensures
            r@ == self@,
        decreases self,
    {
        match self {
            Expression::Nothing => Expression::Nothing,
            Expression::Literal(a) => Expression::Literal(a.duplicate()),
            Expression::Unary(e, t) => Expression::Unary(Box::new(e.duplicate()), t.duplicate()),
            Expression::Binary(l, r, t) => Expression::Binary(
                Box::new(l.duplicate()),
                Box::new(r.duplicate()),
                t.duplicate(),
            ),
            Expression::Logical(l, r, t) => Expression::Logical(
                Box::new(l.duplicate()),
                Box::new(r.duplicate()),
                t.duplicate(),
            ),
            Expression::Group(e) => Expression::Group(Box::new(e.duplicate())),
            Expression::Variable(name, e) => Expression::Variable(
                copy_bytes(name),
                Box::new(e.duplicate()),
            ),
        }
    }
}

/// Whether the bytes of two vectors agree.
pub fn bytes_eq(a: &Vec<u8>, b: &Vec<u8>) -> (r: bool)
    ensures
        r == (a@ == b@),
{
    if a.len() != b.len() {
        proof {
            assert(a@ != b@);
        }
        return false;
    }
    let mut i: usize = 0;
    while i < a.len()
        invariant
            i <= a@.len(),
            a@.len() == b@.len(),
            forall|j: int| 0 <= j < i ==> a@[j] == b@[j],
        decreases a@.len() - i,
    {
        if a[i] != b[i] {
            proof {
                assert(a@ != b@);
            }
            return false;
        }
        i = i + 1;
    }
    proof {
        assert(a@ =~= b@);
    }
    true
}

/// Whether two token kinds are the same kind with the same payload.
pub fn kind_eq(a: &TokenKind, b: &TokenKind) -> (r: bool)
    ensures
        r == (a@ == b@),
{
    match (a, b) {
        (TokenKind::Identifier(x), TokenKind::Identifier(y)) => bytes_eq(x, y),
        (TokenKind::Number(x), TokenKind::Number(y)) => x == y,
        (TokenKind::True, TokenKind::True) => true,
        (TokenKind::False, TokenKind::False) => true,
        (TokenKind::Percent, TokenKind::Percent) => true,
        (TokenKind::Dot, TokenKind::Dot) => true,
        (TokenKind::Colon, TokenKind::Colon) => true,
        (TokenKind::OpenParen, TokenKind::OpenParen) => true,
        (TokenKind::CloseParen, TokenKind::CloseParen) => true,
        (TokenKind::Plus, TokenKind::Plus) => true,
        (TokenKind::Minus, TokenKind::Minus) => true,
        (TokenKind::Times, TokenKind::Times) => true,
        (TokenKind::Over, TokenKind::Over) => true,
        (TokenKind::Equal, TokenKind::Equal) => true,
        (TokenKind::Less, TokenKind::Less) => true,
        (TokenKind::LessEqual, TokenKind::LessEqual) => true,
        (TokenKind::Greater, TokenKind::Greater) => true,
        (TokenKind::GreaterEqual, TokenKind::GreaterEqual) => true,
        (TokenKind::And, TokenKind::And) => true,
        (TokenKind::Or, TokenKind::Or) => true,
        (TokenKind::Mod, TokenKind::Mod) => true,
        (TokenKind::Whitespace, TokenKind::Whitespace) => true,
        (TokenKind::Newline, TokenKind::Newline) => true,
        (TokenKind::Eof, TokenKind::Eof) => true,
        (TokenKind::Invalid, TokenKind::Invalid) => true,
        _ => false,
    }
}

// ---------------------------------------------------------------------------
// Spec parser
// ---------------------------------------------------------------------------

pub open spec fn invalid_token() -> SpecToken {
    SpecToken { kind: SpecTokenKind::Invalid, lexeme: Seq::empty() }
}

/// The token at position `i`, an invalid token when out of range.
pub open spec fn tok_at(t: Seq<SpecToken>, i: int) -> SpecToken {
    if 0 <= i && i < t.len() {
        t[i]
    } else {
        invalid_token()
    }
}

pub open spec fn at_end(t: Seq<SpecToken>, i: int) -> bool {
    !(0 <= i && i < t.len()) || tok_at(t, i).kind is Eof
}

/// The current token matches `k` exactly (and the stream has not ended).
pub open spec fn spec_check(t: Seq<SpecToken>, i: int, k: SpecTokenKind) -> bool {
    !at_end(t, i) && tok_at(t, i).kind == k
}

/// The token one before `i`, an invalid token when there is none.
pub open spec fn spec_previous(t: Seq<SpecToken>, i: int) -> SpecToken {
    if t.len() < 2 {
        invalid_token()
    } else if 1 <= i && i <= t.len() {
        t[i - 1]
    } else {
        invalid_token()
    }
}

/// Position after optionally consuming one trailing newline token.
pub open spec fn skip_newline(t: Seq<SpecToken>, i: int) -> int {
    if spec_check(t, i, SpecTokenKind::Newline) {
        i + 1
    } else {
        i
    }
}

pub open spec fn at_least(j: int, m: int) -> int {
    if j < m {
        m
    } else {
        j
    }
}

/// Remaining length, the first component of every parsing measure.
pub open spec fn rem_tokens(t: Seq<SpecToken>, i: int) -> int {
    if 0 <= i && i <= t.len() {
        t.len() - i
    } else if i < 0 {
        t.len() as int
    } else {
        0
    }
}

/// An assignment statement starts with an identifier token; the probe kind
/// carries the token's own lexeme, so only a well-formed identifier matches.
pub open spec fn spec_check_ident(t: Seq<SpecToken>, i: int) -> bool {
    spec_check(t, i, SpecTokenKind::Identifier(tok_at(t, i).lexeme))
}

#[verifier::opaque]
pub open spec fn spec_parse_statement(t: Seq<SpecToken>, i: int) -> (SpecExpr, int, Seq<SpecToken>)
    decreases rem_tokens(t, i), 28int,
{
    if spec_check_ident(t, i) {
        spec_parse_identifier(t, i + 1)
    } else {
        spec_parse_or(t, i)
    }
}

#[verifier::opaque]
pub open spec fn spec_parse_identifier(t: Seq<SpecToken>, i: int) -> (
    SpecExpr,
    int,
    Seq<SpecToken>,
)
    decreases rem_tokens(t, i), 30int,
{
    let identifier = spec_previous(t, i);
    if spec_check(t, i, SpecTokenKind::Colon) {
        let (value, j, d) = spec_parse_statement(t, i + 1);
        let j1 = skip_newline(t, at_least(j, i + 1));
        (SpecExpr::Variable(identifier.lexeme, Box::new(value)), j1, d)
    } else {
        spec_parse_statement(t, i)
    }
}

#[verifier::opaque]
pub open spec fn spec_parse_or(t: Seq<SpecToken>, i: int) -> (SpecExpr, int, Seq<SpecToken>)
    decreases rem_tokens(t, i), 26int,
{
    let (e, j, d) = spec_parse_and(t, i);
    spec_or_loop(t, e, at_least(j, i), d)
}

#[verifier::opaque]
pub open spec fn spec_or_loop(t: Seq<SpecToken>, left: SpecExpr, i: int, d: Seq<SpecToken>) -> (
    SpecExpr,
    int,
    Seq<SpecToken>,
)
    decreases rem_tokens(t, i), 24int,
{
    if spec_check(t, i, SpecTokenKind::Or) {
        let (right, j, d2) = spec_parse_and(t, i + 1);
        spec_or_loop(
            t,
            SpecExpr::Logical(Box::new(left), Box::new(right), spec_previous(t, i + 1)),
            at_least(j, i + 1),
            d + d2,
        )
    } else {
        (left, i, d)
    }
}

#[verifier::opaque]
pub open spec fn spec_parse_and(t: Seq<SpecToken>, i: int) -> (SpecExpr, int, Seq<SpecToken>)
    decreases rem_tokens(t, i), 22int,
{
    let (e, j, d) = spec_parse_equality(t, i);
    spec_and_loop(t, e, at_least(j, i), d)
}

#[verifier::opaque]
pub open spec fn spec_and_loop(t: Seq<SpecToken>, left: SpecExpr, i: int, d: Seq<SpecToken>) -> (
    SpecExpr,
    int,
    Seq<SpecToken>,
)
    decreases rem_tokens(t, i), 20int,
{
    if spec_check(t, i, SpecTokenKind::And) {
        let (right, j, d2) = spec_parse_equality(t, i + 1);
        spec_and_loop(
            t,
            SpecExpr::Logical(Box::new(left), Box::new(right), spec_previous(t, i + 1)),
            at_least(j, i + 1),
            d + d2,
        )
    } else {
        (left, i, d)
    }
}

#[verifier::opaque]
pub open spec fn spec_parse_equality(t: Seq<SpecToken>, i: int) -> (SpecExpr, int, Seq<SpecToken>)
    decreases rem_tokens(t, i), 18int,
{
    let (e, j, d) = spec_parse_comparison(t, i);
    spec_equality_loop(t, e, at_least(j, i), d)
}

#[verifier::opaque]
pub open spec fn spec_equality_loop(
    t: Seq<SpecToken>,
    left: SpecExpr,
    i: int,
    d: Seq<SpecToken>,
) -> (SpecExpr, int, Seq<SpecToken>)
    decreases rem_tokens(t, i), 16int,
{
    if spec_check(t, i, SpecTokenKind::Equal) {
        let (right, j, d2) = spec_parse_comparison(t, i + 1);
        spec_equality_loop(
            t,
            SpecExpr::Binary(Box::new(left), Box::new(right), spec_previous(t, i + 1)),
            at_least(j, i + 1),
            d + d2,
        )
    } else {
        (left, i, d)
    }
}

/// The comparison operators, tried in the order the parser tries them.
pub open spec fn spec_check_comparison(t: Seq<SpecToken>, i: int) -> bool {
    spec_check(t, i, SpecTokenKind::Greater) || spec_check(t, i, SpecTokenKind::GreaterEqual)
        || spec_check(t, i, SpecTokenKind::Less) || spec_check(t, i, SpecTokenKind::LessEqual)
}

#[verifier::opaque]
pub open spec fn spec_parse_comparison(t: Seq<SpecToken>, i: int) -> (SpecExpr, int, Seq<SpecToken>)
    decreases rem_tokens(t, i), 14int,
{
    let (e, j, d) = spec_parse_term(t, i);
    spec_comparison_loop(t, e, at_least(j, i), d)
}

#[verifier::opaque]
pub open spec fn spec_comparison_loop(
    t: Seq<SpecToken>,
    left: SpecExpr,
    i: int,
    d: Seq<SpecToken>,
) -> (SpecExpr, int, Seq<SpecToken>)
    decreases rem_tokens(t, i), 12int,
{
    if spec_check_comparison(t, i) {
        let (right, j, d2) = spec_parse_term(t, i + 1);
        spec_comparison_loop(
            t,
            SpecExpr::Binary(Box::new(left), Box::new(right), spec_previous(t, i + 1)),
            at_least(j, i + 1),
            d + d2,
        )
    } else {
        (left, i, d)
    }
}

pub open spec fn spec_check_term(t: Seq<SpecToken>, i: int) -> bool {
    spec_check(t, i, SpecTokenKind::Minus) || spec_check(t, i, SpecTokenKind::Plus)
}

#[verifier::opaque]
pub open spec fn spec_parse_term(t: Seq<SpecToken>, i: int) -> (SpecExpr, int, Seq<SpecToken>)
    decreases rem_tokens(t, i), 10int,
{
    let (e, j, d) = spec_parse_factor(t, i);
    spec_term_loop(t, e, at_least(j, i), d)
}

#[verifier::opaque]
pub open spec fn spec_term_loop(t: Seq<SpecToken>, left: SpecExpr, i: int, d: Seq<SpecToken>) -> (
    SpecExpr,
    int,
    Seq<SpecToken>,
)
    decreases rem_tokens(t, i), 8int,
{
    if spec_check_term(t, i) {
        let (right, j, d2) = spec_parse_factor(t, i + 1);
        spec_term_loop(
            t,
            SpecExpr::Binary(Box::new(left), Box::new(right), spec_previous(t, i + 1)),
            at_least(j, i + 1),
            d + d2,
        )
    } else {
        (left, i, d)
    }
}

pub open spec fn spec_check_factor(t: Seq<SpecToken>, i: int) -> bool {
    spec_check(t, i, SpecTokenKind::Over) || spec_check(t, i, SpecTokenKind::Times) || spec_check(
        t,
        i,
        SpecTokenKind::Mod,
    ) || spec_check(t, i, SpecTokenKind::Percent)
}

#[verifier::opaque]
pub open spec fn spec_parse_factor(t: Seq<SpecToken>, i: int) -> (SpecExpr, int, Seq<SpecToken>)
    decreases rem_tokens(t, i), 6int,
{
    let (e, j, d) = spec_parse_unary(t, i);
    spec_factor_loop(t, e, at_least(j, i), d)
}

#[verifier::opaque]
pub open spec fn spec_factor_loop(t: Seq<SpecToken>, left: SpecExpr, i: int, d: Seq<SpecToken>) -> (
    SpecExpr,
    int,
    Seq<SpecToken>,
)
    decreases rem_tokens(t, i), 4int,
{
    if spec_check_factor(t, i) {
        let (right, j, d2) = spec_parse_unary(t, i + 1);
        spec_factor_loop(
            t,
            SpecExpr::Binary(Box::new(left), Box::new(right), spec_previous(t, i + 1)),
            at_least(j, i + 1),
            d + d2,
        )
    } else {
        (left, i, d)
    }
}

#[verifier::opaque]
pub open spec fn spec_parse_unary(t: Seq<SpecToken>, i: int) -> (SpecExpr, int, Seq<SpecToken>)
    decreases rem_tokens(t, i), 2int,
{
    if spec_check(t, i, SpecTokenKind::Minus) {
        let (right, j, d) = spec_parse_unary(t, i + 1);
        (SpecExpr::Unary(Box::new(right), spec_previous(t, i + 1)), j, d)
    } else {
        spec_parse_primary(t, i)
    }
}

#[verifier::opaque]
pub open spec fn spec_parse_primary(t: Seq<SpecToken>, i: int) -> (SpecExpr, int, Seq<SpecToken>)
    decreases rem_tokens(t, i), 0int,
{
    if spec_check(t, i, SpecTokenKind::False) {
        (SpecExpr::Literal(SpecAtom::Boolean(false)), skip_newline(t, i + 1), Seq::empty())
    } else if spec_check(t, i, SpecTokenKind::True) {
        (SpecExpr::Literal(SpecAtom::Boolean(true)), skip_newline(t, i + 1), Seq::empty())
    } else {
        match tok_at(t, i).kind {
            SpecTokenKind::Identifier(text) => (
                SpecExpr::Literal(SpecAtom::Name(text)),
                skip_newline(t, i + 1),
                Seq::empty(),
            ),
            SpecTokenKind::Number(bits) => (
                SpecExpr::Literal(SpecAtom::Number(bits)),
                skip_newline(t, i + 1),
                Seq::empty(),
            ),
            _ => {
                if spec_check(t, i, SpecTokenKind::OpenParen) {
                    let (inner, j0, d) = spec_parse_or(t, i + 1);
                    let j = at_least(j0, i + 1);
                    if spec_check(t, j, SpecTokenKind::CloseParen) {
                        (SpecExpr::Group(Box::new(inner)), skip_newline(t, j + 1), d)
                    } else {
                        (SpecExpr::Group(Box::new(inner)), skip_newline(t, j), d.push(tok_at(t, j)))
                    }
                } else {
                    let j = skip_newline(t, i);
                    (
                        SpecExpr::Literal(SpecAtom::Name(spec_previous(t, j).lexeme)),
                        j,
                        Seq::empty(),
                    )
                }
            },
        }
    }
}

/// All top-level statements, in source order, with the diagnostics the pass
/// records. A statement that consumes no token is followed by skipping one.
#[verifier::opaque]
pub open spec fn spec_parse_all(t: Seq<SpecToken>, i: int) -> (Seq<SpecExpr>, Seq<SpecToken>)
    decreases rem_tokens(t, i), 32int,
{
    if at_end(t, i) {
        (Seq::empty(), Seq::empty())
    } else {
        let (e, j, d) = spec_parse_statement(t, i);
        let j1 = if j <= i {
            i + 1
        } else {
            j
        };
        let (rest, drest) = spec_parse_all(t, j1);
        (seq![e] + rest, d + drest)
    }
}

// ---------------------------------------------------------------------------
// The parser
// ---------------------------------------------------------------------------

/// A parse diagnostic: the unexpected token that was found and the message
/// reported for it. Diagnostics are collected on the side; they never abort
/// a parse.
pub struct Diagnostic {
    pub message: String,
    pub found: Token,
}

impl DeepView for Diagnostic {
    type V = SpecToken;

    open spec fn deep_view(&self) -> SpecToken {
        self.found@
    }
}

/// Holds for two parser states and a parse result when the second state and
/// the result are what the spec parser says the first state steps to.
pub open spec fn level_post(
    p0: Parser,
    p1: Parser,
    e: SpecExpr,
    result: (SpecExpr, int, Seq<SpecToken>),
) -> bool {
    &&& p1.wf()
    &&& p1.tokens == p0.tokens
    &&& p1.expressions == p0.expressions
    &&& p0.index <= p1.index
    &&& e == result.0
    &&& p1.index as int == result.1
    &&& p1.diagnostics.deep_view() == p0.diagnostics.deep_view() + result.2
}

pub struct Parser {
    pub index: usize,
    pub tokens: Vec<Token>,
    pub expressions: Vec<Expression>,
    pub diagnostics: Vec<Diagnostic>,
}

impl Parser {
    /// Safety invariant of the cursor: an `Eof` token lies at or after it, so
    /// peeking never leaves the token vector.
    pub open spec fn wf(self) -> bool {
        exists|k: int|
            #![auto]
            self.index <= k && k < self.tokens.deep_view().len()
                && self.tokens.deep_view()[k].kind is Eof
    }

    pub fn new(tokens: Vec<Token>) -> (p: Parser)
        ensures
            p.index == 0,
            p.tokens == tokens,
            p.expressions.deep_view() == Seq::<SpecExpr>::empty(),
            p.diagnostics.deep_view() == Seq::<SpecToken>::empty(),
    {
        let p = Parser { index: 0, tokens, expressions: Vec::new(), diagnostics: Vec::new() };
        proof {
            assert(p.expressions.deep_view() =~= Seq::<SpecExpr>::empty());
            assert(p.diagnostics.deep_view() =~= Seq::<SpecToken>::empty());
        }
        p
    }

    /// The diagnostics recorded so far, for callers that surface them.
    pub fn diagnostic_count(&self) -> (n: usize)
        ensures
            n == self.diagnostics.deep_view().len(),
    {
        self.diagnostics.len()
    }

    fn peek(&self) -> (tk: Token)
        requires
            self.wf(),
        ensures
            tk@ == tok_at(self.tokens.deep_view(), self.index as int),
    {
        proof {
            assert(self.index < self.tokens.deep_view().len());
        }
        self.tokens[self.index].duplicate()
    }

    fn is_at_end(&self) -> (r: bool)
        requires
            self.wf(),
        ensures
            r == at_end(self.tokens.deep_view(), self.index as int),
    {
        let tk = self.peek();
        match tk.kind {
            TokenKind::Eof => true,
            _ => false,
        }
    }

    fn check(&self, kind: &TokenKind) -> (r: bool)
        requires
            self.wf(),
        ensures
            r == spec_check(self.tokens.deep_view(), self.index as int, kind@),
    {
        if self.is_at_end() {
            return false;
        }
        let tk = self.peek();
        kind_eq(&tk.kind, kind)
    }

    fn match_kind(&mut self, kind: &TokenKind) -> (r: bool)
        requires
            old(self).wf(),
        ensures
            final(self).wf(),
            final(self).tokens == old(self).tokens,
            final(self).expressions == old(self).expressions,
            final(self).diagnostics == old(self).diagnostics,
            r == spec_check(old(self).tokens.deep_view(), old(self).index as int, kind@),
            final(self).index as int == (if r {
                old(self).index + 1
            } else {
                old(self).index as int
            }),
    {
        let ghost t = self.tokens.deep_view();
        if self.check(kind) {
            let n = self.tokens.len();
            proof {
                assert(self.index < n);
            }
            self.index = self.index + 1;
            proof {
                let k = choose|k: int|
                    #![auto]
                    old(self).index <= k && k < t.len() && t[k].kind is Eof;
                assert(!(t[old(self).index as int].kind is Eof));
                assert(self.index <= k && k < t.len() && t[k].kind is Eof);
            }
            true
        } else {
            false
        }
    }

    fn previous(&self) -> (tk: Token)
        ensures
            tk@ == spec_previous(self.tokens.deep_view(), self.index as int),
    {
        if self.tokens.len() < 2 {
            let tk = Token::new(TokenKind::Invalid, Vec::new());
            proof {
                assert(tk@ == invalid_token());
            }
            tk
        } else if self.index == 0 || self.index > self.tokens.len() {
            let tk = Token::new(TokenKind::Invalid, Vec::new());
            proof {
                assert(tk@ == invalid_token());
            }
            tk
        } else {
            self.tokens[self.index - 1].duplicate()
        }
    }

    fn consume(&mut self) -> (tk: Token)
        requires
            old(self).wf(),
        ensures
            final(self).wf(),
            final(self).tokens == old(self).tokens,
            final(self).expressions == old(self).expressions,
            final(self).diagnostics == old(self).diagnostics,
            final(self).index as int == (if at_end(
                old(self).tokens.deep_view(),
                old(self).index as int,
            ) {
                old(self).index as int
            } else {
                old(self).index + 1
            }),
            tk@ == spec_previous(old(self).tokens.deep_view(), final(self).index as int),
    {
        let ghost t = self.tokens.deep_view();
        if !self.is_at_end() {
            let n = self.tokens.len();
            proof {
                assert(self.index < n);
            }
            self.index = self.index + 1;
            proof {
                let k = choose|k: int|
                    #![auto]
                    old(self).index <= k && k < t.len() && t[k].kind is Eof;
                assert(!(t[old(self).index as int].kind is Eof));
                assert(self.index <= k && k < t.len() && t[k].kind is Eof);
            }
        }
        self.previous()
    }

    fn consume_with(&mut self, kind: &TokenKind, message: &str) -> (tk: Token)
        requires
            old(self).wf(),
        ensures
            final(self).wf(),
            final(self).tokens == old(self).tokens,
            final(self).expressions == old(self).expressions,
            old(self).index <= final(self).index,
            ({
                let t = old(self).tokens.deep_view();
                let i = old(self).index as int;
                if spec_check(t, i, kind@) {
                    &&& final(self).index as int == i + 1
                    &&& final(self).diagnostics == old(self).diagnostics
                    &&& tk@ == spec_previous(t, i + 1)
                } else {
                    &&& final(self).index as int == i
                    &&& final(self).diagnostics.deep_view() == old(
                        self,
                    ).diagnostics.deep_view().push(tok_at(t, i))
                    &&& tk@ == invalid_token()
                }
            }),
    {
        let ghost t = self.tokens.deep_view();
        let ghost d0 = self.diagnostics.deep_view();
        if self.check(kind) {
            return self.consume();
        }
        let found = self.peek();
        let msg = message.to_owned();
        self.diagnostics.push(Diagnostic { message: msg, found });
        proof {
            assert(self.diagnostics.deep_view() =~= d0.push(tok_at(t, self.index as int)));
        }
        let tk = Token::new(TokenKind::Invalid, Vec::new());
        proof {
            assert(tk@ == invalid_token());
        }
        tk
    }

    fn match_comparison(&mut self) -> (r: bool)
        requires
            old(self).wf(),
        ensures
            final(self).wf(),
            final(self).tokens == old(self).tokens,
            final(self).expressions == old(self).expressions,
            final(self).diagnostics == old(self).diagnostics,
            r == spec_check_comparison(old(self).tokens.deep_view(), old(self).index as int),
            final(self).index as int == (if r {
                old(self).index + 1
            } else {
                old(self).index as int
            }),
    {
        if self.match_kind(&TokenKind::Greater) {
            return true;
        }
        if self.match_kind(&TokenKind::GreaterEqual) {
            return true;
        }
        if self.match_kind(&TokenKind::Less) {
            return true;
        }
        self.match_kind(&TokenKind::LessEqual)
    }

    fn match_term(&mut self) -> (r: bool)
        requires
            old(self).wf(),
        ensures
            final(self).wf(),
            final(self).tokens == old(self).tokens,
            final(self).expressions == old(self).expressions,
            final(self).diagnostics == old(self).diagnostics,
            r == spec_check_term(old(self).tokens.deep_view(), old(self).index as int),
            final(self).index as int == (if r {
                old(self).index + 1
            } else {
                old(self).index as int
            }),
    {
        if self.match_kind(&TokenKind::Minus) {
            return true;
        }
        self.match_kind(&TokenKind::Plus)
    }

    fn match_factor(&mut self) -> (r: bool)
        requires
            old(self).wf(),
        ensures
            final(self).wf(),
            final(self).tokens == old(self).tokens,
            final(self).expressions == old(self).expressions,
            final(self).diagnostics == old(self).diagnostics,
            r == spec_check_factor(old(self).tokens.deep_view(), old(self).index as int),
            final(self).index as int == (if r {
                old(self).index + 1
            } else {
                old(self).index as int
            }),
    {
        if self.match_kind(&TokenKind::Over) {
            return true;
        }
        if self.match_kind(&TokenKind::Times) {
            return true;
        }
        if self.match_kind(&TokenKind::Mod) {
            return true;
        }
        self.match_kind(&TokenKind::Percent)
    }

    #[verifier::rlimit(100)]
    #[verifier::spinoff_prover]
    pub fn parse_or(&mut self) -> (e: Expression)
        requires
            old(self).wf(),
        ensures
            level_post(
                *old(self),
                *final(self),
                e@,
                spec_parse_or(old(self).tokens.deep_view(), old(self).index as int),
            ),
        decreases rem_tokens(self.tokens.deep_view(), self.index as int), 26int,
    {
        let ghost t = self.tokens.deep_view();
        let ghost i0 = self.index as int;
        let ghost d0 = self.diagnostics.deep_view();
        let ghost tgt = spec_parse_or(t, i0);
        proof {
            reveal(spec_parse_or);
            reveal(spec_or_loop);
            assert(tgt == spec_or_loop(
                t,
                spec_parse_and(t, i0).0,
                at_least(spec_parse_and(t, i0).1, i0),
                spec_parse_and(t, i0).2,
            ));
        }
        let mut e = self.parse_and();
        let ghost mut dcur = spec_parse_and(t, i0).2;
        proof {
            assert(at_least(spec_parse_and(t, i0).1, i0) == spec_parse_and(t, i0).1);
        }
        let mut matched = self.match_kind(&TokenKind::Or);
        while matched
            invariant
                self.wf(),
                self.tokens == old(self).tokens,
                self.expressions == old(self).expressions,
                t == self.tokens.deep_view(),
                i0 <= self.index as int,
                i0 == old(self).index as int,
                d0 == old(self).diagnostics.deep_view(),
                self.diagnostics.deep_view() == d0 + dcur,
                tgt == spec_parse_or(t, i0),
                matched ==> 1 <= self.index && spec_check(t, self.index - 1, SpecTokenKind::Or) && spec_or_loop(
                    t,
                    e@,
                    self.index - 1,
                    dcur,
                ) == tgt,
                !matched ==> spec_or_loop(t, e@, self.index as int, dcur) == tgt && !(spec_check(t, self.index as int, SpecTokenKind::Or)),
            decreases rem_tokens(
                t,
                if matched {
                    self.index - 1
                } else {
                    self.index as int
                },
            ),
        {
            let ghost gi = self.index as int;
            let ghost eprev = e@;
            let operator = self.previous();
            let right = self.parse_and();
            proof {
                reveal(spec_or_loop);
                assert(at_least(spec_parse_and(t, gi).1, gi) == spec_parse_and(t, gi).1);
                assert(spec_or_loop(t, eprev, gi - 1, dcur) == spec_or_loop(
                    t,
                    SpecExpr::Logical(
                        Box::new(eprev),
                        Box::new(spec_parse_and(t, gi).0),
                        spec_previous(t, gi),
                    ),
                    at_least(spec_parse_and(t, gi).1, gi),
                    dcur + spec_parse_and(t, gi).2,
                ));
            }
            e = Expression::Logical(Box::new(e), Box::new(right), operator);
            proof {
                let d2 = spec_parse_and(t, gi).2;
                assert(d0 + (dcur + d2) =~= (d0 + dcur) + d2);
                dcur = dcur + d2;
            }
            matched = self.match_kind(&TokenKind::Or);
        }
        proof {
            reveal(spec_or_loop);
            assert(tgt == (e@, self.index as int, dcur));
        }
        e
    }

    #[verifier::rlimit(100)]
    #[verifier::spinoff_prover]
    pub fn parse_and(&mut self) -> (e: Expression)
        requires
            old(self).wf(),
        ensures
            level_post(
                *old(self),
                *final(self),
                e@,
                spec_parse_and(old(self).tokens.deep_view(), old(self).index as int),
            ),
        decreases rem_tokens(self.tokens.deep_view(), self.index as int), 22int,
    {
        let ghost t = self.tokens.deep_view();
        let ghost i0 = self.index as int;
        let ghost d0 = self.diagnostics.deep_view();
        let ghost tgt = spec_parse_and(t, i0);
        proof {
            reveal(spec_parse_and);
            reveal(spec_and_loop);
            assert(tgt == spec_and_loop(
                t,
                spec_parse_equality(t, i0).0,
                at_least(spec_parse_equality(t, i0).1, i0),
                spec_parse_equality(t, i0).2,
            ));
        }
        let mut e = self.parse_equality();
        let ghost mut dcur = spec_parse_equality(t, i0).2;
        proof {
            assert(at_least(spec_parse_equality(t, i0).1, i0) == spec_parse_equality(t, i0).1);
        }
        let mut matched = self.match_kind(&TokenKind::And);
        while matched
            invariant
                self.wf(),
                self.tokens == old(self).tokens,
                self.expressions == old(self).expressions,
                t == self.tokens.deep_view(),
                i0 <= self.index as int,
                i0 == old(self).index as int,
                d0 == old(self).diagnostics.deep_view(),
                self.diagnostics.deep_view() == d0 + dcur,
                tgt == spec_parse_and(t, i0),
                matched ==> 1 <= self.index && spec_check(t, self.index - 1, SpecTokenKind::And) && spec_and_loop(
                    t,
                    e@,
                    self.index - 1,
                    dcur,
                ) == tgt,
                !matched ==> spec_and_loop(t, e@, self.index as int, dcur) == tgt && !(spec_check(t, self.index as int, SpecTokenKind::And)),
            decreases rem_tokens(
                t,
                if matched {
                    self.index - 1
                } else {
                    self.index as int
                },
            ),
        {
            let ghost gi = self.index as int;
            let ghost eprev = e@;
            let operator = self.previous();
            let right = self.parse_equality();
            proof {
                reveal(spec_and_loop);
                assert(at_least(spec_parse_equality(t, gi).1, gi) == spec_parse_equality(t, gi).1);
                assert(spec_and_loop(t, eprev, gi - 1, dcur) == spec_and_loop(
                    t,
                    SpecExpr::Logical(
                        Box::new(eprev),
                        Box::new(spec_parse_equality(t, gi).0),
                        spec_previous(t, gi),
                    ),
                    at_least(spec_parse_equality(t, gi).1, gi),
                    dcur + spec_parse_equality(t, gi).2,
                ));
            }
            e = Expression::Logical(Box::new(e), Box::new(right), operator);
            proof {
                let d2 = spec_parse_equality(t, gi).2;
                assert(d0 + (dcur + d2) =~= (d0 + dcur) + d2);
                dcur = dcur + d2;
            }
            matched = self.match_kind(&TokenKind::And);
        }
        proof {
            reveal(spec_and_loop);
            assert(tgt == (e@, self.index as int, dcur));
        }
        e
    }

    #[verifier::rlimit(100)]
    #[verifier::spinoff_prover]
    pub fn parse_equality(&mut self) -> (e: Expression)
        requires
            old(self).wf(),
        ensures
            level_post(
                *old(self),
                *final(self),
                e@,
                spec_parse_equality(old(self).tokens.deep_view(), old(self).index as int),
            ),
        decreases rem_tokens(self.tokens.deep_view(), self.index as int), 18int,
    {
        let ghost t = self.tokens.deep_view();
        let ghost i0 = self.index as int;
        let ghost d0 = self.diagnostics.deep_view();
        let ghost tgt = spec_parse_equality(t, i0);
        proof {
            reveal(spec_parse_equality);
            reveal(spec_equality_loop);
            assert(tgt == spec_equality_loop(
                t,
                spec_parse_comparison(t, i0).0,
                at_least(spec_parse_comparison(t, i0).1, i0),
                spec_parse_comparison(t, i0).2,
            ));
        }
        let mut e = self.parse_comparison();
        let ghost mut dcur = spec_parse_comparison(t, i0).2;
        proof {
            assert(at_least(spec_parse_comparison(t, i0).1, i0) == spec_parse_comparison(t, i0).1);
        }
        let mut matched = self.match_kind(&TokenKind::Equal);
        while matched
            invariant
                self.wf(),
                self.tokens == old(self).tokens,
                self.expressions == old(self).expressions,
                t == self.tokens.deep_view(),
                i0 <= self.index as int,
                i0 == old(self).index as int,
                d0 == old(self).diagnostics.deep_view(),
                self.diagnostics.deep_view() == d0 + dcur,
                tgt == spec_parse_equality(t, i0),
                matched ==> 1 <= self.index && spec_check(t, self.index - 1, SpecTokenKind::Equal) && spec_equality_loop(
                    t,
                    e@,
                    self.index - 1,
                    dcur,
                ) == tgt,
                !matched ==> spec_equality_loop(t, e@, self.index as int, dcur) == tgt && !(spec_check(t, self.index as int, SpecTokenKind::Equal)),
            decreases rem_tokens(
                t,
                if matched {
                    self.index - 1
                } else {
                    self.index as int
                },
            ),
        {
            let ghost gi = self.index as int;
            let ghost eprev = e@;
            let operator = self.previous();
            let right = self.parse_comparison();
            proof {
                reveal(spec_equality_loop);
                assert(at_least(spec_parse_comparison(t, gi).1, gi) == spec_parse_comparison(t, gi).1);
                assert(spec_equality_loop(t, eprev, gi - 1, dcur) == spec_equality_loop(
                    t,
                    SpecExpr::Binary(
                        Box::new(eprev),
                        Box::new(spec_parse_comparison(t, gi).0),
                        spec_previous(t, gi),
                    ),
                    at_least(spec_parse_comparison(t, gi).1, gi),
                    dcur + spec_parse_comparison(t, gi).2,
                ));
            }
            e = Expression::Binary(Box::new(e), Box::new(right), operator);
            proof {
                let d2 = spec_parse_comparison(t, gi).2;
                assert(d0 + (dcur + d2) =~= (d0 + dcur) + d2);
                dcur = dcur + d2;
            }
            matched = self.match_kind(&TokenKind::Equal);
        }
        proof {
            reveal(spec_equality_loop);
            assert(tgt == (e@, self.index as int, dcur));
        }
        e
    }

    #[verifier::rlimit(100)]
    #[verifier::spinoff_prover]
    pub fn parse_comparison(&mut self) -> (e: Expression)
        requires
            old(self).wf(),
        ensures
            level_post(
                *old(self),
                *final(self),
                e@,
                spec_parse_comparison(old(self).tokens.deep_view(), old(self).index as int),
            ),
        decreases rem_tokens(self.tokens.deep_view(), self.index as int), 14int,
    {
        let ghost t = self.tokens.deep_view();
        let ghost i0 = self.index as int;
        let ghost d0 = self.diagnostics.deep_view();
        let ghost tgt = spec_parse_comparison(t, i0);
        proof {
            reveal(spec_parse_comparison);
            reveal(spec_comparison_loop);
            assert(tgt == spec_comparison_loop(
                t,
                spec_parse_term(t, i0).0,
                at_least(spec_parse_term(t, i0).1, i0),
                spec_parse_term(t, i0).2,
            ));
        }
        let mut e = self.parse_term();
        let ghost mut dcur = spec_parse_term(t, i0).2;
        proof {
            assert(at_least(spec_parse_term(t, i0).1, i0) == spec_parse_term(t, i0).1);
        }
        let mut matched = self.match_comparison();
        while matched
            invariant
                self.wf(),
                self.tokens == old(self).tokens,
                self.expressions == old(self).expressions,
                t == self.tokens.deep_view(),
                i0 <= self.index as int,
                i0 == old(self).index as int,
                d0 == old(self).diagnostics.deep_view(),
                self.diagnostics.deep_view() == d0 + dcur,
                tgt == spec_parse_comparison(t, i0),
                matched ==> 1 <= self.index && spec_check_comparison(t, self.index - 1) && spec_comparison_loop(
                    t,
                    e@,
                    self.index - 1,
                    dcur,
                ) == tgt,
                !matched ==> spec_comparison_loop(t, e@, self.index as int, dcur) == tgt && !(spec_check_comparison(t, self.index as int)),
            decreases rem_tokens(
                t,
                if matched {
                    self.index - 1
                } else {
                    self.index as int
                },
            ),
        {
            let ghost gi = self.index as int;
            let ghost eprev = e@;
            let operator = self.previous();
            let right = self.parse_term();
            proof {
                reveal(spec_comparison_loop);
                assert(at_least(spec_parse_term(t, gi).1, gi) == spec_parse_term(t, gi).1);
                assert(spec_comparison_loop(t, eprev, gi - 1, dcur) == spec_comparison_loop(
                    t,
                    SpecExpr::Binary(
                        Box::new(eprev),
                        Box::new(spec_parse_term(t, gi).0),
                        spec_previous(t, gi),
                    ),
                    at_least(spec_parse_term(t, gi).1, gi),
                    dcur + spec_parse_term(t, gi).2,
                ));
            }
            e = Expression::Binary(Box::new(e), Box::new(right), operator);
            proof {
                let d2 = spec_parse_term(t, gi).2;
                assert(d0 + (dcur + d2) =~= (d0 + dcur) + d2);
                dcur = dcur + d2;
            }
            matched = self.match_comparison();
        }
        proof {
            reveal(spec_comparison_loop);
            assert(tgt == (e@, self.index as int, dcur));
        }
        e
    }

    #[verifier::rlimit(100)]
    #[verifier::spinoff_prover]
    pub fn parse_term(&mut self) -> (e: Expression)
        requires
            old(self).wf(),
        ensures
            level_post(
                *old(self),
                *final(self),
                e@,
                spec_parse_term(old(self).tokens.deep_view(), old(self).index as int),
            ),
        decreases rem_tokens(self.tokens.deep_view(), self.index as int), 10int,
    {
        let ghost t = self.tokens.deep_view();
        let ghost i0 = self.index as int;
        let ghost d0 = self.diagnostics.deep_view();
        let ghost tgt = spec_parse_term(t, i0);
        proof {
            reveal(spec_parse_term);
            reveal(spec_term_loop);
            assert(tgt == spec_term_loop(
                t,
                spec_parse_factor(t, i0).0,
                at_least(spec_parse_factor(t, i0).1, i0),
                spec_parse_factor(t, i0).2,
            ));
        }
        let mut e = self.parse_factor();
        let ghost mut dcur = spec_parse_factor(t, i0).2;
        proof {
            assert(at_least(spec_parse_factor(t, i0).1, i0) == spec_parse_factor(t, i0).1);
        }
        let mut matched = self.match_term();
        while matched
            invariant
                self.wf(),
                self.tokens == old(self).tokens,
                self.expressions == old(self).expressions,
                t == self.tokens.deep_view(),
                i0 <= self.index as int,
                i0 == old(self).index as int,
                d0 == old(self).diagnostics.deep_view(),
                self.diagnostics.deep_view() == d0 + dcur,
                tgt == spec_parse_term(t, i0),
                matched ==> 1 <= self.index && spec_check_term(t, self.index - 1) && spec_term_loop(
                    t,
                    e@,
                    self.index - 1,
                    dcur,
                ) == tgt,
                !matched ==> spec_term_loop(t, e@, self.index as int, dcur) == tgt && !(spec_check_term(t, self.index as int)),
            decreases rem_tokens(
                t,
                if matched {
                    self.index - 1
                } else {
                    self.index as int
                },
            ),
        {
            let ghost gi = self.index as int;
            let ghost eprev = e@;
            let operator = self.previous();
            let right = self.parse_factor();
            proof {
                reveal(spec_term_loop);
                assert(at_least(spec_parse_factor(t, gi).1, gi) == spec_parse_factor(t, gi).1);
                assert(spec_term_loop(t, eprev, gi - 1, dcur) == spec_term_loop(
                    t,
                    SpecExpr::Binary(
                        Box::new(eprev),
                        Box::new(spec_parse_factor(t, gi).0),
                        spec_previous(t, gi),
                    ),
                    at_least(spec_parse_factor(t, gi).1, gi),
                    dcur + spec_parse_factor(t, gi).2,
                ));
            }
            e = Expression::Binary(Box::new(e), Box::new(right), operator);
            proof {
                let d2 = spec_parse_factor(t, gi).2;
                assert(d0 + (dcur + d2) =~= (d0 + dcur) + d2);
                dcur = dcur + d2;
            }
            matched = self.match_term();
        }
        proof {
            reveal(spec_term_loop);
            assert(tgt == (e@, self.index as int, dcur));
        }
        e
    }

    #[verifier::rlimit(100)]
    #[verifier::spinoff_prover]
    pub fn parse_factor(&mut self) -> (e: Expression)
        requires
            old(self).wf(),
        ensures
            level_post(
                *old(self),
                *final(self),
                e@,
                spec_parse_factor(old(self).tokens.deep_view(), old(self).index as int),
            ),
        decreases rem_tokens(self.tokens.deep_view(), self.index as int), 6int,
    {
        let ghost t = self.tokens.deep_view();
        let ghost i0 = self.index as int;
        let ghost d0 = self.diagnostics.deep_view();
        let ghost tgt = spec_parse_factor(t, i0);
        proof {
            reveal(spec_parse_factor);
            reveal(spec_factor_loop);
            assert(tgt == spec_factor_loop(
                t,
                spec_parse_unary(t, i0).0,
                at_least(spec_parse_unary(t, i0).1, i0),
                spec_parse_unary(t, i0).2,
            ));
        }
        let mut e = self.parse_unary();
        let ghost mut dcur = spec_parse_unary(t, i0).2;
        proof {
            assert(at_least(spec_parse_unary(t, i0).1, i0) == spec_parse_unary(t, i0).1);
        }
        let mut matched = self.match_factor();
        while matched
            invariant
                self.wf(),
                self.tokens == old(self).tokens,
                self.expressions == old(self).expressions,
                t == self.tokens.deep_view(),
                i0 <= self.index as int,
                i0 == old(self).index as int,
                d0 == old(self).diagnostics.deep_view(),
                self.diagnostics.deep_view() == d0 + dcur,
                tgt == spec_parse_factor(t, i0),
                matched ==> 1 <= self.index && spec_check_factor(t, self.index - 1) && spec_factor_loop(
                    t,
                    e@,
                    self.index - 1,
                    dcur,
                ) == tgt,
                !matched ==> spec_factor_loop(t, e@, self.index as int, dcur) == tgt && !(spec_check_factor(t, self.index as int)),
            decreases rem_tokens(
                t,
                if matched {
                    self.index - 1
                } else {
                    self.index as int
                },
            ),
        {
            let ghost gi = self.index as int;
            let ghost eprev = e@;
            let operator = self.previous();
            let right = self.parse_unary();
            proof {
                reveal(spec_factor_loop);
                assert(at_least(spec_parse_unary(t, gi).1, gi) == spec_parse_unary(t, gi).1);
                assert(spec_factor_loop(t, eprev, gi - 1, dcur) == spec_factor_loop(
                    t,
                    SpecExpr::Binary(
                        Box::new(eprev),
                        Box::new(spec_parse_unary(t, gi).0),
                        spec_previous(t, gi),
                    ),
                    at_least(spec_parse_unary(t, gi).1, gi),
                    dcur + spec_parse_unary(t, gi).2,
                ));
            }
            e = Expression::Binary(Box::new(e), Box::new(right), operator);
            proof {
                let d2 = spec_parse_unary(t, gi).2;
                assert(d0 + (dcur + d2) =~= (d0 + dcur) + d2);
                dcur = dcur + d2;
            }
            matched = self.match_factor();
        }
        proof {
            reveal(spec_factor_loop);
            assert(tgt == (e@, self.index as int, dcur));
        }
        e
    }

    #[verifier::rlimit(100)]
    #[verifier::spinoff_prover]
    pub fn parse_unary(&mut self) -> (e: Expression)
        requires
            old(self).wf(),
        ensures
            level_post(
                *old(self),
                *final(self),
                e@,
                spec_parse_unary(old(self).tokens.deep_view(), old(self).index as int),
            ),
        decreases rem_tokens(self.tokens.deep_view(), self.index as int), 2int,
    {
        let ghost t = self.tokens.deep_view();
        let ghost i0 = self.index as int;
        if self.match_kind(&TokenKind::Minus) {
            let operator = self.previous();
            let right = self.parse_unary();
            proof {
                reveal(spec_parse_unary);
                assert(spec_parse_unary(t, i0) == (
                    SpecExpr::Unary(
                        Box::new(spec_parse_unary(t, i0 + 1).0),
                        spec_previous(t, i0 + 1),
                    ),
                    spec_parse_unary(t, i0 + 1).1,
                    spec_parse_unary(t, i0 + 1).2,
                ));
            }
            Expression::Unary(Box::new(right), operator)
        } else {
            let e = self.parse_primary();
            proof {
                reveal(spec_parse_unary);
                assert(spec_parse_unary(t, i0) == spec_parse_primary(t, i0));
            }
            e
        }
    }

    #[verifier::rlimit(100)]
    #[verifier::spinoff_prover]
    pub fn parse_primary(&mut self) -> (e: Expression)
        requires
            old(self).wf(),
        ensures
            level_post(
                *old(self),
                *final(self),
                e@,
                spec_parse_primary(old(self).tokens.deep_view(), old(self).index as int),
            ),
        decreases rem_tokens(self.tokens.deep_view(), self.index as int), 0int,
    {
        let ghost t = self.tokens.deep_view();
        let ghost i0 = self.index as int;
        let ghost d0 = self.diagnostics.deep_view();
        if self.match_kind(&TokenKind::False) {
            if self.check(&TokenKind::Newline) {
                let _ = self.consume();
            }
            proof {
                reveal(spec_parse_primary);
                assert(d0 + Seq::<SpecToken>::empty() =~= d0);
            }
            return Expression::Literal(Atom::Boolean(false));
        }
        if self.match_kind(&TokenKind::True) {
            if self.check(&TokenKind::Newline) {
                let _ = self.consume();
            }
            proof {
                reveal(spec_parse_primary);
                assert(d0 + Seq::<SpecToken>::empty() =~= d0);
            }
            return Expression::Literal(Atom::Boolean(true));
        }
        let pk = self.peek();
        let ghost pks = pk@;
        match pk.kind {
            TokenKind::Identifier(text) => {
                proof {
                    assert(pks.kind == SpecTokenKind::Identifier(text@));
                }
                let _ = self.consume();
                if self.check(&TokenKind::Newline) {
                    let _ = self.consume();
                }
                proof {
                    reveal(spec_parse_primary);
                    assert(d0 + Seq::<SpecToken>::empty() =~= d0);
                    assert(spec_parse_primary(t, i0) == (
                        SpecExpr::Literal(SpecAtom::Name(text@)),
                        skip_newline(t, i0 + 1),
                        Seq::<SpecToken>::empty(),
                    ));
                }
                Expression::Literal(Atom::Name(text))
            },
            TokenKind::Number(bits) => {
                proof {
                    assert(pks.kind == SpecTokenKind::Number(bits));
                }
                let _ = self.consume();
                if self.check(&TokenKind::Newline) {
                    let _ = self.consume();
                }
                proof {
                    reveal(spec_parse_primary);
                    assert(d0 + Seq::<SpecToken>::empty() =~= d0);
                    assert(spec_parse_primary(t, i0) == (
                        SpecExpr::Literal(SpecAtom::Number(bits)),
                        skip_newline(t, i0 + 1),
                        Seq::<SpecToken>::empty(),
                    ));
                }
                Expression::Literal(Atom::Number(bits))
            },
            _ => {
                proof {
                    assert(!(pks.kind is Identifier));
                    assert(!(pks.kind is Number));
                }
                if self.match_kind(&TokenKind::OpenParen) {
                    let ghost orr = spec_parse_or(t, i0 + 1);
                    let inner = self.parse_expression();
                    proof {
                        assert(at_least(orr.1, i0 + 1) == orr.1);
                    }
                    let ghost j = orr.1;
                    let _ = self.consume_with(
                        &TokenKind::CloseParen,
                        "expected ')' after expression",
                    );
                    proof {
                        reveal(spec_parse_primary);
                        if spec_check(t, j, SpecTokenKind::CloseParen) {
                            assert(spec_parse_primary(t, i0) == (
                                SpecExpr::Group(Box::new(orr.0)),
                                skip_newline(t, j + 1),
                                orr.2,
                            ));
                        } else {
                            assert((d0 + orr.2).push(tok_at(t, j)) =~= d0 + orr.2.push(
                                tok_at(t, j),
                            ));
                            assert(spec_parse_primary(t, i0) == (
                                SpecExpr::Group(Box::new(orr.0)),
                                skip_newline(t, j),
                                orr.2.push(tok_at(t, j)),
                            ));
                        }
                    }
                    if self.check(&TokenKind::Newline) {
                        let _ = self.consume();
                    }
                    Expression::Group(Box::new(inner))
                } else {
                    if self.check(&TokenKind::Newline) {
                        let _ = self.consume();
                    }
                    let prev = self.previous();
                    proof {
                        reveal(spec_parse_primary);
                        assert(d0 + Seq::<SpecToken>::empty() =~= d0);
                        assert(spec_parse_primary(t, i0) == (
                            SpecExpr::Literal(
                                SpecAtom::Name(spec_previous(t, skip_newline(t, i0)).lexeme),
                            ),
                            skip_newline(t, i0),
                            Seq::<SpecToken>::empty(),
                        ));
                    }
                    Expression::Literal(Atom::Name(prev.lexeme))
                }
            },
        }
    }

    #[verifier::rlimit(100)]
    #[verifier::spinoff_prover]
    pub fn parse_expression(&mut self) -> (e: Expression)
        requires
            old(self).wf(),
        ensures
            level_post(
                *old(self),
                *final(self),
                e@,
                spec_parse_or(old(self).tokens.deep_view(), old(self).index as int),
            ),
        decreases rem_tokens(self.tokens.deep_view(), self.index as int), 27int,
    {
        self.parse_or()
    }

    #[verifier::rlimit(100)]
    #[verifier::spinoff_prover]
    pub fn parse_statement(&mut self) -> (e: Expression)
        requires
            old(self).wf(),
        ensures
            level_post(
                *old(self),
                *final(self),
                e@,
                spec_parse_statement(old(self).tokens.deep_view(), old(self).index as int),
            ),
        decreases rem_tokens(self.tokens.deep_view(), self.index as int), 28int,
    {
        let ghost t = self.tokens.deep_view();
        let ghost i0 = self.index as int;
        let pk = self.peek();
        let probe = TokenKind::Identifier(pk.lexeme);
        if self.match_kind(&probe) {
            let e = self.parse_identifier();
            proof {
                reveal(spec_parse_statement);
                assert(spec_parse_statement(t, i0) == spec_parse_identifier(t, i0 + 1));
            }
            e
        } else {
            let e = self.parse_expression();
            proof {
                reveal(spec_parse_statement);
                assert(spec_parse_statement(t, i0) == spec_parse_or(t, i0));
            }
            e
        }
    }

    #[verifier::rlimit(100)]
    #[verifier::spinoff_prover]
    pub fn parse_identifier(&mut self) -> (e: Expression)
        requires
            old(self).wf(),
        ensures
            level_post(
                *old(self),
                *final(self),
                e@,
                spec_parse_identifier(old(self).tokens.deep_view(), old(self).index as int),
            ),
        decreases rem_tokens(self.tokens.deep_view(), self.index as int), 30int,
    {
        let ghost t = self.tokens.deep_view();
        let ghost i0 = self.index as int;
        let identifier = self.previous();
        if self.match_kind(&TokenKind::Colon) {
            let value = self.parse_statement();
            proof {
                reveal(spec_parse_identifier);
                assert(at_least(spec_parse_statement(t, i0 + 1).1, i0 + 1)
                    == spec_parse_statement(t, i0 + 1).1);
                assert(spec_parse_identifier(t, i0) == (
                    SpecExpr::Variable(
                        spec_previous(t, i0).lexeme,
                        Box::new(spec_parse_statement(t, i0 + 1).0),
                    ),
                    skip_newline(t, spec_parse_statement(t, i0 + 1).1),
                    spec_parse_statement(t, i0 + 1).2,
                ));
            }
            if self.check(&TokenKind::Newline) {
                let _ = self.consume();
            }
            Expression::Variable(identifier.lexeme, Box::new(value))
        } else {
            let e = self.parse_statement();
            proof {
                reveal(spec_parse_identifier);
                assert(spec_parse_identifier(t, i0) == spec_parse_statement(t, i0));
            }
            e
        }
    }

    /// One expression tree per top-level statement, in source order; the
    /// statements are also kept in `expressions`, and every diagnostic the
    /// pass records is appended to `diagnostics`.
    #[verifier::rlimit(100)]
    #[verifier::spinoff_prover]
    pub fn parse(&mut self) -> (r: Vec<Expression>)
        requires
            old(self).wf(),
        ensures
            final(self).wf(),
            final(self).tokens == old(self).tokens,
            r.deep_view() == old(self).expressions.deep_view() + spec_parse_all(
                old(self).tokens.deep_view(),
                old(self).index as int,
            ).0,
            final(self).expressions.deep_view() == r.deep_view(),
            final(self).diagnostics.deep_view() == old(self).diagnostics.deep_view()
                + spec_parse_all(old(self).tokens.deep_view(), old(self).index as int).1,
    {
        let ghost t = self.tokens.deep_view();
        let ghost i0 = self.index as int;
        let ghost e0 = self.expressions.deep_view();
        let ghost d0 = self.diagnostics.deep_view();
        let ghost tgt = spec_parse_all(t, i0);
        proof {
            reveal(spec_parse_all);
        }
        let ghost mut done: Seq<SpecExpr> = Seq::empty();
        let ghost mut ddone: Seq<SpecToken> = Seq::empty();
        proof {
            assert(done + tgt.0 =~= tgt.0);
            assert(ddone + tgt.1 =~= tgt.1);
        }
        while !self.is_at_end()
            invariant
                self.wf(),
                self.tokens == old(self).tokens,
                t == self.tokens.deep_view(),
                i0 <= self.index as int,
                i0 == old(self).index as int,
                e0 == old(self).expressions.deep_view(),
                d0 == old(self).diagnostics.deep_view(),
                tgt == spec_parse_all(t, i0),
                self.expressions.deep_view() == e0 + done,
                self.diagnostics.deep_view() == d0 + ddone,
                done + spec_parse_all(t, self.index as int).0 == tgt.0,
                ddone + spec_parse_all(t, self.index as int).1 == tgt.1,
            decreases rem_tokens(t, self.index as int),
        {
            proof {
                reveal(spec_parse_all);
            }
            let start = self.index;
            let ghost gi = start as int;
            let ghost stmt = spec_parse_statement(t, gi);
            let e = self.parse_statement();
            if self.index == start {
                let _ = self.consume();
            }
            self.expressions.push(e);
            proof {
                reveal(spec_parse_all);
                let ghost j1 = if stmt.1 <= gi {
                    gi + 1
                } else {
                    stmt.1
                };
                assert(self.index as int == j1);
                assert(self.expressions.deep_view() =~= (e0 + done).push(stmt.0));
                assert((e0 + done).push(stmt.0) =~= e0 + done.push(stmt.0));
                assert(self.diagnostics.deep_view() =~= d0 + (ddone + stmt.2));
                assert(done.push(stmt.0) + spec_parse_all(t, j1).0 =~= done + (seq![stmt.0]
                    + spec_parse_all(t, j1).0));
                assert((ddone + stmt.2) + spec_parse_all(t, j1).1 =~= ddone + (stmt.2
                    + spec_parse_all(t, j1).1));
                done = done.push(stmt.0);
                ddone = ddone + stmt.2;
            }
        }
        proof {
            reveal(spec_parse_all);
            assert(spec_parse_all(t, self.index as int).0 =~= Seq::<SpecExpr>::empty());
            assert(spec_parse_all(t, self.index as int).1 =~= Seq::<SpecToken>::empty());
            assert(done + spec_parse_all(t, self.index as int).0 =~= done);
            assert(ddone + spec_parse_all(t, self.index as int).1 =~= ddone);
        }
        let r = duplicate_expressions(&self.expressions);
        r
    }

}

/// Structural copies of a vector of expressions, same mathematical image.
pub fn duplicate_expressions(v: &Vec<Expression>) -> (r: Vec<Expression>)
    ensures
        r.deep_view() == v.deep_view(),
{
    let mut r: Vec<Expression> = Vec::new();
    let mut i: usize = 0;
    while i < v.len()
        invariant
            i <= v@.len(),
            r.deep_view() == v.deep_view().take(i as int),
        decreases v@.len() - i,
    {
        let ghost before = r.deep_view();
        let dup = v[i].duplicate();
        r.push(dup);
        proof {
            assert(v.deep_view().take(i + 1 as int) =~= v.deep_view().take(i as int).push(
                v.deep_view()[i as int],
            ));
            assert(r.deep_view() =~= before.push(v.deep_view()[i as int]));
        }
        i = i + 1;
    }
    proof {
        assert(v.deep_view().take(v.deep_view().len() as int) =~= v.deep_view());
    }
    r
}

} // verus!
