//! Tokenizer for the calculator language. A line of source bytes becomes an
//! ordered token sequence, terminated by an `Eof` token; whitespace tokens are
//! produced internally and filtered out (newlines are kept, they separate
//! statements). The exact behaviour is pinned by the spec-level scanner
//! `spec_tokenize`, which the executable lexer is proved to match.

use vstd::prelude::*;
use vstd::string::StrSliceExecFns;
use crate::num::parse_number;
use crate::num::parsed_bits_of;

verus! {

// ---------------------------------------------------------------------------
// Spec model
// ---------------------------------------------------------------------------

/// Mathematical image of a token kind; identifier text is a byte sequence and
/// a numeric literal is the bit pattern of its binary64 value.
pub enum SpecTokenKind {
    Identifier(Seq<u8>),
    Number(u64),
    True,
    False,
    Percent,
    Dot,
    Colon,
    OpenParen,
    CloseParen,
    Plus,
    Minus,
    Times,
    Over,
    Equal,
    Less,
    LessEqual,
    Greater,
    GreaterEqual,
    And,
    Or,
    Mod,
    Whitespace,
    Newline,
    Eof,
    Invalid,
}

/// Mathematical image of a token: its kind and the exact source bytes it was
/// scanned from.
pub struct SpecToken {
    pub kind: SpecTokenKind,
    pub lexeme: Seq<u8>,
}

pub open spec fn is_digit_byte(b: u8) -> bool {
    48 <= b && b <= 57
}

pub open spec fn is_alpha_byte(b: u8) -> bool {
    (97 <= b && b <= 122) || (65 <= b && b <= 90)
}

pub open spec fn is_ident_byte(b: u8) -> bool {
    is_alpha_byte(b) || is_digit_byte(b) || b == 95u8
}

/// Horizontal whitespace; the newline byte is scanned separately.
pub open spec fn is_space_byte(b: u8) -> bool {
    b == 32 || (9 <= b && b <= 13 && b != 10)
}

/// The fixed keyword bytes: word-form operators and the boolean literals.
pub open spec fn kw_true() -> Seq<u8> {
    seq![116u8, 114u8, 117u8, 101u8]
}

pub open spec fn kw_false() -> Seq<u8> {
    seq![102u8, 97u8, 108u8, 115u8, 101u8]
}

pub open spec fn kw_plus() -> Seq<u8> {
    seq![112u8, 108u8, 117u8, 115u8]
}

pub open spec fn kw_minus() -> Seq<u8> {
    seq![109u8, 105u8, 110u8, 117u8, 115u8]
}

pub open spec fn kw_times() -> Seq<u8> {
    seq![116u8, 105u8, 109u8, 101u8, 115u8]
}

pub open spec fn kw_over() -> Seq<u8> {
    seq![111u8, 118u8, 101u8, 114u8]
}

pub open spec fn kw_equals() -> Seq<u8> {
    seq![101u8, 113u8, 117u8, 97u8, 108u8, 115u8]
}

pub open spec fn kw_and() -> Seq<u8> {
    seq![97u8, 110u8, 100u8]
}

pub open spec fn kw_or() -> Seq<u8> {
    seq![111u8, 114u8]
}

pub open spec fn kw_mod() -> Seq<u8> {
    seq![109u8, 111u8, 100u8]
}

/// The fixed keyword table lookup.
pub open spec fn spec_keyword(text: Seq<u8>) -> Option<SpecTokenKind> {
    if text == kw_true() {
        Some(SpecTokenKind::True)
    } else if text == kw_false() {
        Some(SpecTokenKind::False)
    } else if text == kw_plus() {
        Some(SpecTokenKind::Plus)
    } else if text == kw_minus() {
        Some(SpecTokenKind::Minus)
    } else if text == kw_times() {
        Some(SpecTokenKind::Times)
    } else if text == kw_over() {
        Some(SpecTokenKind::Over)
    } else if text == kw_equals() {
        Some(SpecTokenKind::Equal)
    } else if text == kw_and() {
        Some(SpecTokenKind::And)
    } else if text == kw_or() {
        Some(SpecTokenKind::Or)
    } else if text == kw_mod() {
        Some(SpecTokenKind::Mod)
    } else {
        None
    }
}

/// First position at or after `i` that does not hold a digit.
pub open spec fn digit_run_end(s: Seq<u8>, i: int) -> int
    decreases s.len() - i,
{
    if 0 <= i && i < s.len() && is_digit_byte(s[i]) {
        digit_run_end(s, i + 1)
    } else {
        i
    }
}

/// First position at or after `i` that does not hold an identifier byte.
pub open spec fn ident_run_end(s: Seq<u8>, i: int) -> int
    decreases s.len() - i,
{
    if 0 <= i && i < s.len() && is_ident_byte(s[i]) {
        ident_run_end(s, i + 1)
    } else {
        i
    }
}

/// End of a numeric literal starting at `i`: a maximal digit run, optionally
/// followed by a decimal point and a further maximal digit run; the point is
/// only consumed when at least one digit follows it.
pub open spec fn number_end(s: Seq<u8>, i: int) -> int {
    let e = digit_run_end(s, i);
    if e < s.len() && s[e] == 46 && e + 1 < s.len() && is_digit_byte(s[e + 1]) {
        digit_run_end(s, e + 1)
    } else {
        e
    }
}

pub open spec fn number_scan(s: Seq<u8>, i: int) -> (SpecTokenKind, int) {
    let e = number_end(s, i);
    let kind = match parsed_bits_of(s.subrange(i, e)) {
        Some(bits) => SpecTokenKind::Number(bits),
        None => SpecTokenKind::Invalid,
    };
    (kind, e)
}

pub open spec fn ident_scan(s: Seq<u8>, i: int) -> (SpecTokenKind, int) {
    let e = ident_run_end(s, i);
    let text = s.subrange(i, e);
    let kind = match spec_keyword(text) {
        Some(k) => k,
        None => SpecTokenKind::Identifier(text),
    };
    (kind, e)
}

/// One scanning step at position `i` (which must hold a byte): the kind of
/// the token that starts there and the position just past it.
pub open spec fn token_scan(s: Seq<u8>, i: int) -> (SpecTokenKind, int) {
    let b = s[i];
    if b == 40 {
        (SpecTokenKind::OpenParen, i + 1)
    } else if b == 41 {
        (SpecTokenKind::CloseParen, i + 1)
    } else if b == 37 {
        (SpecTokenKind::Percent, i + 1)
    } else if b == 46 {
        (SpecTokenKind::Dot, i + 1)
    } else if b == 58 {
        (SpecTokenKind::Colon, i + 1)
    } else if b == 43 {
        (SpecTokenKind::Plus, i + 1)
    } else if b == 45 {
        (SpecTokenKind::Minus, i + 1)
    } else if b == 42 {
        (SpecTokenKind::Times, i + 1)
    } else if b == 47 {
        (SpecTokenKind::Over, i + 1)
    } else if b == 61 {
        (SpecTokenKind::Equal, i + 1)
    } else if b == 60 {
        if i + 1 < s.len() && s[i + 1] == 61 {
            (SpecTokenKind::LessEqual, i + 2)
        } else {
            (SpecTokenKind::Less, i + 1)
        }
    } else if b == 62 {
        if i + 1 < s.len() && s[i + 1] == 61 {
            (SpecTokenKind::GreaterEqual, i + 2)
        } else {
            (SpecTokenKind::Greater, i + 1)
        }
    } else if b == 10 {
        (SpecTokenKind::Newline, i + 1)
    } else if is_space_byte(b) {
        (SpecTokenKind::Whitespace, i + 1)
    } else if is_digit_byte(b) {
        number_scan(s, i)
    } else if is_alpha_byte(b) {
        ident_scan(s, i)
    } else {
        (SpecTokenKind::Invalid, i + 1)
    }
}

/// `token_scan` with its end position forced into `(i, s.len()]`, so that the
/// scanner always makes progress.
pub open spec fn scan_step(s: Seq<u8>, i: int) -> (SpecTokenKind, int) {
    let (k, e0) = token_scan(s, i);
    let e1 = if e0 <= i {
        i + 1
    } else {
        e0
    };
    let e = if e1 > s.len() {
        s.len() as int
    } else {
        e1
    };
    (k, e)
}

/// The raw token sequence scanned from position `i` on, whitespace included.
pub open spec fn raw_tokens_from(s: Seq<u8>, i: int) -> Seq<SpecToken>
    decreases s.len() - i,
{
    if i < 0 || i >= s.len() {
        Seq::empty()
    } else {
        let (k, e) = scan_step(s, i);
        seq![SpecToken { kind: k, lexeme: s.subrange(i, e) }] + raw_tokens_from(s, e)
    }
}

/// The token sequence with the whitespace tokens removed, order kept.
pub open spec fn without_whitespace(ts: Seq<SpecToken>) -> Seq<SpecToken>
    decreases ts.len(),
{
    if ts.len() == 0 {
        Seq::empty()
    } else {
        let rest = without_whitespace(ts.drop_last());
        if ts.last().kind is Whitespace {
            rest
        } else {
            rest.push(ts.last())
        }
    }
}

pub open spec fn eof_token() -> SpecToken {
    SpecToken { kind: SpecTokenKind::Eof, lexeme: seq![0u8] }
}

/// The full contract of the lexer: scan everything, drop the whitespace,
/// terminate with `Eof`.
pub open spec fn spec_tokenize(s: Seq<u8>) -> Seq<SpecToken> {
    without_whitespace(raw_tokens_from(s, 0)).push(eof_token())
}

// ---------------------------------------------------------------------------
// Executable tokens
// ---------------------------------------------------------------------------

pub enum TokenKind {
    Identifier(Vec<u8>),
    Number(u64),
    True,
    False,
    Percent,
    Dot,
    Colon,
    OpenParen,
    CloseParen,
    Plus,
    Minus,
    Times,
    Over,
    Equal,
    Less,
    LessEqual,
    Greater,
    GreaterEqual,
    And,
    Or,
    Mod,
    Whitespace,
    Newline,
    Eof,
    Invalid,
}

impl View for TokenKind {
    type V = SpecTokenKind;

    open spec fn view(&self) -> SpecTokenKind {
        match self {
            TokenKind::Identifier(text) => SpecTokenKind::Identifier(text@),
            TokenKind::Number(bits) => SpecTokenKind::Number(*bits),
            TokenKind::True => SpecTokenKind::True,
            TokenKind::False => SpecTokenKind::False,
            TokenKind::Percent => SpecTokenKind::Percent,
            TokenKind::Dot => SpecTokenKind::Dot,
            TokenKind::Colon => SpecTokenKind::Colon,
            TokenKind::OpenParen => SpecTokenKind::OpenParen,
            TokenKind::CloseParen => SpecTokenKind::CloseParen,
            TokenKind::Plus => SpecTokenKind::Plus,
            TokenKind::Minus => SpecTokenKind::Minus,
            TokenKind::Times => SpecTokenKind::Times,
            TokenKind::Over => SpecTokenKind::Over,
            TokenKind::Equal => SpecTokenKind::Equal,
            TokenKind::Less => SpecTokenKind::Less,
            TokenKind::LessEqual => SpecTokenKind::LessEqual,
            TokenKind::Greater => SpecTokenKind::Greater,
            TokenKind::GreaterEqual => SpecTokenKind::GreaterEqual,
            TokenKind::And => SpecTokenKind::And,
            TokenKind::Or => SpecTokenKind::Or,
            TokenKind::Mod => SpecTokenKind::Mod,
            TokenKind::Whitespace => SpecTokenKind::Whitespace,
            TokenKind::Newline => SpecTokenKind::Newline,
            TokenKind::Eof => SpecTokenKind::Eof,
            TokenKind::Invalid => SpecTokenKind::Invalid,
        }
    }
}

impl DeepView for TokenKind {
    type V = SpecTokenKind;

    open spec fn deep_view(&self) -> SpecTokenKind {
        self.view()
    }
}

impl TokenKind {
    /// A structural copy whose mathematical image is the same.
    pub fn duplicate(&self) -> (k: TokenKind)
        ensures
            k@ == self@,
    {
        match self {
            TokenKind::Identifier(text) => TokenKind::Identifier(copy_bytes(text)),
            TokenKind::Number(bits) => TokenKind::Number(*bits),
            TokenKind::True => TokenKind::True,
            TokenKind::False => TokenKind::False,
            TokenKind::Percent => TokenKind::Percent,
            TokenKind::Dot => TokenKind::Dot,
            TokenKind::Colon => TokenKind::Colon,
            TokenKind::OpenParen => TokenKind::OpenParen,
            TokenKind::CloseParen => TokenKind::CloseParen,
            TokenKind::Plus => TokenKind::Plus,
            TokenKind::Minus => TokenKind::Minus,
            TokenKind::Times => TokenKind::Times,
            TokenKind::Over => TokenKind::Over,
            TokenKind::Equal => TokenKind::Equal,
            TokenKind::Less => TokenKind::Less,
            TokenKind::LessEqual => TokenKind::LessEqual,
            TokenKind::Greater => TokenKind::Greater,
            TokenKind::GreaterEqual => TokenKind::GreaterEqual,
            TokenKind::And => TokenKind::And,
            TokenKind::Or => TokenKind::Or,
            TokenKind::Mod => TokenKind::Mod,
            TokenKind::Whitespace => TokenKind::Whitespace,
            TokenKind::Newline => TokenKind::Newline,
            TokenKind::Eof => TokenKind::Eof,
            TokenKind::Invalid => TokenKind::Invalid,
        }
    }
}

pub struct Token {
    pub kind: TokenKind,
    pub lexeme: Vec<u8>,
}

impl View for Token {
    type V = SpecToken;

    open spec fn view(&self) -> SpecToken {
        SpecToken { kind: self.kind@, lexeme: self.lexeme@ }
    }
}

impl DeepView for Token {
    type V = SpecToken;

    open spec fn deep_view(&self) -> SpecToken {
        self.view()
    }
}

impl Token {
    pub fn new(kind: TokenKind, lexeme: Vec<u8>) -> (t: Token)
        ensures
            t@ == (SpecToken { kind: kind@, lexeme: lexeme@ }),
    {
        Token { kind, lexeme }
    }

    pub fn kind(&self) -> (k: TokenKind)
        ensures
            k@ == self@.kind,
    {
        self.kind.duplicate()
    }

    pub fn lexeme(&self) -> (l: Vec<u8>)
        ensures
            l@ == self@.lexeme,
    {
        copy_bytes(&self.lexeme)
    }

    /// A borrow of the kind, for tests that do not need a copy.
    pub fn kind_ref(&self) -> (k: &TokenKind)
        ensures
            k@ == self@.kind,
    {
        &self.kind
    }

    pub fn duplicate(&self) -> (t: Token)
        ensures
            t@ == self@,
    {
        Token { kind: self.kind.duplicate(), lexeme: copy_bytes(&self.lexeme) }
    }
}

// ---------------------------------------------------------------------------
// Byte helpers
// ---------------------------------------------------------------------------

/// The bytes of `v` from `a` (inclusive) to `b` (exclusive), as a fresh vector.
pub fn subvec(v: &Vec<u8>, a: usize, b: usize) -> (r: Vec<u8>)
    requires
        a <= b,
        b <= v@.len(),
    ensures
        r@ == v@.subrange(a as int, b as int),
{
    let mut r: Vec<u8> = Vec::new();
    let mut i: usize = a;
    while i < b
        invariant
            a <= i <= b,
            b <= v@.len(),
            r@ == v@.subrange(a as int, i as int),
        decreases b - i,
    {
        r.push(v[i]);
        proof {
            assert(v@.subrange(a as int, i + 1 as int) =~= v@.subrange(a as int, i as int).push(
                v@[i as int],
            ));
        }
        i = i + 1;
    }
    r
}

pub fn copy_bytes(v: &Vec<u8>) -> (r: Vec<u8>)
    ensures
        r@ == v@,
{
    let r = subvec(v, 0, v.len());
    proof {
        assert(v@.subrange(0, v@.len() as int) =~= v@);
    }
    r
}

/// The keyword table lookup: word-form operators and boolean literals.
fn keyword_kind(text: &Vec<u8>) -> (k: Option<TokenKind>)
    ensures
        match k {
            Some(kk) => spec_keyword(text@) == Some(kk@),
            None => spec_keyword(text@) is None,
        },
{
    let n = text.len();
    if n == 4 && text[0] == 116 && text[1] == 114 && text[2] == 117 && text[3] == 101 {
        proof {
            assert(text@ =~= kw_true());
        }
        return Some(TokenKind::True);
    }
    if n == 5 && text[0] == 102 && text[1] == 97 && text[2] == 108 && text[3] == 115 && text[4] == 101 {
        proof {
            assert(text@ =~= kw_false());
        }
        return Some(TokenKind::False);
    }
    if n == 4 && text[0] == 112 && text[1] == 108 && text[2] == 117 && text[3] == 115 {
        proof {
            assert(text@ =~= kw_plus());
        }
        return Some(TokenKind::Plus);
    }
    if n == 5 && text[0] == 109 && text[1] == 105 && text[2] == 110 && text[3] == 117 && text[4] == 115 {
        proof {
            assert(text@ =~= kw_minus());
        }
        return Some(TokenKind::Minus);
    }
    if n == 5 && text[0] == 116 && text[1] == 105 && text[2] == 109 && text[3] == 101 && text[4] == 115 {
        proof {
            assert(text@ =~= kw_times());
        }
        return Some(TokenKind::Times);
    }
    if n == 4 && text[0] == 111 && text[1] == 118 && text[2] == 101 && text[3] == 114 {
        proof {
            assert(text@ =~= kw_over());
        }
        return Some(TokenKind::Over);
    }
    if n == 6 && text[0] == 101 && text[1] == 113 && text[2] == 117 && text[3] == 97 && text[4] == 108 && text[5] == 115 {
        proof {
            assert(text@ =~= kw_equals());
        }
        return Some(TokenKind::Equal);
    }
    if n == 3 && text[0] == 97 && text[1] == 110 && text[2] == 100 {
        proof {
            assert(text@ =~= kw_and());
        }
        return Some(TokenKind::And);
    }
    if n == 2 && text[0] == 111 && text[1] == 114 {
        proof {
            assert(text@ =~= kw_or());
        }
        return Some(TokenKind::Or);
    }
    if n == 3 && text[0] == 109 && text[1] == 111 && text[2] == 100 {
        proof {
            assert(text@ =~= kw_mod());
        }
        return Some(TokenKind::Mod);
    }
    proof {
        assert(text@ != kw_true());
        assert(text@ != kw_false());
        assert(text@ != kw_plus());
        assert(text@ != kw_minus());
        assert(text@ != kw_times());
        assert(text@ != kw_over());
        assert(text@ != kw_equals());
        assert(text@ != kw_and());
        assert(text@ != kw_or());
        assert(text@ != kw_mod());
    }
    None
}

fn byte_is_digit(b: u8) -> (r: bool)
    ensures
        r == is_digit_byte(b),
{
    48 <= b && b <= 57
}

fn byte_is_alpha(b: u8) -> (r: bool)
    ensures
        r == is_alpha_byte(b),
{
    (97 <= b && b <= 122) || (65 <= b && b <= 90)
}

fn byte_is_ident(b: u8) -> (r: bool)
    ensures
        r == is_ident_byte(b),
{
    byte_is_alpha(b) || byte_is_digit(b) || b == 95u8
}

fn byte_is_space(b: u8) -> (r: bool)
    ensures
        r == is_space_byte(b),
{
    b == 32 || (9 <= b && b <= 13 && b != 10)
}

// ---------------------------------------------------------------------------
// The lexer
// ---------------------------------------------------------------------------

pub struct Lexer {
    pub input: Vec<u8>,
    pub tokens: Vec<Token>,
    pub index: usize,
    pub start: usize,
}

impl Lexer {
    /// A lexer over the bytes of `input`.
    pub fn new(input: String) -> (l: Lexer)
        ensures
            l.input@ == vstd::utf8::encode_utf8(input@),
    {
        Lexer::from_bytes(input.as_str().as_bytes_vec())
    }

    /// A lexer over a line already held as bytes.
    pub fn from_bytes(input: Vec<u8>) -> (l: Lexer)
        ensures
            l.input@ == input@,
    {
        Lexer { input, tokens: Vec::new(), index: 0, start: 0 }
    }

    /// The token sequence of the input: every token the scanner produces, in
    /// order, with whitespace removed and a final `Eof` token appended.
    pub fn tokenize(&mut self) -> (r: Vec<Token>)
        ensures
            r.deep_view() == spec_tokenize(old(self).input@),
            final(self).input == old(self).input,
    {
        let ghost s = self.input@;
        self.index = 0;
        self.start = 0;
        self.tokens = Vec::new();
        while !(self.index >= self.input.len())
            invariant
                self.index <= self.input@.len(),
                self.input == old(self).input,
                raw_tokens_from(s, 0) == self.tokens.deep_view() + raw_tokens_from(
                    s,
                    self.index as int,
                ),
                s == self.input@,
            decreases self.input@.len() - self.index,
        {
            self.start = self.index;
            let ghost start = self.index as int;
            let ghost prefix = self.tokens.deep_view();
            let kind = self.consume_token();
            let text = subvec(&self.input, self.start, self.index);
            let tok = Token::new(kind, text);
            self.tokens.push(tok);
            proof {
                let (k, e) = scan_step(s, start);
                assert(raw_tokens_from(s, start) =~= seq![
                    SpecToken { kind: k, lexeme: s.subrange(start, e) },
                ] + raw_tokens_from(s, e));
                assert(self.tokens.deep_view() =~= prefix.push(tok@));
                assert(prefix.push(tok@) + raw_tokens_from(s, e) =~= prefix + raw_tokens_from(
                    s,
                    start,
                ));
            }
        }
        proof {
            assert(raw_tokens_from(s, s.len() as int) =~= Seq::<SpecToken>::empty());
            assert(self.tokens.deep_view() =~= raw_tokens_from(s, 0));
        }
        let mut eof_lexeme: Vec<u8> = Vec::new();
        eof_lexeme.push(0u8);
        let eof = Token::new(TokenKind::Eof, eof_lexeme);
        proof {
            assert(eof@ == eof_token());
        }
        self.tokens.push(eof);
        let ghost all = self.tokens.deep_view();
        proof {
            assert(all =~= raw_tokens_from(s, 0).push(eof_token()));
            assert(all.drop_last() =~= raw_tokens_from(s, 0));
            assert(without_whitespace(all) =~= without_whitespace(raw_tokens_from(s, 0)).push(
                eof_token(),
            ));
        }
        let mut filtered: Vec<Token> = Vec::new();
        let mut i: usize = 0;
        while i < self.tokens.len()
            invariant
                i <= self.tokens@.len(),
                all == self.tokens.deep_view(),
                filtered.deep_view() == without_whitespace(all.take(i as int)),
            decreases self.tokens@.len() - i,
        {
            let ghost before = filtered.deep_view();
            let is_ws = match self.tokens[i].kind_ref() {
                TokenKind::Whitespace => true,
                _ => false,
            };
            if !is_ws {
                let dup = self.tokens[i].duplicate();
                filtered.push(dup);
            }
            proof {
                assert(all.take(i + 1 as int).drop_last() =~= all.take(i as int));
                assert(all.take(i + 1 as int).last() == all[i as int]);
                if all[i as int].kind is Whitespace {
                    assert(filtered.deep_view() =~= before);
                } else {
                    assert(filtered.deep_view() =~= before.push(all[i as int]));
                }
            }
            i = i + 1;
        }
        proof {
            assert(all.take(all.len() as int) =~= all);
            assert(filtered.deep_view() =~= spec_tokenize(s));
        }
        filtered
    }

    /// Scans one token starting at the current position, which must hold a
    /// byte, and leaves the position just past it.
    fn consume_token(&mut self) -> (kind: TokenKind)
        requires
            old(self).index < old(self).input@.len(),
            old(self).start == old(self).index,
        ensures
            final(self).input == old(self).input,
            final(self).tokens == old(self).tokens,
            final(self).start == old(self).start,
            ({
                let (k, e) = scan_step(old(self).input@, old(self).index as int);
                kind@ == k && final(self).index == e
            }),
    {
        let ghost s = self.input@;
        let ghost i = self.index as int;
        let c = self.consume();
        if c == 40 {
            TokenKind::OpenParen
        } else if c == 41 {
            TokenKind::CloseParen
        } else if c == 37 {
            TokenKind::Percent
        } else if c == 46 {
            TokenKind::Dot
        } else if c == 58 {
            TokenKind::Colon
        } else if c == 43 {
            TokenKind::Plus
        } else if c == 45 {
            TokenKind::Minus
        } else if c == 42 {
            TokenKind::Times
        } else if c == 47 {
            TokenKind::Over
        } else if c == 61 {
            TokenKind::Equal
        } else if c == 60 {
            if self.consume_if(61) {
                TokenKind::LessEqual
            } else {
                TokenKind::Less
            }
        } else if c == 62 {
            if self.consume_if(61) {
                TokenKind::GreaterEqual
            } else {
                TokenKind::Greater
            }
        } else if c == 10 {
            TokenKind::Newline
        } else if byte_is_space(c) {
            TokenKind::Whitespace
        } else if byte_is_digit(c) {
            self.consume_number()
        } else if byte_is_alpha(c) {
            self.consume_identifier()
        } else {
            TokenKind::Invalid
        }
    }

    /// Scans the rest of a numeric literal whose first digit was consumed and
    /// parses its text; text that does not parse yields `Invalid`.
    fn consume_number(&mut self) -> (kind: TokenKind)
        requires
            old(self).start < old(self).index,
            old(self).index == old(self).start + 1,
            old(self).index <= old(self).input@.len(),
            is_digit_byte(old(self).input@[old(self).start as int]),
        ensures
            final(self).input == old(self).input,
            final(self).tokens == old(self).tokens,
            final(self).start == old(self).start,
            final(self).index == number_end(old(self).input@, old(self).start as int),
            old(self).start < final(self).index,
            final(self).index <= final(self).input@.len(),
            ({
                let (k, e) = number_scan(old(self).input@, old(self).start as int);
                kind@ == k
            }),
    {
        let ghost s = self.input@;
        let ghost start = self.start as int;
        proof {
            assert(digit_run_end(s, start) == digit_run_end(s, start + 1));
        }
        while self.index < self.input.len() && byte_is_digit(self.input[self.index])
            invariant
                self.input == old(self).input,
                self.tokens == old(self).tokens,
                self.start == old(self).start,
                s == self.input@,
                start == self.start as int,
                self.start < self.index <= self.input@.len(),
                digit_run_end(s, start) == digit_run_end(s, self.index as int),
            decreases self.input@.len() - self.index,
        {
            proof {
                assert(digit_run_end(s, self.index as int) == digit_run_end(
                    s,
                    self.index + 1 as int,
                ));
            }
            self.index = self.index + 1;
        }
        proof {
            assert(digit_run_end(s, self.index as int) == self.index as int);
        }
        let ghost e1 = digit_run_end(s, start);
        if self.index < self.input.len() && self.input[self.index] == 46 && self.index + 1
            < self.input.len() && byte_is_digit(self.input[self.index + 1]) {
            self.index = self.index + 1;
            proof {
                assert(digit_run_end(s, e1 + 1) == digit_run_end(s, self.index as int));
            }
            while self.index < self.input.len() && byte_is_digit(self.input[self.index])
                invariant
                    self.input == old(self).input,
                    self.tokens == old(self).tokens,
                    self.start == old(self).start,
                    s == self.input@,
                    start == self.start as int,
                    self.start < self.index <= self.input@.len(),
                    digit_run_end(s, e1 + 1) == digit_run_end(s, self.index as int),
                decreases self.input@.len() - self.index,
            {
                proof {
                    assert(digit_run_end(s, self.index as int) == digit_run_end(
                        s,
                        self.index + 1 as int,
                    ));
                }
                self.index = self.index + 1;
            }
            proof {
                assert(digit_run_end(s, self.index as int) == self.index as int);
                assert(self.index as int == number_end(s, start));
            }
        } else {
            proof {
                assert(self.index as int == number_end(s, start));
            }
        }
        let text = subvec(&self.input, self.start, self.index);
        match parse_number(&text) {
            Some(bits) => TokenKind::Number(bits),
            None => TokenKind::Invalid,
        }
    }

    /// Scans the rest of an identifier whose first letter was consumed and
    /// resolves it against the keyword table.
    fn consume_identifier(&mut self) -> (kind: TokenKind)
        requires
            old(self).start < old(self).index,
            old(self).index == old(self).start + 1,
            old(self).index <= old(self).input@.len(),
            is_alpha_byte(old(self).input@[old(self).start as int]),
        ensures
            final(self).input == old(self).input,
            final(self).tokens == old(self).tokens,
            final(self).start == old(self).start,
            final(self).index == ident_run_end(old(self).input@, old(self).start as int),
            old(self).start < final(self).index,
            final(self).index <= final(self).input@.len(),
            ({
                let (k, e) = ident_scan(old(self).input@, old(self).start as int);
                kind@ == k
            }),
    {
        let ghost s = self.input@;
        let ghost start = self.start as int;
        proof {
            assert(ident_run_end(s, start) == ident_run_end(s, start + 1));
        }
        while self.index < self.input.len() && byte_is_ident(self.input[self.index])
            invariant
                self.input == old(self).input,
                self.tokens == old(self).tokens,
                self.start == old(self).start,
                s == self.input@,
                start == self.start as int,
                self.start < self.index <= self.input@.len(),
                ident_run_end(s, start) == ident_run_end(s, self.index as int),
            decreases self.input@.len() - self.index,
        {
            proof {
                assert(ident_run_end(s, self.index as int) == ident_run_end(
                    s,
                    self.index + 1 as int,
                ));
            }
            self.index = self.index + 1;
        }
        proof {
            assert(ident_run_end(s, self.index as int) == self.index as int);
        }
        let text = subvec(&self.input, self.start, self.index);
        match keyword_kind(&text) {
            Some(kind) => kind,
            None => TokenKind::Identifier(text),
        }
    }

    /// Takes the byte at the current position and moves past it.
    fn consume(&mut self) -> (c: u8)
        requires
            old(self).index < old(self).input@.len(),
        ensures
            final(self).input == old(self).input,
            final(self).tokens == old(self).tokens,
            final(self).start == old(self).start,
            final(self).index == old(self).index + 1,
            c == old(self).input@[old(self).index as int],
    {
        let n = self.input.len();
        let c = self.input[self.index];
        self.index = self.index + 1;
        c
    }

    /// Moves past the current byte only when it equals `expected`.
    fn consume_if(&mut self, expected: u8) -> (r: bool)
        ensures
            final(self).input == old(self).input,
            final(self).tokens == old(self).tokens,
            final(self).start == old(self).start,
            r == (old(self).index < old(self).input@.len() && old(self).input@[old(
                self,
            ).index as int] == expected),
            final(self).index == if r {
                old(self).index + 1
            } else {
                old(self).index as int
            },
    {
        let n = self.input.len();
        if self.index >= n {
            return false;
        }
        if self.input[self.index] != expected {
            return false;
        }
        self.index = self.index + 1;
        true
    }
}

/// Word-operator equivalence: each word-form operator in the keyword table
/// scans to exactly the token kind its symbolic spelling scans to, so the two
/// spellings are indistinguishable from the parser on.
pub proof fn lemma_word_operator_equivalence()
    ensures
        spec_keyword(kw_plus()) == Some(SpecTokenKind::Plus),
        token_scan(seq![43u8], 0) == (SpecTokenKind::Plus, 1int),
        spec_keyword(kw_minus()) == Some(SpecTokenKind::Minus),
        token_scan(seq![45u8], 0) == (SpecTokenKind::Minus, 1int),
        spec_keyword(kw_times()) == Some(SpecTokenKind::Times),
        token_scan(seq![42u8], 0) == (SpecTokenKind::Times, 1int),
        spec_keyword(kw_over()) == Some(SpecTokenKind::Over),
        token_scan(seq![47u8], 0) == (SpecTokenKind::Over, 1int),
        spec_keyword(kw_equals()) == Some(SpecTokenKind::Equal),
        token_scan(seq![61u8], 0) == (SpecTokenKind::Equal, 1int),
{
    assert(kw_plus()[0] == 112);
    assert(kw_minus()[0] == 109);
    assert(kw_times()[0] == 116 && kw_times()[1] == 105);
    assert(kw_over()[0] == 111 && kw_over()[1] == 118);
    assert(kw_equals()[0] == 101 && kw_equals()[1] == 113);
}

} // verus!
