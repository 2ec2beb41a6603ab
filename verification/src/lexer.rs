//! Tokenization of Kaleidoscope source bytes, with one token of lookahead.
//!
//! The lexer works on a fixed in-memory byte string; reading the source from
//! a file or a terminal belongs to the caller.  `lex_step` is the
//! mathematical definition of "the next token starting at a position", and
//! both [`Lexer::peek`] and [`Lexer::next_token`] are proved to follow it.

use vstd::prelude::*;

use crate::error::{Error, ErrorS};

verus! {

/// One lexical unit of the language.
#[derive(Debug, Clone, PartialEq, Eq)]
pub enum Token {
    /// End of input; returned again on every later call.
    Eof,
    /// A name: a letter followed by letters and digits, not a keyword.
    Identifier(Vec<u8>),
    /// A numeric literal, kept as its source text (digits, then optionally
    /// a dot and more digits).
    Number(Vec<u8>),
    Def,
    Extern,
    If,
    Then,
    Else,
    For,
    In,
    Var,
    Binary,
    Unary,
    OpenParen,
    CloseParen,
    Comma,
    SemiColon,
    LessThan,
    Minus,
    Plus,
    Star,
    Equal,
    Exclamation,
    GreaterThan,
    Pipe,
    Ampersand,
    Colon,
}

/// Ghost mirror of `Token`.
pub enum TokenS {
    Eof,
    Identifier(Seq<u8>),
    Number(Seq<u8>),
    Def,
    Extern,
    If,
    Then,
    Else,
    For,
    In,
    Var,
    Binary,
    Unary,
    OpenParen,
    CloseParen,
    Comma,
    SemiColon,
    LessThan,
    Minus,
    Plus,
    Star,
    Equal,
    Exclamation,
    GreaterThan,
    Pipe,
    Ampersand,
    Colon,
}

impl View for Token {
    type V = TokenS;

    open spec fn view(&self) -> TokenS {
        match self {
            Token::Eof => TokenS::Eof,
            Token::Identifier(w) => TokenS::Identifier(w@),
            Token::Number(t) => TokenS::Number(t@),
            Token::Def => TokenS::Def,
            Token::Extern => TokenS::Extern,
            Token::If => TokenS::If,
            Token::Then => TokenS::Then,
            Token::Else => TokenS::Else,
            Token::For => TokenS::For,
            Token::In => TokenS::In,
            Token::Var => TokenS::Var,
            Token::Binary => TokenS::Binary,
            Token::Unary => TokenS::Unary,
            Token::OpenParen => TokenS::OpenParen,
            Token::CloseParen => TokenS::CloseParen,
            Token::Comma => TokenS::Comma,
            Token::SemiColon => TokenS::SemiColon,
            Token::LessThan => TokenS::LessThan,
            Token::Minus => TokenS::Minus,
            Token::Plus => TokenS::Plus,
            Token::Star => TokenS::Star,
            Token::Equal => TokenS::Equal,
            Token::Exclamation => TokenS::Exclamation,
            Token::GreaterThan => TokenS::GreaterThan,
            Token::Pipe => TokenS::Pipe,
            Token::Ampersand => TokenS::Ampersand,
            Token::Colon => TokenS::Colon,
        }
    }
}

/// The ghost value of a `Result` from the lexer.
pub open spec fn lex_view(r: Result<Token, Error>) -> Result<TokenS, ErrorS> {
    match r {
        Ok(t) => Ok(t@),
        Err(e) => Err(e@),
    }
}

/// Whitespace skipped between tokens.
pub open spec fn is_space(b: u8) -> bool {
    b == 32 || b == 9 || b == 10 || b == 13
}

/// A letter, which may start an identifier or keyword.
pub open spec fn is_alpha(b: u8) -> bool {
    (65 <= b <= 90) || (97 <= b <= 122)
}

/// A decimal digit.
pub open spec fn is_digit(b: u8) -> bool {
    48 <= b <= 57
}

/// A letter or digit, which may continue an identifier.
pub open spec fn is_alnum(b: u8) -> bool {
    is_alpha(b) || is_digit(b)
}

/// The position of the first byte of the next token: skips spaces, tabs,
/// newlines, carriage returns, and `#` comments running to end of line.
pub open spec fn skip_blanks(s: Seq<u8>, pos: int, in_comment: bool) -> int
    decreases s.len() - pos,
{
    if pos < 0 || pos >= s.len() {
        s.len() as int
    } else if in_comment {
        if s[pos] == 10 {
            skip_blanks(s, pos + 1, false)
        } else {
            skip_blanks(s, pos + 1, true)
        }
    } else if is_space(s[pos]) {
        skip_blanks(s, pos + 1, false)
    } else if s[pos] == 35 {
        skip_blanks(s, pos + 1, true)
    } else {
        pos
    }
}

/// The position of the first byte after a run of identifier bytes.
pub open spec fn ident_end(s: Seq<u8>, pos: int) -> int
    decreases s.len() - pos,
{
    if pos < 0 || pos >= s.len() {
        s.len() as int
    } else if is_alnum(s[pos]) {
        ident_end(s, pos + 1)
    } else {
        pos
    }
}

/// The position of the first byte after a run of digits.
pub open spec fn digits_end(s: Seq<u8>, pos: int) -> int
    decreases s.len() - pos,
{
    if pos < 0 || pos >= s.len() {
        s.len() as int
    } else if is_digit(s[pos]) {
        digits_end(s, pos + 1)
    } else {
        pos
    }
}

/// The keyword token a word stands for, if any.
pub open spec fn keyword_of(w: Seq<u8>) -> Option<TokenS> {
    if w.len() == 3 && w[0] == 100 && w[1] == 101 && w[2] == 102 {
        Some(TokenS::Def)  // def
    } else if w.len() == 6 && w[0] == 101 && w[1] == 120 && w[2] == 116 && w[3] == 101 && w[4]
        == 114 && w[5] == 110 {
        Some(TokenS::Extern)  // extern
    } else if w.len() == 2 && w[0] == 105 && w[1] == 102 {
        Some(TokenS::If)  // if
    } else if w.len() == 4 && w[0] == 116 && w[1] == 104 && w[2] == 101 && w[3] == 110 {
        Some(TokenS::Then)  // then
    } else if w.len() == 4 && w[0] == 101 && w[1] == 108 && w[2] == 115 && w[3] == 101 {
        Some(TokenS::Else)  // else
    } else if w.len() == 3 && w[0] == 102 && w[1] == 111 && w[2] == 114 {
        Some(TokenS::For)  // for
    } else if w.len() == 2 && w[0] == 105 && w[1] == 110 {
        Some(TokenS::In)  // in
    } else if w.len() == 3 && w[0] == 118 && w[1] == 97 && w[2] == 114 {
        Some(TokenS::Var)  // var
    } else if w.len() == 6 && w[0] == 98 && w[1] == 105 && w[2] == 110 && w[3] == 97 && w[4] == 114
        && w[5] == 121 {
        Some(TokenS::Binary)  // binary
    } else if w.len() == 5 && w[0] == 117 && w[1] == 110 && w[2] == 97 && w[3] == 114 && w[4]
        == 121 {
        Some(TokenS::Unary)  // unary
    } else {
        None
    }
}

/// The token a single punctuation or operator byte stands for, if any.
pub open spec fn punct_of(b: u8) -> Option<TokenS> {
    if b == 40 {
        Some(TokenS::OpenParen)
    } else if b == 41 {
        Some(TokenS::CloseParen)
    } else if b == 44 {
        Some(TokenS::Comma)
    } else if b == 59 {
        Some(TokenS::SemiColon)
    } else if b == 60 {
        Some(TokenS::LessThan)
    } else if b == 45 {
        Some(TokenS::Minus)
    } else if b == 43 {
        Some(TokenS::Plus)
    } else if b == 42 {
        Some(TokenS::Star)
    } else if b == 61 {
        Some(TokenS::Equal)
    } else if b == 33 {
        Some(TokenS::Exclamation)
    } else if b == 62 {
        Some(TokenS::GreaterThan)
    } else if b == 124 {
        Some(TokenS::Pipe)
    } else if b == 38 {
        Some(TokenS::Ampersand)
    } else if b == 58 {
        Some(TokenS::Colon)
    } else {
        None
    }
}

/// One lexing step: the token (or error) found, and the position after it.
pub struct LexStep {
    pub r: Result<TokenS, ErrorS>,
    pub next: int,
}

/// The raw scan at a position: skip blanks, then read one token.
pub open spec fn lex_scan(s: Seq<u8>, pos: int) -> LexStep {
    let p = skip_blanks(s, pos, false);
    if p >= s.len() {
        LexStep { r: Ok(TokenS::Eof), next: s.len() as int }
    } else if is_alpha(s[p]) {
        let e = ident_end(s, p);
        let w = s.subrange(p, e);
        match keyword_of(w) {
            Some(t) => LexStep { r: Ok(t), next: e },
            None => LexStep { r: Ok(TokenS::Identifier(w)), next: e },
        }
    } else if is_digit(s[p]) {
        let d = digits_end(s, p);
        if d < s.len() && s[d] == 46 {
            if d + 1 < s.len() && is_digit(s[d + 1]) {
                let f = digits_end(s, d + 1);
                if f < s.len() && s[f] == 46 {
                    LexStep { r: Err(ErrorS::MalformedNumber), next: pos }
                } else {
                    LexStep { r: Ok(TokenS::Number(s.subrange(p, f))), next: f }
                }
            } else {
                LexStep { r: Err(ErrorS::MalformedNumber), next: pos }
            }
        } else {
            LexStep { r: Ok(TokenS::Number(s.subrange(p, d))), next: d }
        }
    } else {
        match punct_of(s[p]) {
            Some(t) => LexStep { r: Ok(t), next: p + 1 },
            None => LexStep { r: Err(ErrorS::UnknownChar(s[p])), next: pos },
        }
    }
}

/// `lex_scan` with its position bounds made plain: a successful non-Eof
/// token sits strictly between `pos` and the end of the input, Eof sits at
/// the end, and an error leaves the position where it was.
pub open spec fn lex_step(s: Seq<u8>, pos: int) -> LexStep {
    let raw = lex_scan(s, pos);
    match raw.r {
        Ok(TokenS::Eof) => LexStep { r: raw.r, next: s.len() as int },
        Ok(_) => {
            let lo = if raw.next < pos + 1 {
                pos + 1
            } else {
                raw.next
            };
            let hi = if lo > s.len() {
                s.len() as int
            } else {
                lo
            };
            LexStep { r: raw.r, next: hi }
        },
        Err(_) => LexStep { r: raw.r, next: pos },
    }
}

/// The byte stream with its one-token lookahead buffer.
///
/// When a token has been peeked but not yet consumed, `peeked` holds it,
/// `peek_start` is the position it was read from, and `pos` is the position
/// after it; the logical reading position `cur()` is then `peek_start`.
pub struct Lexer {
    input: Vec<u8>,
    pos: usize,
    peeked: Option<Token>,
    peek_start: usize,
}

impl Lexer {
    /// The whole source text.
    pub closed spec fn src(&self) -> Seq<u8> {
        self.input@
    }

    /// The logical reading position: the start of the next token to hand
    /// out, whether or not it is already buffered.
    pub closed spec fn cur(&self) -> int {
        if self.peeked is Some {
            self.peek_start as int
        } else {
            self.pos as int
        }
    }

    /// The lookahead buffer agrees with `lex_step` at `peek_start`.
    pub closed spec fn wf(&self) -> bool {
        &&& self.pos <= self.input@.len()
        &&& match self.peeked {
            Some(t) => {
                &&& self.peek_start <= self.pos
                &&& lex_step(self.input@, self.peek_start as int).r == Ok::<TokenS, ErrorS>(t@)
                &&& lex_step(self.input@, self.peek_start as int).next == self.pos as int
            },
            None => true,
        }
    }

    /// A fresh lexer at the start of the given source bytes.
    pub fn new(input: Vec<u8>) -> (l: Lexer)
        ensures
            l.wf(),
            l.src() == input@,
            l.cur() == 0,
    {
        Lexer { input, pos: 0, peeked: None, peek_start: 0 }
    }

    /// Returns the next token without consuming it.  Calling `peek` twice
    /// in a row returns the same token, since the logical position does not
    /// move.
    pub fn peek(&mut self) -> (r: Result<Token, Error>)
        requires
            old(self).wf(),
        ensures
            final(self).wf(),
            final(self).src() == old(self).src(),
            final(self).cur() == old(self).cur(),
            lex_view(r) == lex_step(old(self).src(), old(self).cur()).r,
    {
        match &self.peeked {
            Some(t) => Ok(clone_token(t)),
            None => {
                let (r, next) = scan(&self.input, self.pos);
                match r {
                    Ok(t) => {
                        self.peek_start = self.pos;
                        self.pos = next;
                        self.peeked = Some(clone_token(&t));
                        Ok(t)
                    },
                    Err(e) => Err(e),
                }
            },
        }
    }

    /// Consumes and returns the next token.  Eof is persistent: at the end
    /// of the input every further call returns Eof again.  An error does
    /// not advance the position.
    pub fn next_token(&mut self) -> (r: Result<Token, Error>)
        requires
            old(self).wf(),
        ensures
            final(self).wf(),
            final(self).src() == old(self).src(),
            lex_view(r) == lex_step(old(self).src(), old(self).cur()).r,
            r is Ok ==> final(self).cur() == lex_step(old(self).src(), old(self).cur()).next,
            r is Err ==> final(self).cur() == old(self).cur(),
    {
        match &self.peeked {
            Some(t) => {
                let r = clone_token(t);
                self.peeked = None;
                Ok(r)
            },
            None => {
                let (r, next) = scan(&self.input, self.pos);
                match r {
                    Ok(t) => {
                        self.pos = next;
                        Ok(t)
                    },
                    Err(e) => Err(e),
                }
            },
        }
    }
}


/// The logical position never passes the end of the input.
pub proof fn lemma_cur_in_bounds(l: &Lexer)
    requires
        l.wf(),
    ensures
        0 <= l.cur() <= l.src().len(),
{
}

/// An exact copy of a token.
fn clone_token(t: &Token) -> (r: Token)
    ensures
        r@ == t@,
{
    match t {
        Token::Eof => Token::Eof,
        Token::Identifier(w) => Token::Identifier(clone_bytes(w)),
        Token::Number(x) => Token::Number(clone_bytes(x)),
        Token::Def => Token::Def,
        Token::Extern => Token::Extern,
        Token::If => Token::If,
        Token::Then => Token::Then,
        Token::Else => Token::Else,
        Token::For => Token::For,
        Token::In => Token::In,
        Token::Var => Token::Var,
        Token::Binary => Token::Binary,
        Token::Unary => Token::Unary,
        Token::OpenParen => Token::OpenParen,
        Token::CloseParen => Token::CloseParen,
        Token::Comma => Token::Comma,
        Token::SemiColon => Token::SemiColon,
        Token::LessThan => Token::LessThan,
        Token::Minus => Token::Minus,
        Token::Plus => Token::Plus,
        Token::Star => Token::Star,
        Token::Equal => Token::Equal,
        Token::Exclamation => Token::Exclamation,
        Token::GreaterThan => Token::GreaterThan,
        Token::Pipe => Token::Pipe,
        Token::Ampersand => Token::Ampersand,
        Token::Colon => Token::Colon,
    }
}

/// An exact copy of a byte string.
pub fn clone_bytes(v: &Vec<u8>) -> (r: Vec<u8>)
    ensures
        r@ == v@,
{
    let mut r: Vec<u8> = Vec::new();
    let mut i: usize = 0;
    while i < v.len()
        invariant
            i <= v@.len(),
            r@ == v@.subrange(0, i as int),
        decreases v@.len() - i,
    {
        r.push(v[i]);
        i += 1;
    }
    proof {
        assert(r@ =~= v@);
    }
    r
}

/// Executable mirror of `is_space`.
fn space_x(b: u8) -> (r: bool)
    ensures
        r == is_space(b),
{
    b == 32 || b == 9 || b == 10 || b == 13
}

/// Executable mirror of `is_alpha`.
fn alpha_x(b: u8) -> (r: bool)
    ensures
        r == is_alpha(b),
{
    (65 <= b && b <= 90) || (97 <= b && b <= 122)
}

/// Executable mirror of `is_digit`.
fn digit_x(b: u8) -> (r: bool)
    ensures
        r == is_digit(b),
{
    48 <= b && b <= 57
}

/// Executable mirror of `is_alnum`.
fn alnum_x(b: u8) -> (r: bool)
    ensures
        r == is_alnum(b),
{
    alpha_x(b) || digit_x(b)
}

/// Executable mirror of `keyword_of`.
fn keyword_token(w: &Vec<u8>) -> (t: Option<Token>)
    ensures
        match t {
            Some(t) => keyword_of(w@) == Some(t@),
            None => keyword_of(w@) is None,
        },
{
    if w.len() == 3 && w[0] == 100 && w[1] == 101 && w[2] == 102 {
        Some(Token::Def)
    } else if w.len() == 6 && w[0] == 101 && w[1] == 120 && w[2] == 116 && w[3] == 101 && w[4]
        == 114 && w[5] == 110 {
        Some(Token::Extern)
    } else if w.len() == 2 && w[0] == 105 && w[1] == 102 {
        Some(Token::If)
    } else if w.len() == 4 && w[0] == 116 && w[1] == 104 && w[2] == 101 && w[3] == 110 {
        Some(Token::Then)
    } else if w.len() == 4 && w[0] == 101 && w[1] == 108 && w[2] == 115 && w[3] == 101 {
        Some(Token::Else)
    } else if w.len() == 3 && w[0] == 102 && w[1] == 111 && w[2] == 114 {
        Some(Token::For)
    } else if w.len() == 2 && w[0] == 105 && w[1] == 110 {
        Some(Token::In)
    } else if w.len() == 3 && w[0] == 118 && w[1] == 97 && w[2] == 114 {
        Some(Token::Var)
    } else if w.len() == 6 && w[0] == 98 && w[1] == 105 && w[2] == 110 && w[3] == 97 && w[4] == 114
        && w[5] == 121 {
        Some(Token::Binary)
    } else if w.len() == 5 && w[0] == 117 && w[1] == 110 && w[2] == 97 && w[3] == 114 && w[4]
        == 121 {
        Some(Token::Unary)
    } else {
        None
    }
}

/// Executable mirror of `punct_of`.
fn punct_token(b: u8) -> (t: Option<Token>)
    ensures
        match t {
            Some(t) => punct_of(b) == Some(t@),
            None => punct_of(b) is None,
        },
{
    if b == 40 {
        Some(Token::OpenParen)
    } else if b == 41 {
        Some(Token::CloseParen)
    } else if b == 44 {
        Some(Token::Comma)
    } else if b == 59 {
        Some(Token::SemiColon)
    } else if b == 60 {
        Some(Token::LessThan)
    } else if b == 45 {
        Some(Token::Minus)
    } else if b == 43 {
        Some(Token::Plus)
    } else if b == 42 {
        Some(Token::Star)
    } else if b == 61 {
        Some(Token::Equal)
    } else if b == 33 {
        Some(Token::Exclamation)
    } else if b == 62 {
        Some(Token::GreaterThan)
    } else if b == 124 {
        Some(Token::Pipe)
    } else if b == 38 {
        Some(Token::Ampersand)
    } else if b == 58 {
        Some(Token::Colon)
    } else {
        None
    }
}

/// Copies `input[from..to]` into a fresh byte string.
fn copy_range(input: &Vec<u8>, from: usize, to: usize) -> (r: Vec<u8>)
    requires
        from <= to <= input@.len(),
    ensures
        r@ == input@.subrange(from as int, to as int),
{
    let mut r: Vec<u8> = Vec::new();
    let mut i: usize = from;
    while i < to
        invariant
            from <= i <= to <= input@.len(),
            r@ == input@.subrange(from as int, i as int),
        decreases to - i,
    {
        r.push(input[i]);
        i += 1;
        proof {
            assert(r@ =~= input@.subrange(from as int, i as int));
        }
    }
    r
}

/// Reads the one token that starts at or after `start`, following
/// `lex_step` exactly.
fn scan(input: &Vec<u8>, start: usize) -> (r: (Result<Token, Error>, usize))
    requires
        start <= input@.len(),
    ensures
        lex_view(r.0) == lex_step(input@, start as int).r,
        r.0 is Ok ==> r.1 as int == lex_step(input@, start as int).next,
        r.0 is Err ==> r.1 == start,
        r.1 <= input@.len(),
{
    let ghost s = input@;
    let mut p: usize = start;
    let mut in_comment: bool = false;
    while p < input.len() && (in_comment || space_x(input[p]) || input[p] == 35)
        invariant
            start <= p <= s.len(),
            input@ == s,
            skip_blanks(s, start as int, false) == skip_blanks(s, p as int, in_comment),
        decreases s.len() - p,
    {
        if in_comment {
            if input[p] == 10 {
                in_comment = false;
            }
        } else if input[p] == 35 {
            in_comment = true;
        }
        p += 1;
    }
    proof {
        assert(skip_blanks(s, p as int, in_comment) == p as int);
    }
    if p == input.len() {
        (Ok(Token::Eof), p)
    } else if alpha_x(input[p]) {
        let mut e: usize = p;
        while e < input.len() && alnum_x(input[e])
            invariant
                p <= e <= s.len(),
                input@ == s,
                ident_end(s, p as int) == ident_end(s, e as int),
            decreases s.len() - e,
        {
            e += 1;
        }
        let w = copy_range(input, p, e);
        match keyword_token(&w) {
            Some(t) => (Ok(t), e),
            None => (Ok(Token::Identifier(w)), e),
        }
    } else if digit_x(input[p]) {
        let mut d: usize = p;
        while d < input.len() && digit_x(input[d])
            invariant
                p <= d <= s.len(),
                input@ == s,
                digits_end(s, p as int) == digits_end(s, d as int),
            decreases s.len() - d,
        {
            d += 1;
        }
        if d < input.len() && input[d] == 46 {
            if d + 1 < input.len() && digit_x(input[d + 1]) {
                let mut f: usize = d + 1;
                while f < input.len() && digit_x(input[f])
                    invariant
                        d + 1 <= f <= s.len(),
                        input@ == s,
                        digits_end(s, d + 1, ) == digits_end(s, f as int),
                    decreases s.len() - f,
                {
                    f += 1;
                }
                if f < input.len() && input[f] == 46 {
                    (Err(Error::MalformedNumber), start)
                } else {
                    (Ok(Token::Number(copy_range(input, p, f))), f)
                }
            } else {
                (Err(Error::MalformedNumber), start)
            }
        } else {
            (Ok(Token::Number(copy_range(input, p, d))), d)
        }
    } else {
        match punct_token(input[p]) {
            Some(t) => (Ok(t), p + 1),
            None => (Err(Error::UnknownChar(input[p])), start),
        }
    }
}

} // verus!
