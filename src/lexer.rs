use vstd::prelude::*;

use crate::chars::{ident_char, ident_start, is_ident_char, is_ident_start, is_space, space};
use crate::error::{Error, Expected, SError};
use crate::text::string_of;

verus! {

/// A token of the expression language between `${` and `}`.
#[derive(Debug)]
pub enum Token {
    CloseBracket,
    Question,
    Colon,
    OpenParen,
    CloseParen,
    Equals,
    NullCheck,
    Ident(String),
    Literal(String),
    Pound,
    Comma,
    Assign,
    Minus,
}

/// The model of a [`Token`].
pub enum SToken {
    CloseBracket,
    Question,
    Colon,
    OpenParen,
    CloseParen,
    Equals,
    NullCheck,
    Ident(Seq<char>),
    Literal(Seq<char>),
    Pound,
    Comma,
    Assign,
    Minus,
}

impl View for Token {
    type V = SToken;

    open spec fn view(&self) -> SToken {
        match self {
            Token::CloseBracket => SToken::CloseBracket,
            Token::Question => SToken::Question,
            Token::Colon => SToken::Colon,
            Token::OpenParen => SToken::OpenParen,
            Token::CloseParen => SToken::CloseParen,
            Token::Equals => SToken::Equals,
            Token::NullCheck => SToken::NullCheck,
            Token::Ident(s) => SToken::Ident(s@),
            Token::Literal(s) => SToken::Literal(s@),
            Token::Pound => SToken::Pound,
            Token::Comma => SToken::Comma,
            Token::Assign => SToken::Assign,
            Token::Minus => SToken::Minus,
        }
    }
}

/// How a token is written.
pub open spec fn token_text(t: SToken) -> Seq<char> {
    match t {
        SToken::CloseBracket => seq!['}'],
        SToken::Question => seq!['?'],
        SToken::Colon => seq![':'],
        SToken::OpenParen => seq!['('],
        SToken::CloseParen => seq![')'],
        SToken::Equals => seq!['=', '='],
        SToken::NullCheck => seq!['?', '?'],
        SToken::Ident(s) => s,
        SToken::Literal(s) => s,
        SToken::Pound => seq!['#'],
        SToken::Comma => seq![','],
        SToken::Assign => seq!['='],
        SToken::Minus => seq!['-'],
    }
}

impl Token {
    /// The token as it is written; a literal gives its text.
    pub fn text(&self) -> (r: String)
        ensures
            r@ == token_text(self@),
    {
        match self {
            Token::CloseBracket => string_of(&vec!['}']),
            Token::Question => string_of(&vec!['?']),
            Token::Colon => string_of(&vec![':']),
            Token::OpenParen => string_of(&vec!['(']),
            Token::CloseParen => string_of(&vec![')']),
            Token::Equals => string_of(&vec!['=', '=']),
            Token::NullCheck => string_of(&vec!['?', '?']),
            Token::Ident(s) => s.clone(),
            Token::Literal(s) => s.clone(),
            Token::Pound => string_of(&vec!['#']),
            Token::Comma => string_of(&vec![',']),
            Token::Assign => string_of(&vec!['=']),
            Token::Minus => string_of(&vec!['-']),
        }
    }
}

pub type LexResult = Result<Option<SToken>, SError>;

pub open spec fn lex_view(r: Result<Option<Token>, Error>) -> LexResult {
    match r {
        Ok(Some(t)) => Ok(Some(t@)),
        Ok(None) => Ok(None),
        Err(e) => Err(e@),
    }
}

/// The character that an escape `\c` inside a literal stands for.
pub open spec fn unescape(c: char) -> char {
    if c == 'n' {
        '\n'
    } else if c == 'r' {
        '\r'
    } else if c == 't' {
        '\t'
    } else {
        c
    }
}

/// The first index at or after `p` whose character cannot continue a name.
pub open spec fn ident_end(s: Seq<char>, p: int) -> int
    decreases s.len() - p,
{
    if p < 0 || p >= s.len() || !is_ident_char(s[p]) {
        p
    } else {
        ident_end(s, p + 1)
    }
}

/// Lexes the rest of a literal whose text so far is `acc`, `p` being just past the
/// characters read; gives the token and the index after the closing quote.
pub open spec fn lex_literal(s: Seq<char>, p: int, acc: Seq<char>) -> (LexResult, int)
    decreases s.len() - p,
{
    if p < 0 || p >= s.len() {
        (Err(SError::LexerExpect(Expected::CloseQuote)), p)
    } else if s[p] == '\'' {
        (Ok(Some(SToken::Literal(acc))), p + 1)
    } else if s[p] == '\\' {
        if p + 1 >= s.len() {
            (Err(SError::LexerExpect(Expected::EscapeSequence)), p + 1)
        } else {
            lex_literal(s, p + 2, acc.push(unescape(s[p + 1])))
        }
    } else {
        lex_literal(s, p + 1, acc.push(s[p]))
    }
}

/// The next token of `s` from index `p`, and the index just after it.
/// `Ok(None)` is the end of the text.
pub open spec fn lex(s: Seq<char>, p: int) -> (LexResult, int)
    decreases s.len() - p,
{
    if p < 0 || p >= s.len() {
        (Ok(None), p)
    } else {
        let c = s[p];
        if c == '}' {
            (Ok(Some(SToken::CloseBracket)), p + 1)
        } else if c == '?' {
            if p + 1 < s.len() && s[p + 1] == '?' {
                (Ok(Some(SToken::NullCheck)), p + 2)
            } else {
                (Ok(Some(SToken::Question)), p + 1)
            }
        } else if c == ':' {
            (Ok(Some(SToken::Colon)), p + 1)
        } else if c == '(' {
            (Ok(Some(SToken::OpenParen)), p + 1)
        } else if c == ')' {
            (Ok(Some(SToken::CloseParen)), p + 1)
        } else if c == '=' {
            if p + 1 < s.len() && s[p + 1] == '=' {
                (Ok(Some(SToken::Equals)), p + 2)
            } else {
                (Ok(Some(SToken::Assign)), p + 1)
            }
        } else if c == '#' {
            (Ok(Some(SToken::Pound)), p + 1)
        } else if c == ',' {
            (Ok(Some(SToken::Comma)), p + 1)
        } else if c == '-' {
            (Ok(Some(SToken::Minus)), p + 1)
        } else if c == '\'' {
            lex_literal(s, p + 1, Seq::empty())
        } else if is_space(c) {
            lex(s, p + 1)
        } else if is_ident_start(c) {
            let e = ident_end(s, p + 1);
            (Ok(Some(SToken::Ident(s.subrange(p, e)))), e)
        } else {
            (Err(SError::LexerUnexpected(c)), p)
        }
    }
}

pub proof fn lemma_ident_end_bounds(s: Seq<char>, p: int)
    requires
        0 <= p <= s.len(),
    ensures
        p <= ident_end(s, p) <= s.len(),
        forall|i: int| p <= i < ident_end(s, p) ==> is_ident_char(#[trigger] s[i]),
    decreases s.len() - p,
{
    if p < s.len() && is_ident_char(s[p]) {
        lemma_ident_end_bounds(s, p + 1);
    }
}

/// Splits the text of one expression into tokens, from a position in a character buffer.
pub struct Lexer<'a> {
    pub data: &'a Vec<char>,
    pub pos: usize,
}

impl<'a> Lexer<'a> {
    pub fn new(data: &'a Vec<char>, pos: usize) -> (r: Lexer<'a>)
        ensures
            r.data == data,
            r.pos == pos,
    {
        Lexer { data, pos }
    }

    /// The next token, or `None` at the end of the buffer.
    pub fn next_token(&mut self) -> (r: Result<Option<Token>, Error>)
        requires
            old(self).pos <= old(self).data@.len(),
        ensures
            final(self).data == old(self).data,
            (lex_view(r), final(self).pos as int) == lex(old(self).data@, old(self).pos as int),
            r is Ok ==> old(self).pos <= final(self).pos <= final(self).data@.len(),
            r matches Ok(Some(_)) ==> old(self).pos < final(self).pos,
    {
        let len = self.data.len();
        loop
            invariant
                self.data == old(self).data,
                len == self.data@.len(),
                old(self).pos <= self.pos <= len,
                lex(self.data@, self.pos as int) == lex(old(self).data@, old(self).pos as int),
            decreases len - self.pos,
        {
            if self.pos >= len {
                return Ok(None);
            }
            let p = self.pos;
            let c = self.data[p];
            let one = p + 1 < len;
            if c == '}' {
                self.pos = p + 1;
                return Ok(Some(Token::CloseBracket));
            } else if c == '?' {
                if one && self.data[p + 1] == '?' {
                    self.pos = p + 2;
                    return Ok(Some(Token::NullCheck));
                }
                self.pos = p + 1;
                return Ok(Some(Token::Question));
            } else if c == ':' {
                self.pos = p + 1;
                return Ok(Some(Token::Colon));
            } else if c == '(' {
                self.pos = p + 1;
                return Ok(Some(Token::OpenParen));
            } else if c == ')' {
                self.pos = p + 1;
                return Ok(Some(Token::CloseParen));
            } else if c == '=' {
                if one && self.data[p + 1] == '=' {
                    self.pos = p + 2;
                    return Ok(Some(Token::Equals));
                }
                self.pos = p + 1;
                return Ok(Some(Token::Assign));
            } else if c == '#' {
                self.pos = p + 1;
                return Ok(Some(Token::Pound));
            } else if c == ',' {
                self.pos = p + 1;
                return Ok(Some(Token::Comma));
            } else if c == '-' {
                self.pos = p + 1;
                return Ok(Some(Token::Minus));
            } else if c == '\'' {
                self.pos = p + 1;
                return self.read_literal();
            } else if space(c) {
                self.pos = p + 1;
            } else if ident_start(c) {
                proof {
                    lemma_ident_end_bounds(self.data@, p + 1);
                }
                return Ok(Some(self.read_ident()));
            } else {
                return Err(Error::LexerUnexpected(c));
            }
        }
    }

    /// Reads a name whose first character stands at the current position.
    fn read_ident(&mut self) -> (r: Token)
        requires
            old(self).pos < old(self).data@.len(),
        ensures
            final(self).data == old(self).data,
            final(self).pos == ident_end(old(self).data@, old(self).pos + 1),
            r@ == SToken::Ident(old(self).data@.subrange(old(self).pos as int, final(self).pos as int)),
    {
        let len = self.data.len();
        let start = self.pos;
        let mut name: Vec<char> = Vec::new();
        name.push(self.data[start]);
        self.pos = start + 1;
        while self.pos < len && ident_char(self.data[self.pos])
            invariant
                self.data == old(self).data,
                len == self.data@.len(),
                start == old(self).pos,
                start < self.pos <= len,
                ident_end(self.data@, self.pos as int) == ident_end(self.data@, start + 1),
                name@ == self.data@.subrange(start as int, self.pos as int),
            decreases len - self.pos,
        {
            name.push(self.data[self.pos]);
            self.pos = self.pos + 1;
        }
        Token::Ident(string_of(&name))
    }

    /// Reads a literal from just past its opening quote.
    fn read_literal(&mut self) -> (r: Result<Option<Token>, Error>)
        requires
            old(self).pos <= old(self).data@.len(),
        ensures
            final(self).data == old(self).data,
            (lex_view(r), final(self).pos as int) == lex_literal(
                old(self).data@,
                old(self).pos as int,
                Seq::empty(),
            ),
            r is Ok ==> old(self).pos < final(self).pos <= final(self).data@.len(),
    {
        let len = self.data.len();
        let mut lit: Vec<char> = Vec::new();
        loop
            invariant
                self.data == old(self).data,
                len == self.data@.len(),
                old(self).pos <= self.pos <= len,
                lex_literal(self.data@, self.pos as int, lit@) == lex_literal(
                    old(self).data@,
                    old(self).pos as int,
                    Seq::empty(),
                ),
            decreases len - self.pos,
        {
            if self.pos >= len {
                return Err(Error::LexerExpect(Expected::CloseQuote));
            }
            let c = self.data[self.pos];
            if c == '\'' {
                self.pos = self.pos + 1;
                return Ok(Some(Token::Literal(string_of(&lit))));
            } else if c == '\\' {
                if self.pos + 1 >= len {
                    self.pos = self.pos + 1;
                    return Err(Error::LexerExpect(Expected::EscapeSequence));
                }
                let e = self.data[self.pos + 1];
                let u = if e == 'n' {
                    '\n'
                } else if e == 'r' {
                    '\r'
                } else if e == 't' {
                    '\t'
                } else {
                    e
                };
                lit.push(u);
                self.pos = self.pos + 2;
            } else {
                lit.push(c);
                self.pos = self.pos + 1;
            }
        }
    }
}

} // verus!
