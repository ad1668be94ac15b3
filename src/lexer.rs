//! Tokens of the translation language: identifiers, string literals with
//! escapes, `:`, `,`, `=>`, braces and brackets. Whitespace and `//` line
//! comments separate tokens. The last token is always an end marker.
use vstd::prelude::*;
use crate::text::{chars_of, push_char, string_of_range};

verus! {

#[derive(Clone, Copy, Debug, PartialEq, Eq, Structural)]
pub enum TokenKind {
    Ident,
    Str,
    Colon,
    Comma,
    FatArrow,
    LBrace,
    RBrace,
    LBracket,
    RBracket,
    End,
}

/// Why a source text was refused.
#[derive(Clone, Copy, Debug, PartialEq, Eq, Structural)]
pub enum ParseErrorKind {
    UnexpectedChar,
    UnterminatedString,
    InvalidEscape,
    Expected(TokenKind),
    ExpectedLocales,
    UnknownSection,
    DuplicateSection,
    UnknownField,
    DuplicateField,
}

/// A refusal, at a character offset of the source text.
#[derive(Clone, Copy, Debug, PartialEq, Eq, Structural)]
pub struct ParseError {
    pub at: usize,
    pub kind: ParseErrorKind,
}

/// A token: its kind, its text (the name of an identifier, the value of a
/// string literal, empty otherwise) and the offset where it starts.
#[derive(Debug)]
pub struct Token {
    pub kind: TokenKind,
    pub text: String,
    pub start: usize,
}

pub struct SpecToken {
    pub kind: TokenKind,
    pub text: Seq<char>,
    pub start: int,
}

impl View for Token {
    type V = SpecToken;

    open spec fn view(&self) -> SpecToken {
        SpecToken { kind: self.kind, text: self.text@, start: self.start as int }
    }
}

pub open spec fn tokens_view(ts: Seq<Token>) -> Seq<SpecToken> {
    ts.map_values(|t: Token| t@)
}

pub open spec fn is_ident_start(c: char) -> bool {
    ('a' <= c && c <= 'z') || ('A' <= c && c <= 'Z') || c == '_'
}

pub open spec fn is_ident_char(c: char) -> bool {
    is_ident_start(c) || ('0' <= c && c <= '9')
}

pub open spec fn is_space(c: char) -> bool {
    c == ' ' || c == '\t' || c == '\n' || c == '\r'
}

/// The kind of a one-character punctuation token.
pub open spec fn punct_kind(c: char) -> Option<TokenKind> {
    if c == ':' {
        Some(TokenKind::Colon)
    } else if c == ',' {
        Some(TokenKind::Comma)
    } else if c == '{' {
        Some(TokenKind::LBrace)
    } else if c == '}' {
        Some(TokenKind::RBrace)
    } else if c == '[' {
        Some(TokenKind::LBracket)
    } else if c == ']' {
        Some(TokenKind::RBracket)
    } else {
        None
    }
}

/// The character that `\c` stands for in a string literal.
pub open spec fn escaped(c: char) -> Option<char> {
    if c == 'n' {
        Some('\n')
    } else if c == 't' {
        Some('\t')
    } else if c == 'r' {
        Some('\r')
    } else if c == '0' {
        Some('\0')
    } else if c == '\\' || c == '"' || c == '\'' {
        Some(c)
    } else {
        None
    }
}

/// The end of the run of identifier characters that starts at `i`.
pub open spec fn ident_end(s: Seq<char>, i: int) -> int
    decreases s.len() - i,
{
    if 0 <= i < s.len() && is_ident_char(s[i]) {
        ident_end(s, i + 1)
    } else {
        i
    }
}

/// The position of the first line break at or after `i`, or the length of `s`.
pub open spec fn line_end(s: Seq<char>, i: int) -> int
    decreases s.len() - i,
{
    if 0 <= i < s.len() && s[i] != '\n' {
        line_end(s, i + 1)
    } else {
        i
    }
}

pub open spec fn lex_err(at: int, kind: ParseErrorKind) -> ParseError {
    ParseError { at: at as usize, kind }
}

/// The rest of a string literal from `i` on, `acc` being its value so far
/// and `open` the offset of its opening quote: its value and the position
/// after the closing quote.
pub open spec fn string_body(s: Seq<char>, i: int, acc: Seq<char>, open: int) -> Result<
    (Seq<char>, int),
    ParseError,
>
    decreases s.len() - i,
{
    if i < 0 || i >= s.len() {
        Err(lex_err(open, ParseErrorKind::UnterminatedString))
    } else if s[i] == '"' {
        Ok((acc, i + 1))
    } else if s[i] == '\\' {
        if i + 1 >= s.len() {
            Err(lex_err(open, ParseErrorKind::UnterminatedString))
        } else {
            match escaped(s[i + 1]) {
                Some(c) => string_body(s, i + 2, acc.push(c), open),
                None => Err(lex_err(i, ParseErrorKind::InvalidEscape)),
            }
        }
    } else {
        string_body(s, i + 1, acc.push(s[i]), open)
    }
}

pub open spec fn tok(kind: TokenKind, text: Seq<char>, start: int) -> SpecToken {
    SpecToken { kind, text, start }
}

/// The tokens of `s` from position `i` on, appended to `acc`.
pub open spec fn lex_from(s: Seq<char>, i: int, acc: Seq<SpecToken>) -> Result<Seq<SpecToken>, ParseError>
    decreases s.len() - i,
{
    if i < 0 || i >= s.len() {
        Ok(acc.push(tok(TokenKind::End, Seq::empty(), s.len() as int)))
    } else if is_space(s[i]) {
        lex_from(s, i + 1, acc)
    } else if s[i] == '/' && i + 1 < s.len() && s[i + 1] == '/' && i < line_end(s, i + 2) <= s.len() {
        lex_from(s, line_end(s, i + 2), acc)
    } else if is_ident_start(s[i]) && i < ident_end(s, i + 1) <= s.len() {
        let e = ident_end(s, i + 1);
        lex_from(s, e, acc.push(tok(TokenKind::Ident, s.subrange(i, e), i)))
    } else if s[i] == '"' {
        match string_body(s, i + 1, Seq::empty(), i) {
            Ok((v, e)) => if i < e <= s.len() {
                lex_from(s, e, acc.push(tok(TokenKind::Str, v, i)))
            } else {
                Err(lex_err(i, ParseErrorKind::UnterminatedString))
            },
            Err(err) => Err(err),
        }
    } else if s[i] == '=' && i + 1 < s.len() && s[i + 1] == '>' {
        lex_from(s, i + 2, acc.push(tok(TokenKind::FatArrow, Seq::empty(), i)))
    } else {
        match punct_kind(s[i]) {
            Some(k) => lex_from(s, i + 1, acc.push(tok(k, Seq::empty(), i))),
            None => Err(lex_err(i, ParseErrorKind::UnexpectedChar)),
        }
    }
}

/// The tokens of a whole source text.
pub open spec fn spec_lex(s: Seq<char>) -> Result<Seq<SpecToken>, ParseError> {
    lex_from(s, 0, Seq::empty())
}

proof fn lemma_string_body_advances(s: Seq<char>, i: int, acc: Seq<char>, open: int)
    requires
        0 <= i,
    ensures
        string_body(s, i, acc, open) matches Ok((_, e)) ==> i < e <= s.len(),
    decreases s.len() - i,
{
    if 0 <= i < s.len() && s[i] != '"' {
        if s[i] == '\\' {
            if i + 1 < s.len() {
                if let Some(c) = escaped(s[i + 1]) {
                    lemma_string_body_advances(s, i + 2, acc.push(c), open);
                }
            }
        } else {
            lemma_string_body_advances(s, i + 1, acc.push(s[i]), open);
        }
    }
}

fn push_token(acc: &mut Vec<Token>, kind: TokenKind, text: String, start: usize)
    ensures
        tokens_view(final(acc)@) == tokens_view(old(acc)@).push(tok(kind, text@, start as int)),
{
    acc.push(Token { kind, text, start });
    assert(tokens_view(acc@) =~= tokens_view(old(acc)@).push(tok(kind, text@, start as int)));
}

/// Reads a string literal whose opening quote is at `open`.
fn lex_string(s: &Vec<char>, open: usize) -> (r: Result<(String, usize), ParseError>)
    requires
        open < s.len(),
    ensures
        match r {
            Ok((v, e)) => string_body(s@, open + 1, Seq::empty(), open as int) == Ok::<(Seq<char>, int), ParseError>((v@, e as int)),
            Err(err) => string_body(s@, open + 1, Seq::empty(), open as int) == Err::<(Seq<char>, int), ParseError>(err),
        },
{
    let mut v = String::new();
    let mut i: usize = open + 1;
    loop
        invariant
            open < i <= s.len() + 1,
            string_body(s@, open + 1, Seq::empty(), open as int) == string_body(s@, i as int, v@, open as int),
        decreases s.len() + 1 - i,
    {
        if i >= s.len() {
            return Err(ParseError { at: open, kind: ParseErrorKind::UnterminatedString });
        }
        let c = s[i];
        if c == '"' {
            return Ok((v, i + 1));
        } else if c == '\\' {
            if i + 1 >= s.len() {
                return Err(ParseError { at: open, kind: ParseErrorKind::UnterminatedString });
            }
            let d = s[i + 1];
            let e = if d == 'n' {
                '\n'
            } else if d == 't' {
                '\t'
            } else if d == 'r' {
                '\r'
            } else if d == '0' {
                '\0'
            } else if d == '\\' || d == '"' || d == '\'' {
                d
            } else {
                return Err(ParseError { at: i, kind: ParseErrorKind::InvalidEscape });
            };
            push_char(&mut v, e);
            i += 2;
        } else {
            push_char(&mut v, c);
            i += 1;
        }
    }
}

/// Splits a source text into tokens.
pub fn tokenize(src: &str) -> (r: Result<Vec<Token>, ParseError>)
    ensures
        match r {
            Ok(ts) => spec_lex(src@) == Ok::<Seq<SpecToken>, ParseError>(tokens_view(ts@)),
            Err(e) => spec_lex(src@) == Err::<Seq<SpecToken>, ParseError>(e),
        },
{
    let s = chars_of(src);
    let len = s.len();
    let mut acc: Vec<Token> = Vec::new();
    let mut i: usize = 0;
    assert(tokens_view(acc@) =~= Seq::<SpecToken>::empty());
    loop
        invariant
            s@ == src@,
            len == s@.len(),
            i <= len,
            spec_lex(src@) == lex_from(s@, i as int, tokens_view(acc@)),
        decreases len - i,
    {
        if i >= len {
            push_token(&mut acc, TokenKind::End, String::new(), len);
            return Ok(acc);
        }
        let c = s[i];
        if c == ' ' || c == '\t' || c == '\n' || c == '\r' {
            i += 1;
        } else if c == '/' && i + 1 < len && s[i + 1] == '/' {
            let mut j: usize = i + 2;
            while j < len && s[j] != '\n'
                invariant
                    i + 2 <= j <= len,
                    len == s@.len(),
                    line_end(s@, i + 2) == line_end(s@, j as int),
                decreases len - j,
            {
                j += 1;
            }
            i = j;
        } else if ('a' <= c && c <= 'z') || ('A' <= c && c <= 'Z') || c == '_' {
            let mut j: usize = i + 1;
            while j < len && (('a' <= s[j] && s[j] <= 'z') || ('A' <= s[j] && s[j] <= 'Z')
                || s[j] == '_' || ('0' <= s[j] && s[j] <= '9'))
                invariant
                    i + 1 <= j <= len,
                    len == s@.len(),
                    ident_end(s@, i + 1) == ident_end(s@, j as int),
                decreases len - j,
            {
                j += 1;
            }
            let text = string_of_range(&s, i, j);
            push_token(&mut acc, TokenKind::Ident, text, i);
            i = j;
        } else if c == '"' {
            proof {
                lemma_string_body_advances(s@, i + 1, Seq::empty(), i as int);
            }
            match lex_string(&s, i) {
                Ok((v, e)) => {
                    push_token(&mut acc, TokenKind::Str, v, i);
                    i = e;
                },
                Err(err) => {
                    return Err(err);
                },
            }
        } else if c == '=' && i + 1 < len && s[i + 1] == '>' {
            push_token(&mut acc, TokenKind::FatArrow, String::new(), i);
            i += 2;
        } else {
            let k = if c == ':' {
                TokenKind::Colon
            } else if c == ',' {
                TokenKind::Comma
            } else if c == '{' {
                TokenKind::LBrace
            } else if c == '}' {
                TokenKind::RBrace
            } else if c == '[' {
                TokenKind::LBracket
            } else if c == ']' {
                TokenKind::RBracket
            } else {
                return Err(ParseError { at: i, kind: ParseErrorKind::UnexpectedChar });
            };
            push_token(&mut acc, k, String::new(), i);
            i += 1;
        }
    }
}

} // verus!
