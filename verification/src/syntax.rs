//! The surface syntax: a lexer for program text and a recursive-descent
//! parser that builds and checks a [`Program`].

use vstd::prelude::*;
use vstd::std_specs::cmp::PartialEqSpecImpl;
use crate::language::{
    check_flow, debug_space, default_primitives, default_signatures, outcome_view, space_debug,
    typecheck, views_of, Flow, FlowV, Program, Signature, SignatureV, Space, SpaceV,
};
use crate::names::NameMap;
use crate::text::{
    ascii_digit, ascii_letter, chars_of, debug_str, decimal, decimal_text, digit_of,
    is_ascii_digit, is_ascii_letter, lemma_decimal_prefix, owned, push_char, same_text,
    str_debug, string_of, usize_text,
};

verus! {

/// A lexical token of the surface syntax.
#[derive(Debug, Eq)]
pub enum Token {
    SpaceKw,
    FlowKw,
    Ident(String),
    Number(usize),
    Equals,
    Colon,
    Arrow,
    Chain,
    Parallel,
    Feedback,
    LParen,
    RParen,
    LAngle,
    RAngle,
    Comma,
    Eof,
}

/// The mathematical value of a [`Token`].
pub enum TokenV {
    SpaceKw,
    FlowKw,
    Ident(Seq<char>),
    Number(usize),
    Equals,
    Colon,
    Arrow,
    Chain,
    Parallel,
    Feedback,
    LParen,
    RParen,
    LAngle,
    RAngle,
    Comma,
    Eof,
}

impl View for Token {
    type V = TokenV;

    open spec fn view(&self) -> TokenV {
        match self {
            Token::SpaceKw => TokenV::SpaceKw,
            Token::FlowKw => TokenV::FlowKw,
            Token::Ident(s) => TokenV::Ident(s@),
            Token::Number(n) => TokenV::Number(*n),
            Token::Equals => TokenV::Equals,
            Token::Colon => TokenV::Colon,
            Token::Arrow => TokenV::Arrow,
            Token::Chain => TokenV::Chain,
            Token::Parallel => TokenV::Parallel,
            Token::Feedback => TokenV::Feedback,
            Token::LParen => TokenV::LParen,
            Token::RParen => TokenV::RParen,
            Token::LAngle => TokenV::LAngle,
            Token::RAngle => TokenV::RAngle,
            Token::Comma => TokenV::Comma,
            Token::Eof => TokenV::Eof,
        }
    }
}

impl Clone for Token {
    fn clone(&self) -> (r: Self)
        ensures
            r@ == self@,
    {
        match self {
            Token::SpaceKw => Token::SpaceKw,
            Token::FlowKw => Token::FlowKw,
            Token::Ident(s) => Token::Ident(s.clone()),
            Token::Number(n) => Token::Number(*n),
            Token::Equals => Token::Equals,
            Token::Colon => Token::Colon,
            Token::Arrow => Token::Arrow,
            Token::Chain => Token::Chain,
            Token::Parallel => Token::Parallel,
            Token::Feedback => Token::Feedback,
            Token::LParen => Token::LParen,
            Token::RParen => Token::RParen,
            Token::LAngle => Token::LAngle,
            Token::RAngle => Token::RAngle,
            Token::Comma => Token::Comma,
            Token::Eof => Token::Eof,
        }
    }
}

impl PartialEq for Token {
    fn eq(&self, other: &Self) -> (r: bool) {
        match (self, other) {
            (Token::Ident(a), Token::Ident(b)) => a.eq(b),
            (Token::Number(a), Token::Number(b)) => *a == *b,
            (Token::SpaceKw, Token::SpaceKw) => true,
            (Token::FlowKw, Token::FlowKw) => true,
            (Token::Equals, Token::Equals) => true,
            (Token::Colon, Token::Colon) => true,
            (Token::Arrow, Token::Arrow) => true,
            (Token::Chain, Token::Chain) => true,
            (Token::Parallel, Token::Parallel) => true,
            (Token::Feedback, Token::Feedback) => true,
            (Token::LParen, Token::LParen) => true,
            (Token::RParen, Token::RParen) => true,
            (Token::LAngle, Token::LAngle) => true,
            (Token::RAngle, Token::RAngle) => true,
            (Token::Comma, Token::Comma) => true,
            (Token::Eof, Token::Eof) => true,
            _ => false,
        }
    }
}

impl PartialEqSpecImpl for Token {
    open spec fn obeys_eq_spec() -> bool {
        true
    }

    open spec fn eq_spec(&self, other: &Self) -> bool {
        self@ == other@
    }
}

/// The `Debug` text of a token: the variant's name, with its field in
/// brackets where it has one.
pub open spec fn token_debug(t: TokenV) -> Seq<char> {
    match t {
        TokenV::Ident(s) => "Ident("@ + str_debug(s) + ")"@,
        TokenV::Number(n) => "Number("@ + decimal_text(n as nat) + ")"@,
        TokenV::SpaceKw => "SpaceKw"@,
        TokenV::FlowKw => "FlowKw"@,
        TokenV::Equals => "Equals"@,
        TokenV::Colon => "Colon"@,
        TokenV::Arrow => "Arrow"@,
        TokenV::Chain => "Chain"@,
        TokenV::Parallel => "Parallel"@,
        TokenV::Feedback => "Feedback"@,
        TokenV::LParen => "LParen"@,
        TokenV::RParen => "RParen"@,
        TokenV::LAngle => "LAngle"@,
        TokenV::RAngle => "RAngle"@,
        TokenV::Comma => "Comma"@,
        TokenV::Eof => "Eof"@,
    }
}

/// The `Debug` text of a token, as `format!("{:?}", t)` gives it.
pub fn debug_token(t: &Token) -> (r: String)
    ensures
        r@ == token_debug(t@),
{
    match t {
        Token::Ident(s) => {
            let mut r = owned("Ident(");
            r.append(debug_str(s.as_str()).as_str());
            r.append(")");
            r
        },
        Token::Number(n) => {
            let mut r = owned("Number(");
            r.append(usize_text(*n).as_str());
            r.append(")");
            r
        },
        Token::SpaceKw => owned("SpaceKw"),
        Token::FlowKw => owned("FlowKw"),
        Token::Equals => owned("Equals"),
        Token::Colon => owned("Colon"),
        Token::Arrow => owned("Arrow"),
        Token::Chain => owned("Chain"),
        Token::Parallel => owned("Parallel"),
        Token::Feedback => owned("Feedback"),
        Token::LParen => owned("LParen"),
        Token::RParen => owned("RParen"),
        Token::LAngle => owned("LAngle"),
        Token::RAngle => owned("RAngle"),
        Token::Comma => owned("Comma"),
        Token::Eof => owned("Eof"),
    }
}

/// A character that continues a word: an ASCII letter or digit, or `_`.
pub open spec fn is_word_char(c: char) -> bool {
    is_ascii_letter(c) || is_ascii_digit(c) || c == '_'
}

/// Whitespace between tokens.
pub open spec fn is_blank(c: char) -> bool {
    c == ' ' || c == '\n' || c == '\r' || c == '\t'
}

/// The end of the run of word characters that starts at `i`.
pub open spec fn word_end(cs: Seq<char>, i: int) -> int
    decreases cs.len() - i,
{
    if 0 <= i < cs.len() && is_word_char(cs[i]) {
        word_end(cs, i + 1)
    } else {
        i
    }
}

/// The end of the run of ASCII digits that starts at `i`.
pub open spec fn digits_end(cs: Seq<char>, i: int) -> int
    decreases cs.len() - i,
{
    if 0 <= i < cs.len() && is_ascii_digit(cs[i]) {
        digits_end(cs, i + 1)
    } else {
        i
    }
}

/// The position of the first line break at or after `i`, or the end.
pub open spec fn line_end(cs: Seq<char>, i: int) -> int
    decreases cs.len() - i,
{
    if 0 <= i < cs.len() && cs[i] != '\n' {
        line_end(cs, i + 1)
    } else {
        i
    }
}

pub proof fn lemma_word_end(cs: Seq<char>, i: int)
    requires
        0 <= i <= cs.len(),
    ensures
        i <= word_end(cs, i) <= cs.len(),
        forall|k: int| i <= k < word_end(cs, i) ==> is_word_char(#[trigger] cs[k]),
        word_end(cs, i) < cs.len() ==> !is_word_char(cs[word_end(cs, i)]),
    decreases cs.len() - i,
{
    if i < cs.len() && is_word_char(cs[i]) {
        lemma_word_end(cs, i + 1);
    }
}

pub proof fn lemma_digits_end(cs: Seq<char>, i: int)
    requires
        0 <= i <= cs.len(),
    ensures
        i <= digits_end(cs, i) <= cs.len(),
        forall|k: int| i <= k < digits_end(cs, i) ==> is_ascii_digit(#[trigger] cs[k]),
        digits_end(cs, i) < cs.len() ==> !is_ascii_digit(cs[digits_end(cs, i)]),
    decreases cs.len() - i,
{
    if i < cs.len() && is_ascii_digit(cs[i]) {
        lemma_digits_end(cs, i + 1);
    }
}

pub proof fn lemma_line_end(cs: Seq<char>, i: int)
    requires
        0 <= i <= cs.len(),
    ensures
        i <= line_end(cs, i) <= cs.len(),
        forall|k: int| i <= k < line_end(cs, i) ==> #[trigger] cs[k] != '\n',
        line_end(cs, i) < cs.len() ==> cs[line_end(cs, i)] == '\n',
    decreases cs.len() - i,
{
    if i < cs.len() && cs[i] != '\n' {
        lemma_line_end(cs, i + 1);
    }
}

/// The token for a word: a keyword, or an identifier.
pub open spec fn word_token(w: Seq<char>) -> TokenV {
    if w == "space"@ {
        TokenV::SpaceKw
    } else if w == "flow"@ {
        TokenV::FlowKw
    } else {
        TokenV::Ident(w)
    }
}

/// The message for a character that starts no token.
pub open spec fn unexpected_char_message(c: char) -> Seq<char> {
    "unexpected character `"@ + seq![c] + "`"@
}

/// Lexing `cs` from position `i`, after the tokens `acc`.
///
/// `None` stands for a number too large for `usize`; `Some(Err(m))` for a
/// lexical error with message `m`; `Some(Ok(ts))` for the whole token
/// sequence, which ends with `Eof`.
pub open spec fn lex_from(cs: Seq<char>, i: int, acc: Seq<TokenV>) -> Option<Result<Seq<TokenV>, Seq<char>>>
    decreases cs.len() - i,
{
    if i < 0 || i >= cs.len() {
        Some(Ok(acc.push(TokenV::Eof)))
    } else {
        let c = cs[i];
        let next = if i + 1 < cs.len() { Some(cs[i + 1]) } else { None };
        if is_blank(c) {
            lex_from(cs, i + 1, acc)
        } else if c == '/' {
            if next == Some('/') {
                proof {
                    lemma_line_end(cs, i + 2);
                }
                lex_from(cs, line_end(cs, i + 2), acc)
            } else {
                Some(Err("unexpected `/` token"@))
            }
        } else if c == '=' {
            lex_from(cs, i + 1, acc.push(TokenV::Equals))
        } else if c == ':' {
            lex_from(cs, i + 1, acc.push(TokenV::Colon))
        } else if c == '~' {
            lex_from(cs, i + 1, acc.push(TokenV::Feedback))
        } else if c == '(' {
            lex_from(cs, i + 1, acc.push(TokenV::LParen))
        } else if c == ')' {
            lex_from(cs, i + 1, acc.push(TokenV::RParen))
        } else if c == '<' {
            lex_from(cs, i + 1, acc.push(TokenV::LAngle))
        } else if c == '>' {
            if next == Some('>') {
                lex_from(cs, i + 2, acc.push(TokenV::Chain))
            } else {
                lex_from(cs, i + 1, acc.push(TokenV::RAngle))
            }
        } else if c == ',' {
            lex_from(cs, i + 1, acc.push(TokenV::Comma))
        } else if c == '-' && next == Some('>') {
            lex_from(cs, i + 2, acc.push(TokenV::Arrow))
        } else if c == '|' {
            if next == Some('|') {
                lex_from(cs, i + 2, acc.push(TokenV::Parallel))
            } else {
                Some(Err("unexpected `|` token"@))
            }
        } else if is_ascii_letter(c) || c == '_' {
            proof {
                lemma_word_end(cs, i + 1);
            }
            let j = word_end(cs, i + 1);
            lex_from(cs, j, acc.push(word_token(cs.subrange(i, j))))
        } else if is_ascii_digit(c) {
            proof {
                lemma_digits_end(cs, i + 1);
            }
            let j = digits_end(cs, i + 1);
            let v = decimal(cs.subrange(i, j));
            if v > usize::MAX {
                None
            } else {
                lex_from(cs, j, acc.push(TokenV::Number(v as usize)))
            }
        } else {
            Some(Err(unexpected_char_message(c)))
        }
    }
}

/// The tokens of a source text, or the lexical error it holds (`None`: a
/// number in it does not fit in `usize`).
pub open spec fn lex(cs: Seq<char>) -> Option<Result<Seq<TokenV>, Seq<char>>> {
    lex_from(cs, 0, Seq::empty())
}

/// Lexing keeps the tokens read so far and ends with the only `Eof` it
/// adds.
pub proof fn lemma_lex_from_ends_with_eof(cs: Seq<char>, i: int, acc: Seq<TokenV>)
    ensures
        lex_from(cs, i, acc) matches Some(Ok(ts)) ==> {
            &&& ts.len() > acc.len()
            &&& ts.last() == TokenV::Eof
            &&& ts.take(acc.len() as int) == acc
            &&& forall|k: int| acc.len() <= k < ts.len() - 1 ==> #[trigger] ts[k] != TokenV::Eof
        },
    decreases cs.len() - i, 1int,
{
    if i < 0 || i >= cs.len() {
        assert(acc.push(TokenV::Eof).take(acc.len() as int) =~= acc);
    } else {
        let c = cs[i];
        let next = if i + 1 < cs.len() { Some(cs[i + 1]) } else { None };
        if is_blank(c) {
            lemma_lex_from_ends_with_eof(cs, i + 1, acc);
        } else if c == '/' {
            if next == Some('/') {
                lemma_line_end(cs, i + 2);
                lemma_lex_from_ends_with_eof(cs, line_end(cs, i + 2), acc);
            }
        } else if c == '=' {
            lemma_lex_step(cs, i, i + 1, acc, TokenV::Equals);
        } else if c == ':' {
            lemma_lex_step(cs, i, i + 1, acc, TokenV::Colon);
        } else if c == '~' {
            lemma_lex_step(cs, i, i + 1, acc, TokenV::Feedback);
        } else if c == '(' {
            lemma_lex_step(cs, i, i + 1, acc, TokenV::LParen);
        } else if c == ')' {
            lemma_lex_step(cs, i, i + 1, acc, TokenV::RParen);
        } else if c == '<' {
            lemma_lex_step(cs, i, i + 1, acc, TokenV::LAngle);
        } else if c == '>' {
            if next == Some('>') {
                lemma_lex_step(cs, i, i + 2, acc, TokenV::Chain);
            } else {
                lemma_lex_step(cs, i, i + 1, acc, TokenV::RAngle);
            }
        } else if c == ',' {
            lemma_lex_step(cs, i, i + 1, acc, TokenV::Comma);
        } else if c == '-' && next == Some('>') {
            lemma_lex_step(cs, i, i + 2, acc, TokenV::Arrow);
        } else if c == '|' {
            if next == Some('|') {
                lemma_lex_step(cs, i, i + 2, acc, TokenV::Parallel);
            }
        } else if is_ascii_letter(c) || c == '_' {
            lemma_word_end(cs, i + 1);
            let j = word_end(cs, i + 1);
            lemma_lex_step(cs, i, j, acc, word_token(cs.subrange(i, j)));
        } else if is_ascii_digit(c) {
            lemma_digits_end(cs, i + 1);
            let j = digits_end(cs, i + 1);
            let v = decimal(cs.subrange(i, j));
            if v <= usize::MAX {
                lemma_lex_step(cs, i, j, acc, TokenV::Number(v as usize));
            }
        }
    }
}

/// Lexing on from `j` after one more token `t` keeps `acc` too.
proof fn lemma_lex_step(cs: Seq<char>, i: int, j: int, acc: Seq<TokenV>, t: TokenV)
    requires
        0 <= i < j <= cs.len(),
        t != TokenV::Eof,
    ensures
        lex_from(cs, j, acc.push(t)) matches Some(Ok(ts)) ==> {
            &&& ts.len() > acc.len()
            &&& ts.last() == TokenV::Eof
            &&& ts.take(acc.len() as int) == acc
            &&& forall|k: int| acc.len() <= k < ts.len() - 1 ==> #[trigger] ts[k] != TokenV::Eof
        },
    decreases cs.len() - i, 0int,
{
    lemma_lex_from_ends_with_eof(cs, j, acc.push(t));
    if let Some(Ok(ts)) = lex_from(cs, j, acc.push(t)) {
        assert(ts.take(acc.len() as int) =~= ts.take(acc.len() + 1int).take(acc.len() as int));
        assert(acc.push(t).take(acc.len() as int) =~= acc);
        assert(ts[acc.len() as int] == ts.take(acc.len() + 1int)[acc.len() as int]);
    }
}

/// The tokens of a text that lexes end with `Eof`, and hold no other.
pub proof fn lemma_lex_ends_with_eof(cs: Seq<char>)
    ensures
        lex(cs) matches Some(Ok(ts)) ==> {
            &&& ts.len() > 0
            &&& ts.last() == TokenV::Eof
            &&& forall|k: int| 0 <= k < ts.len() - 1 ==> #[trigger] ts[k] != TokenV::Eof
        },
{
    lemma_lex_from_ends_with_eof(cs, 0, Seq::empty());
}

/// The views of a sequence of tokens.
pub open spec fn token_views(ts: Seq<Token>) -> Seq<TokenV> {
    ts.map_values(|t: Token| t@)
}

/// Splits `source` into tokens, ending with `Eof`; `None` where a number
/// does not fit in `usize`.
#[verifier::loop_isolation(false)]
fn tokenize(source: &str) -> (r: Option<Result<Vec<Token>, String>>)
    ensures
        r matches Some(Ok(ts)) ==> ts@.len() > 0 && ts@.last()@ == TokenV::Eof,
        match r {
            Some(Ok(ts)) => lex(source@) == Some(Ok::<Seq<TokenV>, Seq<char>>(token_views(ts@))),
            Some(Err(m)) => lex(source@) == Some(Err::<Seq<TokenV>, Seq<char>>(m@)),
            None => lex(source@) is None,
        },
{
    let cs = chars_of(source);
    let n = cs.len();
    let mut tokens: Vec<Token> = Vec::new();
    let mut i: usize = 0;
    assert(token_views(tokens@) =~= Seq::<TokenV>::empty());
    while i < n
        invariant
            i <= n == cs@.len(),
            cs@ == source@,
            lex_from(cs@, i as int, token_views(tokens@)) == lex(cs@),
        decreases n - i,
    {
        let ghost before = token_views(tokens@);
        let c = cs[i];
        let next: Option<char> = if i + 1 < n { Some(cs[i + 1]) } else { None };
        if c == ' ' || c == '\n' || c == '\r' || c == '\t' {
            i = i + 1;
        } else if c == '/' {
            if next == Some('/') {
                proof {
                    lemma_line_end(cs@, i + 2);
                }
                i = i + 2;
                let ghost from = i as int;
                while i < n && cs[i] != '\n'
                    invariant
                        from <= i <= n,
                        line_end(cs@, i as int) == line_end(cs@, from),
                    decreases n - i,
                {
                    i = i + 1;
                }
            } else {
                return Some(Err(owned("unexpected `/` token")));
            }
        } else if c == '=' {
            tokens.push(Token::Equals);
            assert(token_views(tokens@) =~= before.push(tokens@.last()@));
            i = i + 1;
        } else if c == ':' {
            tokens.push(Token::Colon);
            assert(token_views(tokens@) =~= before.push(tokens@.last()@));
            i = i + 1;
        } else if c == '~' {
            tokens.push(Token::Feedback);
            assert(token_views(tokens@) =~= before.push(tokens@.last()@));
            i = i + 1;
        } else if c == '(' {
            tokens.push(Token::LParen);
            assert(token_views(tokens@) =~= before.push(tokens@.last()@));
            i = i + 1;
        } else if c == ')' {
            tokens.push(Token::RParen);
            assert(token_views(tokens@) =~= before.push(tokens@.last()@));
            i = i + 1;
        } else if c == '<' {
            tokens.push(Token::LAngle);
            assert(token_views(tokens@) =~= before.push(tokens@.last()@));
            i = i + 1;
        } else if c == '>' {
            if next == Some('>') {
                tokens.push(Token::Chain);
                assert(token_views(tokens@) =~= before.push(tokens@.last()@));
                i = i + 2;
            } else {
                tokens.push(Token::RAngle);
                assert(token_views(tokens@) =~= before.push(tokens@.last()@));
                i = i + 1;
            }
        } else if c == ',' {
            tokens.push(Token::Comma);
            assert(token_views(tokens@) =~= before.push(tokens@.last()@));
            i = i + 1;
        } else if c == '-' && next == Some('>') {
            tokens.push(Token::Arrow);
            assert(token_views(tokens@) =~= before.push(tokens@.last()@));
            i = i + 2;
        } else if c == '|' {
            if next == Some('|') {
                tokens.push(Token::Parallel);
                assert(token_views(tokens@) =~= before.push(tokens@.last()@));
                i = i + 2;
            } else {
                return Some(Err(owned("unexpected `|` token")));
            }
        } else if ascii_letter(c) || c == '_' {
            let start = i;
            proof {
                lemma_word_end(cs@, i + 1);
            }
            i = i + 1;
            while i < n && (ascii_letter(cs[i]) || ascii_digit(cs[i]) || cs[i] == '_')
                invariant
                    start < i <= n,
                    word_end(cs@, i as int) == word_end(cs@, start + 1),
                decreases n - i,
            {
                i = i + 1;
            }
            let word = string_of(&cs, start, i);
            if same_text(word.as_str(), "space") {
                tokens.push(Token::SpaceKw);
                assert(token_views(tokens@) =~= before.push(tokens@.last()@));
            } else if same_text(word.as_str(), "flow") {
                tokens.push(Token::FlowKw);
                assert(token_views(tokens@) =~= before.push(tokens@.last()@));
            } else {
                tokens.push(Token::Ident(word));
                assert(token_views(tokens@) =~= before.push(tokens@.last()@));
            }
        } else if ascii_digit(c) {
            let start = i;
            proof {
                lemma_digits_end(cs@, i + 1);
                lemma_decimal_prefix(cs@.subrange(start as int, digits_end(cs@, i + 1)), 1);
                assert(cs@.subrange(start as int, digits_end(cs@, i + 1)).take(1) =~= cs@.subrange(start as int, start + 1));
                assert(cs@.subrange(start as int, start + 1).drop_last() =~= Seq::<char>::empty());
                assert(decimal(Seq::<char>::empty()) == 0);
                assert(cs@.subrange(start as int, start + 1).last() == c);
            }
            let mut value: usize = digit_of(c);
            i = i + 1;
            while i < n && ascii_digit(cs[i])
                invariant
                    start < i <= n,
                    digits_end(cs@, i as int) == digits_end(cs@, start + 1),
                    value == decimal(cs@.subrange(start as int, i as int)),
                decreases n - i,
            {
                proof {
                    lemma_digits_end(cs@, i + 1);
                    let full = cs@.subrange(start as int, digits_end(cs@, start + 1));
                    lemma_decimal_prefix(full, i + 1 - start);
                    assert(full.take(i + 1 - start) =~= cs@.subrange(start as int, i + 1));
                    assert(cs@.subrange(start as int, i + 1).drop_last() =~= cs@.subrange(start as int, i as int));
                }
                let next = match value.checked_mul(10) {
                    Some(v) => v.checked_add(digit_of(cs[i])),
                    None => None,
                };
                match next {
                    Some(v) => {
                        value = v;
                    },
                    None => {
                        return None;
                    },
                }
                i = i + 1;
            }
            tokens.push(Token::Number(value));
            assert(token_views(tokens@) =~= before.push(tokens@.last()@));
        } else {
            let mut m = owned("unexpected character `");
            push_char(&mut m, c);
            m.append("`");
            assert(m@ =~= unexpected_char_message(c));
            return Some(Err(m));
        }
    }
    let ghost before = token_views(tokens@);
    tokens.push(Token::Eof);
    assert(token_views(tokens@) =~= before.push(tokens@.last()@));
    assert(token_views(tokens@) =~= before.push(TokenV::Eof));
    Some(Ok(tokens))
}

/// Whether lexing `source` has an outcome, a token sequence or a lexical
/// error: false exactly when a number read before any lexical error does not
/// fit in `usize`. `parse_program` requires it.
pub fn lexable(source: &str) -> (r: bool)
    ensures
        r == (lex(source@) is Some),
{
    tokenize(source).is_some()
}

/// The token at position `i`; past the end, `Eof`.
pub open spec fn tok_at(ts: Seq<TokenV>, i: int) -> TokenV {
    if 0 <= i < ts.len() {
        ts[i]
    } else {
        TokenV::Eof
    }
}

/// Consuming the token at `i`, which must be `expected`.
pub open spec fn expect_spec(ts: Seq<TokenV>, i: int, expected: TokenV) -> (int, Result<(), Seq<char>>) {
    let t = tok_at(ts, i);
    if t == expected {
        (i + 1, Ok(()))
    } else {
        (i + 1, Err("expected "@ + token_debug(expected) + ", found "@ + token_debug(t)))
    }
}

/// Consuming the identifier at `i`.
pub open spec fn ident_spec(ts: Seq<TokenV>, i: int) -> (int, Result<Seq<char>, Seq<char>>) {
    match tok_at(ts, i) {
        TokenV::Ident(name) => (i + 1, Ok(name)),
        t => (i + 1, Err("expected identifier, found "@ + token_debug(t))),
    }
}

/// The dimensions of a space, from `i` up to the closing `>`, after the
/// dimensions `dims`; a comma after a dimension is skipped.
pub open spec fn dims_spec(ts: Seq<TokenV>, i: int, dims: Seq<usize>) -> (int, Result<Seq<usize>, Seq<char>>)
    decreases ts.len() - i,
{
    match tok_at(ts, i) {
        TokenV::RAngle => (i, Ok(dims)),
        TokenV::Number(v) => {
            let j = if tok_at(ts, i + 1) == TokenV::Comma { i + 2 } else { i + 1 };
            dims_spec(ts, j, dims.push(v))
        },
        t => (i + 1, Err("invalid dimension token "@ + token_debug(t))),
    }
}

/// The space that a space name and its dimensions stand for.
pub open spec fn named_space(name: Seq<char>, dims: Seq<usize>, spaces: Map<Seq<char>, SpaceV>) -> Result<SpaceV, Seq<char>> {
    let dim = if dims.len() > 0 { dims[0] } else { 1 };
    if name == "Tensor"@ || name == "Array"@ {
        Ok(SpaceV::Tensor { element: "f32"@, shape: seq![dim] })
    } else if name == "Quantum"@ || name == "Qubit"@ {
        Ok(SpaceV::Quantum { qubits: dim })
    } else if name == "Organoid"@ || name == "MEA"@ {
        Ok(SpaceV::Organoid { pins: dim })
    } else if name == "Logic"@ || name == "Bits"@ {
        Ok(SpaceV::Logic { bits: dim })
    } else if name == "Scalar"@ {
        Ok(SpaceV::Scalar("f64"@))
    } else if name == "Unit"@ {
        Ok(SpaceV::Unit)
    } else if spaces.contains_key(name) {
        Ok(spaces[name])
    } else {
        Err("unknown type `"@ + name + "`"@)
    }
}

/// The space names of the surface syntax: `Tensor` or `Array` is an `f32`
/// tensor whose one dimension is the first given (1 when none is), `Quantum`
/// or `Qubit` that many qubits, `Organoid` or `MEA` that many pins, `Logic`
/// or `Bits` that many bits; `Scalar` is an `f64` scalar and `Unit` the unit
/// space; any other name must have been declared, and stands for its space.
pub proof fn lemma_named_space_meanings(name: Seq<char>, dims: Seq<usize>, spaces: Map<Seq<char>, SpaceV>)
    ensures
        ({
            let dim = if dims.len() == 0 { 1usize } else { dims[0] };
            &&& (name == "Tensor"@ || name == "Array"@) ==> named_space(name, dims, spaces)
                == Ok::<SpaceV, Seq<char>>(SpaceV::Tensor { element: "f32"@, shape: seq![dim] })
            &&& (name == "Quantum"@ || name == "Qubit"@) ==> named_space(name, dims, spaces)
                == Ok::<SpaceV, Seq<char>>(SpaceV::Quantum { qubits: dim })
            &&& (name == "Organoid"@ || name == "MEA"@) ==> named_space(name, dims, spaces)
                == Ok::<SpaceV, Seq<char>>(SpaceV::Organoid { pins: dim })
            &&& (name == "Logic"@ || name == "Bits"@) ==> named_space(name, dims, spaces)
                == Ok::<SpaceV, Seq<char>>(SpaceV::Logic { bits: dim })
        }),
        name == "Scalar"@ ==> named_space(name, dims, spaces) == Ok::<SpaceV, Seq<char>>(SpaceV::Scalar("f64"@)),
        name == "Unit"@ ==> named_space(name, dims, spaces) == Ok::<SpaceV, Seq<char>>(SpaceV::Unit),
        name != "Tensor"@ && name != "Array"@ && name != "Quantum"@ && name != "Qubit"@ && name != "Organoid"@
            && name != "MEA"@ && name != "Logic"@ && name != "Bits"@ && name != "Scalar"@ && name != "Unit"@
            ==> (named_space(name, dims, spaces) is Ok <==> spaces.contains_key(name)) && (spaces.contains_key(
            name,
        ) ==> named_space(name, dims, spaces) == Ok::<SpaceV, Seq<char>>(spaces[name])),
{
    reveal_strlit("Tensor");
    reveal_strlit("Array");
    reveal_strlit("Quantum");
    reveal_strlit("Qubit");
    reveal_strlit("Organoid");
    reveal_strlit("MEA");
    reveal_strlit("Logic");
    reveal_strlit("Bits");
    reveal_strlit("Scalar");
    reveal_strlit("Unit");
    assert("Tensor"@[0] == 'T' && "Array"@[0] == 'A' && "Quantum"@[0] == 'Q' && "Qubit"@[0] == 'Q');
    assert("Organoid"@[0] == 'O' && "MEA"@[0] == 'M' && "Logic"@[0] == 'L' && "Bits"@[0] == 'B');
    assert("Scalar"@[0] == 'S' && "Unit"@[0] == 'U');
}

/// A space atom at `i`: a space in brackets, or a name, with dimensions in
/// angle brackets if a `<` follows it.
pub open spec fn space_atom_spec(ts: Seq<TokenV>, i: int, spaces: Map<Seq<char>, SpaceV>) -> (int, Result<SpaceV, Seq<char>>)
    decreases ts.len() - i, 0int,
{
    if tok_at(ts, i) == TokenV::LParen {
        let (j, inner) = space_spec(ts, i + 1, spaces);
        match inner {
            Err(e) => (j, Err(e)),
            Ok(sp) => {
                let (k, closed) = expect_spec(ts, j, TokenV::RParen);
                match closed {
                    Err(e) => (k, Err(e)),
                    Ok(_) => (k, Ok(sp)),
                }
            },
        }
    } else {
        named_atom_spec(ts, i, spaces)
    }
}

/// A named space atom at `i`: a name, with dimensions in angle brackets if a
/// `<` follows it.
pub open spec fn named_atom_spec(ts: Seq<TokenV>, i: int, spaces: Map<Seq<char>, SpaceV>) -> (int, Result<SpaceV, Seq<char>>) {
    let (i1, name) = ident_spec(ts, i);
    match name {
        Err(e) => (i1, Err(e)),
        Ok(name) => {
            let (i2, dims) = if tok_at(ts, i1) == TokenV::LAngle {
                let (j, d) = dims_spec(ts, i1 + 1, Seq::empty());
                match d {
                    Err(e) => (j, Err(e)),
                    Ok(d) => {
                        let (k, closed) = expect_spec(ts, j, TokenV::RAngle);
                        match closed {
                            Err(e) => (k, Err(e)),
                            Ok(_) => (k, Ok(d)),
                        }
                    },
                }
            } else {
                (i1, Ok(Seq::empty()))
            };
            match dims {
                Err(e) => (i2, Err(e)),
                Ok(dims) => (i2, named_space(name, dims, spaces)),
            }
        },
    }
}

/// The rest of a product of space atoms, from `i`, after the factors `parts`.
pub open spec fn product_spec(ts: Seq<TokenV>, i: int, parts: Seq<SpaceV>, spaces: Map<Seq<char>, SpaceV>) -> (int, Result<SpaceV, Seq<char>>)
    decreases ts.len() - i, 1int,
{
    if tok_at(ts, i) == TokenV::Parallel {
        let (j, a) = space_atom_spec(ts, i + 1, spaces);
        match a {
            Err(e) => (j, Err(e)),
            Ok(a) => if i < j <= ts.len() {
                product_spec(ts, j, parts.push(a), spaces)
            } else {
                (j, Err(Seq::empty()))
            },
        }
    } else {
        (i, Ok(SpaceV::Product(parts)))
    }
}

/// A space at `i`: an atom, or a product `a || b || ...` of atoms.
pub open spec fn space_spec(ts: Seq<TokenV>, i: int, spaces: Map<Seq<char>, SpaceV>) -> (int, Result<SpaceV, Seq<char>>)
    decreases ts.len() - i, 2int,
{
    let (i1, first) = space_atom_spec(ts, i, spaces);
    match first {
        Err(e) => (i1, Err(e)),
        Ok(f) => if tok_at(ts, i1) == TokenV::Parallel {
            if i < i1 <= ts.len() {
                product_spec(ts, i1, seq![f], spaces)
            } else {
                (i1, Err(Seq::empty()))
            }
        } else {
            (i1, Ok(f))
        },
    }
}

/// A use of the primitive `name`, at the spaces of its signature in
/// `prims`, or at `Unit -> Unit` when `prims` does not know it.
pub open spec fn primitive_use(name: Seq<char>, prims: Map<Seq<char>, SignatureV>) -> FlowV {
    if prims.contains_key(name) {
        FlowV::Primitive { name, domain: prims[name].domain, codomain: prims[name].codomain }
    } else {
        FlowV::Primitive { name, domain: SpaceV::Unit, codomain: SpaceV::Unit }
    }
}

/// A flow atom at `i`: a primitive, `~` and an atom, or a parenthesized flow.
pub open spec fn flow_atom_spec(ts: Seq<TokenV>, i: int, prims: Map<Seq<char>, SignatureV>) -> (int, Result<FlowV, Seq<char>>)
    decreases ts.len() - i, 0int,
{
    match tok_at(ts, i) {
        TokenV::Ident(name) => (i + 1, Ok(primitive_use(name, prims))),
        TokenV::Feedback => {
            let (j, inner) = flow_atom_spec(ts, i + 1, prims);
            match inner {
                Err(e) => (j, Err(e)),
                Ok(f) => (j, Ok(FlowV::Feedback(Box::new(f)))),
            }
        },
        TokenV::LParen => {
            let (j, inner) = flow_spec(ts, i + 1, prims);
            match inner {
                Err(e) => (j, Err(e)),
                Ok(f) => {
                    let (k, closed) = expect_spec(ts, j, TokenV::RParen);
                    match closed {
                        Err(e) => (k, Err(e)),
                        Ok(_) => (k, Ok(f)),
                    }
                },
            }
        },
        t => (i, Err("unexpected token while parsing flow: "@ + token_debug(t))),
    }
}

/// The `||` wirings that follow the flow `left` at `i`.
pub open spec fn parallel_spec(ts: Seq<TokenV>, i: int, left: FlowV, prims: Map<Seq<char>, SignatureV>) -> (int, Result<FlowV, Seq<char>>)
    decreases ts.len() - i, 1int,
{
    if tok_at(ts, i) == TokenV::Parallel {
        let (j, right) = flow_atom_spec(ts, i + 1, prims);
        match right {
            Err(e) => (j, Err(e)),
            Ok(r) => if i < j <= ts.len() {
                parallel_spec(ts, j, FlowV::Parallel(Box::new(left), Box::new(r)), prims)
            } else {
                (j, Err(Seq::empty()))
            },
        }
    } else {
        (i, Ok(left))
    }
}

/// The `>>` compositions, then the `||` wirings, that follow `left` at `i`.
pub open spec fn chain_spec(ts: Seq<TokenV>, i: int, left: FlowV, prims: Map<Seq<char>, SignatureV>) -> (int, Result<FlowV, Seq<char>>)
    decreases ts.len() - i, 2int,
{
    if tok_at(ts, i) == TokenV::Chain {
        let (j, right) = flow_atom_spec(ts, i + 1, prims);
        match right {
            Err(e) => (j, Err(e)),
            Ok(r) => if i < j <= ts.len() {
                chain_spec(ts, j, FlowV::Chain(Box::new(left), Box::new(r)), prims)
            } else {
                (j, Err(Seq::empty()))
            },
        }
    } else {
        parallel_spec(ts, i, left, prims)
    }
}

/// A flow at `i`: an atom followed by compositions, then by wirings.
pub open spec fn flow_spec(ts: Seq<TokenV>, i: int, prims: Map<Seq<char>, SignatureV>) -> (int, Result<FlowV, Seq<char>>)
    decreases ts.len() - i, 3int,
{
    let (j, left) = flow_atom_spec(ts, i, prims);
    match left {
        Err(e) => (j, Err(e)),
        Ok(l) => if i < j <= ts.len() {
            chain_spec(ts, j, l, prims)
        } else {
            (j, Err(Seq::empty()))
        },
    }
}

/// The message for a flow whose body does not have its annotated type.
pub open spec fn annotation_message(name: Seq<char>, d: SpaceV, c: SpaceV, bd: SpaceV, bc: SpaceV) -> Seq<char> {
    "flow `"@ + name + "` annotates "@ + space_debug(d) + " -> "@ + space_debug(c) + ", but body is "@
        + space_debug(bd) + " -> "@ + space_debug(bc)
}

/// The body of the flow declaration `name`, from `i`: either
/// `: domain -> codomain = body`, where the body must check against the
/// built-in signatures (`default_signatures`) and have the annotated spaces,
/// or `= body`. Primitives in the body take their spaces from `prims`.
pub open spec fn flow_decl_spec(ts: Seq<TokenV>, i: int, name: Seq<char>, spaces: Map<Seq<char>, SpaceV>, prims: Map<Seq<char>, SignatureV>) -> (int, Result<FlowV, Seq<char>>) {
    if tok_at(ts, i) == TokenV::Colon {
        let (i1, d) = space_spec(ts, i + 1, spaces);
        match d {
            Err(e) => (i1, Err(e)),
            Ok(d) => {
                let (i2, arrow) = expect_spec(ts, i1, TokenV::Arrow);
                match arrow {
                    Err(e) => (i2, Err(e)),
                    Ok(_) => {
                        let (i3, c) = space_spec(ts, i2, spaces);
                        match c {
                            Err(e) => (i3, Err(e)),
                            Ok(c) => {
                                let (i4, eq) = expect_spec(ts, i3, TokenV::Equals);
                                match eq {
                                    Err(e) => (i4, Err(e)),
                                    Ok(_) => {
                                        let (i5, body) = flow_spec(ts, i4, prims);
                                        match body {
                                            Err(e) => (i5, Err(e)),
                                            Ok(b) => match check_flow(b, default_signatures()) {
                                                Err(e) => (i5, Err(e)),
                                                Ok(_) => if b.domain() != d || b.codomain() != c {
                                                    (i5, Err(annotation_message(name, d, c, b.domain(), b.codomain())))
                                                } else {
                                                    (i5, Ok(b))
                                                },
                                            },
                                        }
                                    },
                                }
                            },
                        }
                    },
                }
            },
        }
    } else {
        let (i1, eq) = expect_spec(ts, i, TokenV::Equals);
        match eq {
            Err(e) => (i1, Err(e)),
            Ok(_) => flow_spec(ts, i1, prims),
        }
    }
}

/// The declarations from `i` to `Eof`, after the spaces and flows declared
/// so far: `space name = space` and `flow name ...` declarations, where a
/// later declaration of a name replaces an earlier one.
pub open spec fn program_spec(
    ts: Seq<TokenV>,
    i: int,
    spaces: Map<Seq<char>, SpaceV>,
    flows: Map<Seq<char>, FlowV>,
    prims: Map<Seq<char>, SignatureV>,
) -> Result<(Map<Seq<char>, SpaceV>, Map<Seq<char>, FlowV>), Seq<char>>
    decreases ts.len() - i,
{
    match tok_at(ts, i) {
        TokenV::Eof => Ok((spaces, flows)),
        TokenV::SpaceKw => {
            let (i1, name) = ident_spec(ts, i + 1);
            match name {
                Err(e) => Err(e),
                Ok(name) => {
                    let (i2, eq) = expect_spec(ts, i1, TokenV::Equals);
                    match eq {
                        Err(e) => Err(e),
                        Ok(_) => {
                            let (i3, d) = space_spec(ts, i2, spaces);
                            match d {
                                Err(e) => Err(e),
                                Ok(d) => if i < i3 <= ts.len() {
                                    program_spec(ts, i3, spaces.insert(name, d), flows, prims)
                                } else {
                                    Err(Seq::empty())
                                },
                            }
                        },
                    }
                },
            }
        },
        TokenV::FlowKw => {
            let (i1, name) = ident_spec(ts, i + 1);
            match name {
                Err(e) => Err(e),
                Ok(name) => {
                    let (i2, f) = flow_decl_spec(ts, i1, name, spaces, prims);
                    match f {
                        Err(e) => Err(e),
                        Ok(f) => if i < i2 <= ts.len() {
                            program_spec(ts, i2, spaces, flows.insert(name, f), prims)
                        } else {
                            Err(Seq::empty())
                        },
                    }
                },
            }
        },
        t => Err("unexpected top-level token "@ + token_debug(t)),
    }
}

/// Neither of the keywords that start a declaration.
pub open spec fn inner_token(t: TokenV) -> bool {
    t != TokenV::SpaceKw && t != TokenV::FlowKw
}

/// No declaration keyword among the tokens at positions `i <= k < j`.
pub open spec fn no_keyword(ts: Seq<TokenV>, i: int, j: int) -> bool {
    forall|k: int| i <= k < j ==> inner_token(#[trigger] tok_at(ts, k))
}

/// Whether some token at or after `i` is the keyword `kw` followed by the
/// identifier `name`.
pub open spec fn declares_from(ts: Seq<TokenV>, i: int, kw: TokenV, name: Seq<char>) -> bool {
    exists|j: int| #![trigger tok_at(ts, j)]
        i <= j && tok_at(ts, j) == kw && tok_at(ts, j + 1) == TokenV::Ident(name)
}

/// Whether the tokens declare `name` with the keyword `kw`.
pub open spec fn declares(ts: Seq<TokenV>, kw: TokenV, name: Seq<char>) -> bool {
    declares_from(ts, 0, kw, name)
}

proof fn lemma_dims_inner(ts: Seq<TokenV>, i: int, dims: Seq<usize>)
    ensures
        dims_spec(ts, i, dims) matches (j, Ok(_)) ==> i <= j && no_keyword(ts, i, j),
    decreases ts.len() - i,
{
    if let TokenV::Number(v) = tok_at(ts, i) {
        let j = if tok_at(ts, i + 1) == TokenV::Comma { i + 2 } else { i + 1 };
        lemma_dims_inner(ts, j, dims.push(v));
    }
}

proof fn lemma_named_atom_inner(ts: Seq<TokenV>, i: int, spaces: Map<Seq<char>, SpaceV>)
    ensures
        named_atom_spec(ts, i, spaces) matches (j, Ok(_)) ==> i < j && no_keyword(ts, i, j),
{
    lemma_dims_inner(ts, i + 2, Seq::empty());
}

proof fn lemma_space_atom_inner(ts: Seq<TokenV>, i: int, spaces: Map<Seq<char>, SpaceV>)
    ensures
        space_atom_spec(ts, i, spaces) matches (j, Ok(_)) ==> i < j && no_keyword(ts, i, j),
    decreases ts.len() - i, 0int,
{
    if tok_at(ts, i) == TokenV::LParen {
        lemma_space_inner(ts, i + 1, spaces);
    } else {
        lemma_named_atom_inner(ts, i, spaces);
    }
}

proof fn lemma_product_inner(ts: Seq<TokenV>, i: int, parts: Seq<SpaceV>, spaces: Map<Seq<char>, SpaceV>)
    ensures
        product_spec(ts, i, parts, spaces) matches (j, Ok(_)) ==> i <= j && no_keyword(ts, i, j),
    decreases ts.len() - i, 1int,
{
    if tok_at(ts, i) == TokenV::Parallel {
        lemma_space_atom_inner(ts, i + 1, spaces);
        let (j, a) = space_atom_spec(ts, i + 1, spaces);
        if a is Ok && i < j <= ts.len() {
            lemma_product_inner(ts, j, parts.push(a->Ok_0), spaces);
        }
    }
}

proof fn lemma_space_inner(ts: Seq<TokenV>, i: int, spaces: Map<Seq<char>, SpaceV>)
    ensures
        space_spec(ts, i, spaces) matches (j, Ok(_)) ==> i < j && no_keyword(ts, i, j),
    decreases ts.len() - i, 2int,
{
    lemma_space_atom_inner(ts, i, spaces);
    let (i1, first) = space_atom_spec(ts, i, spaces);
    if first is Ok && tok_at(ts, i1) == TokenV::Parallel && i < i1 <= ts.len() {
        lemma_product_inner(ts, i1, seq![first->Ok_0], spaces);
    }
}

proof fn lemma_flow_atom_inner(ts: Seq<TokenV>, i: int, prims: Map<Seq<char>, SignatureV>)
    ensures
        flow_atom_spec(ts, i, prims) matches (j, Ok(_)) ==> i < j && no_keyword(ts, i, j),
    decreases ts.len() - i, 0int,
{
    match tok_at(ts, i) {
        TokenV::Feedback => {
            lemma_flow_atom_inner(ts, i + 1, prims);
        },
        TokenV::LParen => {
            lemma_flow_inner(ts, i + 1, prims);
        },
        _ => {},
    }
}

proof fn lemma_parallel_inner(ts: Seq<TokenV>, i: int, left: FlowV, prims: Map<Seq<char>, SignatureV>)
    ensures
        parallel_spec(ts, i, left, prims) matches (j, Ok(_)) ==> i <= j && no_keyword(ts, i, j),
    decreases ts.len() - i, 1int,
{
    if tok_at(ts, i) == TokenV::Parallel {
        lemma_flow_atom_inner(ts, i + 1, prims);
        let (j, right) = flow_atom_spec(ts, i + 1, prims);
        if right is Ok && i < j <= ts.len() {
            lemma_parallel_inner(ts, j, FlowV::Parallel(Box::new(left), Box::new(right->Ok_0)), prims);
        }
    }
}

proof fn lemma_chain_inner(ts: Seq<TokenV>, i: int, left: FlowV, prims: Map<Seq<char>, SignatureV>)
    ensures
        chain_spec(ts, i, left, prims) matches (j, Ok(_)) ==> i <= j && no_keyword(ts, i, j),
    decreases ts.len() - i, 2int,
{
    if tok_at(ts, i) == TokenV::Chain {
        lemma_flow_atom_inner(ts, i + 1, prims);
        let (j, right) = flow_atom_spec(ts, i + 1, prims);
        if right is Ok && i < j <= ts.len() {
            lemma_chain_inner(ts, j, FlowV::Chain(Box::new(left), Box::new(right->Ok_0)), prims);
        }
    } else {
        lemma_parallel_inner(ts, i, left, prims);
    }
}

proof fn lemma_flow_inner(ts: Seq<TokenV>, i: int, prims: Map<Seq<char>, SignatureV>)
    ensures
        flow_spec(ts, i, prims) matches (j, Ok(_)) ==> i < j && no_keyword(ts, i, j),
    decreases ts.len() - i, 3int,
{
    lemma_flow_atom_inner(ts, i, prims);
    let (j, left) = flow_atom_spec(ts, i, prims);
    if left is Ok && i < j <= ts.len() {
        lemma_chain_inner(ts, j, left->Ok_0, prims);
    }
}

proof fn lemma_flow_decl_inner(
    ts: Seq<TokenV>,
    i: int,
    name: Seq<char>,
    spaces: Map<Seq<char>, SpaceV>,
    prims: Map<Seq<char>, SignatureV>,
)
    ensures
        flow_decl_spec(ts, i, name, spaces, prims) matches (j, Ok(_)) ==> i < j && no_keyword(ts, i, j),
{
    if tok_at(ts, i) == TokenV::Colon {
        lemma_space_inner(ts, i + 1, spaces);
        let (i1, d) = space_spec(ts, i + 1, spaces);
        lemma_space_inner(ts, i1 + 1, spaces);
        let (i3, c) = space_spec(ts, i1 + 1, spaces);
        lemma_flow_inner(ts, i3 + 1, prims);
    } else {
        lemma_flow_inner(ts, i + 1, prims);
    }
}

/// From position `i` on, a program that parses adds to its tables exactly
/// the names that follow the `space` and `flow` keywords.
proof fn lemma_program_names(
    ts: Seq<TokenV>,
    i: int,
    spaces: Map<Seq<char>, SpaceV>,
    flows: Map<Seq<char>, FlowV>,
    prims: Map<Seq<char>, SignatureV>,
)
    requires
        0 <= i,
        forall|k: int| 0 <= k < ts.len() - 1 ==> #[trigger] ts[k] != TokenV::Eof,
    ensures
        program_spec(ts, i, spaces, flows, prims) matches Ok((sp, fl)) ==> {
            &&& forall|n: Seq<char>| #[trigger] sp.contains_key(n)
                <==> spaces.contains_key(n) || declares_from(ts, i, TokenV::SpaceKw, n)
            &&& forall|n: Seq<char>| #[trigger] fl.contains_key(n)
                <==> flows.contains_key(n) || declares_from(ts, i, TokenV::FlowKw, n)
        },
    decreases ts.len() - i,
{
    match tok_at(ts, i) {
        TokenV::Eof => {
            assert forall|n: Seq<char>, kw: TokenV| inner_token(TokenV::Eof) && kw != TokenV::Eof
                && #[trigger] declares_from(ts, i, kw, n) implies false by {
                let j = choose|j: int| #![trigger tok_at(ts, j)]
                    i <= j && tok_at(ts, j) == kw && tok_at(ts, j + 1) == TokenV::Ident(n);
                if j < ts.len() - 1 {
                    assert(ts[j] != TokenV::Eof);
                    assert(i < ts.len() - 1 ==> ts[i] != TokenV::Eof);
                }
            }
        },
        TokenV::SpaceKw => {
            let (i1, name) = ident_spec(ts, i + 1);
            if let Ok(name) = name {
                let (i2, eq) = expect_spec(ts, i1, TokenV::Equals);
                if eq is Ok {
                    lemma_space_inner(ts, i2, spaces);
                    let (i3, d) = space_spec(ts, i2, spaces);
                    if d is Ok && i < i3 <= ts.len() {
                        lemma_program_names(ts, i3, spaces.insert(name, d->Ok_0), flows, prims);
                        lemma_declares_step(ts, i, i3, TokenV::SpaceKw);
                    }
                }
            }
        },
        TokenV::FlowKw => {
            let (i1, name) = ident_spec(ts, i + 1);
            if let Ok(name) = name {
                lemma_flow_decl_inner(ts, i1, name, spaces, prims);
                let (i2, f) = flow_decl_spec(ts, i1, name, spaces, prims);
                if f is Ok && i < i2 <= ts.len() {
                    lemma_program_names(ts, i2, spaces, flows.insert(name, f->Ok_0), prims);
                    lemma_declares_step(ts, i, i2, TokenV::FlowKw);
                }
            }
        },
        _ => {},
    }
}

/// A declaration at `i` whose keyword `kw` and name are followed, up to `e`,
/// by no keyword: from `i` on, the names declared are its own and those
/// declared from `e` on.
proof fn lemma_declares_step(ts: Seq<TokenV>, i: int, e: int, kw: TokenV)
    requires
        tok_at(ts, i) == kw,
        !inner_token(kw),
        tok_at(ts, i + 1) is Ident,
        i + 2 <= e,
        no_keyword(ts, i + 2, e),
    ensures
        forall|n: Seq<char>, k: TokenV| !inner_token(k) ==> (#[trigger] declares_from(ts, i, k, n)
            <==> (k == kw && tok_at(ts, i + 1) == TokenV::Ident(n)) || declares_from(ts, e, k, n)),
{
    assert forall|n: Seq<char>, k: TokenV| !inner_token(k) implies (#[trigger] declares_from(ts, i, k, n)
        <==> (k == kw && tok_at(ts, i + 1) == TokenV::Ident(n)) || declares_from(ts, e, k, n)) by {
        if declares_from(ts, i, k, n) {
            let j = choose|j: int| #![trigger tok_at(ts, j)]
                i <= j && tok_at(ts, j) == k && tok_at(ts, j + 1) == TokenV::Ident(n);
            if j < e {
                assert(j == i || j == i + 1 || (i + 2 <= j < e)) by {}
                if i + 2 <= j {
                    assert(inner_token(tok_at(ts, j)));
                }
            }
        }
        if k == kw && tok_at(ts, i + 1) == TokenV::Ident(n) {
            assert(tok_at(ts, i) == k);
        }
    }
}

/// The spaces that an annotation at `i` (the position of its `:`) writes:
/// the space before `->`, read from `i + 1`, and the space after it.
pub open spec fn annotated_spaces(ts: Seq<TokenV>, i: int, spaces: Map<Seq<char>, SpaceV>) -> (Result<SpaceV, Seq<char>>, Result<SpaceV, Seq<char>>) {
    let (i1, d) = space_spec(ts, i + 1, spaces);
    (d, space_spec(ts, i1 + 1, spaces).1)
}

/// An annotated flow declaration that parses has exactly its annotated
/// type: the body's domain is the space written before `->`, its codomain
/// the space written after it, and the body checks against the built-in
/// signatures.
pub proof fn lemma_annotated_flow_has_its_type(
    ts: Seq<TokenV>,
    i: int,
    name: Seq<char>,
    spaces: Map<Seq<char>, SpaceV>,
    prims: Map<Seq<char>, SignatureV>,
)
    ensures
        tok_at(ts, i) == TokenV::Colon ==> match flow_decl_spec(ts, i, name, spaces, prims).1 {
            Ok(b) => {
                &&& annotated_spaces(ts, i, spaces).0 == Ok::<SpaceV, Seq<char>>(b.domain())
                &&& annotated_spaces(ts, i, spaces).1 == Ok::<SpaceV, Seq<char>>(b.codomain())
                &&& check_flow(b, default_signatures()) is Ok
            },
            Err(_) => true,
        },
{
}

/// The flow `f` is what a declaration `flow name ...` at `j` gives, with
/// the spaces `spaces` declared before it.
pub open spec fn declared_flow_at(
    ts: Seq<TokenV>,
    j: int,
    name: Seq<char>,
    spaces: Map<Seq<char>, SpaceV>,
    prims: Map<Seq<char>, SignatureV>,
    f: FlowV,
) -> bool {
    &&& tok_at(ts, j) == TokenV::FlowKw
    &&& tok_at(ts, j + 1) == TokenV::Ident(name)
    &&& flow_decl_spec(ts, j + 2, name, spaces, prims).1 == Ok::<FlowV, Seq<char>>(f)
}

/// From position `i` on, every flow in the table of a program that parses
/// is either one it started with or the flow of a declaration at or after
/// `i`.
proof fn lemma_program_flows(
    ts: Seq<TokenV>,
    i: int,
    spaces: Map<Seq<char>, SpaceV>,
    flows: Map<Seq<char>, FlowV>,
    prims: Map<Seq<char>, SignatureV>,
)
    ensures
        program_spec(ts, i, spaces, flows, prims) matches Ok((sp, fl)) ==> forall|n: Seq<char>|
            #[trigger] fl.contains_key(n) ==> (flows.contains_key(n) && fl[n] == flows[n])
                || exists|j: int, sp2: Map<Seq<char>, SpaceV>|
                i <= j && #[trigger] declared_flow_at(ts, j, n, sp2, prims, fl[n]),
    decreases ts.len() - i,
{
    match tok_at(ts, i) {
        TokenV::SpaceKw => {
            let (i1, name) = ident_spec(ts, i + 1);
            if let Ok(name) = name {
                let (i2, eq) = expect_spec(ts, i1, TokenV::Equals);
                if eq is Ok {
                    let (i3, d) = space_spec(ts, i2, spaces);
                    if d is Ok && i < i3 <= ts.len() {
                        lemma_program_flows(ts, i3, spaces.insert(name, d->Ok_0), flows, prims);
                    }
                }
            }
        },
        TokenV::FlowKw => {
            let (i1, name) = ident_spec(ts, i + 1);
            if let Ok(name) = name {
                let (i2, f) = flow_decl_spec(ts, i1, name, spaces, prims);
                if f is Ok && i < i2 <= ts.len() {
                    lemma_program_flows(ts, i2, spaces, flows.insert(name, f->Ok_0), prims);
                    if let Ok((sp, fl)) = program_spec(ts, i, spaces, flows, prims) {
                        assert forall|n: Seq<char>| #[trigger] fl.contains_key(n) implies (flows.contains_key(n)
                            && fl[n] == flows[n]) || exists|j: int, sp2: Map<Seq<char>, SpaceV>|
                            i <= j && #[trigger] declared_flow_at(ts, j, n, sp2, prims, fl[n]) by {
                            if n == name && fl[n] == f->Ok_0 {
                                assert(declared_flow_at(ts, i, n, spaces, prims, fl[n]));
                            }
                        }
                    }
                }
            }
        },
        _ => {},
    }
}

/// Every flow of a parsed program is the flow of one of its declarations,
/// and an annotated one has its annotated type: for each name in the flow
/// table there is a `flow name ...` declaration that gives that flow, and
/// where the declaration has an annotation `: d -> c`, the flow's domain is
/// `d` and its codomain `c`.
pub proof fn lemma_program_flows_keep_annotations(source: Seq<char>, prims: Map<Seq<char>, SignatureV>)
    ensures
        lex(source) matches Some(Ok(ts)) ==> (program_spec(ts, 0, Map::empty(), Map::empty(), prims)
            matches Ok((spaces, flows)) ==> forall|n: Seq<char>| #[trigger] flows.contains_key(n)
            ==> exists|j: int, sp2: Map<Seq<char>, SpaceV>| {
            &&& 0 <= j
            &&& #[trigger] declared_flow_at(ts, j, n, sp2, prims, flows[n])
            &&& tok_at(ts, j + 2) == TokenV::Colon ==> {
                &&& annotated_spaces(ts, j + 2, sp2).0 == Ok::<SpaceV, Seq<char>>(flows[n].domain())
                &&& annotated_spaces(ts, j + 2, sp2).1 == Ok::<SpaceV, Seq<char>>(flows[n].codomain())
            }
        }),
{
    if let Some(Ok(ts)) = lex(source) {
        lemma_program_flows(ts, 0, Map::empty(), Map::empty(), prims);
        if let Ok((spaces, flows)) = program_spec(ts, 0, Map::empty(), Map::empty(), prims) {
            assert forall|n: Seq<char>| #[trigger] flows.contains_key(n) implies exists|
                j: int,
                sp2: Map<Seq<char>, SpaceV>,
            | {
                &&& 0 <= j
                &&& #[trigger] declared_flow_at(ts, j, n, sp2, prims, flows[n])
                &&& tok_at(ts, j + 2) == TokenV::Colon ==> {
                    &&& annotated_spaces(ts, j + 2, sp2).0 == Ok::<SpaceV, Seq<char>>(flows[n].domain())
                    &&& annotated_spaces(ts, j + 2, sp2).1 == Ok::<SpaceV, Seq<char>>(flows[n].codomain())
                }
            } by {
                let (j, sp2) = choose|j: int, sp2: Map<Seq<char>, SpaceV>|
                    0 <= j && #[trigger] declared_flow_at(ts, j, n, sp2, prims, flows[n]);
                lemma_annotated_flow_has_its_type(ts, j + 2, n, sp2, prims);
            }
        }
    }
}

/// A program declares each of its spaces and flows by name: when `source`
/// lexes and its tokens parse, the names in the space table are exactly those
/// that follow a `space` keyword in the tokens, and the names in the flow
/// table exactly those that follow a `flow` keyword.
pub proof fn lemma_declared_names(source: Seq<char>, prims: Map<Seq<char>, SignatureV>)
    ensures
        lex(source) matches Some(Ok(ts)) ==> (program_spec(ts, 0, Map::empty(), Map::empty(), prims)
            matches Ok((spaces, flows)) ==> {
            &&& forall|n: Seq<char>| #[trigger] spaces.contains_key(n)
                <==> declares(ts, TokenV::SpaceKw, n)
            &&& forall|n: Seq<char>| #[trigger] flows.contains_key(n)
                <==> declares(ts, TokenV::FlowKw, n)
        }),
{
    lemma_lex_ends_with_eof(source);
    if let Some(Ok(ts)) = lex(source) {
        lemma_program_names(ts, 0, Map::empty(), Map::empty(), prims);
    }
}

/// The view of an outcome that carries a value.
pub open spec fn result_view<T: View>(r: Result<T, String>) -> Result<T::V, Seq<char>> {
    match r {
        Ok(v) => Ok(v@),
        Err(m) => Err(m@),
    }
}

/// A recursive-descent parser over the tokens of one source text.
#[derive(Debug, Clone)]
pub struct Parser {
    tokens: Vec<Token>,
    index: usize,
    spaces: NameMap<Space>,
}

impl Parser {
    /// The tokens, as values.
    spec fn ts(&self) -> Seq<TokenV> {
        token_views(self.tokens@)
    }

    /// The tokens end with `Eof`, and the position is on a token.
    spec fn wf(&self) -> bool {
        &&& self.tokens@.len() > 0
        &&& self.ts().last() == TokenV::Eof
        &&& self.index < self.tokens@.len()
    }

    /// Same tokens and same declared spaces as `other`.
    spec fn keeps(&self, other: &Parser) -> bool {
        &&& self.tokens@ == other.tokens@
        &&& self.spaces@ == other.spaces@
    }

    fn new(source: &str) -> (r: Result<Self, String>)
        requires
            lex(source@) is Some,
        ensures
            match r {
                Ok(p) => {
                    &&& lex(source@) == Some(Ok::<Seq<TokenV>, Seq<char>>(p.ts()))
                    &&& p.wf()
                    &&& p.index == 0
                    &&& p.spaces@ == Map::<Seq<char>, SpaceV>::empty()
                },
                Err(m) => lex(source@) == Some(Err::<Seq<TokenV>, Seq<char>>(m@)),
            },
    {
        let tokens = match tokenize(source) {
            Some(Ok(tokens)) => tokens,
            Some(Err(m)) => {
                return Err(m);
            },
            None => {
                return Err(String::new());
            },
        };
        let p = Parser { tokens, index: 0, spaces: NameMap::new() };
        assert(p.ts().last() == p.tokens@.last()@);
        Ok(p)
    }

    fn peek(&self) -> (r: &Token)
        requires
            self.wf(),
        ensures
            r@ == tok_at(self.ts(), self.index as int),
    {
        &self.tokens[self.index]
    }

    fn advance(&mut self) -> (r: Token)
        requires
            old(self).wf(),
        ensures
            final(self).keeps(old(self)),
            final(self).index == old(self).index + 1,
            r@ == tok_at(old(self).ts(), old(self).index as int),
            r@ != TokenV::Eof ==> final(self).wf(),
    {
        let token = self.tokens[self.index].clone();
        assert(self.index < self.tokens.len());
        self.index = self.index + 1;
        proof {
            if self.index as int == self.tokens@.len() {
                assert(self.ts()[self.index - 1] == self.ts().last());
            }
        }
        token
    }

    fn expect(&mut self, expected: Token) -> (r: Result<(), String>)
        requires
            old(self).wf(),
            expected@ != TokenV::Eof,
        ensures
            final(self).keeps(old(self)),
            (final(self).index as int, outcome_view(r)) == expect_spec(old(self).ts(), old(self).index as int, expected@),
            r is Ok ==> final(self).wf(),
    {
        let actual = self.advance();
        if actual == expected {
            Ok(())
        } else {
            let mut m = owned("expected ");
            m.append(debug_token(&expected).as_str());
            m.append(", found ");
            m.append(debug_token(&actual).as_str());
            assert(m@ =~= "expected "@ + token_debug(expected@) + ", found "@ + token_debug(actual@));
            Err(m)
        }
    }

    fn parse_ident(&mut self) -> (r: Result<String, String>)
        requires
            old(self).wf(),
        ensures
            final(self).keeps(old(self)),
            (final(self).index as int, result_view(r)) == ident_spec(old(self).ts(), old(self).index as int),
            r is Ok ==> final(self).wf(),
    {
        match self.advance() {
            Token::Ident(name) => Ok(name),
            token => {
                let mut m = owned("expected identifier, found ");
                m.append(debug_token(&token).as_str());
                assert(m@ =~= "expected identifier, found "@ + token_debug(token@));
                Err(m)
            },
        }
    }

    fn parse_space_atom(&mut self) -> (r: Result<Space, String>)
        requires
            old(self).wf(),
        ensures
            final(self).keeps(old(self)),
            (final(self).index as int, result_view(r)) == space_atom_spec(
                old(self).ts(),
                old(self).index as int,
                old(self).spaces@,
            ),
            r is Ok ==> final(self).wf() && final(self).index > old(self).index,
        decreases old(self).tokens@.len() - old(self).index, 0int,
    {
        if matches!(self.peek(), Token::LParen) {
            self.advance();
            let space = self.parse_space()?;
            self.expect(Token::RParen)?;
            Ok(space)
        } else {
            self.parse_named_atom()
        }
    }

    #[verifier::loop_isolation(false)]
    fn parse_named_atom(&mut self) -> (r: Result<Space, String>)
        requires
            old(self).wf(),
        ensures
            final(self).keeps(old(self)),
            (final(self).index as int, result_view(r)) == named_atom_spec(
                old(self).ts(),
                old(self).index as int,
                old(self).spaces@,
            ),
            r is Ok ==> final(self).wf() && final(self).index > old(self).index,
    {
        let ghost ts = self.ts();
        let name = self.parse_ident()?;
        let ghost i1 = self.index as int;
        let mut dims: Vec<usize> = Vec::new();
        if matches!(self.peek(), Token::LAngle) {
            self.advance();
            while !matches!(self.peek(), Token::RAngle)
                invariant
                    self.wf(),
                    self.keeps(old(self)),
                    self.index > i1,
                    ts == self.ts(),
                    dims_spec(ts, i1 + 1, Seq::empty()) == dims_spec(ts, self.index as int, dims@),
                decreases self.tokens@.len() - self.index,
            {
                let ghost idx = self.index as int;
                let ghost d0 = dims@;
                match self.advance() {
                    Token::Number(value) => dims.push(value),
                    token => {
                        let mut m = owned("invalid dimension token ");
                        m.append(debug_token(&token).as_str());
                        assert(m@ =~= "invalid dimension token "@ + token_debug(token@));
                        assert(dims_spec(ts, idx, d0) == (idx + 1, Err::<Seq<usize>, Seq<char>>(m@)));
                        return Err(m);
                    },
                }
                if matches!(self.peek(), Token::Comma) {
                    self.advance();
                }
                assert(dims_spec(ts, idx, d0) == dims_spec(ts, self.index as int, dims@));
            }
            self.expect(Token::RAngle)?;
        }
        let dim: usize = if dims.len() > 0 { dims[0] } else { 1 };
        let n = name.as_str();
        if same_text(n, "Tensor") || same_text(n, "Array") {
            let mut shape: Vec<usize> = Vec::new();
            shape.push(dim);
            Ok(Space::Tensor { element: owned("f32"), shape })
        } else if same_text(n, "Quantum") || same_text(n, "Qubit") {
            Ok(Space::Quantum { qubits: dim })
        } else if same_text(n, "Organoid") || same_text(n, "MEA") {
            Ok(Space::Organoid { pins: dim })
        } else if same_text(n, "Logic") || same_text(n, "Bits") {
            Ok(Space::Logic { bits: dim })
        } else if same_text(n, "Scalar") {
            Ok(Space::Scalar(owned("f64")))
        } else if same_text(n, "Unit") {
            Ok(Space::Unit)
        } else {
            match self.spaces.get(n) {
                Some(space) => Ok(space.clone()),
                None => {
                    let mut m = owned("unknown type `");
                    m.append(n);
                    m.append("`");
                    assert(m@ =~= "unknown type `"@ + name@ + "`"@);
                    Err(m)
                },
            }
        }
    }

    #[verifier::loop_isolation(false)]
    fn parse_space(&mut self) -> (r: Result<Space, String>)
        requires
            old(self).wf(),
        ensures
            final(self).keeps(old(self)),
            (final(self).index as int, result_view(r)) == space_spec(
                old(self).ts(),
                old(self).index as int,
                old(self).spaces@,
            ),
            r is Ok ==> final(self).wf() && final(self).index > old(self).index,
        decreases old(self).tokens@.len() - old(self).index, 2int,
    {
        broadcast use crate::language::lemma_views_of;

        let ghost ts = self.ts();
        let first = self.parse_space_atom()?;
        if matches!(self.peek(), Token::Parallel) {
            let ghost i1 = self.index as int;
            let ghost f = first@;
            let mut parts: Vec<Space> = Vec::new();
            parts.push(first);
            assert(views_of(parts@) =~= seq![f]);
            while matches!(self.peek(), Token::Parallel)
                invariant
                    self.wf(),
                    self.keeps(old(self)),
                    self.index >= i1,
                    ts == self.ts(),
                    product_spec(ts, i1, seq![f], self.spaces@) == product_spec(
                        ts,
                        self.index as int,
                        views_of(parts@),
                        self.spaces@,
                    ),
                decreases self.tokens@.len() - self.index,
            {
                let ghost idx = self.index as int;
                let ghost p0 = views_of(parts@);
                self.advance();
                let atom = self.parse_space_atom()?;
                let ghost a = atom@;
                parts.push(atom);
                assert(views_of(parts@) =~= p0.push(a));
            }
            let r = Space::Product(parts);
            Ok(r)
        } else {
            Ok(first)
        }
    }

    fn parse_flow_atom(&mut self, prims: &NameMap<Signature>) -> (r: Result<Flow, String>)
        requires
            old(self).wf(),
        ensures
            final(self).keeps(old(self)),
            (final(self).index as int, result_view(r)) == flow_atom_spec(
                old(self).ts(),
                old(self).index as int,
                prims@,
            ),
            r is Ok ==> final(self).wf() && final(self).index > old(self).index,
        decreases old(self).tokens@.len() - old(self).index, 0int,
    {
        let token = self.peek().clone();
        match token {
            Token::Ident(name) => {
                self.advance();
                match prims.get(name.as_str()) {
                    Some(signature) => Ok(
                        Flow::Primitive {
                            name,
                            domain: signature.domain.clone(),
                            codomain: signature.codomain.clone(),
                        },
                    ),
                    None => Ok(Flow::Primitive { name, domain: Space::Unit, codomain: Space::Unit }),
                }
            },
            Token::Feedback => {
                self.advance();
                let inner = self.parse_flow_atom(prims)?;
                Ok(Flow::Feedback(Box::new(inner)))
            },
            Token::LParen => {
                self.advance();
                let flow = self.parse_flow(prims)?;
                self.expect(Token::RParen)?;
                Ok(flow)
            },
            token => {
                let mut m = owned("unexpected token while parsing flow: ");
                m.append(debug_token(&token).as_str());
                assert(m@ =~= "unexpected token while parsing flow: "@ + token_debug(token@));
                Err(m)
            },
        }
    }

    #[verifier::loop_isolation(false)]
    fn parse_flow(&mut self, prims: &NameMap<Signature>) -> (r: Result<Flow, String>)
        requires
            old(self).wf(),
        ensures
            final(self).keeps(old(self)),
            (final(self).index as int, result_view(r)) == flow_spec(
                old(self).ts(),
                old(self).index as int,
                prims@,
            ),
            r is Ok ==> final(self).wf() && final(self).index > old(self).index,
        decreases old(self).tokens@.len() - old(self).index, 3int,
    {
        let ghost ts = self.ts();
        let ghost i0 = self.index as int;
        let mut left = self.parse_flow_atom(prims)?;
        while matches!(self.peek(), Token::Chain)
            invariant
                self.wf(),
                self.keeps(old(self)),
                self.index > i0,
                ts == self.ts(),
                flow_spec(ts, i0, prims@) == chain_spec(ts, self.index as int, left@, prims@),
            decreases self.tokens@.len() - self.index,
        {
            self.advance();
            let right = self.parse_flow_atom(prims)?;
            left = Flow::Chain(Box::new(left), Box::new(right));
        }
        while matches!(self.peek(), Token::Parallel)
            invariant
                self.wf(),
                self.keeps(old(self)),
                self.index > i0,
                ts == self.ts(),
                flow_spec(ts, i0, prims@) == parallel_spec(ts, self.index as int, left@, prims@),
            decreases self.tokens@.len() - self.index,
        {
            self.advance();
            let right = self.parse_flow_atom(prims)?;
            left = Flow::Parallel(Box::new(left), Box::new(right));
        }
        Ok(left)
    }

    #[verifier::loop_isolation(false)]
    fn parse_program(&mut self, prims: &NameMap<Signature>) -> (r: Result<Program, String>)
        requires
            old(self).wf(),
            old(self).spaces@ == Map::<Seq<char>, SpaceV>::empty(),
        ensures
            match r {
                Ok(p) => program_spec(
                    old(self).ts(),
                    old(self).index as int,
                    Map::empty(),
                    Map::empty(),
                    prims@,
                ) == Ok::<(Map<Seq<char>, SpaceV>, Map<Seq<char>, FlowV>), Seq<char>>((p.spaces@, p.flows@)),
                Err(m) => program_spec(
                    old(self).ts(),
                    old(self).index as int,
                    Map::empty(),
                    Map::empty(),
                    prims@,
                ) == Err::<(Map<Seq<char>, SpaceV>, Map<Seq<char>, FlowV>), Seq<char>>(m@),
            },
    {
        let ghost ts = self.ts();
        let ghost i0 = self.index as int;
        let mut spaces: NameMap<Space> = NameMap::new();
        let mut flows: NameMap<Flow> = NameMap::new();
        while !matches!(self.peek(), Token::Eof)
            invariant
                self.wf(),
                self.tokens@ == old(self).tokens@,
                ts == self.ts(),
                self.spaces@ == spaces@,
                program_spec(ts, i0, Map::empty(), Map::empty(), prims@) == program_spec(
                    ts,
                    self.index as int,
                    spaces@,
                    flows@,
                    prims@,
                ),
            decreases self.tokens@.len() - self.index,
        {
            let ghost idx = self.index as int;
            let token = self.peek().clone();
            match token {
                Token::SpaceKw => {
                    self.advance();
                    let name = self.parse_ident()?;
                    self.expect(Token::Equals)?;
                    let dimension = self.parse_space()?;
                    let copy = dimension.clone();
                    spaces.insert(name.clone(), dimension);
                    self.spaces.insert(name, copy);
                },
                Token::FlowKw => {
                    self.advance();
                    let name = self.parse_ident()?;
                    let flow = if matches!(self.peek(), Token::Colon) {
                        self.advance();
                        let domain = self.parse_space()?;
                        self.expect(Token::Arrow)?;
                        let codomain = self.parse_space()?;
                        self.expect(Token::Equals)?;
                        let body = self.parse_flow(prims)?;
                        typecheck(&body, &default_primitives())?;
                        let body_domain = body.domain();
                        let body_codomain = body.codomain();
                        if body_domain != domain || body_codomain != codomain {
                            let mut m = owned("flow `");
                            m.append(name.as_str());
                            m.append("` annotates ");
                            m.append(debug_space(&domain).as_str());
                            m.append(" -> ");
                            m.append(debug_space(&codomain).as_str());
                            m.append(", but body is ");
                            m.append(debug_space(&body_domain).as_str());
                            m.append(" -> ");
                            m.append(debug_space(&body_codomain).as_str());
                            assert(m@ =~= annotation_message(
                                name@,
                                domain@,
                                codomain@,
                                body_domain@,
                                body_codomain@,
                            ));
                            return Err(m);
                        }
                        body
                    } else {
                        self.expect(Token::Equals)?;
                        self.parse_flow(prims)?
                    };
                    flows.insert(name, flow);
                },
                token => {
                    let mut m = owned("unexpected top-level token ");
                    m.append(debug_token(&token).as_str());
                    assert(m@ =~= "unexpected top-level token "@ + token_debug(token@));
                    return Err(m);
                },
            }
        }
        Ok(Program { spaces, flows })
    }
}

/// Lexes and parses `source`, then checks every flow of the program against
/// `primitives`. The numbers in `source` must fit in `usize`, which
/// `lexable` tests.
///
/// Primitives in flow bodies take the spaces of their signatures in
/// `primitives`; an annotated flow must check against the built-in
/// signatures of `default_primitives`, and its body must have the annotated
/// spaces, as soon as it is declared.
#[verifier::loop_isolation(false)]
pub fn parse_program(source: &str, primitives: &NameMap<Signature>) -> (r: Result<Program, String>)
    requires
        lex(source@) is Some,
    ensures
        match lex(source@) {
            Some(Ok(ts)) => match program_spec(ts, 0, Map::empty(), Map::empty(), primitives@) {
                Ok((spaces, flows)) => match r {
                    Ok(p) => {
                        &&& p.spaces@ == spaces
                        &&& p.flows@ == flows
                        &&& forall|k: Seq<char>| #[trigger] flows.contains_key(k)
                            ==> check_flow(flows[k], primitives@) is Ok
                        &&& forall|k: Seq<char>| #[trigger] p.spaces@.contains_key(k)
                            <==> declares(ts, TokenV::SpaceKw, k)
                        &&& forall|k: Seq<char>| #[trigger] p.flows@.contains_key(k)
                            <==> declares(ts, TokenV::FlowKw, k)
                        &&& forall|k: Seq<char>| #[trigger] p.flows@.contains_key(k)
                            ==> exists|j: int, sp2: Map<Seq<char>, SpaceV>| {
                            &&& 0 <= j
                            &&& #[trigger] declared_flow_at(ts, j, k, sp2, primitives@, p.flows@[k])
                            &&& tok_at(ts, j + 2) == TokenV::Colon ==> {
                                &&& annotated_spaces(ts, j + 2, sp2).0 == Ok::<SpaceV, Seq<char>>(p.flows@[k].domain())
                                &&& annotated_spaces(ts, j + 2, sp2).1 == Ok::<SpaceV, Seq<char>>(p.flows@[k].codomain())
                            }
                        }
                    },
                    Err(m) => exists|k: Seq<char>| #[trigger] flows.contains_key(k)
                        && check_flow(flows[k], primitives@) == Err::<(), Seq<char>>(m@),
                },
                Err(e) => r matches Err(m) && m@ == e,
            },
            Some(Err(e)) => r matches Err(m) && m@ == e,
            None => false,
        },
{
    let mut parser = Parser::new(source)?;
    let program = parser.parse_program(primitives)?;
    let n = program.flows.len();
    let mut k: usize = 0;
    while k < n
        invariant
            k <= n == program.flows.size(),
            forall|j: int| 0 <= j < k ==> check_flow(
                #[trigger] program.flows@[program.flows.key_at(j)],
                primitives@,
            ) is Ok,
        decreases n - k,
    {
        let flow = program.flows.value_at(k);
        let checked = typecheck(flow, primitives);
        if let Err(m) = checked {
            proof {
                let key = program.flows.key_at(k as int);
                assert(program.flows@.contains_key(key));
                assert(check_flow(program.flows@[key], primitives@) == Err::<(), Seq<char>>(m@));
            }
            return Err(m);
        }
        k = k + 1;
    }
    proof {
        program.flows.lemma_keys();
        lemma_declared_names(source@, primitives@);
        lemma_program_flows_keep_annotations(source@, primitives@);
    }
    Ok(program)
}

} // verus!
