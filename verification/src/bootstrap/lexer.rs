//! The lexer of the bootstrap compiler. Unknown characters are skipped.

use vstd::prelude::*;
use vstd::std_specs::cmp::PartialEqSpecImpl;
use crate::syntax::{line_end, lemma_line_end};
use crate::text::{
    ascii_digit, chars_of, debug_str, decimal, decimal_text, digit_of, is_ascii_digit,
    lemma_decimal_prefix, owned, same_text, str_debug, string_of, usize_text,
};

verus! {

/// A lexical token of the bootstrap compiler.
#[derive(Debug)]
pub enum Token {
    SpaceKw,
    FlowKw,
    Ident(String),
    Equals,
    Colon,
    Arrow,
    ChainOp,
    ParallelOp,
    Tilde,
    GradKw,
    IdKw,
    LParen,
    RParen,
    LAngle,
    RAngle,
    Comma,
    Integer(usize),
    Eof,
}

/// The mathematical value of a [`Token`].
pub enum TokenV {
    SpaceKw,
    FlowKw,
    Ident(Seq<char>),
    Equals,
    Colon,
    Arrow,
    ChainOp,
    ParallelOp,
    Tilde,
    GradKw,
    IdKw,
    LParen,
    RParen,
    LAngle,
    RAngle,
    Comma,
    Integer(usize),
    Eof,
}

impl View for Token {
    type V = TokenV;

    open spec fn view(&self) -> TokenV {
        match self {
            Token::SpaceKw => TokenV::SpaceKw,
            Token::FlowKw => TokenV::FlowKw,
            Token::Ident(s) => TokenV::Ident(s@),
            Token::Equals => TokenV::Equals,
            Token::Colon => TokenV::Colon,
            Token::Arrow => TokenV::Arrow,
            Token::ChainOp => TokenV::ChainOp,
            Token::ParallelOp => TokenV::ParallelOp,
            Token::Tilde => TokenV::Tilde,
            Token::GradKw => TokenV::GradKw,
            Token::IdKw => TokenV::IdKw,
            Token::LParen => TokenV::LParen,
            Token::RParen => TokenV::RParen,
            Token::LAngle => TokenV::LAngle,
            Token::RAngle => TokenV::RAngle,
            Token::Comma => TokenV::Comma,
            Token::Integer(n) => TokenV::Integer(*n),
            Token::Eof => TokenV::Eof,
        }
    }
}

impl Clone for Token {
    fn clone(&self) -> (r: Self)
        ensures
            r@ == self@,
    {
        match self {
            Token::SpaceKw => Token::SpaceKw,
            Token::FlowKw => Token::FlowKw,
            Token::Ident(s) => Token::Ident(s.clone()),
            Token::Equals => Token::Equals,
            Token::Colon => Token::Colon,
            Token::Arrow => Token::Arrow,
            Token::ChainOp => Token::ChainOp,
            Token::ParallelOp => Token::ParallelOp,
            Token::Tilde => Token::Tilde,
            Token::GradKw => Token::GradKw,
            Token::IdKw => Token::IdKw,
            Token::LParen => Token::LParen,
            Token::RParen => Token::RParen,
            Token::LAngle => Token::LAngle,
            Token::RAngle => Token::RAngle,
            Token::Comma => Token::Comma,
            Token::Integer(n) => Token::Integer(*n),
            Token::Eof => Token::Eof,
        }
    }
}

impl PartialEq for Token {
    fn eq(&self, other: &Self) -> (r: bool) {
        match (self, other) {
            (Token::Ident(a), Token::Ident(b)) => a.eq(b),
            (Token::Integer(a), Token::Integer(b)) => *a == *b,
            (Token::SpaceKw, Token::SpaceKw) => true,
            (Token::FlowKw, Token::FlowKw) => true,
            (Token::Equals, Token::Equals) => true,
            (Token::Colon, Token::Colon) => true,
            (Token::Arrow, Token::Arrow) => true,
            (Token::ChainOp, Token::ChainOp) => true,
            (Token::ParallelOp, Token::ParallelOp) => true,
            (Token::Tilde, Token::Tilde) => true,
            (Token::GradKw, Token::GradKw) => true,
            (Token::IdKw, Token::IdKw) => true,
            (Token::LParen, Token::LParen) => true,
            (Token::RParen, Token::RParen) => true,
            (Token::LAngle, Token::LAngle) => true,
            (Token::RAngle, Token::RAngle) => true,
            (Token::Comma, Token::Comma) => true,
            (Token::Eof, Token::Eof) => true,
            _ => false,
        }
    }
}

impl PartialEqSpecImpl for Token {
    open spec fn obeys_eq_spec() -> bool {
        true
    }

    open spec fn eq_spec(&self, other: &Self) -> bool {
        self@ == other@
    }
}

/// The `Debug` text of a token: the variant's name, with its field in
/// brackets where it has one.
pub open spec fn token_debug(t: TokenV) -> Seq<char> {
    match t {
        TokenV::Ident(s) => "Ident("@ + str_debug(s) + ")"@,
        TokenV::Integer(n) => "Integer("@ + decimal_text(n as nat) + ")"@,
        TokenV::SpaceKw => "SpaceKw"@,
        TokenV::FlowKw => "FlowKw"@,
        TokenV::Equals => "Equals"@,
        TokenV::Colon => "Colon"@,
        TokenV::Arrow => "Arrow"@,
        TokenV::ChainOp => "ChainOp"@,
        TokenV::ParallelOp => "ParallelOp"@,
        TokenV::Tilde => "Tilde"@,
        TokenV::GradKw => "GradKw"@,
        TokenV::IdKw => "IdKw"@,
        TokenV::LParen => "LParen"@,
        TokenV::RParen => "RParen"@,
        TokenV::LAngle => "LAngle"@,
        TokenV::RAngle => "RAngle"@,
        TokenV::Comma => "Comma"@,
        TokenV::Eof => "Eof"@,
    }
}

/// The `Debug` text of a token, as `format!("{:?}", t)` gives it.
pub fn debug_token(t: &Token) -> (r: String)
    ensures
        r@ == token_debug(t@),
{
    match t {
        Token::Ident(s) => {
            let mut r = owned("Ident(");
            r.append(debug_str(s.as_str()).as_str());
            r.append(")");
            r
        },
        Token::Integer(n) => {
            let mut r = owned("Integer(");
            r.append(usize_text(*n).as_str());
            r.append(")");
            r
        },
        Token::SpaceKw => owned("SpaceKw"),
        Token::FlowKw => owned("FlowKw"),
        Token::Equals => owned("Equals"),
        Token::Colon => owned("Colon"),
        Token::Arrow => owned("Arrow"),
        Token::ChainOp => owned("ChainOp"),
        Token::ParallelOp => owned("ParallelOp"),
        Token::Tilde => owned("Tilde"),
        Token::GradKw => owned("GradKw"),
        Token::IdKw => owned("IdKw"),
        Token::LParen => owned("LParen"),
        Token::RParen => owned("RParen"),
        Token::LAngle => owned("LAngle"),
        Token::RAngle => owned("RAngle"),
        Token::Comma => owned("Comma"),
        Token::Eof => owned("Eof"),
    }
}

/// Whether `c` has the Unicode `White_Space` property: the controls
/// U+0009 to U+000D, the space U+0020, NEL U+0085, the no-break space U+00A0,
/// the Ogham space mark U+1680, the spaces U+2000 to U+200A, the line and
/// paragraph separators U+2028 and U+2029, the narrow no-break space U+202F,
/// the medium mathematical space U+205F and the ideographic space U+3000.
pub open spec fn unicode_whitespace(c: char) -> bool {
    ||| ('\u{0009}' <= c && c <= '\u{000D}')
    ||| c == '\u{0020}'
    ||| c == '\u{0085}'
    ||| c == '\u{00A0}'
    ||| c == '\u{1680}'
    ||| ('\u{2000}' <= c && c <= '\u{200A}')
    ||| c == '\u{2028}'
    ||| c == '\u{2029}'
    ||| c == '\u{202F}'
    ||| c == '\u{205F}'
    ||| c == '\u{3000}'
}

/// Whether `c` has the Unicode `Alphabetic` property. It depends on `c`
/// alone.
pub uninterp spec fn unicode_alphabetic(c: char) -> bool;

/// Whether `c` is in one of the Unicode general categories for numbers.
/// It depends on `c` alone.
pub uninterp spec fn unicode_numeric(c: char) -> bool;

/// `char::is_whitespace`: whether `c` has the Unicode `White_Space`
/// property, whose code points the contract lists.
#[verifier::external_body]
fn is_whitespace(c: char) -> (r: bool)
    ensures
        r == unicode_whitespace(c),
{
    c.is_whitespace()
}

/// `char::is_alphabetic`: the Unicode `Alphabetic` property, which the
/// contract names and does not spell out.
#[verifier::external_body]
fn is_alphabetic(c: char) -> (r: bool)
    ensures
        r == unicode_alphabetic(c),
{
    c.is_alphabetic()
}

/// `char::is_numeric`: the Unicode number categories, which the contract
/// names and does not spell out.
#[verifier::external_body]
fn is_numeric(c: char) -> (r: bool)
    ensures
        r == unicode_numeric(c),
{
    c.is_numeric()
}

/// A character that continues an identifier: alphanumeric (alphabetic or
/// numeric, as `char::is_alphanumeric` is documented), or `_`.
pub open spec fn is_ident_char(c: char) -> bool {
    unicode_alphabetic(c) || unicode_numeric(c) || c == '_'
}

/// The end of the run of identifier characters that starts at `i`.
pub open spec fn ident_end(cs: Seq<char>, i: int) -> int
    decreases cs.len() - i,
{
    if 0 <= i < cs.len() && is_ident_char(cs[i]) {
        ident_end(cs, i + 1)
    } else {
        i
    }
}

/// The end of the run of numeric characters that starts at `i`.
pub open spec fn numeric_end(cs: Seq<char>, i: int) -> int
    decreases cs.len() - i,
{
    if 0 <= i < cs.len() && unicode_numeric(cs[i]) {
        numeric_end(cs, i + 1)
    } else {
        i
    }
}

pub proof fn lemma_ident_end(cs: Seq<char>, i: int)
    requires
        0 <= i <= cs.len(),
    ensures
        i <= ident_end(cs, i) <= cs.len(),
    decreases cs.len() - i,
{
    if i < cs.len() && is_ident_char(cs[i]) {
        lemma_ident_end(cs, i + 1);
    }
}

pub proof fn lemma_numeric_end(cs: Seq<char>, i: int)
    requires
        0 <= i <= cs.len(),
    ensures
        i <= numeric_end(cs, i) <= cs.len(),
    decreases cs.len() - i,
{
    if i < cs.len() && unicode_numeric(cs[i]) {
        lemma_numeric_end(cs, i + 1);
    }
}

/// The value of a run of numeric characters, as `str::parse::<usize>`
/// followed by `unwrap_or(0)` gives it: its decimal value when all of it
/// is ASCII digits and the value fits in `usize`, and 0 otherwise.
pub open spec fn number_value(ds: Seq<char>) -> usize {
    if (forall|k: int| 0 <= k < ds.len() ==> is_ascii_digit(#[trigger] ds[k])) && decimal(ds) <= usize::MAX {
        decimal(ds) as usize
    } else {
        0
    }
}

/// The token for a word: a keyword, or an identifier.
pub open spec fn word_token(w: Seq<char>) -> TokenV {
    if w == "space"@ {
        TokenV::SpaceKw
    } else if w == "flow"@ {
        TokenV::FlowKw
    } else if w == "grad"@ {
        TokenV::GradKw
    } else if w == "id"@ {
        TokenV::IdKw
    } else {
        TokenV::Ident(w)
    }
}

/// The token for a single character, if it is one.
pub open spec fn single_token(c: char) -> Option<TokenV> {
    if c == '=' {
        Some(TokenV::Equals)
    } else if c == ':' {
        Some(TokenV::Colon)
    } else if c == '~' {
        Some(TokenV::Tilde)
    } else if c == '(' {
        Some(TokenV::LParen)
    } else if c == ')' {
        Some(TokenV::RParen)
    } else if c == '<' {
        Some(TokenV::LAngle)
    } else if c == '>' {
        Some(TokenV::RAngle)
    } else if c == ',' {
        Some(TokenV::Comma)
    } else {
        None
    }
}

/// The token for a pair of characters, if they form one.
pub open spec fn dual_token(c: char, d: char) -> Option<TokenV> {
    if c == '>' && d == '>' {
        Some(TokenV::ChainOp)
    } else if c == '|' && d == '|' {
        Some(TokenV::ParallelOp)
    } else if c == '-' && d == '>' {
        Some(TokenV::Arrow)
    } else {
        None
    }
}

/// The tokens of `cs` from position `i`, after the tokens `acc`, ending
/// with `Eof`. Whitespace, `//` comments and characters that start no
/// token are skipped.
pub open spec fn lex_from(cs: Seq<char>, i: int, acc: Seq<TokenV>) -> Seq<TokenV>
    decreases cs.len() - i,
{
    if i < 0 || i >= cs.len() {
        acc.push(TokenV::Eof)
    } else {
        let c = cs[i];
        if unicode_whitespace(c) {
            lex_from(cs, i + 1, acc)
        } else if c == '/' && i + 1 < cs.len() && cs[i + 1] == '/' {
            proof {
                lemma_line_end(cs, i + 2);
            }
            lex_from(cs, line_end(cs, i + 2), acc)
        } else if i + 1 < cs.len() && dual_token(c, cs[i + 1]) is Some {
            lex_from(cs, i + 2, acc.push(dual_token(c, cs[i + 1])->0))
        } else if single_token(c) is Some {
            lex_from(cs, i + 1, acc.push(single_token(c)->0))
        } else if unicode_alphabetic(c) || c == '_' {
            proof {
                lemma_ident_end(cs, i + 1);
            }
            let j = ident_end(cs, i + 1);
            lex_from(cs, j, acc.push(word_token(cs.subrange(i, j))))
        } else if unicode_numeric(c) {
            proof {
                lemma_numeric_end(cs, i + 1);
            }
            let j = numeric_end(cs, i + 1);
            lex_from(cs, j, acc.push(TokenV::Integer(number_value(cs.subrange(i, j)))))
        } else {
            lex_from(cs, i + 1, acc)
        }
    }
}

/// Lexing keeps the tokens read so far and ends with `Eof`.
pub proof fn lemma_lex_from_ends_with_eof(cs: Seq<char>, i: int, acc: Seq<TokenV>)
    ensures
        lex_from(cs, i, acc).len() > acc.len(),
        lex_from(cs, i, acc).last() == TokenV::Eof,
        lex_from(cs, i, acc).take(acc.len() as int) == acc,
    decreases cs.len() - i, 1int,
{
    if i < 0 || i >= cs.len() {
        assert(acc.push(TokenV::Eof).take(acc.len() as int) =~= acc);
    } else {
        let c = cs[i];
        if unicode_whitespace(c) {
            lemma_lex_from_ends_with_eof(cs, i + 1, acc);
        } else if c == '/' && i + 1 < cs.len() && cs[i + 1] == '/' {
            lemma_line_end(cs, i + 2);
            lemma_lex_from_ends_with_eof(cs, line_end(cs, i + 2), acc);
        } else if i + 1 < cs.len() && dual_token(c, cs[i + 1]) is Some {
            lemma_lex_step(cs, i, i + 2, acc, dual_token(c, cs[i + 1])->0);
        } else if single_token(c) is Some {
            lemma_lex_step(cs, i, i + 1, acc, single_token(c)->0);
        } else if unicode_alphabetic(c) || c == '_' {
            lemma_ident_end(cs, i + 1);
            let j = ident_end(cs, i + 1);
            lemma_lex_step(cs, i, j, acc, word_token(cs.subrange(i, j)));
        } else if unicode_numeric(c) {
            lemma_numeric_end(cs, i + 1);
            let j = numeric_end(cs, i + 1);
            lemma_lex_step(cs, i, j, acc, TokenV::Integer(number_value(cs.subrange(i, j))));
        } else {
            lemma_lex_from_ends_with_eof(cs, i + 1, acc);
        }
    }
}

/// Lexing on from `j` after one more token `t` keeps `acc` too.
proof fn lemma_lex_step(cs: Seq<char>, i: int, j: int, acc: Seq<TokenV>, t: TokenV)
    requires
        0 <= i < j <= cs.len(),
    ensures
        lex_from(cs, j, acc.push(t)).len() > acc.len(),
        lex_from(cs, j, acc.push(t)).last() == TokenV::Eof,
        lex_from(cs, j, acc.push(t)).take(acc.len() as int) == acc,
    decreases cs.len() - i, 0int,
{
    lemma_lex_from_ends_with_eof(cs, j, acc.push(t));
    let ts = lex_from(cs, j, acc.push(t));
    assert(ts.take(acc.len() as int) =~= ts.take(acc.len() + 1int).take(acc.len() as int));
    assert(acc.push(t).take(acc.len() as int) =~= acc);
}

/// The tokens of any text end with `Eof`, so a parser over them is ready.
pub proof fn lemma_tokens_end_with_eof(cs: Seq<char>)
    ensures
        lex_from(cs, 0, Seq::empty()).len() > 0,
        lex_from(cs, 0, Seq::empty()).last() == TokenV::Eof,
{
    lemma_lex_from_ends_with_eof(cs, 0, Seq::empty());
}

/// The views of a sequence of tokens.
pub open spec fn token_views(ts: Seq<Token>) -> Seq<TokenV> {
    ts.map_values(|t: Token| t@)
}

/// The value of the numeric run `cs[from..to]`, or 0 (see `number_value`).
fn number_or_zero(cs: &Vec<char>, from: usize, to: usize) -> (r: usize)
    requires
        from <= to <= cs@.len(),
    ensures
        r == number_value(cs@.subrange(from as int, to as int)),
{
    let ghost full = cs@.subrange(from as int, to as int);
    let mut value: usize = 0;
    let mut k: usize = from;
    assert(cs@.subrange(from as int, from as int) =~= Seq::<char>::empty());
    while k < to
        invariant
            from <= k <= to <= cs@.len(),
            full == cs@.subrange(from as int, to as int),
            forall|m: int| from <= m < k ==> is_ascii_digit(#[trigger] cs@[m]),
            value == decimal(cs@.subrange(from as int, k as int)),
        decreases to - k,
    {
        let c = cs[k];
        if !ascii_digit(c) {
            assert(!is_ascii_digit(full[k - from]));
            return 0;
        }
        proof {
            assert(cs@.subrange(from as int, k + 1).drop_last() =~= cs@.subrange(from as int, k as int));
            assert(full.take(k + 1 - from) =~= cs@.subrange(from as int, k + 1));
            lemma_decimal_prefix(full, k + 1 - from);
        }
        let next = match value.checked_mul(10) {
            Some(v) => v.checked_add(digit_of(c)),
            None => None,
        };
        match next {
            Some(v) => value = v,
            None => return 0,
        }
        k = k + 1;
    }
    assert(cs@.subrange(from as int, k as int) =~= full);
    value
}

/// A lexer over one source text.
pub struct Lexer<'a> {
    input: &'a str,
    pos: usize,
}

impl<'a> Lexer<'a> {
    /// The source text.
    pub closed spec fn source(&self) -> Seq<char> {
        self.input@
    }

    /// The position, in characters, from which the next tokens are read.
    pub closed spec fn position(&self) -> nat {
        self.pos as nat
    }

    /// A lexer at the start of `input`.
    pub fn new(input: &'a str) -> (r: Self)
        ensures
            r.source() == input@,
            r.position() == 0,
    {
        Self { input, pos: 0 }
    }

    /// The tokens from the current position to the end, then `Eof`. The
    /// lexer is left at the end of its text.
    #[verifier::loop_isolation(false)]
    pub fn tokenize(&mut self) -> (r: Vec<Token>)
        ensures
            token_views(r@) == lex_from(old(self).source(), old(self).position() as int, Seq::empty()),
            final(self).source() == old(self).source(),
            final(self).position() == if old(self).position() < old(self).source().len() {
                old(self).source().len()
            } else {
                old(self).position()
            },
    {
        let mut tokens: Vec<Token> = Vec::new();
        let chars = chars_of(self.input);
        let n = chars.len();
        let ghost start = self.pos as int;
        assert(token_views(tokens@) =~= Seq::<TokenV>::empty());
        while self.pos < n
            invariant
                chars@ == self.input@,
                n == chars@.len(),
                self.input == old(self).input,
                start <= self.pos <= if start < n { n as int } else { start },
                lex_from(chars@, self.pos as int, token_views(tokens@)) == lex_from(chars@, start, Seq::empty()),
            decreases n - self.pos,
        {
            let ghost before = token_views(tokens@);
            let c = chars[self.pos];
            if is_whitespace(c) {
                self.pos = self.pos + 1;
                continue;
            }
            if c == '/' && self.pos + 1 < n && chars[self.pos + 1] == '/' {
                proof {
                    lemma_line_end(chars@, self.pos + 2);
                }
                let ghost target = line_end(chars@, self.pos + 2);
                self.pos = self.pos + 2;
                while self.pos < n && chars[self.pos] != '\n'
                    invariant
                        self.pos <= n,
                        line_end(chars@, self.pos as int) == target,
                        self.input == old(self).input,
                        chars@ == self.input@,
                    decreases n - self.pos,
                {
                    self.pos = self.pos + 1;
                }
                continue;
            }
            if self.pos + 1 < n {
                let d = chars[self.pos + 1];
                if c == '>' && d == '>' {
                    self.pos = self.pos + 2;
                    tokens.push(Token::ChainOp);
                    assert(token_views(tokens@) =~= before.push(TokenV::ChainOp));
                    continue;
                } else if c == '|' && d == '|' {
                    self.pos = self.pos + 2;
                    tokens.push(Token::ParallelOp);
                    assert(token_views(tokens@) =~= before.push(TokenV::ParallelOp));
                    continue;
                } else if c == '-' && d == '>' {
                    self.pos = self.pos + 2;
                    tokens.push(Token::Arrow);
                    assert(token_views(tokens@) =~= before.push(TokenV::Arrow));
                    continue;
                }
            }
            let single: Option<Token> = if c == '=' {
                Some(Token::Equals)
            } else if c == ':' {
                Some(Token::Colon)
            } else if c == '~' {
                Some(Token::Tilde)
            } else if c == '(' {
                Some(Token::LParen)
            } else if c == ')' {
                Some(Token::RParen)
            } else if c == '<' {
                Some(Token::LAngle)
            } else if c == '>' {
                Some(Token::RAngle)
            } else if c == ',' {
                Some(Token::Comma)
            } else {
                None
            };
            match single {
                Some(t) => {
                    let ghost tv = t@;
                    tokens.push(t);
                    assert(token_views(tokens@) =~= before.push(tv));
                },
                None => {
                    if is_alphabetic(c) || c == '_' {
                        let start_word = self.pos;
                        proof {
                            lemma_ident_end(chars@, self.pos + 1);
                        }
                        let ghost target = ident_end(chars@, self.pos + 1);
                        self.pos = self.pos + 1;
                        while self.pos < n && (is_alphabetic(chars[self.pos]) || is_numeric(chars[self.pos]) || chars[self.pos] == '_')
                            invariant
                                start_word < self.pos <= n,
                                ident_end(chars@, self.pos as int) == target,
                                self.input == old(self).input,
                                chars@ == self.input@,
                            decreases n - self.pos,
                        {
                            self.pos = self.pos + 1;
                        }
                        let text = string_of(&chars, start_word, self.pos);
                        let t = if same_text(text.as_str(), "space") {
                            Token::SpaceKw
                        } else if same_text(text.as_str(), "flow") {
                            Token::FlowKw
                        } else if same_text(text.as_str(), "grad") {
                            Token::GradKw
                        } else if same_text(text.as_str(), "id") {
                            Token::IdKw
                        } else {
                            Token::Ident(text)
                        };
                        let ghost tv = t@;
                        tokens.push(t);
                        assert(token_views(tokens@) =~= before.push(tv));
                        continue;
                    } else if is_numeric(c) {
                        let start_num = self.pos;
                        proof {
                            lemma_numeric_end(chars@, self.pos + 1);
                        }
                        let ghost target = numeric_end(chars@, self.pos + 1);
                        self.pos = self.pos + 1;
                        while self.pos < n && is_numeric(chars[self.pos])
                            invariant
                                start_num < self.pos <= n,
                                numeric_end(chars@, self.pos as int) == target,
                                self.input == old(self).input,
                                chars@ == self.input@,
                            decreases n - self.pos,
                        {
                            self.pos = self.pos + 1;
                        }
                        let value = number_or_zero(&chars, start_num, self.pos);
                        tokens.push(Token::Integer(value));
                        assert(token_views(tokens@) =~= before.push(TokenV::Integer(value)));
                        continue;
                    }
                },
            }
            self.pos = self.pos + 1;
        }
        let ghost before = token_views(tokens@);
        tokens.push(Token::Eof);
        assert(token_views(tokens@) =~= before.push(TokenV::Eof));
        tokens
    }
}

} // verus!
