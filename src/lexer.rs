//! Scanning one line of source into tokens.
use vstd::prelude::*;

use crate::text::{parse_i64, parse_i64_chars, string_from_chars, chars_of};
use crate::token::{Token, TokenModel, tokens_view};

verus! {

/// The token that a finished word stands for: a number where the word reads
/// as a signed 64-bit integer, else `let` for the reserved word, else a name.
pub open spec fn word_token(word: Seq<char>) -> TokenModel {
    match parse_i64(word) {
        Some(n) => TokenModel::Number(n),
        None => if word == seq!['l', 'e', 't'] {
            TokenModel::Let
        } else {
            TokenModel::Identifier(word)
        },
    }
}

/// The tokens that a pending word gives when it ends: none for an empty one.
pub open spec fn flush(word: Seq<char>) -> Seq<TokenModel> {
    if word.len() == 0 {
        Seq::empty()
    } else {
        seq![word_token(word)]
    }
}

/// How many characters of `s` come before its first `"` (all of them where
/// there is none).
pub open spec fn quote_len(s: Seq<char>) -> nat
    decreases s.len(),
{
    if s.len() == 0 || s[0] == '"' {
        0
    } else {
        1 + quote_len(s.drop_first())
    }
}

/// The tokens of `input`, scanned left to right with the characters of an
/// unfinished word in `word`. A space ends the word; `+`, `*` and `=` are
/// tokens of their own and leave the word as it is; `"` starts a string
/// literal that runs to the next `"` or to the end; every other character
/// joins the word.
pub open spec fn scan(input: Seq<char>, word: Seq<char>) -> Seq<TokenModel>
    decreases input.len(),
{
    if input.len() == 0 {
        flush(word)
    } else {
        let c = input[0];
        let rest = input.drop_first();
        if c == ' ' {
            flush(word) + scan(rest, Seq::empty())
        } else if c == '+' {
            seq![TokenModel::Plus] + scan(rest, word)
        } else if c == '*' {
            seq![TokenModel::Star] + scan(rest, word)
        } else if c == '=' {
            seq![TokenModel::Equals] + scan(rest, word)
        } else if c == '"' {
            let k = quote_len(rest);
            let after = if k < rest.len() {
                k + 1int
            } else {
                rest.len() as int
            };
            seq![TokenModel::String(rest.take(k as int))] + scan(rest.skip(after), word)
        } else {
            scan(rest, word.push(c))
        }
    }
}

/// The tokens of one line.
pub open spec fn lex(line: Seq<char>) -> Seq<TokenModel> {
    scan(line, Seq::empty())
}

/// Lexing keeps no state between lines: equal lines give equal tokens.
pub proof fn lemma_lex_repeatable(a: Seq<char>, b: Seq<char>)
    requires
        a == b,
    ensures
        lex(a) == lex(b),
{
}

/// Turns one line of source into tokens.
pub struct Lexer {
    /// The line, as characters.
    source: Vec<char>,
    /// Tokens found so far.
    tokens: Vec<Token>,
    /// The characters of the word being read.
    buffer: Vec<char>,
}

impl Lexer {
    /// The line this lexer reads.
    pub closed spec fn source(&self) -> Seq<char> {
        self.source@
    }

    /// No scan is under way.
    pub closed spec fn is_idle(&self) -> bool {
        self.tokens@.len() == 0 && self.buffer@.len() == 0
    }

    pub fn new(source: &str) -> (r: Lexer)
        ensures
            r.source() == source@,
            r.is_idle(),
    {
        Lexer { source: chars_of(source), tokens: Vec::new(), buffer: Vec::new() }
    }

    /// A lexer over a line given as characters.
    pub fn from_chars(source: Vec<char>) -> (r: Lexer)
        ensures
            r.source() == source@,
            r.is_idle(),
    {
        Lexer { source, tokens: Vec::new(), buffer: Vec::new() }
    }

    /// The tokens of the line. The lexer is left as it was, so a second call
    /// gives the same tokens.
    pub fn tokens(&mut self) -> (r: Vec<Token>)
        requires
            old(self).is_idle(),
        ensures
            tokens_view(r@) == lex(old(self).source()),
            final(self).source() == old(self).source(),
            final(self).is_idle(),
    {
        let n = self.source.len();
        let ghost src = self.source@;
        let mut i: usize = 0;
        assert(src.skip(0) =~= src);
        assert(tokens_view(self.tokens@) =~= Seq::empty());
        assert(self.buffer@ =~= Seq::<char>::empty());
        assert(tokens_view(self.tokens@) + lex(src) =~= lex(src));
        while i < n
            invariant
                self.source@ == src,
                n == src.len(),
                0 <= i <= n,
                lex(src) == tokens_view(self.tokens@) + scan(src.skip(i as int), self.buffer@),
            decreases n - i,
        {
            let c = self.source[i];
            let ghost before = tokens_view(self.tokens@);
            let ghost rest = src.skip(i + 1);
            assert(src.skip(i as int).drop_first() =~= rest);
            if c == ' ' {
                self.process_token();
                assert(lex(src) == tokens_view(self.tokens@) + scan(rest, self.buffer@)) by {
                    assert(self.buffer@ =~= Seq::<char>::empty());
                }
                i = i + 1;
            } else if c == '+' || c == '*' || c == '=' {
                let t = if c == '+' {
                    Token::Plus
                } else if c == '*' {
                    Token::Star
                } else {
                    Token::Equals
                };
                self.tokens.push(t);
                assert(tokens_view(self.tokens@) =~= before.push(t@));
                i = i + 1;
            } else if c == '"' {
                let mut literal: Vec<char> = Vec::new();
                let mut j: usize = i + 1;
                while j < n && self.source[j] != '"'
                    invariant
                        self.source@ == src,
                        n == src.len(),
                        i < j <= n,
                        literal@ == src.subrange(i + 1, j as int),
                        quote_len(rest) == (j - (i + 1)) + quote_len(src.skip(j as int)),
                    decreases n - j,
                {
                    literal.push(self.source[j]);
                    assert(literal@ =~= src.subrange(i + 1, j + 1));
                    assert(src.skip(j as int).drop_first() =~= src.skip(j + 1));
                    j = j + 1;
                }
                let k = j - (i + 1);
                assert(quote_len(rest) == k);
                assert(rest.take(k as int) =~= literal@);
                self.tokens.push(Token::String(string_from_chars(&literal)));
                assert(tokens_view(self.tokens@) =~= before.push(
                    TokenModel::String(rest.take(k as int)),
                ));
                if j < n {
                    assert(rest.skip(k + 1) =~= src.skip(j + 1));
                    i = j + 1;
                } else {
                    assert(rest.skip(rest.len() as int) =~= src.skip(j as int));
                    i = j;
                }
            } else {
                self.buffer.push(c);
                i = i + 1;
            }
        }
        self.process_token();
        assert(scan(src.skip(n as int), Seq::empty()) =~= Seq::empty());
        let mut out: Vec<Token> = Vec::new();
        std::mem::swap(&mut out, &mut self.tokens);
        assert(lex(src) =~= tokens_view(out@));
        out
    }

    /// Ends the pending word, if any: it becomes a number, `let` or a name.
    fn process_token(&mut self)
        ensures
            final(self).source == old(self).source,
            tokens_view(final(self).tokens@) == tokens_view(old(self).tokens@) + flush(
                old(self).buffer@,
            ),
            final(self).buffer@.len() == 0,
    {
        if self.buffer.len() == 0 {
            assert(tokens_view(self.tokens@) + flush(self.buffer@) =~= tokens_view(self.tokens@));
            return;
        }
        let ghost before = tokens_view(self.tokens@);
        let t = match parse_i64_chars(&self.buffer) {
            Some(number) => Token::Number(number),
            None => {
                if self.buffer.len() == 3 && self.buffer[0] == 'l' && self.buffer[1] == 'e'
                    && self.buffer[2] == 't' {
                    assert(self.buffer@ =~= seq!['l', 'e', 't']);
                    Token::Let
                } else {
                    Token::Identifier(string_from_chars(&self.buffer))
                }
            },
        };
        assert(t@ == word_token(self.buffer@));
        self.tokens.push(t);
        assert(tokens_view(self.tokens@) =~= before + flush(self.buffer@));
        self.buffer.clear();
    }
}

} // verus!
