//! The scanners: one per class of lexeme, and the dispatcher that picks one.

use crate::chars::{
    digit, is_digit, is_hex_digit, is_ident_continue, is_ident_start, is_newline, is_space,
    newline,
};
use crate::cursor::{Cursor, Reading};
use crate::grammar::{
    blank, block_comment, char_lit, exponent, in_digits, in_ident, in_line, in_space,
    lemma_nested_skip, lemma_run_end, lexeme, line_comment, nested_end, no_numeral, number,
    quoted_end, run_end, str_lit, token_at,
};
use crate::stream::tokens_from;
use crate::token::{Base, CommentKind, Delim, LitKind, Punc, Token, TokenKind};
use vstd::prelude::*;

verus! {

impl Cursor {
    /// Scans the next token and resets the count of consumed characters;
    /// returns `None` at the end of the source, and only there.
    pub fn next_token(&mut self) -> (token: Option<Token>)
        requires
            old(self)@.wf(),
        ensures
            final(self)@.wf(),
            match token {
                None => old(self)@.offset == old(self)@.source.len() && final(self)@ == old(self)@,
                Some(t) => {
                    let (kind, end) = token_at(old(self)@.source, old(self)@.offset);
                    &&& old(self)@.offset < old(self)@.source.len()
                    &&& t.kind == kind
                    &&& t.len == end - old(self)@.start
                    &&& t.len >= 1
                    &&& final(self)@ == (Reading {
                        source: old(self)@.source,
                        offset: end,
                        start: end,
                    })
                },
            },
            old(self)@.start == old(self)@.offset ==> tokens_from(
                old(self)@.source,
                old(self)@.offset,
            ) == (match token {
                Some(t) => seq![t].add(tokens_from(old(self)@.source, final(self)@.offset)),
                None => Seq::empty(),
            }),
    {
        match self.bump() {
            None => None,
            Some(first) => {
                let kind = self.dispatch(first, first.is_whitespace(), is_ident_start(first));
                let token = Token::new(kind, self.pos());
                self.rebase();
                Some(token)
            },
        }
    }

    /// Scans the rest of the token whose first character `first` has been
    /// consumed: picks the scanner for its class and runs it. Whether `first`
    /// is whitespace and whether it may begin an identifier is for the caller
    /// to say; the other classes are read off `first` itself.
    pub fn dispatch(
        &mut self,
        first: char,
        whitespace: bool,
        starts_ident: bool,
    ) -> (kind: TokenKind)
        requires
            old(self)@.wf(),
            old(self)@.behind() == Some(first),
        ensures
            final(self)@.advanced_from(old(self)@),
            (kind, final(self)@.offset) == lexeme(
                old(self)@.source,
                old(self)@.offset,
                first,
                whitespace,
                starts_ident,
            ),
    {
        if whitespace {
            self.eat_space(first)
        } else if starts_ident {
            self.eat_ident()
        } else if is_digit(first) {
            self.eat_num_lit(first)
        } else {
            match first {
                '/' => match self.peek() {
                    Some('/') => self.eat_line_comment(),
                    Some('*') => self.eat_block_comment(),
                    _ => TokenKind::Punc(Punc::Slash),
                },
                '"' => self.eat_str_lit(),
                '\'' => self.eat_char_lit(),
                '+' => TokenKind::Punc(Punc::Plus),
                '-' => TokenKind::Punc(Punc::Minus),
                '*' => TokenKind::Punc(Punc::Star),
                '%' => TokenKind::Punc(Punc::Perc),
                '&' => TokenKind::Punc(Punc::Amp),
                '|' => TokenKind::Punc(Punc::Bar),
                '^' => TokenKind::Punc(Punc::Caret),
                '!' => TokenKind::Punc(Punc::Bang),
                '=' => TokenKind::Punc(Punc::Eq),
                '<' => TokenKind::Punc(Punc::Lt),
                '>' => TokenKind::Punc(Punc::Gt),
                '.' => TokenKind::Punc(Punc::Dot),
                ',' => TokenKind::Punc(Punc::Comma),
                ':' => TokenKind::Punc(Punc::Colon),
                ';' => TokenKind::Punc(Punc::Semi),
                '(' => TokenKind::Open(Delim::Paren),
                '[' => TokenKind::Open(Delim::Brack),
                '{' => TokenKind::Open(Delim::Brace),
                ')' => TokenKind::Close(Delim::Paren),
                ']' => TokenKind::Close(Delim::Brack),
                '}' => TokenKind::Close(Delim::Brace),
                _ => TokenKind::Unknown,
            }
        }
    }

    /// Scans whitespace whose first character `first` has been consumed: one
    /// line terminator, with CR LF taken as one, or a run of other whitespace.
    pub fn eat_space(&mut self, first: char) -> (kind: TokenKind)
        requires
            old(self)@.wf(),
        ensures
            final(self)@.advanced_from(old(self)@),
            (kind, final(self)@.offset) == blank(old(self)@.source, old(self)@.offset, first),
    {
        if is_newline(first) {
            if first == '\r' && self.peek() == Some('\n') {
                self.bump();
            }
            TokenKind::Newline
        } else {
            self.bump_while(is_space);
            proof {
                lemma_run_end(self@.source, old(self)@.offset, self@.offset, in_space());
            }
            TokenKind::Space
        }
    }

    /// Scans a line comment whose first `/` has been consumed: takes the
    /// second one and everything up to the end of the line.
    pub fn eat_line_comment(&mut self) -> (kind: TokenKind)
        requires
            old(self)@.wf(),
            old(self)@.behind() == Some('/'),
            old(self)@.ahead(0) == Some('/'),
        ensures
            final(self)@.advanced_from(old(self)@),
            (kind, final(self)@.offset) == line_comment(old(self)@.source, old(self)@.offset),
    {
        self.bump();
        let kind = match self.peek() {
            Some('/') => CommentKind::OuterDoc,
            Some('!') => CommentKind::InnerDoc,
            _ => CommentKind::Normal,
        };
        let in_comment = |c: char| -> (b: bool)
            ensures
                b == !newline(c),
        {
            !is_newline(c)
        };
        self.bump_while(in_comment);
        proof {
            lemma_run_end(self@.source, old(self)@.offset + 1, self@.offset, in_line());
        }
        TokenKind::LineComment { kind }
    }

    /// Scans a block comment whose `/` has been consumed: takes the `*` and
    /// everything up to the `*/` that closes it, nested comments included.
    pub fn eat_block_comment(&mut self) -> (kind: TokenKind)
        requires
            old(self)@.wf(),
            old(self)@.behind() == Some('/'),
            old(self)@.ahead(0) == Some('*'),
        ensures
            final(self)@.advanced_from(old(self)@),
            (kind, final(self)@.offset) == block_comment(old(self)@.source, old(self)@.offset),
    {
        self.bump();
        let kind = match self.peek() {
            Some('*') => {
                if self.peek_nth(1) == Some('/') {
                    self.bump_nth(1);
                    return TokenKind::BlockComment { kind: CommentKind::Normal, terminated: true };
                } else {
                    CommentKind::OuterDoc
                }
            },
            Some('!') => CommentKind::InnerDoc,
            _ => CommentKind::Normal,
        };

        let mut depth: usize = 1;
        loop
            invariant_except_break
                depth >= 1,
                nested_end(self@.source, old(self)@.offset + 1, 1) == nested_end(
                    self@.source,
                    self@.offset,
                    depth as nat,
                ),
            invariant
                self@.advanced_from(old(self)@),
                old(self)@.offset < self@.offset,
                depth <= self@.offset,
            ensures
                nested_end(self@.source, old(self)@.offset + 1, 1) == (
                    self@.offset,
                    depth == 0,
                ),
            decreases self@.source.len() - self@.offset,
        {
            let ghost from = self@.offset;
            let plain = |c: char| -> (b: bool)
                ensures
                    b == (c != '*' && c != '/'),
            {
                c != '*' && c != '/'
            };
            self.bump_while(plain);
            proof {
                lemma_nested_skip(self@.source, from, self@.offset, depth as nat);
            }
            match (self.bump(), self.peek()) {
                (None, _) | (_, None) => {
                    break ;
                },
                (Some('/'), Some('*')) => {
                    self.bump();
                    depth = depth + 1;
                },
                (Some('*'), Some('/')) => {
                    self.bump();
                    depth = depth - 1;
                    if depth == 0 {
                        break ;
                    }
                },
                _ => {},
            }
        }

        TokenKind::BlockComment { kind, terminated: depth == 0 }
    }

    /// Scans an identifier whose first character has been consumed.
    pub fn eat_ident(&mut self) -> (kind: TokenKind)
        requires
            old(self)@.wf(),
        ensures
            final(self)@.advanced_from(old(self)@),
            kind == TokenKind::Ident,
            final(self)@.offset == run_end(old(self)@.source, old(self)@.offset, in_ident()),
    {
        self.bump_while(is_ident_continue);
        proof {
            lemma_run_end(self@.source, old(self)@.offset, self@.offset, in_ident());
        }
        TokenKind::Ident
    }

    /// Consumes a run of decimal digits and underscores, and says whether it
    /// held no digit.
    pub fn eat_decimal_digits(&mut self) -> (is_empty: bool)
        requires
            old(self)@.wf(),
        ensures
            final(self)@.advanced_from(old(self)@),
            final(self)@.offset == run_end(
                old(self)@.source,
                old(self)@.offset,
                in_digits(false),
            ),
            is_empty == no_numeral(
                old(self)@.source,
                old(self)@.offset,
                final(self)@.offset,
                false,
            ),
    {
        let mut is_empty = true;
        loop
            invariant
                self@.advanced_from(old(self)@),
                forall|k: int|
                    old(self)@.offset <= k < self@.offset ==> in_digits(false)(
                        #[trigger] self@.source[k],
                    ),
                is_empty == no_numeral(self@.source, old(self)@.offset, self@.offset, false),
            ensures
                self@.offset < self@.source.len() ==> !in_digits(false)(
                    self@.source[self@.offset],
                ),
            decreases self@.source.len() - self@.offset,
        {
            match self.peek() {
                Some(c) => {
                    if is_digit(c) {
                        self.bump();
                        is_empty = false;
                    } else if c == '_' {
                        self.bump();
                    } else {
                        break ;
                    }
                },
                None => {
                    break ;
                },
            }
        }
        proof {
            lemma_run_end(self@.source, old(self)@.offset, self@.offset, in_digits(false));
        }
        is_empty
    }

    /// Consumes a run of hexadecimal digits and underscores, and says whether
    /// it held no digit.
    pub fn eat_hexadecimal_digits(&mut self) -> (is_empty: bool)
        requires
            old(self)@.wf(),
        ensures
            final(self)@.advanced_from(old(self)@),
            final(self)@.offset == run_end(
                old(self)@.source,
                old(self)@.offset,
                in_digits(true),
            ),
            is_empty == no_numeral(
                old(self)@.source,
                old(self)@.offset,
                final(self)@.offset,
                true,
            ),
    {
        let mut is_empty = true;
        loop
            invariant
                self@.advanced_from(old(self)@),
                forall|k: int|
                    old(self)@.offset <= k < self@.offset ==> in_digits(true)(
                        #[trigger] self@.source[k],
                    ),
                is_empty == no_numeral(self@.source, old(self)@.offset, self@.offset, true),
            ensures
                self@.offset < self@.source.len() ==> !in_digits(true)(
                    self@.source[self@.offset],
                ),
            decreases self@.source.len() - self@.offset,
        {
            match self.peek() {
                Some(c) => {
                    if is_hex_digit(c) {
                        self.bump();
                        is_empty = false;
                    } else if c == '_' {
                        self.bump();
                    } else {
                        break ;
                    }
                },
                None => {
                    break ;
                },
            }
        }
        proof {
            lemma_run_end(self@.source, old(self)@.offset, self@.offset, in_digits(true));
        }
        is_empty
    }

    /// Consumes what follows an exponent marker: an optional sign and a run of
    /// decimal digits. Says whether the run held no digit.
    pub fn eat_float_lit_exp(&mut self) -> (exp_empty: bool)
        requires
            old(self)@.wf(),
            old(self)@.behind() == Some('e') || old(self)@.behind() == Some('E'),
        ensures
            final(self)@.advanced_from(old(self)@),
            (final(self)@.offset, exp_empty) == exponent(old(self)@.source, old(self)@.offset),
    {
        match self.peek() {
            Some('+') | Some('-') => {
                self.bump();
            },
            _ => {},
        }
        self.eat_decimal_digits()
    }

    /// Scans a numeric literal whose first digit `first` has been consumed:
    /// an optional base prefix, the integer digits, an optional fraction and
    /// an optional exponent.
    pub fn eat_num_lit(&mut self, first: char) -> (kind: TokenKind)
        requires
            old(self)@.wf(),
            old(self)@.behind() matches Some(c) && digit(c),
        ensures
            final(self)@.advanced_from(old(self)@),
            kind == (TokenKind::Lit {
                kind: number(old(self)@.source, old(self)@.offset, first).0,
            }),
            final(self)@.offset == number(old(self)@.source, old(self)@.offset, first).1,
    {
        let mut base = Base::Decimal;
        if first == '0' {
            match self.peek() {
                Some('b') => {
                    base = Base::Binary;
                    self.bump();
                    if self.eat_decimal_digits() {
                        return TokenKind::Lit { kind: LitKind::Int { base, empty: true } };
                    }
                },
                Some('o') => {
                    base = Base::Octal;
                    self.bump();
                    if self.eat_decimal_digits() {
                        return TokenKind::Lit { kind: LitKind::Int { base, empty: true } };
                    }
                },
                Some('x') => {
                    base = Base::Hexadecimal;
                    self.bump();
                    if self.eat_hexadecimal_digits() {
                        return TokenKind::Lit { kind: LitKind::Int { base, empty: true } };
                    }
                },
                _ => {
                    self.eat_decimal_digits();
                },
            }
        } else {
            self.eat_decimal_digits();
        }
        let kind = match self.peek() {
            Some('.') if self.fraction_follows() => {
                self.bump();
                self.eat_decimal_digits();
                match self.peek() {
                    Some('e') | Some('E') => {
                        self.bump();
                        LitKind::Float { base, exp_empty: self.eat_float_lit_exp() }
                    },
                    _ => LitKind::Float { base, exp_empty: false },
                }
            },
            Some('e') | Some('E') => {
                self.bump();
                LitKind::Float { base, exp_empty: self.eat_float_lit_exp() }
            },
            _ => LitKind::Int { base, empty: false },
        };

        TokenKind::Lit { kind }
    }

    /// Whether the character after the next one is a decimal digit.
    fn fraction_follows(&self) -> (b: bool)
        requires
            self@.wf(),
        ensures
            b == (self@.ahead(1) matches Some(c) && digit(c)),
    {
        match self.peek_nth(1) {
            Some(c) => is_digit(c),
            None => false,
        }
    }

    /// Scans a character literal whose opening quote has been consumed.
    pub fn eat_char_lit(&mut self) -> (kind: TokenKind)
        requires
            old(self)@.wf(),
            old(self)@.behind() == Some('\''),
        ensures
            final(self)@.advanced_from(old(self)@),
            (kind, final(self)@.offset) == char_lit(old(self)@.source, old(self)@.offset),
    {
        if self.peek_nth(1) == Some('\'') && self.peek() != Some('\\') {
            self.bump_nth(1);
            return TokenKind::Lit { kind: LitKind::Char { terminated: true } };
        }
        let mut terminated = false;
        loop
            invariant_except_break
                !terminated,
                quoted_end(self@.source, old(self)@.offset, '\'') == quoted_end(
                    self@.source,
                    self@.offset,
                    '\'',
                ),
            invariant
                self@.advanced_from(old(self)@),
            ensures
                quoted_end(self@.source, old(self)@.offset, '\'') == (
                    self@.offset,
                    terminated,
                ),
            decreases self@.source.len() - self@.offset,
        {
            match self.peek() {
                Some('\\') => {
                    self.bump_nth(1);
                },
                Some('\n') | None => {
                    break ;
                },
                Some('\'') => {
                    self.bump();
                    terminated = true;
                    break ;
                },
                Some(_) => {
                    self.bump();
                },
            }
        }

        TokenKind::Lit { kind: LitKind::Char { terminated } }
    }

    /// Scans a string literal whose opening quote has been consumed.
    pub fn eat_str_lit(&mut self) -> (kind: TokenKind)
        requires
            old(self)@.wf(),
            old(self)@.behind() == Some('"'),
        ensures
            final(self)@.advanced_from(old(self)@),
            (kind, final(self)@.offset) == str_lit(old(self)@.source, old(self)@.offset),
    {
        let mut terminated = false;
        loop
            invariant_except_break
                !terminated,
                quoted_end(self@.source, old(self)@.offset, '"') == quoted_end(
                    self@.source,
                    self@.offset,
                    '"',
                ),
            invariant
                self@.advanced_from(old(self)@),
            ensures
                quoted_end(self@.source, old(self)@.offset, '"') == (self@.offset, terminated),
            decreases self@.source.len() - self@.offset,
        {
            match self.peek() {
                Some('\\') => {
                    self.bump_nth(1);
                },
                Some('\n') | None => {
                    break ;
                },
                Some('"') => {
                    self.bump();
                    terminated = true;
                    break ;
                },
                Some(_) => {
                    self.bump();
                },
            }
        }

        TokenKind::Lit { kind: LitKind::Str { terminated } }
    }
}

} // verus!
