//! The lexical grammar, stated as functions of a text and a position in it.
//!
//! Every function here takes the whole text `s` and the position `i` of the
//! first character that has not been read yet, and says where the lexeme ends
//! and how it is classified.

use crate::chars::{digit, hex_digit, ident_continue, ident_start, newline, space, white_space};
use crate::token::{Base, CommentKind, Delim, LitKind, Punc, TokenKind};
use vstd::prelude::*;

verus! {

/// Where the longest run of characters accepted by `p` that starts at `i` ends.
pub open spec fn run_end(s: Seq<char>, i: int, p: spec_fn(char) -> bool) -> int
    decreases s.len() - i,
{
    if 0 <= i < s.len() && p(s[i]) {
        run_end(s, i + 1, p)
    } else {
        i
    }
}

/// A position `j` that a run from `i` reaches without meeting a character that
/// `p` refuses, and that is followed by none that `p` accepts, is where the
/// run ends.
pub proof fn lemma_run_end(s: Seq<char>, i: int, j: int, p: spec_fn(char) -> bool)
    requires
        0 <= i <= j <= s.len(),
        forall|k: int| i <= k < j ==> p(#[trigger] s[k]),
        j < s.len() ==> !p(s[j]),
    ensures
        run_end(s, i, p) == j,
    decreases j - i,
{
    if i < j {
        lemma_run_end(s, i + 1, j, p);
    }
}

/// Whitespace that stays on the line.
pub open spec fn in_space() -> spec_fn(char) -> bool {
    |c: char| space(c)
}

/// What may follow the first character of an identifier.
pub open spec fn in_ident() -> spec_fn(char) -> bool {
    |c: char| ident_continue(c)
}

/// Anything but a line terminator.
pub open spec fn in_line() -> spec_fn(char) -> bool {
    |c: char| !newline(c)
}

/// What a digit run is made of: digits of the radix class and underscores.
pub open spec fn in_digits(hex: bool) -> spec_fn(char) -> bool {
    |c: char| c == '_' || numeral(c, hex)
}

/// A character that counts as a digit in a run.
pub open spec fn numeral(c: char, hex: bool) -> bool {
    if hex {
        hex_digit(c)
    } else {
        digit(c)
    }
}

/// No character of `s` in `[i, j)` counts as a digit.
pub open spec fn no_numeral(s: Seq<char>, i: int, j: int, hex: bool) -> bool {
    forall|k: int| i <= k < j ==> !numeral(#[trigger] s[k], hex)
}

/// A whitespace lexeme whose first character `first` has been read: one line
/// terminator (CR LF counts as one), or a run of other whitespace.
pub open spec fn blank(s: Seq<char>, i: int, first: char) -> (TokenKind, int) {
    if newline(first) {
        if first == '\r' && i < s.len() && s[i] == '\n' {
            (TokenKind::Newline, i + 1)
        } else {
            (TokenKind::Newline, i)
        }
    } else {
        (TokenKind::Space, run_end(s, i, in_space()))
    }
}

/// The flavour of a comment, read off the character at `i`: `outer` marks
/// outer documentation, `!` inner documentation.
pub open spec fn doc_kind(s: Seq<char>, i: int, outer: char) -> CommentKind {
    if i < s.len() && s[i] == outer {
        CommentKind::OuterDoc
    } else if i < s.len() && s[i] == '!' {
        CommentKind::InnerDoc
    } else {
        CommentKind::Normal
    }
}

/// A line comment whose first `/` has been read and whose second `/` is at
/// `i`: it runs up to the next line terminator.
pub open spec fn line_comment(s: Seq<char>, i: int) -> (TokenKind, int) {
    (TokenKind::LineComment { kind: doc_kind(s, i + 1, '/') }, run_end(s, i + 1, in_line()))
}

/// Where a block comment that is `depth` levels deep at `i` ends, and whether
/// it was closed. `/*` opens a level and `*/` closes one; a text that ends
/// first leaves the comment open.
pub open spec fn nested_end(s: Seq<char>, i: int, depth: nat) -> (int, bool)
    decreases s.len() - i,
{
    if i + 1 >= s.len() {
        (s.len() as int, false)
    } else if s[i] == '/' && s[i + 1] == '*' {
        nested_end(s, i + 2, depth + 1)
    } else if s[i] == '*' && s[i + 1] == '/' {
        if depth <= 1 {
            (i + 2, true)
        } else {
            nested_end(s, i + 2, (depth - 1) as nat)
        }
    } else {
        nested_end(s, i + 1, depth)
    }
}

/// Characters that neither open nor close a level leave the scan of a block
/// comment where it was.
pub proof fn lemma_nested_skip(s: Seq<char>, i: int, j: int, depth: nat)
    requires
        0 <= i <= j <= s.len(),
        forall|k: int| i <= k < j ==> (#[trigger] s[k]) != '*' && s[k] != '/',
    ensures
        nested_end(s, i, depth) == nested_end(s, j, depth),
    decreases j - i,
{
    if i < j {
        lemma_nested_skip(s, i + 1, j, depth);
    }
}

/// A block comment whose `/` has been read and whose `*` is at `i`.
pub open spec fn block_comment(s: Seq<char>, i: int) -> (TokenKind, int) {
    if i + 2 < s.len() && s[i + 1] == '*' && s[i + 2] == '/' {
        (TokenKind::BlockComment { kind: CommentKind::Normal, terminated: true }, i + 3)
    } else {
        let (end, terminated) = nested_end(s, i + 1, 1);
        (TokenKind::BlockComment { kind: doc_kind(s, i + 1, '*'), terminated }, end)
    }
}

/// The base that a prefix letter announces.
pub open spec fn prefix_base(c: char) -> Option<Base> {
    if c == 'b' {
        Some(Base::Binary)
    } else if c == 'o' {
        Some(Base::Octal)
    } else if c == 'x' {
        Some(Base::Hexadecimal)
    } else {
        None
    }
}

/// The base prefix at `i`, after a first digit `first`.
pub open spec fn prefix_at(s: Seq<char>, i: int, first: char) -> Option<Base> {
    if first == '0' && i < s.len() {
        prefix_base(s[i])
    } else {
        None
    }
}

/// An exponent whose marker has been read: an optional sign and a decimal
/// digit run. Gives where it ends and whether the run holds no digit.
pub open spec fn exponent(s: Seq<char>, i: int) -> (int, bool) {
    let from = if i < s.len() && (s[i] == '+' || s[i] == '-') {
        i + 1
    } else {
        i
    };
    let end = run_end(s, from, in_digits(false));
    (end, no_numeral(s, from, end, false))
}

/// There is a fraction at `i`: a dot with a decimal digit right behind it.
pub open spec fn fraction_at(s: Seq<char>, i: int) -> bool {
    i + 1 < s.len() && s[i] == '.' && digit(s[i + 1])
}

/// There is an exponent marker at `i`.
pub open spec fn exponent_at(s: Seq<char>, i: int) -> bool {
    i < s.len() && (s[i] == 'e' || s[i] == 'E')
}

/// What follows the integer digits of a number that end at `i`: an optional
/// fraction and an optional exponent.
pub open spec fn number_tail(s: Seq<char>, i: int, base: Base) -> (LitKind, int) {
    let fraction = fraction_at(s, i);
    let mid = if fraction {
        run_end(s, i + 1, in_digits(false))
    } else {
        i
    };
    if exponent_at(s, mid) {
        let (end, exp_empty) = exponent(s, mid + 1);
        (LitKind::Float { base, exp_empty }, end)
    } else if fraction {
        (LitKind::Float { base, exp_empty: false }, mid)
    } else {
        (LitKind::Int { base, empty: false }, mid)
    }
}

/// A numeric literal whose first digit `first` has been read.
pub open spec fn number(s: Seq<char>, i: int, first: char) -> (LitKind, int) {
    match prefix_at(s, i, first) {
        Some(base) => {
            let hex = base == Base::Hexadecimal;
            let end = run_end(s, i + 1, in_digits(hex));
            if no_numeral(s, i + 1, end, hex) {
                (LitKind::Int { base, empty: true }, end)
            } else {
                number_tail(s, end, base)
            }
        },
        None => number_tail(s, run_end(s, i, in_digits(false)), Base::Decimal),
    }
}

/// Where a quoted literal whose opening quote has been read ends, and whether
/// it was closed. A backslash takes the next character with it, whatever it
/// is; a line feed or the end of the text leaves the literal open.
pub open spec fn quoted_end(s: Seq<char>, i: int, quote: char) -> (int, bool)
    decreases s.len() - i,
{
    if i >= s.len() {
        (s.len() as int, false)
    } else if s[i] == '\\' {
        if i + 1 < s.len() {
            quoted_end(s, i + 2, quote)
        } else {
            (s.len() as int, false)
        }
    } else if s[i] == '\n' {
        (i, false)
    } else if s[i] == quote {
        (i + 1, true)
    } else {
        quoted_end(s, i + 1, quote)
    }
}

/// A string literal whose opening quote has been read.
pub open spec fn str_lit(s: Seq<char>, i: int) -> (TokenKind, int) {
    let (end, terminated) = quoted_end(s, i, '"');
    (TokenKind::Lit { kind: LitKind::Str { terminated } }, end)
}

/// A character literal whose opening quote has been read. One character that
/// is no backslash, with a quote right behind it, is a whole literal.
pub open spec fn char_lit(s: Seq<char>, i: int) -> (TokenKind, int) {
    if i + 1 < s.len() && s[i + 1] == '\'' && s[i] != '\\' {
        (TokenKind::Lit { kind: LitKind::Char { terminated: true } }, i + 2)
    } else {
        let (end, terminated) = quoted_end(s, i, '\'');
        (TokenKind::Lit { kind: LitKind::Char { terminated } }, end)
    }
}

/// The lexeme that a single character makes by itself.
pub open spec fn symbol(c: char) -> TokenKind {
    if c == '+' {
        TokenKind::Punc(Punc::Plus)
    } else if c == '-' {
        TokenKind::Punc(Punc::Minus)
    } else if c == '*' {
        TokenKind::Punc(Punc::Star)
    } else if c == '/' {
        TokenKind::Punc(Punc::Slash)
    } else if c == '%' {
        TokenKind::Punc(Punc::Perc)
    } else if c == '&' {
        TokenKind::Punc(Punc::Amp)
    } else if c == '|' {
        TokenKind::Punc(Punc::Bar)
    } else if c == '^' {
        TokenKind::Punc(Punc::Caret)
    } else if c == '!' {
        TokenKind::Punc(Punc::Bang)
    } else if c == '=' {
        TokenKind::Punc(Punc::Eq)
    } else if c == '<' {
        TokenKind::Punc(Punc::Lt)
    } else if c == '>' {
        TokenKind::Punc(Punc::Gt)
    } else if c == '.' {
        TokenKind::Punc(Punc::Dot)
    } else if c == ',' {
        TokenKind::Punc(Punc::Comma)
    } else if c == ':' {
        TokenKind::Punc(Punc::Colon)
    } else if c == ';' {
        TokenKind::Punc(Punc::Semi)
    } else if c == '(' {
        TokenKind::Open(Delim::Paren)
    } else if c == '[' {
        TokenKind::Open(Delim::Brack)
    } else if c == '{' {
        TokenKind::Open(Delim::Brace)
    } else if c == ')' {
        TokenKind::Close(Delim::Paren)
    } else if c == ']' {
        TokenKind::Close(Delim::Brack)
    } else if c == '}' {
        TokenKind::Close(Delim::Brace)
    } else {
        TokenKind::Unknown
    }
}

/// The lexeme that begins with `first`, read just before `i`, given whether
/// `first` is whitespace and whether it may begin an identifier. The classes
/// are tried in this order: whitespace, identifier, number, comment, string,
/// character, single symbol.
pub open spec fn lexeme(s: Seq<char>, i: int, first: char, whitespace: bool, starts_ident: bool) -> (
    TokenKind,
    int,
) {
    if whitespace {
        blank(s, i, first)
    } else if starts_ident {
        (TokenKind::Ident, run_end(s, i, in_ident()))
    } else if digit(first) {
        let (kind, end) = number(s, i, first);
        (TokenKind::Lit { kind }, end)
    } else if first == '/' && i < s.len() && s[i] == '/' {
        line_comment(s, i)
    } else if first == '/' && i < s.len() && s[i] == '*' {
        block_comment(s, i)
    } else if first == '"' {
        str_lit(s, i)
    } else if first == '\'' {
        char_lit(s, i)
    } else {
        (symbol(first), i)
    }
}

/// The class of the token that begins at `i`, and where it ends.
pub open spec fn token_at(s: Seq<char>, i: int) -> (TokenKind, int) {
    lexeme(s, i + 1, s[i], white_space(s[i]), ident_start(s[i]))
}

/// A run ends at or after its start and inside the text.
pub proof fn lemma_run_end_bounds(s: Seq<char>, i: int, p: spec_fn(char) -> bool)
    requires
        0 <= i <= s.len(),
    ensures
        i <= run_end(s, i, p) <= s.len(),
    decreases s.len() - i,
{
    if i < s.len() && p(s[i]) {
        lemma_run_end_bounds(s, i + 1, p);
    }
}

/// A block comment ends at or after the place it is scanned from and inside
/// the text.
pub proof fn lemma_nested_end_bounds(s: Seq<char>, i: int, depth: nat)
    requires
        0 <= i <= s.len(),
    ensures
        i <= nested_end(s, i, depth).0 <= s.len(),
    decreases s.len() - i,
{
    if i + 1 >= s.len() {
    } else if s[i] == '/' && s[i + 1] == '*' {
        lemma_nested_end_bounds(s, i + 2, depth + 1);
    } else if s[i] == '*' && s[i + 1] == '/' {
        if depth > 1 {
            lemma_nested_end_bounds(s, i + 2, (depth - 1) as nat);
        }
    } else {
        lemma_nested_end_bounds(s, i + 1, depth);
    }
}

/// A quoted literal ends at or after the place it is scanned from and inside
/// the text.
pub proof fn lemma_quoted_end_bounds(s: Seq<char>, i: int, quote: char)
    requires
        0 <= i <= s.len(),
    ensures
        i <= quoted_end(s, i, quote).0 <= s.len(),
    decreases s.len() - i,
{
    if i >= s.len() {
    } else if s[i] == '\\' {
        if i + 1 < s.len() {
            lemma_quoted_end_bounds(s, i + 2, quote);
        }
    } else if s[i] == '\n' {
    } else if s[i] == quote {
    } else {
        lemma_quoted_end_bounds(s, i + 1, quote);
    }
}

/// The tail of a number ends at or after the place it is scanned from and
/// inside the text.
pub proof fn lemma_number_tail_bounds(s: Seq<char>, i: int, base: Base)
    requires
        0 <= i <= s.len(),
    ensures
        i <= number_tail(s, i, base).1 <= s.len(),
{
    let mid = if fraction_at(s, i) {
        run_end(s, i + 1, in_digits(false))
    } else {
        i
    };
    if fraction_at(s, i) {
        lemma_run_end_bounds(s, i + 1, in_digits(false));
    }
    if exponent_at(s, mid) {
        let from = if mid + 1 < s.len() && (s[mid + 1] == '+' || s[mid + 1] == '-') {
            mid + 2
        } else {
            mid + 1
        };
        lemma_run_end_bounds(s, from, in_digits(false));
    }
}

/// A number ends at or after the place it is scanned from and inside the text.
pub proof fn lemma_number_bounds(s: Seq<char>, i: int, first: char)
    requires
        0 <= i <= s.len(),
    ensures
        i <= number(s, i, first).1 <= s.len(),
{
    match prefix_at(s, i, first) {
        Some(base) => {
            let hex = base == Base::Hexadecimal;
            lemma_run_end_bounds(s, i + 1, in_digits(hex));
            lemma_number_tail_bounds(s, run_end(s, i + 1, in_digits(hex)), base);
        },
        None => {
            lemma_run_end_bounds(s, i, in_digits(false));
            lemma_number_tail_bounds(s, run_end(s, i, in_digits(false)), Base::Decimal);
        },
    }
}

/// Whatever the first character and its classes, the lexeme ends at or after
/// the place it is scanned from and inside the text.
pub proof fn lemma_lexeme_bounds(
    s: Seq<char>,
    i: int,
    first: char,
    whitespace: bool,
    starts_ident: bool,
)
    requires
        0 <= i <= s.len(),
    ensures
        i <= lexeme(s, i, first, whitespace, starts_ident).1 <= s.len(),
{
    lemma_run_end_bounds(s, i, in_space());
    lemma_run_end_bounds(s, i, in_ident());
    lemma_number_bounds(s, i, first);
    lemma_quoted_end_bounds(s, i, '"');
    lemma_quoted_end_bounds(s, i, '\'');
    if i < s.len() {
        lemma_run_end_bounds(s, i + 1, in_line());
        lemma_nested_end_bounds(s, i + 1, 1);
    }
}

/// Every token holds at least one character and ends inside the text.
pub proof fn lemma_token_bounds(s: Seq<char>, i: int)
    requires
        0 <= i < s.len(),
    ensures
        i < token_at(s, i).1 <= s.len(),
{
    lemma_lexeme_bounds(s, i + 1, s[i], white_space(s[i]), ident_start(s[i]));
}

} // verus!
