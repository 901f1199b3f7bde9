//! A lexer: turns source text into a stream of classified tokens.
//!
//! A [`cursor::Cursor`] is made for a text and asked for one token after
//! another with [`cursor::Cursor::next_token`], until it answers `None`. Each
//! [`token::Token`] holds the class of a lexeme and the number of characters
//! it spans; the text itself is not copied into the tokens. Malformed input
//! never stops the lexer: an unterminated literal or comment, or a number
//! without digits, is a token with a flag, and a character that begins no
//! lexeme is a token of its own.
//!
//! - [`token`]: the tokens.
//! - [`chars`]: the character classes.
//! - [`cursor`]: the reader that the scanners move along the text.
//! - [`grammar`]: where each kind of lexeme ends and how it is classified,
//!   as functions of a text and a position.
//! - [`lex`]: the scanners, proved against [`grammar`].
//! - [`stream`]: the token sequence of a whole text; its tokens cover the
//!   text without gap or overlap, and each holds at least one character.

pub mod chars;
pub mod cursor;
pub mod grammar;
pub mod lex;
pub mod stream;
pub mod token;
