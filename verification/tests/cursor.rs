use levoc_lexer::chars::{
    is_digit, is_hex_digit, is_ident_continue, is_ident_start, is_newline, is_space,
};
use levoc_lexer::cursor::Cursor;
use levoc_lexer::token::{Base, CommentKind, LitKind, Punc, Token, TokenKind};

#[test]
fn new_cursor_stands_at_the_beginning() {
    let cursor = Cursor::new("ab");
    assert_eq!(cursor.pos(), 0);
    assert_eq!(cursor.prev(), None);
    assert_eq!(cursor.peek(), Some('a'));
}

#[test]
fn bump_consumes_one_character() {
    let mut cursor = Cursor::new("ab");
    assert_eq!(cursor.bump(), Some('a'));
    assert_eq!(cursor.pos(), 1);
    assert_eq!(cursor.prev(), Some('a'));
    assert_eq!(cursor.bump(), Some('b'));
    assert_eq!(cursor.pos(), 2);
    assert_eq!(cursor.prev(), Some('b'));
}

#[test]
fn bump_at_the_end_changes_nothing() {
    let mut cursor = Cursor::new("a");
    assert_eq!(cursor.bump(), Some('a'));
    assert_eq!(cursor.bump(), None);
    assert_eq!(cursor.bump(), None);
    assert_eq!(cursor.pos(), 1);
    assert_eq!(cursor.prev(), Some('a'));
    let mut empty = Cursor::new("");
    assert_eq!(empty.bump(), None);
    assert_eq!(empty.pos(), 0);
    assert_eq!(empty.prev(), None);
}

#[test]
fn peek_does_not_consume() {
    let mut cursor = Cursor::new("abc");
    assert_eq!(cursor.peek(), Some('a'));
    assert_eq!(cursor.peek(), Some('a'));
    assert_eq!(cursor.peek_nth(0), Some('a'));
    assert_eq!(cursor.peek_nth(1), Some('b'));
    assert_eq!(cursor.peek_nth(2), Some('c'));
    assert_eq!(cursor.peek_nth(3), None);
    assert_eq!(cursor.peek_nth(usize::MAX), None);
    assert_eq!(cursor.pos(), 0);
    assert_eq!(cursor.bump(), Some('a'));
    assert_eq!(cursor.peek(), Some('b'));
    assert_eq!(cursor.peek_nth(1), Some('c'));
    assert_eq!(cursor.peek_nth(2), None);
}

#[test]
fn peek_at_the_end_is_none() {
    let mut cursor = Cursor::new("a");
    cursor.bump();
    assert_eq!(cursor.peek(), None);
    assert_eq!(cursor.peek_nth(0), None);
}

#[test]
fn bump_nth_consumes_up_to_and_with_the_nth() {
    let mut cursor = Cursor::new("abcd");
    assert_eq!(cursor.bump_nth(1), Some('b'));
    assert_eq!(cursor.pos(), 2);
    assert_eq!(cursor.prev(), Some('b'));
    assert_eq!(cursor.bump_nth(0), Some('c'));
    assert_eq!(cursor.pos(), 3);
    assert_eq!(cursor.peek(), Some('d'));
}

#[test]
fn bump_nth_past_the_end_consumes_the_rest() {
    let mut cursor = Cursor::new("abc");
    assert_eq!(cursor.bump_nth(3), None);
    assert_eq!(cursor.pos(), 3);
    assert_eq!(cursor.peek(), None);
    assert_eq!(cursor.bump_nth(0), None);
    assert_eq!(cursor.pos(), 3);
    let mut other = Cursor::new("ab");
    assert_eq!(other.bump_nth(usize::MAX), None);
    assert_eq!(other.pos(), 2);
}

#[test]
fn rebase_resets_the_count_only() {
    let mut cursor = Cursor::new("abc");
    cursor.bump();
    cursor.bump();
    assert_eq!(cursor.pos(), 2);
    cursor.rebase();
    assert_eq!(cursor.pos(), 0);
    assert_eq!(cursor.prev(), Some('b'));
    assert_eq!(cursor.peek(), Some('c'));
    cursor.bump();
    assert_eq!(cursor.pos(), 1);
}

#[test]
fn bump_while_stops_at_the_first_refusal() {
    let mut cursor = Cursor::new("aaab");
    cursor.bump_while(|c| c == 'a');
    assert_eq!(cursor.pos(), 3);
    assert_eq!(cursor.peek(), Some('b'));
    cursor.bump_while(|c| c == 'a');
    assert_eq!(cursor.pos(), 3);
}

#[test]
fn bump_while_stops_at_the_end() {
    let mut cursor = Cursor::new("aaa");
    cursor.bump_while(|_| true);
    assert_eq!(cursor.pos(), 3);
    assert_eq!(cursor.peek(), None);
    cursor.bump_while(|_| true);
    assert_eq!(cursor.pos(), 3);
}

#[test]
fn characters_are_counted_not_bytes() {
    let mut cursor = Cursor::new("\u{00E9}\u{3000}\u{10FFFF}");
    assert_eq!(cursor.bump(), Some('\u{00E9}'));
    assert_eq!(cursor.bump(), Some('\u{3000}'));
    assert_eq!(cursor.bump(), Some('\u{10FFFF}'));
    assert_eq!(cursor.pos(), 3);
    assert_eq!(cursor.bump(), None);
}

#[test]
fn token_length_counts_from_the_last_rebase() {
    let mut cursor = Cursor::new("ab cd");
    cursor.bump();
    cursor.rebase();
    assert_eq!(cursor.next_token(), Some(Token::new(TokenKind::Ident, 1)));
    assert_eq!(cursor.pos(), 0);
    cursor.bump();
    assert_eq!(cursor.next_token(), Some(Token::new(TokenKind::Ident, 3)));
}

#[test]
fn dispatch_goes_by_the_classes_it_is_given() {
    let mut cursor = Cursor::new("12.5 x");
    let first = cursor.bump().unwrap();
    assert_eq!(
        cursor.dispatch(first, false, false),
        TokenKind::Lit { kind: LitKind::Float { base: Base::Decimal, exp_empty: false } }
    );
    assert_eq!(cursor.pos(), 4);

    let mut cursor = Cursor::new("\r\n");
    let first = cursor.bump().unwrap();
    assert_eq!(cursor.dispatch(first, true, false), TokenKind::Newline);
    assert_eq!(cursor.pos(), 2);

    let mut cursor = Cursor::new("ab1+");
    let first = cursor.bump().unwrap();
    assert_eq!(cursor.dispatch(first, false, true), TokenKind::Ident);
    assert_eq!(cursor.pos(), 3);

    let mut cursor = Cursor::new("ab");
    let first = cursor.bump().unwrap();
    assert_eq!(cursor.dispatch(first, false, false), TokenKind::Unknown);
    assert_eq!(cursor.pos(), 1);

    let mut cursor = Cursor::new("/=");
    let first = cursor.bump().unwrap();
    assert_eq!(cursor.dispatch(first, false, false), TokenKind::Punc(Punc::Slash));
    assert_eq!(cursor.pos(), 1);
}

#[test]
fn scanners_take_up_after_the_first_character() {
    let mut cursor = Cursor::new("  \tx");
    let first = cursor.bump().unwrap();
    assert_eq!(cursor.eat_space(first), TokenKind::Space);
    assert_eq!(cursor.pos(), 3);

    let mut cursor = Cursor::new("name_1-");
    cursor.bump();
    assert_eq!(cursor.eat_ident(), TokenKind::Ident);
    assert_eq!(cursor.pos(), 6);

    let mut cursor = Cursor::new("0x_ff.");
    let first = cursor.bump().unwrap();
    assert_eq!(
        cursor.eat_num_lit(first),
        TokenKind::Lit { kind: LitKind::Int { base: Base::Hexadecimal, empty: false } }
    );
    assert_eq!(cursor.pos(), 5);

    let mut cursor = Cursor::new("/// x\ny");
    cursor.bump();
    assert_eq!(
        cursor.eat_line_comment(),
        TokenKind::LineComment { kind: CommentKind::OuterDoc }
    );
    assert_eq!(cursor.pos(), 5);

    let mut cursor = Cursor::new("/*! /* */ */x");
    cursor.bump();
    assert_eq!(
        cursor.eat_block_comment(),
        TokenKind::BlockComment { kind: CommentKind::InnerDoc, terminated: true }
    );
    assert_eq!(cursor.pos(), 12);

    let mut cursor = Cursor::new("'x'y");
    cursor.bump();
    assert_eq!(
        cursor.eat_char_lit(),
        TokenKind::Lit { kind: LitKind::Char { terminated: true } }
    );
    assert_eq!(cursor.pos(), 3);

    let mut cursor = Cursor::new("\"x\\\"");
    cursor.bump();
    assert_eq!(
        cursor.eat_str_lit(),
        TokenKind::Lit { kind: LitKind::Str { terminated: false } }
    );
    assert_eq!(cursor.pos(), 4);
}

#[test]
fn digit_runs_say_whether_they_hold_a_digit() {
    let mut cursor = Cursor::new("1_2a");
    assert!(!cursor.eat_decimal_digits());
    assert_eq!(cursor.pos(), 3);

    let mut cursor = Cursor::new("__a");
    assert!(cursor.eat_decimal_digits());
    assert_eq!(cursor.pos(), 2);

    let mut cursor = Cursor::new("a");
    assert!(cursor.eat_decimal_digits());
    assert_eq!(cursor.pos(), 0);

    let mut cursor = Cursor::new("");
    assert!(cursor.eat_decimal_digits());
    assert!(cursor.eat_hexadecimal_digits());

    let mut cursor = Cursor::new("fF_9g");
    assert!(!cursor.eat_hexadecimal_digits());
    assert_eq!(cursor.pos(), 4);

    let mut cursor = Cursor::new("_g");
    assert!(cursor.eat_hexadecimal_digits());
    assert_eq!(cursor.pos(), 1);

    let mut cursor = Cursor::new("ff");
    assert!(cursor.eat_decimal_digits());
    assert_eq!(cursor.pos(), 0);
}

#[test]
fn exponent_takes_one_sign() {
    let mut cursor = Cursor::new("e+12x");
    cursor.bump();
    assert!(!cursor.eat_float_lit_exp());
    assert_eq!(cursor.pos(), 4);

    let mut cursor = Cursor::new("E-");
    cursor.bump();
    assert!(cursor.eat_float_lit_exp());
    assert_eq!(cursor.pos(), 2);

    let mut cursor = Cursor::new("e7");
    cursor.bump();
    assert!(!cursor.eat_float_lit_exp());
    assert_eq!(cursor.pos(), 2);

    let mut cursor = Cursor::new("e++1");
    cursor.bump();
    assert!(cursor.eat_float_lit_exp());
    assert_eq!(cursor.pos(), 2);
}

#[test]
fn line_terminators() {
    for c in ['\n', '\r', '\u{0085}', '\u{2028}', '\u{2029}'] {
        assert!(is_newline(c));
        assert!(!is_space(c));
    }
    for c in [' ', '\t', '\u{000B}', '\u{000C}', 'a', '0', '\u{00A0}'] {
        assert!(!is_newline(c));
    }
}

#[test]
fn spaces_are_whitespace_that_ends_no_line() {
    for c in [' ', '\t', '\u{000B}', '\u{000C}', '\u{00A0}', '\u{1680}', '\u{2003}', '\u{3000}'] {
        assert!(is_space(c));
    }
    for c in ['a', '0', '_', '/', '\u{0}', '\u{200B}', '\u{FEFF}'] {
        assert!(!is_space(c));
    }
}

#[test]
fn identifier_characters() {
    for c in ['a', 'Z', '_', '\u{00E9}', '\u{4E2D}'] {
        assert!(is_ident_start(c));
        assert!(is_ident_continue(c));
    }
    for c in ['0', '9', '\u{0301}'] {
        assert!(!is_ident_start(c));
        assert!(is_ident_continue(c));
    }
    for c in [' ', '-', '/', '"', '\'', '\n', '$', '\u{2192}'] {
        assert!(!is_ident_start(c));
        assert!(!is_ident_continue(c));
    }
}

#[test]
fn digits() {
    for c in ['0', '5', '9'] {
        assert!(is_digit(c));
        assert!(is_hex_digit(c));
    }
    for c in ['a', 'f', 'A', 'F'] {
        assert!(!is_digit(c));
        assert!(is_hex_digit(c));
    }
    for c in ['g', 'G', '_', '/', ':', '@', '`', '\u{0660}', '\u{FF11}'] {
        assert!(!is_digit(c));
        assert!(!is_hex_digit(c));
    }
}

#[test]
fn radix_of_each_base() {
    assert_eq!(Base::Binary.radix(), 2);
    assert_eq!(Base::Octal.radix(), 8);
    assert_eq!(Base::Decimal.radix(), 10);
    assert_eq!(Base::Hexadecimal.radix(), 16);
}

#[test]
fn token_new_keeps_kind_and_length() {
    let token = Token::new(TokenKind::Ident, 7);
    assert_eq!(token.kind, TokenKind::Ident);
    assert_eq!(token.len, 7);
    let empty = Token::new(TokenKind::Unknown, 0);
    assert_eq!(empty.len, 0);
}
