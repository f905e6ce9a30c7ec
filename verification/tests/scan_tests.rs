use sass_front::chars::{as_hex, hex_char_for, is_name, is_name_start, is_whitespace};
use sass_front::error::Error;
use sass_front::lexer::{Lexer, Token};
use sass_front::scan::{
    encode_escape, peek_escape, peek_ident_body_no_interpolation, peek_ident_no_interpolation,
    peek_until_newline, span_between, Spanned,
};
use sass_front::span::Span;

fn lexer(text: &str) -> Lexer {
    let mut buf = Vec::new();
    for (i, c) in text.chars().enumerate() {
        buf.push(Token { kind: c, pos: Span::new(i as u32, i as u32 + 1) });
    }
    Lexer::new(buf)
}

fn ident(text: &str, unit: bool) -> (Result<Spanned<String>, Error>, usize, usize) {
    let mut toks = lexer(text);
    let r = peek_ident_no_interpolation(&mut toks, unit, Span::new(100, 101));
    (r, toks.lookahead(), toks.committed())
}

fn found(text: &str, start: u32, end: u32) -> Result<Spanned<String>, Error> {
    Ok(Spanned { node: text.to_string(), span: Span::new(start, end) })
}

fn failure<T>(message: &str, start: u32, end: u32) -> Result<T, Error> {
    Err(Error { message: message.to_string(), span: Span::new(start, end) })
}

#[test]
fn escape_of_hex_41_is_the_letter() {
    let mut toks = lexer("41");
    assert_eq!(peek_escape(&mut toks), Ok("A".to_string()));
    assert_eq!(toks.lookahead(), 2);
    assert_eq!(toks.committed(), 0);
}

#[test]
fn escape_of_control_is_written_in_hex() {
    let mut toks = lexer("1f");
    assert_eq!(peek_escape(&mut toks), Ok("\\1f ".to_string()));
    let mut upper = lexer("1F");
    assert_eq!(peek_escape(&mut upper), Ok("\\1f ".to_string()));
}

#[test]
fn escape_of_small_control_has_one_digit() {
    let mut toks = lexer("9");
    assert_eq!(peek_escape(&mut toks), Ok("\\9 ".to_string()));
    let mut zero = lexer("0");
    assert_eq!(peek_escape(&mut zero), Ok("\\0 ".to_string()));
}

#[test]
fn escape_of_delete_is_written_in_hex() {
    let mut toks = lexer("7f");
    assert_eq!(peek_escape(&mut toks), Ok("\\7f ".to_string()));
}

#[test]
fn escape_before_newline_fails() {
    let mut toks = lexer("\nx");
    assert_eq!(peek_escape(&mut toks), failure("Expected escape sequence.", 0, 1));
    assert_eq!(toks.lookahead(), 0);
}

#[test]
fn escape_of_surrogate_fails_over_its_digits() {
    let mut toks = lexer("d800 x");
    assert_eq!(peek_escape(&mut toks), failure("Invalid escape sequence.", 0, 4));
    assert_eq!(toks.lookahead(), 5);
}

#[test]
fn escape_beyond_unicode_fails() {
    let mut toks = lexer("110000");
    assert_eq!(peek_escape(&mut toks), failure("Invalid escape sequence.", 0, 6));
}

#[test]
fn escape_reads_six_digits_at_most() {
    let mut toks = lexer("0000411");
    assert_eq!(peek_escape(&mut toks), Ok("A".to_string()));
    assert_eq!(toks.lookahead(), 6);
}

#[test]
fn escape_takes_one_space_behind_the_digits() {
    let mut toks = lexer("41  b");
    assert_eq!(peek_escape(&mut toks), Ok("A".to_string()));
    assert_eq!(toks.lookahead(), 3);
}

#[test]
fn escape_of_other_character_keeps_the_backslash() {
    let mut toks = lexer("!x");
    assert_eq!(peek_escape(&mut toks), Ok("\\!".to_string()));
    assert_eq!(toks.lookahead(), 1);
    let mut space = lexer(" ");
    assert_eq!(peek_escape(&mut space), Ok("\\ ".to_string()));
}

#[test]
fn escape_of_name_character_is_the_character() {
    let mut toks = lexer("g");
    assert_eq!(peek_escape(&mut toks), Ok("g".to_string()));
    assert_eq!(toks.lookahead(), 1);
}

#[test]
fn escape_at_end_of_input_is_empty() {
    let mut toks = lexer("");
    assert_eq!(peek_escape(&mut toks), Ok(String::new()));
    assert_eq!(toks.lookahead(), 0);
}

#[test]
fn escape_of_astral_code_point() {
    let mut toks = lexer("1F600");
    assert_eq!(peek_escape(&mut toks), Ok("\u{1F600}".to_string()));
}

#[test]
fn encode_escape_forms() {
    assert_eq!(encode_escape('A'), "A");
    assert_eq!(encode_escape('\u{1f}'), "\\1f ");
    assert_eq!(encode_escape('\u{a}'), "\\a ");
    assert_eq!(encode_escape('('), "\\(");
}

#[test]
fn ident_with_two_dashes() {
    let (r, lookahead, committed) = ident("--foo", false);
    assert_eq!(r, found("--foo", 0, 5));
    assert_eq!(lookahead, 5);
    assert_eq!(committed, 0);
}

#[test]
fn ident_dash_digit_in_unit_mode_fails() {
    let (r, lookahead, _) = ident("-1", true);
    assert_eq!(r, failure("Expected identifier.", 1, 2));
    assert_eq!(lookahead, 1);
}

#[test]
fn ident_of_lone_dash() {
    let (r, lookahead, _) = ident("-", false);
    assert_eq!(r, found("-", 0, 1));
    assert_eq!(lookahead, 1);
}

#[test]
fn ident_at_end_of_input_blames_span_before() {
    let (r, _, _) = ident("", false);
    assert_eq!(r, failure("Expected identifier.", 100, 101));
}

#[test]
fn ident_cannot_start_with_digit() {
    let (r, lookahead, _) = ident("1a", false);
    assert_eq!(r, failure("Expected identifier.", 0, 1));
    assert_eq!(lookahead, 0);
}

#[test]
fn ident_stops_at_other_character() {
    let (r, lookahead, _) = ident("foo-bar_9: x", false);
    assert_eq!(r, found("foo-bar_9", 0, 9));
    assert_eq!(lookahead, 9);
}

#[test]
fn ident_unit_mode_leaves_dash_before_digit() {
    let (r, lookahead, _) = ident("em-2", true);
    assert_eq!(r, found("em", 0, 2));
    assert_eq!(lookahead, 2);
    let (plain, end, _) = ident("em-2", false);
    assert_eq!(plain, found("em-2", 0, 4));
    assert_eq!(end, 4);
}

#[test]
fn ident_unit_mode_leaves_dash_before_dot() {
    let (r, lookahead, _) = ident("px-.5", true);
    assert_eq!(r, found("px", 0, 2));
    assert_eq!(lookahead, 2);
}

#[test]
fn ident_unit_mode_keeps_other_dashes() {
    let (r, _, _) = ident("a-b", true);
    assert_eq!(r, found("a-b", 0, 3));
    let (last, lookahead, _) = ident("a-", true);
    assert_eq!(last, found("a-", 0, 2));
    assert_eq!(lookahead, 2);
}

#[test]
fn ident_decodes_escapes() {
    let (r, lookahead, _) = ident("f\\6f o", false);
    assert_eq!(r, found("foo", 0, 6));
    assert_eq!(lookahead, 6);
}

#[test]
fn ident_may_start_with_escape() {
    let (r, _, _) = ident("\\31 a", false);
    assert_eq!(r, found("1a", 0, 5));
    let (dash, _, _) = ident("-\\!x", false);
    assert_eq!(dash, found("-\\!x", 0, 4));
}

#[test]
fn ident_passes_escape_failure_on() {
    let (r, _, _) = ident("a\\\nb", false);
    assert_eq!(r, failure("Expected escape sequence.", 2, 3));
    let (first, _, _) = ident("\\d800", false);
    assert_eq!(first, failure("Invalid escape sequence.", 1, 5));
}

#[test]
fn ident_takes_code_points_from_0x80() {
    let (r, _, _) = ident("\u{e9}t\u{e9}", false);
    assert_eq!(r, found("\u{e9}t\u{e9}", 0, 3));
}

#[test]
fn ident_scanned_again_gives_the_same_text() {
    let (first, _, _) = ident("a\\1f b\\(c", false);
    let text = first.unwrap().node;
    assert_eq!(text, "a\\1f b\\(c");
    let (second, _, _) = ident(&text, false);
    assert_eq!(second.unwrap().node, text);
}

#[test]
fn ident_body_merges_into_given_span() {
    let mut toks = lexer("ab c");
    let r = peek_ident_body_no_interpolation(&mut toks, false, Span::new(7, 9));
    assert_eq!(r, found("ab", 0, 9));
    let mut none = lexer(" ");
    let empty = peek_ident_body_no_interpolation(&mut none, false, Span::new(7, 9));
    assert_eq!(empty, found("", 7, 9));
}

#[test]
fn until_newline_commits_up_to_the_newline() {
    let mut toks = lexer("ab\ncd");
    toks.peek_forward(1);
    peek_until_newline(&mut toks);
    assert_eq!(toks.lookahead(), 2);
    assert_eq!(toks.committed(), 2);
    peek_until_newline(&mut toks);
    assert_eq!(toks.lookahead(), 2);
    assert_eq!(toks.committed(), 2);
}

#[test]
fn until_newline_without_newline_reaches_the_end() {
    let mut toks = lexer("abc");
    peek_until_newline(&mut toks);
    assert_eq!(toks.lookahead(), 3);
    assert_eq!(toks.committed(), 3);
    assert_eq!(toks.peek(), None);
}

#[test]
fn lexer_cursors_move_as_told() {
    let mut toks = lexer("abc");
    assert_eq!(toks.len(), 3);
    assert_eq!(toks.peek().map(|t| t.kind), Some('a'));
    assert_eq!(toks.peek_forward(2).map(|t| t.kind), Some('c'));
    assert_eq!(toks.peek_backward(1).map(|t| t.kind), Some('b'));
    assert_eq!(toks.peek_backward(5), None);
    assert_eq!(toks.lookahead(), 1);
    assert_eq!(toks.peek_forward(9), None);
    assert_eq!(toks.lookahead(), 3);
    toks.advance_cursor();
    assert_eq!(toks.committed(), 1);
    assert_eq!(toks.lookahead(), 3);
    toks.reset_cursor();
    assert_eq!(toks.lookahead(), 1);
    toks.advance_cursor();
    assert_eq!((toks.committed(), toks.lookahead()), (2, 2));
    toks.advance_cursor();
    toks.advance_cursor();
    assert_eq!((toks.committed(), toks.lookahead()), (3, 3));
    assert_eq!(toks.get(0).map(|t| t.pos), Some(Span::new(0, 1)));
}

#[test]
fn span_merge_is_the_hull() {
    let a = Span::new(3, 5);
    let b = Span::new(1, 4);
    assert_eq!(a.merge(b), Span::new(1, 5));
    assert_eq!(b.merge(a), Span::new(1, 5));
    assert!(a.merge(b).contains(a));
    assert!(!a.contains(b));
    let toks = lexer("abcd");
    assert_eq!(span_between(&toks, 1, 3), Span::new(1, 3));
}

#[test]
fn character_classes() {
    assert!(is_name_start('a') && is_name_start('Z') && is_name_start('_'));
    assert!(is_name_start('\u{80}') && !is_name_start('\u{7f}'));
    assert!(!is_name_start('-') && !is_name_start('0'));
    assert!(is_name('-') && is_name('7') && !is_name('.'));
    assert!(is_whitespace(' ') && is_whitespace('\n') && is_whitespace('\u{3000}'));
    assert!(!is_whitespace('a'));
    assert_eq!(as_hex('0'), 0);
    assert_eq!(as_hex('a'), 10);
    assert_eq!(as_hex('F'), 15);
    assert_eq!(hex_char_for(0), '0');
    assert_eq!(hex_char_for(11), 'b');
    for v in 0..16 {
        assert_eq!(as_hex(hex_char_for(v)), v);
    }
}
