use rustle::error::Errors;
use rustle::text::{
    chars_of, decimal_text, escape_quotes, is_space, join_commas, split_commas, text_of, trim,
    unescape_quotes,
};

#[test]
fn escape_doubles_every_quote() {
    assert_eq!(escape_quotes("it's"), "it''s");
    assert_eq!(escape_quotes("''"), "''''");
    assert_eq!(escape_quotes(""), "");
    assert_eq!(escape_quotes("plain"), "plain");
    assert_eq!(escape_quotes("é'ü"), "é''ü");
}

#[test]
fn unescape_collapses_pairs_from_the_left() {
    assert_eq!(unescape_quotes("it''s"), "it's");
    assert_eq!(unescape_quotes("'''"), "''");
    assert_eq!(unescape_quotes("''''"), "''");
    assert_eq!(unescape_quotes("'"), "'");
    assert_eq!(unescape_quotes(""), "");
    assert_eq!(unescape_quotes("a'b"), "a'b");
}

#[test]
fn unescape_agrees_with_str_replace() {
    for s in ["", "'", "''", "'''", "a''b'c''''d", "x'y''z'''", "日本''語"] {
        assert_eq!(unescape_quotes(s), s.replace("''", "'"));
        assert_eq!(escape_quotes(s), s.replace("'", "''"));
    }
}

#[test]
fn unescape_undoes_escape() {
    for s in ["", "'", "''", "a'b''c'''", "User-agent: *\nDisallow: /it's", "ñ'ñ"] {
        assert_eq!(unescape_quotes(&escape_quotes(s)), s);
    }
}

#[test]
fn trim_removes_white_space_at_both_ends() {
    assert_eq!(trim("  a b \t\n"), "a b");
    assert_eq!(trim(""), "");
    assert_eq!(trim(" \u{a0}\u{3000} "), "");
    assert_eq!(trim("x"), "x");
    assert_eq!(trim("\u{2003}é \u{85}"), "é");
}

#[test]
fn trim_agrees_with_str_trim() {
    for s in ["", " ", " a", "a ", "\t\r\n a\u{b}\u{c} ", "\u{1680}x\u{202f}", "\u{200b}x\u{200b}", "\u{feff}x"] {
        assert_eq!(trim(s), s.trim());
    }
}

#[test]
fn is_space_agrees_with_char_is_whitespace() {
    let mut n: u32 = 0;
    while n <= 0x3100 {
        if let Some(c) = char::from_u32(n) {
            assert_eq!(is_space(c), c.is_whitespace(), "U+{:04X}", n);
        }
        n += 1;
    }
}

#[test]
fn split_gives_one_piece_more_than_commas() {
    assert_eq!(split_commas("a,b,c"), vec!["a", "b", "c"]);
    assert_eq!(split_commas(""), vec![""]);
    assert_eq!(split_commas(","), vec!["", ""]);
    assert_eq!(split_commas("a,"), vec!["a", ""]);
    assert_eq!(split_commas("no comma"), vec!["no comma"]);
}

#[test]
fn join_puts_a_comma_between_members() {
    assert_eq!(join_commas(&vec![]), "");
    assert_eq!(join_commas(&vec!["a".to_string()]), "a");
    assert_eq!(join_commas(&vec!["a".to_string(), "b".to_string(), "c".to_string()]), "a,b,c");
    assert_eq!(join_commas(&vec!["".to_string(), "".to_string()]), ",");
}

#[test]
fn split_undoes_join() {
    let parts = vec!["https://a.test/".to_string(), "".to_string(), "x y".to_string()];
    assert_eq!(split_commas(&join_commas(&parts)), parts);
}

#[test]
fn chars_and_text_convert_both_ways() {
    let v = chars_of("héllo");
    assert_eq!(v, vec!['h', 'é', 'l', 'l', 'o']);
    assert_eq!(text_of(&v, 1, 4), "éll");
    assert_eq!(text_of(&v, 2, 2), "");
}

#[test]
fn decimal_text_of_numbers() {
    assert_eq!(decimal_text(0), "0");
    assert_eq!(decimal_text(7), "7");
    assert_eq!(decimal_text(10), "10");
    assert_eq!(decimal_text(1234567890), "1234567890");
    assert_eq!(decimal_text(-42), "-42");
    assert_eq!(decimal_text(i64::MAX), "9223372036854775807");
    assert_eq!(decimal_text(i64::MIN), "-9223372036854775808");
}

#[test]
fn error_messages_name_their_kind() {
    assert_eq!(Errors::DatabaseError("locked".to_string()).message(), "Database error: locked");
    assert_eq!(Errors::ConfigError("no file".to_string()).message(), "Configuration error: no file");
    assert_eq!(Errors::NetworkError("timeout".to_string()).message(), "Network error: timeout");
    assert_eq!(Errors::EncodingError("not UTF-8".to_string()).message(), "Encoding error: not UTF-8");
    assert_eq!(Errors::ParseError("too large".to_string()).message(), "Parse error: too large");
    assert_eq!(Errors::Unknown.message(), "Unknown error");
}
