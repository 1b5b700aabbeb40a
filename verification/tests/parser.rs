use asn1rs::parser::{Token, Tokenizer};

#[test]
fn test_separator_tokens_not_merged() {
    let result = Tokenizer.parse(":;=(){}.,");
    let mut iter = result.into_iter();
    assert!(iter.next().unwrap().eq_separator(':'));
    assert!(iter.next().unwrap().eq_separator(';'));
    assert!(iter.next().unwrap().eq_separator('='));
    assert!(iter.next().unwrap().eq_separator('('));
    assert!(iter.next().unwrap().eq_separator(')'));
    assert!(iter.next().unwrap().eq_separator('{'));
    assert!(iter.next().unwrap().eq_separator('}'));
    assert!(iter.next().unwrap().eq_separator('.'));
    assert!(iter.next().unwrap().eq_separator(','));
    assert!(iter.next().is_none());
}

#[test]
fn test_text_between_seapators_is_represented_as_one_text_token() {
    let result = Tokenizer.parse("::=ASN{");
    let mut iter = result.into_iter();
    assert!(iter.next().unwrap().eq_separator(':'));
    assert!(iter.next().unwrap().eq_separator(':'));
    assert!(iter.next().unwrap().eq_separator('='));
    assert!(iter.next().unwrap().eq_text("ASN"));
    assert!(iter.next().unwrap().eq_separator('{'));
    assert!(iter.next().is_none());
}

#[test]
fn test_invisible_separator_characters() {
    let result = Tokenizer.parse("a b\rc\nd\te AB\rCD\nEF\tGH aa  bb\r\rcc\n\ndd\t\tee");
    let mut iter = result.into_iter();
    for text in [
        "a", "b", "c", "d", "e", "AB", "CD", "EF", "GH", "aa", "bb", "cc", "dd", "ee",
    ] {
        assert!(iter.next().unwrap().eq_text(text));
    }
    assert!(iter.next().is_none());
}

#[test]
fn test_token_text() {
    let token = Token::from("some text".to_string());
    assert_eq!(token.text(), Some(&"some text".to_string()));
    assert_eq!(token.separator(), None);
}

#[test]
fn test_token_separator() {
    let result = Tokenizer.parse("AS\x00N");
    let mut iter = result.into_iter();
    assert!(iter.next().unwrap().eq_text("ASN"));
    assert!(iter.next().is_none());
}

#[test]
fn test_control_char_is_ignored() {
    let token = Token::from(':');
    assert_eq!(token.text(), None);
    assert_eq!(token.separator(), Some(':'),)
}

#[test]
fn test_ignores_line_comments() {
    let result = Tokenizer::default().parse(
        r"
                Some ::= None -- very clever
                        -- ignore true ::= false
        ",
    );
    let mut iter = result.into_iter();
    assert!(iter.next().unwrap().eq_text("Some"));
    assert!(iter.next().unwrap().eq_separator(':'));
    assert!(iter.next().unwrap().eq_separator(':'));
    assert!(iter.next().unwrap().eq_separator('='));
    assert!(iter.next().unwrap().eq_text("None"));
    assert!(iter.next().is_none());
}

#[test]
fn tokens_know_their_location() {
    let result = Tokenizer.parse("A ::=\n  B");
    assert_eq!(result.len(), 5);
    assert_eq!(result[0].location().line(), 1);
    assert_eq!(result[0].location().column(), 1);
    assert_eq!(result[4].location().line(), 2);
    assert_eq!(result[4].location().column(), 3);
}

#[test]
fn tokens_compare_ignoring_ascii_case() {
    let token = Token::from("Begin".to_string());
    assert!(token.eq_text_ignore_ascii_case("BEGIN"));
    assert!(!token.eq_text("BEGIN"));
    assert!(token.is_text());
    assert!(!token.is_separator());
    assert_eq!(token.into_text(), Some("Begin".to_string()));
}
