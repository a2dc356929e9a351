use spectra::lexer::{is_whitespace, Lexer};
use spectra::token::{Keyword, Location, Punctuation, RawToken, Token};

fn all_tokens(source: &str) -> Vec<Token> {
    let mut lexer = Lexer::new(source);
    let mut out = Vec::new();
    while let Some(token) = lexer.next() {
        out.push(token);
    }
    out
}

#[test]
fn eof() {
    let mut lexer = Lexer::new("");
    assert_eq!(lexer.next(), None);
}

#[test]
fn identifier() {
    let mut lexer = Lexer::new("test");
    assert_eq!(
        lexer.next(),
        Some(Token {
            raw: RawToken::Identifier("test".to_owned()),
            location: Location { start: 0, end: 4 }
        })
    );
}

#[test]
fn bool() {
    let mut lexer = Lexer::new("true false");

    assert_eq!(
        lexer.next(),
        Some(Token {
            raw: RawToken::BoolLiteral(true),
            location: Location { start: 0, end: 4 }
        })
    );
    assert_eq!(
        lexer.next(),
        Some(Token {
            raw: RawToken::BoolLiteral(false),
            location: Location { start: 5, end: 10 }
        })
    );
}

#[test]
fn punctuation() {
    let mut lexer = Lexer::new("+");

    assert_eq!(
        lexer.next(),
        Some(Token {
            raw: RawToken::Punctuation(Punctuation::Plus),
            location: Location { start: 0, end: 1 }
        })
    );
}

#[test]
fn whitespace_only_has_no_tokens() {
    let mut lexer = Lexer::new(" \t\r\n\u{000B}\u{000C}\u{0085}\u{200E}\u{200F}\u{2028}\u{2029}");
    assert_eq!(lexer.next(), None);
    assert_eq!(lexer.next(), None);
}

#[test]
fn whitespace_set() {
    assert!(is_whitespace(' '));
    assert!(is_whitespace('\u{2029}'));
    assert!(!is_whitespace('a'));
    assert!(!is_whitespace('\u{00A0}'));
}

#[test]
fn reserved_words_become_keywords() {
    let tokens = all_tokens("fun class while if else var break continue return");
    let raws: Vec<RawToken> = tokens.into_iter().map(|t| t.raw).collect();
    assert_eq!(
        raws,
        vec![
            RawToken::Keyword(Keyword::Fun),
            RawToken::Keyword(Keyword::Class),
            RawToken::Keyword(Keyword::While),
            RawToken::Keyword(Keyword::If),
            RawToken::Keyword(Keyword::Else),
            RawToken::Keyword(Keyword::Var),
            RawToken::Keyword(Keyword::Break),
            RawToken::Keyword(Keyword::Continue),
            RawToken::Keyword(Keyword::Return),
        ]
    );
}

#[test]
fn longer_word_is_an_identifier() {
    let tokens = all_tokens("whilex _if");
    assert_eq!(tokens[0].raw, RawToken::Identifier("whilex".to_owned()));
    assert_eq!(tokens[1].raw, RawToken::Identifier("_if".to_owned()));
}

#[test]
fn two_character_punctuation_spans_two_bytes() {
    let tokens = all_tokens("++ += -- -= *= /= **");
    let expected = [
        Punctuation::PlusPlus,
        Punctuation::PlusEq,
        Punctuation::MinusMinus,
        Punctuation::MinusEq,
        Punctuation::StarEq,
        Punctuation::SlashEq,
        Punctuation::StarStar,
    ];
    assert_eq!(tokens.len(), expected.len());
    for (token, p) in tokens.iter().zip(expected.iter()) {
        assert_eq!(token.raw, RawToken::Punctuation(*p));
        assert_eq!(token.location.end - token.location.start, 2);
    }
    assert_eq!(tokens[1].location, Location { start: 3, end: 5 });
}

#[test]
fn single_character_punctuation() {
    let tokens = all_tokens("+ - * / = ( ) [ ] { } ; , .");
    let expected = [
        Punctuation::Plus,
        Punctuation::Minus,
        Punctuation::Star,
        Punctuation::Slash,
        Punctuation::Eq,
        Punctuation::OpenParent,
        Punctuation::CloseParent,
        Punctuation::OpenBracket,
        Punctuation::CloseBracket,
        Punctuation::OpenBrace,
        Punctuation::CloseBrace,
        Punctuation::Semicolon,
        Punctuation::Comma,
        Punctuation::Dot,
    ];
    assert_eq!(tokens.len(), expected.len());
    for (token, p) in tokens.iter().zip(expected.iter()) {
        assert_eq!(token.raw, RawToken::Punctuation(*p));
        assert_eq!(token.location.end - token.location.start, 1);
    }
}

#[test]
fn multibyte_characters_count_in_bytes() {
    let tokens = all_tokens("é \"日本\" x");
    assert_eq!(tokens[0].raw, RawToken::Identifier("é".to_owned()));
    assert_eq!(tokens[0].location, Location { start: 0, end: 2 });
    assert_eq!(tokens[1].raw, RawToken::StringLiteral("日本".to_owned()));
    assert_eq!(tokens[1].location, Location { start: 3, end: 11 });
    assert_eq!(tokens[2].location, Location { start: 12, end: 13 });
}

#[test]
fn integer_then_dot() {
    let tokens = all_tokens("1.5");
    let raws: Vec<RawToken> = tokens.into_iter().map(|t| t.raw).collect();
    assert_eq!(
        raws,
        vec![
            RawToken::IntegerLiteral(1),
            RawToken::Punctuation(Punctuation::Dot),
            RawToken::IntegerLiteral(5),
        ]
    );
}

#[test]
fn integer_value_and_span() {
    let tokens = all_tokens("  12345;");
    assert_eq!(tokens[0].raw, RawToken::IntegerLiteral(12345));
    assert_eq!(tokens[0].location, Location { start: 2, end: 7 });
}

#[test]
fn integer_too_large_is_held_at_max() {
    let tokens = all_tokens("18446744073709551615 18446744073709551616 99999999999999999999999");
    assert_eq!(tokens[0].raw, RawToken::IntegerLiteral(u64::MAX));
    assert_eq!(tokens[1].raw, RawToken::IntegerLiteral(u64::MAX));
    assert_eq!(tokens[2].raw, RawToken::IntegerLiteral(u64::MAX));
    assert_eq!(tokens[1].location, Location { start: 21, end: 41 });
}

#[test]
fn string_literal() {
    let tokens = all_tokens("\"hi there\" x");
    assert_eq!(tokens[0].raw, RawToken::StringLiteral("hi there".to_owned()));
    assert_eq!(tokens[0].location, Location { start: 0, end: 10 });
    assert_eq!(tokens[1].raw, RawToken::Identifier("x".to_owned()));
}

#[test]
fn unterminated_string_runs_to_end() {
    let tokens = all_tokens("\"abc");
    assert_eq!(tokens.len(), 1);
    assert_eq!(tokens[0].raw, RawToken::StringLiteral("abc".to_owned()));
    assert_eq!(tokens[0].location, Location { start: 0, end: 4 });
}

#[test]
fn unexpected_character() {
    let tokens = all_tokens("a # ü€");
    assert_eq!(tokens[1].raw, RawToken::UnexpectedChar('#'));
    assert_eq!(tokens[1].location, Location { start: 2, end: 3 });
    assert_eq!(tokens[2].raw, RawToken::Identifier("ü".to_owned()));
    assert_eq!(tokens[3].raw, RawToken::UnexpectedChar('€'));
    assert_eq!(tokens[3].location, Location { start: 6, end: 9 });
    assert_eq!(tokens.len(), 4);
}
