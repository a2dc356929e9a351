use spectra::token::{Keyword, Precedence, Punctuation, RawToken, Token, Location};

#[test]
fn precedence_of_punctuation() {
    assert_eq!(Precedence::from(Punctuation::Plus), Precedence::Sum);
    assert_eq!(Precedence::from(Punctuation::Minus), Precedence::Sum);
    assert_eq!(Precedence::from(Punctuation::Star), Precedence::Product);
    assert_eq!(Precedence::from(Punctuation::Slash), Precedence::Product);
    assert_eq!(Precedence::from(Punctuation::StarStar), Precedence::Power);
    assert_eq!(Precedence::from(Punctuation::PlusEq), Precedence::Assign);
    assert_eq!(Precedence::from(Punctuation::PlusPlus), Precedence::Assign);
    assert_eq!(Precedence::from(Punctuation::Eq), Precedence::Assign);
    assert_eq!(Precedence::from(Punctuation::OpenParent), Precedence::Call);
    assert_eq!(Precedence::from(Punctuation::Dot), Precedence::FieldAccess);
    assert_eq!(Precedence::from(Punctuation::Semicolon), Precedence::Lowest);
    assert_eq!(Precedence::from(Punctuation::CloseBrace), Precedence::Lowest);
}

#[test]
fn precedence_of_tokens() {
    assert_eq!(Precedence::from(RawToken::Punctuation(Punctuation::Star)), Precedence::Product);
    assert_eq!(Precedence::from(RawToken::Identifier("a".to_owned())), Precedence::Lowest);
    let token = Token { raw: RawToken::Punctuation(Punctuation::Dot), location: Location { start: 0, end: 1 } };
    assert_eq!(Precedence::from(token), Precedence::FieldAccess);
    assert_eq!(RawToken::from(Punctuation::Comma), RawToken::Punctuation(Punctuation::Comma));
}

#[test]
fn precedence_order() {
    assert_eq!(Precedence::default(), Precedence::Lowest);
    assert!(Precedence::Lowest.binds_looser(Precedence::Assign));
    assert!(Precedence::Sum.binds_looser(Precedence::Product));
    assert!(!Precedence::Product.binds_looser(Precedence::Product));
    assert!(Precedence::Call < Precedence::FieldAccess);
    assert_eq!(Precedence::FieldAccess.rank(), 6);
}

#[test]
fn descriptions() {
    assert_eq!(Punctuation::PlusEq.describe(), "`+=`");
    assert_eq!(Punctuation::CloseParent.describe(), "`)`");
    assert_eq!(Keyword::Continue.describe(), "`continue`");
    assert_eq!(RawToken::Identifier("name".to_owned()).describe(), "identifier `name`");
    assert_eq!(RawToken::StringLiteral("raw".to_owned()).describe(), "raw");
    assert_eq!(RawToken::Keyword(Keyword::Var).describe(), "`var`");
    assert_eq!(RawToken::Punctuation(Punctuation::Dot).describe(), "`.`");
    assert_eq!(RawToken::BoolLiteral(true).describe(), "`true`");
    assert_eq!(RawToken::BoolLiteral(false).describe(), "`false`");
    assert_eq!(RawToken::IntegerLiteral(4021).describe(), "4021");
    assert_eq!(RawToken::IntegerLiteral(0).describe(), "0");
    assert_eq!(RawToken::CharLiteral('z').describe(), "'z'");
    assert_eq!(RawToken::UnexpectedChar('#').describe(), "invalid token");
}
