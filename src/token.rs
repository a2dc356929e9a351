use vstd::prelude::*;

verus! {

/// A half-open range `[start, end)` of byte offsets into the source text.
#[derive(Debug, Clone, Copy, PartialEq, Eq, Structural)]
pub struct Location {
    pub start: usize,
    pub end: usize,
}

#[derive(Debug, Clone, Copy, PartialEq, Eq, Structural)]
pub enum Keyword {
    Fun,
    Class,
    While,
    If,
    Else,
    Var,
    Break,
    Continue,
    Return,
}

#[derive(Debug, Clone, Copy, PartialEq, Eq, Structural)]
pub enum Punctuation {
    Plus,
    PlusPlus,
    PlusEq,
    Minus,
    MinusMinus,
    MinusEq,
    Star,
    StarStar,
    StarEq,
    Slash,
    SlashEq,
    Eq,
    OpenParent,
    CloseParent,
    OpenBracket,
    CloseBracket,
    OpenBrace,
    CloseBrace,
    Semicolon,
    Comma,
    Dot,
}

/// Binding strength of an operator, from the loosest to the tightest.
#[derive(Debug, Clone, Copy, PartialEq, Eq, PartialOrd, Ord, Structural)]
pub enum Precedence {
    Lowest,
    Assign,
    Sum,
    Product,
    Power,
    Call,
    FieldAccess,
}

#[derive(Debug, Clone, PartialEq)]
pub enum RawToken {
    Identifier(String),
    StringLiteral(String),
    Keyword(Keyword),
    Punctuation(Punctuation),
    BoolLiteral(bool),
    IntegerLiteral(u64),
    CharLiteral(char),
    UnexpectedChar(char),
}

#[derive(Debug, Clone, PartialEq)]
pub struct Token {
    pub raw: RawToken,
    pub location: Location,
}

/// What a raw token holds, with its text as a sequence of characters.
pub enum RawTokenModel {
    Identifier(Seq<char>),
    StringLiteral(Seq<char>),
    Keyword(Keyword),
    Punctuation(Punctuation),
    BoolLiteral(bool),
    IntegerLiteral(u64),
    CharLiteral(char),
    UnexpectedChar(char),
}

pub struct TokenModel {
    pub raw: RawTokenModel,
    pub location: Location,
}

impl View for RawToken {
    type V = RawTokenModel;

    open spec fn view(&self) -> RawTokenModel {
        match self {
            RawToken::Identifier(s) => RawTokenModel::Identifier(s@),
            RawToken::StringLiteral(s) => RawTokenModel::StringLiteral(s@),
            RawToken::Keyword(k) => RawTokenModel::Keyword(*k),
            RawToken::Punctuation(p) => RawTokenModel::Punctuation(*p),
            RawToken::BoolLiteral(b) => RawTokenModel::BoolLiteral(*b),
            RawToken::IntegerLiteral(v) => RawTokenModel::IntegerLiteral(*v),
            RawToken::CharLiteral(c) => RawTokenModel::CharLiteral(*c),
            RawToken::UnexpectedChar(c) => RawTokenModel::UnexpectedChar(*c),
        }
    }
}

impl View for Token {
    type V = TokenModel;

    open spec fn view(&self) -> TokenModel {
        TokenModel { raw: self.raw@, location: self.location }
    }
}

impl Precedence {
    /// Position of the level in the order from `Lowest` (0) to `FieldAccess` (6).
    pub open spec fn spec_rank(self) -> nat {
        match self {
            Precedence::Lowest => 0,
            Precedence::Assign => 1,
            Precedence::Sum => 2,
            Precedence::Product => 3,
            Precedence::Power => 4,
            Precedence::Call => 5,
            Precedence::FieldAccess => 6,
        }
    }

    pub fn rank(self) -> (r: u8)
        ensures
            r as nat == self.spec_rank(),
    {
        match self {
            Precedence::Lowest => 0,
            Precedence::Assign => 1,
            Precedence::Sum => 2,
            Precedence::Product => 3,
            Precedence::Power => 4,
            Precedence::Call => 5,
            Precedence::FieldAccess => 6,
        }
    }

    /// Whether `self` binds strictly looser than `other`.
    pub fn binds_looser(self, other: Precedence) -> (r: bool)
        ensures
            r == (self.spec_rank() < other.spec_rank()),
    {
        self.rank() < other.rank()
    }
}

pub open spec fn punctuation_precedence(p: Punctuation) -> Precedence {
    match p {
        Punctuation::PlusEq
        | Punctuation::MinusEq
        | Punctuation::StarEq
        | Punctuation::SlashEq
        | Punctuation::Eq
        | Punctuation::PlusPlus
        | Punctuation::MinusMinus => Precedence::Assign,
        Punctuation::Plus | Punctuation::Minus => Precedence::Sum,
        Punctuation::Star | Punctuation::Slash => Precedence::Product,
        Punctuation::StarStar => Precedence::Power,
        Punctuation::OpenParent => Precedence::Call,
        Punctuation::Dot => Precedence::FieldAccess,
        _ => Precedence::Lowest,
    }
}

/// Precedence of a raw token: that of its punctuation, `Lowest` for any other token.
pub open spec fn raw_precedence(raw: RawTokenModel) -> Precedence {
    match raw {
        RawTokenModel::Punctuation(p) => punctuation_precedence(p),
        _ => Precedence::Lowest,
    }
}

impl From<Punctuation> for Precedence {
    fn from(value: Punctuation) -> (r: Self) {
        match value {
            Punctuation::PlusEq
            | Punctuation::MinusEq
            | Punctuation::StarEq
            | Punctuation::SlashEq
            | Punctuation::Eq
            | Punctuation::PlusPlus
            | Punctuation::MinusMinus => Precedence::Assign,
            Punctuation::Plus | Punctuation::Minus => Precedence::Sum,
            Punctuation::Star | Punctuation::Slash => Precedence::Product,
            Punctuation::StarStar => Precedence::Power,
            Punctuation::OpenParent => Precedence::Call,
            Punctuation::Dot => Precedence::FieldAccess,
            _ => Precedence::Lowest,
        }
    }
}

impl vstd::std_specs::convert::FromSpecImpl<Punctuation> for Precedence {
    open spec fn obeys_from_spec() -> bool {
        true
    }

    open spec fn from_spec(v: Punctuation) -> Precedence {
        punctuation_precedence(v)
    }
}

impl From<RawToken> for Precedence {
    fn from(value: RawToken) -> (r: Self) {
        match value {
            RawToken::Punctuation(punctuation) => Precedence::from(punctuation),
            _ => Precedence::Lowest,
        }
    }
}

impl vstd::std_specs::convert::FromSpecImpl<RawToken> for Precedence {
    open spec fn obeys_from_spec() -> bool {
        true
    }

    open spec fn from_spec(v: RawToken) -> Precedence {
        raw_precedence(v@)
    }
}

impl From<Token> for Precedence {
    fn from(value: Token) -> (r: Self) {
        Precedence::from(value.raw)
    }
}

impl vstd::std_specs::convert::FromSpecImpl<Token> for Precedence {
    open spec fn obeys_from_spec() -> bool {
        true
    }

    open spec fn from_spec(v: Token) -> Precedence {
        raw_precedence(v.raw@)
    }
}

impl From<Punctuation> for RawToken {
    fn from(value: Punctuation) -> (r: Self) {
        RawToken::Punctuation(value)
    }
}

impl vstd::std_specs::convert::FromSpecImpl<Punctuation> for RawToken {
    open spec fn obeys_from_spec() -> bool {
        true
    }

    open spec fn from_spec(v: Punctuation) -> RawToken {
        RawToken::Punctuation(v)
    }
}

impl Default for Precedence {
    fn default() -> (r: Self)
        ensures
            r == Precedence::Lowest,
    {
        Precedence::Lowest
    }
}

/// The token that a reserved word stands for, or `None` for any other text.
pub open spec fn keyword_of(text: Seq<char>) -> Option<RawTokenModel> {
    if text == seq!['t', 'r', 'u', 'e'] {
        Some(RawTokenModel::BoolLiteral(true))
    } else if text == seq!['f', 'a', 'l', 's', 'e'] {
        Some(RawTokenModel::BoolLiteral(false))
    } else if text == seq!['f', 'u', 'n'] {
        Some(RawTokenModel::Keyword(Keyword::Fun))
    } else if text == seq!['c', 'l', 'a', 's', 's'] {
        Some(RawTokenModel::Keyword(Keyword::Class))
    } else if text == seq!['w', 'h', 'i', 'l', 'e'] {
        Some(RawTokenModel::Keyword(Keyword::While))
    } else if text == seq!['i', 'f'] {
        Some(RawTokenModel::Keyword(Keyword::If))
    } else if text == seq!['e', 'l', 's', 'e'] {
        Some(RawTokenModel::Keyword(Keyword::Else))
    } else if text == seq!['v', 'a', 'r'] {
        Some(RawTokenModel::Keyword(Keyword::Var))
    } else if text == seq!['b', 'r', 'e', 'a', 'k'] {
        Some(RawTokenModel::Keyword(Keyword::Break))
    } else if text == seq!['c', 'o', 'n', 't', 'i', 'n', 'u', 'e'] {
        Some(RawTokenModel::Keyword(Keyword::Continue))
    } else if text == seq!['r', 'e', 't', 'u', 'r', 'n'] {
        Some(RawTokenModel::Keyword(Keyword::Return))
    } else {
        None
    }
}

/// The token for a reserved word, or `None` when `text` is not one.
pub fn keyword_token(text: &Vec<char>) -> (r: Option<RawToken>)
    ensures
        match r {
            Some(t) => keyword_of(text@) == Some(t@),
            None => keyword_of(text@) is None,
        },
{
    if same_chars(text, &vec!['t', 'r', 'u', 'e']) {
        Some(RawToken::BoolLiteral(true))
    } else if same_chars(text, &vec!['f', 'a', 'l', 's', 'e']) {
        Some(RawToken::BoolLiteral(false))
    } else if same_chars(text, &vec!['f', 'u', 'n']) {
        Some(RawToken::Keyword(Keyword::Fun))
    } else if same_chars(text, &vec!['c', 'l', 'a', 's', 's']) {
        Some(RawToken::Keyword(Keyword::Class))
    } else if same_chars(text, &vec!['w', 'h', 'i', 'l', 'e']) {
        Some(RawToken::Keyword(Keyword::While))
    } else if same_chars(text, &vec!['i', 'f']) {
        Some(RawToken::Keyword(Keyword::If))
    } else if same_chars(text, &vec!['e', 'l', 's', 'e']) {
        Some(RawToken::Keyword(Keyword::Else))
    } else if same_chars(text, &vec!['v', 'a', 'r']) {
        Some(RawToken::Keyword(Keyword::Var))
    } else if same_chars(text, &vec!['b', 'r', 'e', 'a', 'k']) {
        Some(RawToken::Keyword(Keyword::Break))
    } else if same_chars(text, &vec!['c', 'o', 'n', 't', 'i', 'n', 'u', 'e']) {
        Some(RawToken::Keyword(Keyword::Continue))
    } else if same_chars(text, &vec!['r', 'e', 't', 'u', 'r', 'n']) {
        Some(RawToken::Keyword(Keyword::Return))
    } else {
        None
    }
}

fn same_chars(a: &Vec<char>, b: &Vec<char>) -> (r: bool)
    ensures
        r == (a@ == b@),
{
    if a.len() != b.len() {
        return false;
    }
    let mut i: usize = 0;
    while i < a.len()
        invariant
            a.len() == b.len(),
            i <= a.len(),
            forall|m: int| 0 <= m < i ==> a@[m] == b@[m],
        decreases a.len() - i,
    {
        if a[i] != b[i] {
            return false;
        }
        i = i + 1;
    }
    assert(a@ =~= b@);
    true
}

impl Punctuation {
    /// How the token is named in messages: its text between backticks.
    pub open spec fn spec_describe(self) -> Seq<char> {
        match self {
            Punctuation::Plus => "`+`"@,
            Punctuation::PlusPlus => "`++`"@,
            Punctuation::PlusEq => "`+=`"@,
            Punctuation::Minus => "`-`"@,
            Punctuation::MinusMinus => "`--`"@,
            Punctuation::MinusEq => "`-=`"@,
            Punctuation::Star => "`*`"@,
            Punctuation::StarStar => "`**`"@,
            Punctuation::StarEq => "`*=`"@,
            Punctuation::Slash => "`/`"@,
            Punctuation::SlashEq => "`/=`"@,
            Punctuation::Eq => "`=`"@,
            Punctuation::OpenParent => "`(`"@,
            Punctuation::CloseParent => "`)`"@,
            Punctuation::OpenBracket => "`[`"@,
            Punctuation::CloseBracket => "`]`"@,
            Punctuation::OpenBrace => "`{`"@,
            Punctuation::CloseBrace => "`}`"@,
            Punctuation::Semicolon => "`;`"@,
            Punctuation::Comma => "`,`"@,
            Punctuation::Dot => "`.`"@,
        }
    }

    pub fn describe(&self) -> (r: String)
        ensures
            r@ == self.spec_describe(),
    {
        match self {
            Punctuation::Plus => "`+`".to_owned(),
            Punctuation::PlusPlus => "`++`".to_owned(),
            Punctuation::PlusEq => "`+=`".to_owned(),
            Punctuation::Minus => "`-`".to_owned(),
            Punctuation::MinusMinus => "`--`".to_owned(),
            Punctuation::MinusEq => "`-=`".to_owned(),
            Punctuation::Star => "`*`".to_owned(),
            Punctuation::StarStar => "`**`".to_owned(),
            Punctuation::StarEq => "`*=`".to_owned(),
            Punctuation::Slash => "`/`".to_owned(),
            Punctuation::SlashEq => "`/=`".to_owned(),
            Punctuation::Eq => "`=`".to_owned(),
            Punctuation::OpenParent => "`(`".to_owned(),
            Punctuation::CloseParent => "`)`".to_owned(),
            Punctuation::OpenBracket => "`[`".to_owned(),
            Punctuation::CloseBracket => "`]`".to_owned(),
            Punctuation::OpenBrace => "`{`".to_owned(),
            Punctuation::CloseBrace => "`}`".to_owned(),
            Punctuation::Semicolon => "`;`".to_owned(),
            Punctuation::Comma => "`,`".to_owned(),
            Punctuation::Dot => "`.`".to_owned(),
        }
    }
}

impl Keyword {
    /// How the token is named in messages: its text between backticks.
    pub open spec fn spec_describe(self) -> Seq<char> {
        match self {
            Keyword::Fun => "`fun`"@,
            Keyword::Class => "`class`"@,
            Keyword::While => "`while`"@,
            Keyword::If => "`if`"@,
            Keyword::Else => "`else`"@,
            Keyword::Var => "`var`"@,
            Keyword::Break => "`break`"@,
            Keyword::Continue => "`continue`"@,
            Keyword::Return => "`return`"@,
        }
    }

    pub fn describe(&self) -> (r: String)
        ensures
            r@ == self.spec_describe(),
    {
        match self {
            Keyword::Fun => "`fun`".to_owned(),
            Keyword::Class => "`class`".to_owned(),
            Keyword::While => "`while`".to_owned(),
            Keyword::If => "`if`".to_owned(),
            Keyword::Else => "`else`".to_owned(),
            Keyword::Var => "`var`".to_owned(),
            Keyword::Break => "`break`".to_owned(),
            Keyword::Continue => "`continue`".to_owned(),
            Keyword::Return => "`return`".to_owned(),
        }
    }
}

/// The decimal digit for `d < 10`.
pub open spec fn digit_char(d: nat) -> char {
    ((d + 48) as u32) as char
}

/// Decimal text of a natural number, without sign or leading zeros.
pub open spec fn decimal(n: nat) -> Seq<char>
    decreases n,
{
    if n < 10 {
        seq![digit_char(n)]
    } else {
        decimal(n / 10).push(digit_char(n % 10))
    }
}

/// Relies on std's `Display` for `u64` (through `ToString`): its decimal digits,
/// without sign or leading zeros.
#[verifier::external_body]
fn decimal_text(v: u64) -> (r: String)
    ensures
        r@ == decimal(v as nat),
{
    v.to_string()
}

impl RawTokenModel {
    /// How a token is named in messages.
    pub open spec fn spec_describe(self) -> Seq<char> {
        match self {
            RawTokenModel::Keyword(k) => k.spec_describe(),
            RawTokenModel::Identifier(name) => "identifier `"@ + name + "`"@,
            RawTokenModel::StringLiteral(value) => value,
            RawTokenModel::Punctuation(p) => p.spec_describe(),
            RawTokenModel::BoolLiteral(b) => if b {
                "`true`"@
            } else {
                "`false`"@
            },
            RawTokenModel::IntegerLiteral(v) => decimal(v as nat),
            RawTokenModel::CharLiteral(c) => seq!['\'', c, '\''],
            RawTokenModel::UnexpectedChar(_) => "invalid token"@,
        }
    }
}

impl RawToken {
    pub fn describe(&self) -> (r: String)
        ensures
            r@ == self@.spec_describe(),
    {
        match self {
            RawToken::Keyword(keyword) => keyword.describe(),
            RawToken::Identifier(name) => "identifier `".to_owned().concat(name.as_str()).concat(
                "`",
            ),
            RawToken::StringLiteral(value) => value.as_str().to_owned(),
            RawToken::Punctuation(punctuation) => punctuation.describe(),
            RawToken::BoolLiteral(value) => {
                if *value {
                    "`true`".to_owned()
                } else {
                    "`false`".to_owned()
                }
            },
            RawToken::IntegerLiteral(value) => decimal_text(*value),
            RawToken::CharLiteral(value) => {
                let quoted = vec!['\'', *value, '\''];
                crate::lexer::string_of(&quoted)
            },
            RawToken::UnexpectedChar(..) => "invalid token".to_owned(),
        }
    }
}

} // verus!
