use vstd::prelude::*;

use crate::ast::{
    exprs_model, idents_model, stmts_model, BlockModel, ExprModel, Expression, IdentModel,
    IdentifierAST, Literal, LiteralModel, Module, RawLiteral, Statement, StatementsBlock,
    StmtModel,
};
use crate::lexer::{tokens, Lexer};
use crate::token::{
    punctuation_precedence, raw_precedence, Keyword, Location, Precedence, Punctuation, RawToken,
    RawTokenModel, Token, TokenModel,
};

verus! {

// ---------------------------------------------------------------------------
// The grammar, over the sequence of tokens still to be read
// ---------------------------------------------------------------------------

pub struct ParseErrorModel {
    pub expected: Seq<char>,
    pub got: Option<TokenModel>,
}

/// What a parsing step gives: the tree and the tokens left after it, or an error.
pub type Parsed<T> = Result<(T, Seq<TokenModel>), ParseErrorModel>;

pub open spec fn is_punct(t: TokenModel, p: Punctuation) -> bool {
    t.raw == RawTokenModel::Punctuation(p)
}

pub open spec fn starts_with(ts: Seq<TokenModel>, p: Punctuation) -> bool {
    ts.len() > 0 && is_punct(ts[0], p)
}

pub open spec fn head_punctuation(ts: Seq<TokenModel>) -> Option<Punctuation> {
    if ts.len() > 0 {
        match ts[0].raw {
            RawTokenModel::Punctuation(p) => Some(p),
            _ => None,
        }
    } else {
        None
    }
}

pub open spec fn head_precedence(ts: Seq<TokenModel>) -> Precedence {
    if ts.len() > 0 {
        raw_precedence(ts[0].raw)
    } else {
        Precedence::Lowest
    }
}

pub open spec fn is_binary(p: Punctuation) -> bool {
    p == Punctuation::Plus || p == Punctuation::Minus || p == Punctuation::Star || p
        == Punctuation::Slash
}

pub open spec fn is_postfix(p: Punctuation) -> bool {
    p == Punctuation::PlusPlus || p == Punctuation::MinusMinus
}

pub open spec fn span(start: Location, end: Location) -> Location {
    Location { start: start.start, end: end.end }
}

pub open spec fn expect_spec(ts: Seq<TokenModel>, p: Punctuation) -> Parsed<TokenModel> {
    if ts.len() == 0 {
        Err(ParseErrorModel { expected: p.spec_describe(), got: None })
    } else if is_punct(ts[0], p) {
        Ok((ts[0], ts.drop_first()))
    } else {
        Err(ParseErrorModel { expected: p.spec_describe(), got: Some(ts[0]) })
    }
}

pub open spec fn identifier_spec(ts: Seq<TokenModel>) -> Parsed<IdentModel> {
    if ts.len() == 0 {
        Err(ParseErrorModel { expected: "identifier"@, got: None })
    } else {
        match ts[0].raw {
            RawTokenModel::Identifier(name) => Ok(
                (IdentModel { identifier: name, location: ts[0].location }, ts.drop_first()),
            ),
            _ => Err(ParseErrorModel { expected: "identifier"@, got: Some(ts[0]) }),
        }
    }
}

/// An expression whose operators all bind tighter than `prec`.
pub open spec fn expression_spec(ts: Seq<TokenModel>, prec: Precedence) -> Parsed<ExprModel>
    decreases ts.len(), 2nat,
{
    match primary_spec(ts) {
        Err(e) => Err(e),
        Ok((left, r)) => if r.len() < ts.len() {
            climb_spec(left, r, prec)
        } else {
            Ok((left, r))
        },
    }
}

/// Folds into `left` the operators that follow it while they bind tighter than `prec`.
pub open spec fn climb_spec(left: ExprModel, ts: Seq<TokenModel>, prec: Precedence) -> Parsed<
    ExprModel,
>
    decreases ts.len(), 0nat,
{
    if ts.len() > 0 && prec.spec_rank() < raw_precedence(ts[0].raw).spec_rank() {
        let op = ts[0];
        let r = ts.drop_first();
        match op.raw {
            RawTokenModel::Punctuation(p) => {
                if is_binary(p) {
                    match expression_spec(r, punctuation_precedence(p)) {
                        Err(e) => Err(e),
                        Ok((right, r2)) => if r2.len() < ts.len() {
                            climb_spec(
                                ExprModel::Binary {
                                    left: Box::new(left),
                                    right: Box::new(right),
                                    operator: op,
                                    location: span(left.location(), right.location()),
                                },
                                r2,
                                prec,
                            )
                        } else {
                            Ok((left, ts))
                        },
                    }
                } else if is_postfix(p) {
                    climb_spec(
                        ExprModel::Postfix {
                            left: Box::new(left),
                            operator: op,
                            location: span(left.location(), op.location),
                        },
                        r,
                        prec,
                    )
                } else if p == Punctuation::Dot {
                    match identifier_spec(r) {
                        Err(e) => Err(e),
                        Ok((field, r2)) => if r2.len() < ts.len() {
                            climb_spec(
                                ExprModel::FieldAccess {
                                    left: Box::new(left),
                                    right: field,
                                    location: span(left.location(), field.location),
                                },
                                r2,
                                prec,
                            )
                        } else {
                            Ok((left, ts))
                        },
                    }
                } else if p == Punctuation::OpenParent {
                    match arguments_spec(r, seq![]) {
                        Err(e) => Err(e),
                        Ok((args, r2)) => match expect_spec(r2, Punctuation::CloseParent) {
                            Err(e) => Err(e),
                            Ok((close, r3)) => if r3.len() < ts.len() {
                                climb_spec(
                                    ExprModel::Call {
                                        callee: Box::new(left),
                                        arguments: args,
                                        location: span(left.location(), close.location),
                                    },
                                    r3,
                                    prec,
                                )
                            } else {
                                Ok((left, ts))
                            },
                        },
                    }
                } else {
                    Ok((left, ts))
                }
            },
            _ => Ok((left, ts)),
        }
    } else {
        Ok((left, ts))
    }
}

/// Comma-separated call arguments up to (not including) the closing parenthesis,
/// appended to `acc`.
pub open spec fn arguments_spec(ts: Seq<TokenModel>, acc: Seq<ExprModel>) -> Parsed<Seq<ExprModel>>
    decreases ts.len(), 3nat,
{
    if ts.len() > 0 && !is_punct(ts[0], Punctuation::CloseParent) {
        match expression_spec(ts, Precedence::Lowest) {
            Err(e) => Err(e),
            Ok((a, r)) => if starts_with(r, Punctuation::Comma) && r.len() <= ts.len() {
                arguments_spec(r.drop_first(), acc.push(a))
            } else {
                Ok((acc.push(a), r))
            },
        }
    } else {
        Ok((acc, ts))
    }
}

/// Comma-separated parameter names up to (not including) the closing parenthesis,
/// appended to `acc`.
pub open spec fn parameters_spec(ts: Seq<TokenModel>, acc: Seq<IdentModel>) -> Parsed<
    Seq<IdentModel>,
>
    decreases ts.len(),
{
    if ts.len() > 0 && !is_punct(ts[0], Punctuation::CloseParent) {
        match identifier_spec(ts) {
            Err(e) => Err(e),
            Ok((id, r)) => if starts_with(r, Punctuation::Comma) && r.len() <= ts.len() {
                parameters_spec(r.drop_first(), acc.push(id))
            } else {
                Ok((acc.push(id), r))
            },
        }
    } else {
        Ok((acc, ts))
    }
}

pub open spec fn literal(raw: LiteralModel, t: TokenModel) -> ExprModel {
    ExprModel::Literal { raw, location: t.location }
}

pub open spec fn no_expression(ts: Seq<TokenModel>) -> ParseErrorModel {
    ParseErrorModel {
        expected: "expression"@,
        got: if ts.len() > 0 {
            Some(ts[0])
        } else {
            None
        },
    }
}

pub open spec fn primary_spec(ts: Seq<TokenModel>) -> Parsed<ExprModel>
    decreases ts.len(), 1nat,
{
    if ts.len() == 0 {
        Err(no_expression(ts))
    } else {
        let t = ts[0];
        let r = ts.drop_first();
        match t.raw {
            RawTokenModel::Punctuation(Punctuation::OpenParent) => if r.len() == 0 {
                Err(ParseErrorModel { expected: Punctuation::CloseParent.spec_describe(), got: None })
            } else {
                match expression_spec(r, Precedence::Lowest) {
                    Err(e) => Err(e),
                    Ok((inner, r2)) => match expect_spec(r2, Punctuation::CloseParent) {
                        Err(e) => Err(e),
                        Ok((close, r3)) => Ok(
                            (inner.with_location(span(t.location, close.location)), r3),
                        ),
                    },
                }
            },
            RawTokenModel::Identifier(name) => Ok(
                (ExprModel::Identifier(IdentModel { identifier: name, location: t.location }), r),
            ),
            RawTokenModel::IntegerLiteral(v) => Ok((literal(LiteralModel::Integer(v), t), r)),
            RawTokenModel::BoolLiteral(b) => Ok((literal(LiteralModel::Bool(b), t), r)),
            RawTokenModel::StringLiteral(s) => Ok((literal(LiteralModel::String(s), t), r)),
            RawTokenModel::CharLiteral(c) => Ok((literal(LiteralModel::Char(c), t), r)),
            RawTokenModel::Keyword(Keyword::Fun) => match expect_spec(r, Punctuation::OpenParent) {
                Err(e) => Err(e),
                Ok((_open, r2)) => match parameters_spec(r2, seq![]) {
                    Err(e) => Err(e),
                    Ok((params, r3)) => match expect_spec(r3, Punctuation::CloseParent) {
                        Err(e) => Err(e),
                        Ok((_close, r4)) => if r4.len() < ts.len() {
                            match block_spec(r4) {
                                Err(e) => Err(e),
                                Ok((block, r5)) => Ok(
                                    (
                                        ExprModel::Function {
                                            parameters: params,
                                            block,
                                            location: span(t.location, block.location),
                                        },
                                        r5,
                                    ),
                                ),
                            }
                        } else {
                            Err(no_expression(ts))
                        },
                    },
                },
            },
            _ => Err(no_expression(ts)),
        }
    }
}

/// A statement: `continue;`, `break;`, `return EXPR;`, `var NAME = EXPR;` or `EXPR;`.
pub open spec fn statement_spec(ts: Seq<TokenModel>) -> Parsed<StmtModel>
    decreases ts.len(), 3nat,
{
    if ts.len() > 0 && ts[0].raw == RawTokenModel::Keyword(Keyword::Continue) {
        match expect_spec(ts.drop_first(), Punctuation::Semicolon) {
            Err(e) => Err(e),
            Ok((semi, r)) => Ok(
                (StmtModel::Continue { location: span(ts[0].location, semi.location) }, r),
            ),
        }
    } else if ts.len() > 0 && ts[0].raw == RawTokenModel::Keyword(Keyword::Break) {
        match expect_spec(ts.drop_first(), Punctuation::Semicolon) {
            Err(e) => Err(e),
            Ok((semi, r)) => Ok(
                (StmtModel::Break { location: span(ts[0].location, semi.location) }, r),
            ),
        }
    } else if ts.len() > 0 && ts[0].raw == RawTokenModel::Keyword(Keyword::Return) {
        match expression_spec(ts.drop_first(), Precedence::Lowest) {
            Err(e) => Err(e),
            Ok((value, r)) => match expect_spec(r, Punctuation::Semicolon) {
                Err(e) => Err(e),
                Ok((semi, r2)) => Ok(
                    (
                        StmtModel::Return {
                            location: span(ts[0].location, semi.location),
                            return_value: value,
                        },
                        r2,
                    ),
                ),
            },
        }
    } else if ts.len() > 0 && ts[0].raw == RawTokenModel::Keyword(Keyword::Var) {
        match identifier_spec(ts.drop_first()) {
            Err(e) => Err(e),
            Ok((name, r)) => match expect_spec(r, Punctuation::Eq) {
                Err(e) => Err(e),
                Ok((_eq, r2)) => if r2.len() < ts.len() {
                    match expression_spec(r2, Precedence::Lowest) {
                        Err(e) => Err(e),
                        Ok((value, r3)) => match expect_spec(r3, Punctuation::Semicolon) {
                            Err(e) => Err(e),
                            Ok((semi, r4)) => Ok(
                                (
                                    StmtModel::Var {
                                        location: span(ts[0].location, semi.location),
                                        name,
                                        value,
                                    },
                                    r4,
                                ),
                            ),
                        },
                    }
                } else {
                    Err(no_expression(ts))
                },
            },
        }
    } else {
        match expression_spec(ts, Precedence::Lowest) {
            Err(e) => Err(e),
            Ok((expression, r)) => match expect_spec(r, Punctuation::Semicolon) {
                Err(e) => Err(e),
                Ok((semi, r2)) => Ok(
                    (
                        StmtModel::Expression {
                            location: span(expression.location(), semi.location),
                            expression,
                        },
                        r2,
                    ),
                ),
            },
        }
    }
}

/// Statements up to (not including) a closing brace, appended to `acc`.
pub open spec fn statements_spec(ts: Seq<TokenModel>, acc: Seq<StmtModel>) -> Parsed<
    Seq<StmtModel>,
>
    decreases ts.len(), 4nat,
{
    if ts.len() > 0 && !is_punct(ts[0], Punctuation::CloseBrace) {
        match statement_spec(ts) {
            Err(e) => Err(e),
            Ok((st, r)) => if r.len() < ts.len() {
                statements_spec(r, acc.push(st))
            } else {
                Ok((acc.push(st), r))
            },
        }
    } else {
        Ok((acc, ts))
    }
}

/// `{`, statements, `}`.
pub open spec fn block_spec(ts: Seq<TokenModel>) -> Parsed<BlockModel>
    decreases ts.len(), 5nat,
{
    match expect_spec(ts, Punctuation::OpenBrace) {
        Err(e) => Err(e),
        Ok((open, r)) => if r.len() < ts.len() {
            match statements_spec(r, seq![]) {
                Err(e) => Err(e),
                Ok((statements, r2)) => match expect_spec(r2, Punctuation::CloseBrace) {
                    Err(e) => Err(e),
                    Ok((close, r3)) => Ok(
                        (
                            BlockModel {
                                statements,
                                location: span(open.location, close.location),
                            },
                            r3,
                        ),
                    ),
                },
            }
        } else {
            Err(ParseErrorModel { expected: Punctuation::OpenBrace.spec_describe(), got: None })
        },
    }
}

/// Statements up to the end of the tokens, appended to `acc`.
pub open spec fn module_spec(ts: Seq<TokenModel>, acc: Seq<StmtModel>) -> Result<
    Seq<StmtModel>,
    ParseErrorModel,
>
    decreases ts.len(),
{
    if ts.len() > 0 {
        match statement_spec(ts) {
            Err(e) => Err(e),
            Ok((st, r)) => if r.len() < ts.len() {
                module_spec(r, acc.push(st))
            } else {
                Ok(acc.push(st))
            },
        }
    } else {
        Ok(acc)
    }
}

/// The syntax tree of a whole source text.
pub open spec fn parse_source(s: Seq<char>) -> Result<Seq<StmtModel>, ParseErrorModel> {
    module_spec(tokens(s), seq![])
}


// ---------------------------------------------------------------------------
// The parser
// ---------------------------------------------------------------------------

#[derive(Debug, Clone, PartialEq)]
pub struct ParseError {
    pub expected: String,
    pub got: Option<Token>,
}

impl View for ParseError {
    type V = ParseErrorModel;

    open spec fn view(&self) -> ParseErrorModel {
        ParseErrorModel {
            expected: self.expected@,
            got: match self.got {
                Some(t) => Some(t@),
                None => None,
            },
        }
    }
}

pub type ParseResult<T> = Result<T, ParseError>;

/// Whether the result of a parsing method is the one that the grammar gives, with
/// `after` the tokens left on success.
pub open spec fn agrees<T: View>(
    r: ParseResult<T>,
    expected: Parsed<T::V>,
    after: Seq<TokenModel>,
) -> bool {
    match r {
        Ok(v) => expected == Ok::<(T::V, Seq<TokenModel>), ParseErrorModel>((v@, after)),
        Err(e) => expected == Err::<(T::V, Seq<TokenModel>), ParseErrorModel>(e@),
    }
}

/// A recursive-descent parser that reads the tokens of a lexer with one token of
/// lookahead.
pub struct Parser {
    lexer: Lexer,
    peeked: Option<Token>,
}

impl Parser {
    pub closed spec fn wf(&self) -> bool {
        self.lexer.wf()
    }

    /// The tokens not yet consumed, the looked-ahead one included.
    pub closed spec fn rest(&self) -> Seq<TokenModel> {
        match self.peeked {
            Some(t) => seq![t@] + self.lexer.rest(),
            None => self.lexer.rest(),
        }
    }

    pub fn new(source: &str) -> (r: Self)
        ensures
            r.wf(),
            r.rest() == tokens(source@),
    {
        Self::from(Lexer::new(source))
    }

    pub fn from(lexer: Lexer) -> (r: Self)
        requires
            lexer.wf(),
        ensures
            r.wf(),
            r.rest() == lexer.rest(),
    {
        Parser { lexer, peeked: None }
    }

    /// Makes sure that the next token, if any, is looked ahead.
    fn fill(&mut self)
        requires
            old(self).wf(),
        ensures
            final(self).wf(),
            final(self).rest() == old(self).rest(),
            final(self).peeked is Some <==> final(self).rest().len() > 0,
            final(self).peeked is Some ==> final(self).rest()[0] == final(self).peeked->0@,
    {
        if self.peeked.is_none() {
            self.peeked = self.lexer.next();
            proof {
                if self.peeked is Some {
                    assert((seq![self.peeked->0@] + self.lexer.rest())[0] == self.peeked->0@);
                }
            }
        }
    }

    fn next_token(&mut self) -> (r: Option<Token>)
        requires
            old(self).wf(),
        ensures
            final(self).wf(),
            match r {
                None => old(self).rest().len() == 0,
                Some(t) => old(self).rest().len() > 0 && t@ == old(self).rest()[0]
                    && final(self).rest() == old(self).rest().drop_first(),
            },
    {
        let r = match self.peeked.take() {
            Some(t) => Some(t),
            None => self.lexer.next(),
        };
        proof {
            if r is Some {
                assert(old(self).rest() =~= seq![r->0@] + self.rest());
                assert(old(self).rest().drop_first() =~= self.rest());
            }
        }
        r
    }

    /// Takes the next token, which is known to exist.
    fn take_token(&mut self) -> (t: Token)
        requires
            old(self).wf(),
            old(self).rest().len() > 0,
        ensures
            final(self).wf(),
            t@ == old(self).rest()[0],
            final(self).rest() == old(self).rest().drop_first(),
    {
        match self.next_token() {
            Some(t) => t,
            None => {
                proof {
                    assert(false);
                }
                Token { raw: RawToken::UnexpectedChar('\0'), location: Location { start: 0, end: 0 } }
            },
        }
    }

    fn peek_is_some(&mut self) -> (r: bool)
        requires
            old(self).wf(),
        ensures
            final(self).wf(),
            final(self).rest() == old(self).rest(),
            r == (old(self).rest().len() > 0),
    {
        self.fill();
        self.peeked.is_some()
    }

    fn peek_punctuation(&mut self) -> (r: Option<Punctuation>)
        requires
            old(self).wf(),
        ensures
            final(self).wf(),
            final(self).rest() == old(self).rest(),
            r == head_punctuation(old(self).rest()),
    {
        self.fill();
        match &self.peeked {
            Some(Token { raw: RawToken::Punctuation(p), .. }) => Some(*p),
            _ => None,
        }
    }

    fn peek_is(&mut self, expected: Punctuation) -> (r: bool)
        requires
            old(self).wf(),
        ensures
            final(self).wf(),
            final(self).rest() == old(self).rest(),
            r == starts_with(old(self).rest(), expected),
    {
        match self.peek_punctuation() {
            Some(p) => p == expected,
            None => false,
        }
    }

    fn peek_keyword(&mut self) -> (r: Option<Keyword>)
        requires
            old(self).wf(),
        ensures
            final(self).wf(),
            final(self).rest() == old(self).rest(),
            match r {
                Some(k) => old(self).rest().len() > 0 && old(self).rest()[0].raw
                    == RawTokenModel::Keyword(k),
                None => !(old(self).rest().len() > 0 && old(self).rest()[0].raw is Keyword),
            },
    {
        self.fill();
        match &self.peeked {
            Some(Token { raw: RawToken::Keyword(k), .. }) => Some(*k),
            _ => None,
        }
    }

    fn peek_precedence(&mut self) -> (r: Precedence)
        requires
            old(self).wf(),
        ensures
            final(self).wf(),
            final(self).rest() == old(self).rest(),
            r == head_precedence(old(self).rest()),
    {
        match self.peek_punctuation() {
            Some(p) => Precedence::from(p),
            None => Precedence::Lowest,
        }
    }

    pub fn consume(&mut self, expected: Punctuation) -> (r: ParseResult<()>)
        requires
            old(self).wf(),
        ensures
            final(self).wf(),
            match r {
                Ok(()) => expect_spec(old(self).rest(), expected) is Ok && final(self).rest()
                    == expect_spec(old(self).rest(), expected)->Ok_0.1,
                Err(e) => expect_spec(old(self).rest(), expected) == Err::<
                    (TokenModel, Seq<TokenModel>),
                    ParseErrorModel,
                >(e@),
            },
    {
        match self.consume_and_return(expected) {
            Ok(_) => Ok(()),
            Err(e) => Err(e),
        }
    }

    pub fn consume_identifier(&mut self) -> (r: ParseResult<IdentifierAST>)
        requires
            old(self).wf(),
        ensures
            final(self).wf(),
            agrees(r, identifier_spec(old(self).rest()), final(self).rest()),
    {
        match self.next_token() {
            Some(got) => {
                let Token { raw, location } = got;
                match raw {
                    RawToken::Identifier(identifier) => Ok(IdentifierAST { identifier, location }),
                    other => Err(
                        ParseError {
                            expected: "identifier".to_owned(),
                            got: Some(Token { raw: other, location }),
                        },
                    ),
                }
            },
            None => Err(ParseError { expected: "identifier".to_owned(), got: None }),
        }
    }

    pub fn consume_and_return(&mut self, expected: Punctuation) -> (r: ParseResult<Token>)
        requires
            old(self).wf(),
        ensures
            final(self).wf(),
            agrees(r, expect_spec(old(self).rest(), expected), final(self).rest()),
    {
        match self.next_token() {
            Some(got) => {
                let matched = match &got.raw {
                    RawToken::Punctuation(p) => *p == expected,
                    _ => false,
                };
                if matched {
                    Ok(got)
                } else {
                    Err(ParseError { expected: expected.describe(), got: Some(got) })
                }
            },
            None => Err(ParseError { expected: expected.describe(), got: None }),
        }
    }
}

impl Parser {
    pub fn parse_expression(&mut self, precedence: Precedence) -> (r: ParseResult<Expression>)
        requires
            old(self).wf(),
        ensures
            final(self).wf(),
            agrees(r, expression_spec(old(self).rest(), precedence), final(self).rest()),
            r is Ok ==> final(self).rest().len() < old(self).rest().len(),
        decreases old(self).rest().len(), 2nat,
    {
        let ghost ts = self.rest();
        let mut left = match self.parse_primary_expression() {
            Ok(e) => e,
            Err(e) => return Err(e),
        };
        let ghost r0 = self.rest();
        loop
            invariant
                self.wf(),
                ts == old(self).rest(),
                r0.len() < ts.len(),
                self.rest().len() <= r0.len(),
                expression_spec(ts, precedence) == climb_spec(left@, self.rest(), precedence),
            ensures
                self.wf(),
                self.rest().len() < ts.len(),
                expression_spec(ts, precedence) == Ok::<
                    (ExprModel, Seq<TokenModel>),
                    ParseErrorModel,
                >((left@, self.rest())),
            decreases self.rest().len(),
        {
            let next = self.peek_precedence();
            if !precedence.binds_looser(next) {
                break;
            }
            let p = match self.peek_punctuation() {
                Some(p) => p,
                None => {
                    break;
                },
            };
            if p == Punctuation::Plus || p == Punctuation::Minus || p == Punctuation::Star || p
                == Punctuation::Slash {
                let operator = self.take_token();
                let right = match self.parse_expression(Precedence::from(p)) {
                    Ok(e) => e,
                    Err(e) => return Err(e),
                };
                let location = Location { start: left.location().start, end: right.location().end };
                left = Expression::Binary {
                    left: Box::new(left),
                    right: Box::new(right),
                    operator,
                    location,
                };
            } else if p == Punctuation::PlusPlus || p == Punctuation::MinusMinus {
                let operator = self.take_token();
                let location = Location { start: left.location().start, end: operator.location.end };
                left = Expression::Postfix { left: Box::new(left), operator, location };
            } else if p == Punctuation::Dot {
                let _dot = self.take_token();
                let right = match self.consume_identifier() {
                    Ok(id) => id,
                    Err(e) => return Err(e),
                };
                let location = Location { start: left.location().start, end: right.location.end };
                left = Expression::FieldAccess { left: Box::new(left), right, location };
            } else if p == Punctuation::OpenParent {
                let _open = self.take_token();
                let arguments = match self.parse_arguments() {
                    Ok(a) => a,
                    Err(e) => return Err(e),
                };
                let close = match self.consume_and_return(Punctuation::CloseParent) {
                    Ok(t) => t,
                    Err(e) => return Err(e),
                };
                let location = Location { start: left.location().start, end: close.location.end };
                left = Expression::Call { callee: Box::new(left), arguments, location };
            } else {
                break;
            }
        }
        Ok(left)
    }

    /// Call arguments, up to (not including) the closing parenthesis.
    fn parse_arguments(&mut self) -> (r: ParseResult<Vec<Expression>>)
        requires
            old(self).wf(),
        ensures
            final(self).wf(),
            match r {
                Ok(v) => arguments_spec(old(self).rest(), seq![]) == Ok::<
                    (Seq<ExprModel>, Seq<TokenModel>),
                    ParseErrorModel,
                >((exprs_model(v@), final(self).rest())) && final(self).rest().len() <= old(
                    self,
                ).rest().len(),
                Err(e) => arguments_spec(old(self).rest(), seq![]) == Err::<
                    (Seq<ExprModel>, Seq<TokenModel>),
                    ParseErrorModel,
                >(e@),
            },
        decreases old(self).rest().len(), 3nat,
    {
        let ghost ts = self.rest();
        let mut arguments: Vec<Expression> = Vec::new();
        proof {
            assert(exprs_model(arguments@) =~= Seq::<ExprModel>::empty());
        }
        loop
            invariant_except_break
                arguments_spec(ts, seq![]) == arguments_spec(self.rest(), exprs_model(arguments@)),
            invariant
                self.wf(),
                ts == old(self).rest(),
                self.rest().len() <= ts.len(),
            ensures
                self.wf(),
                self.rest().len() <= ts.len(),
                arguments_spec(ts, seq![]) == Ok::<
                    (Seq<ExprModel>, Seq<TokenModel>),
                    ParseErrorModel,
                >((exprs_model(arguments@), self.rest())),
            decreases self.rest().len(),
        {
            let more = self.peek_is_some();
            let closing = self.peek_is(Punctuation::CloseParent);
            if !more || closing {
                break;
            }
            let ghost before = exprs_model(arguments@);
            let argument = match self.parse_expression(Precedence::Lowest) {
                Ok(e) => e,
                Err(e) => return Err(e),
            };
            let ghost am = argument@;
            arguments.push(argument);
            proof {
                assert(exprs_model(arguments@) =~= before.push(am));
            }
            if self.peek_is(Punctuation::Comma) {
                let _comma = self.take_token();
            } else {
                break;
            }
        }
        Ok(arguments)
    }

    /// Parameter names, up to (not including) the closing parenthesis.
    fn parse_parameters(&mut self) -> (r: ParseResult<Vec<IdentifierAST>>)
        requires
            old(self).wf(),
        ensures
            final(self).wf(),
            match r {
                Ok(v) => parameters_spec(old(self).rest(), seq![]) == Ok::<
                    (Seq<IdentModel>, Seq<TokenModel>),
                    ParseErrorModel,
                >((idents_model(v@), final(self).rest())) && final(self).rest().len() <= old(
                    self,
                ).rest().len(),
                Err(e) => parameters_spec(old(self).rest(), seq![]) == Err::<
                    (Seq<IdentModel>, Seq<TokenModel>),
                    ParseErrorModel,
                >(e@),
            },
    {
        let ghost ts = self.rest();
        let mut parameters: Vec<IdentifierAST> = Vec::new();
        proof {
            assert(idents_model(parameters@) =~= Seq::<IdentModel>::empty());
        }
        loop
            invariant_except_break
                parameters_spec(ts, seq![]) == parameters_spec(
                    self.rest(),
                    idents_model(parameters@),
                ),
            invariant
                self.wf(),
                ts == old(self).rest(),
                self.rest().len() <= ts.len(),
            ensures
                self.wf(),
                self.rest().len() <= ts.len(),
                parameters_spec(ts, seq![]) == Ok::<
                    (Seq<IdentModel>, Seq<TokenModel>),
                    ParseErrorModel,
                >((idents_model(parameters@), self.rest())),
            decreases self.rest().len(),
        {
            let more = self.peek_is_some();
            let closing = self.peek_is(Punctuation::CloseParent);
            if !more || closing {
                break;
            }
            let ghost before = idents_model(parameters@);
            let parameter = match self.consume_identifier() {
                Ok(id) => id,
                Err(e) => return Err(e),
            };
            let ghost pm = parameter@;
            parameters.push(parameter);
            proof {
                assert(idents_model(parameters@) =~= before.push(pm));
            }
            if self.peek_is(Punctuation::Comma) {
                let _comma = self.take_token();
            } else {
                break;
            }
        }
        Ok(parameters)
    }

    fn parse_primary_expression(&mut self) -> (r: ParseResult<Expression>)
        requires
            old(self).wf(),
        ensures
            final(self).wf(),
            agrees(r, primary_spec(old(self).rest()), final(self).rest()),
            r is Ok ==> final(self).rest().len() < old(self).rest().len(),
        decreases old(self).rest().len(), 1nat,
    {
        let got = match self.next_token() {
            Some(t) => t,
            None => return Err(ParseError { expected: "expression".to_owned(), got: None }),
        };
        let Token { raw, location } = got;
        match raw {
            RawToken::Punctuation(Punctuation::OpenParent) => {
                if !self.peek_is_some() {
                    return Err(ParseError { expected: Punctuation::CloseParent.describe(), got: None });
                }
                let mut inner = match self.parse_expression(Precedence::Lowest) {
                    Ok(e) => e,
                    Err(e) => return Err(e),
                };
                let close = match self.consume_and_return(Punctuation::CloseParent) {
                    Ok(t) => t,
                    Err(e) => return Err(e),
                };
                inner.set_location(Location { start: location.start, end: close.location.end });
                Ok(inner)
            },
            RawToken::Identifier(identifier) => Ok(
                Expression::Identifier(IdentifierAST { identifier, location }),
            ),
            RawToken::IntegerLiteral(value) => Ok(
                Expression::Literal(Literal { raw: RawLiteral::Integer(value), location }),
            ),
            RawToken::BoolLiteral(value) => Ok(
                Expression::Literal(Literal { raw: RawLiteral::Bool(value), location }),
            ),
            RawToken::StringLiteral(value) => Ok(
                Expression::Literal(Literal { raw: RawLiteral::String(value), location }),
            ),
            RawToken::CharLiteral(value) => Ok(
                Expression::Literal(Literal { raw: RawLiteral::Char(value), location }),
            ),
            RawToken::Keyword(Keyword::Fun) => {
                match self.consume(Punctuation::OpenParent) {
                    Ok(()) => {},
                    Err(e) => return Err(e),
                }
                let parameters = match self.parse_parameters() {
                    Ok(p) => p,
                    Err(e) => return Err(e),
                };
                match self.consume(Punctuation::CloseParent) {
                    Ok(()) => {},
                    Err(e) => return Err(e),
                }
                let block = match self.parse_statements_block() {
                    Ok(b) => b,
                    Err(e) => return Err(e),
                };
                let end = block.location.end;
                Ok(
                    Expression::Function {
                        parameters,
                        block,
                        location: Location { start: location.start, end },
                    },
                )
            },
            other => Err(
                ParseError {
                    expected: "expression".to_owned(),
                    got: Some(Token { raw: other, location }),
                },
            ),
        }
    }

    pub fn parse_statement(&mut self) -> (r: ParseResult<Statement>)
        requires
            old(self).wf(),
        ensures
            final(self).wf(),
            agrees(r, statement_spec(old(self).rest()), final(self).rest()),
            r is Ok ==> final(self).rest().len() < old(self).rest().len(),
        decreases old(self).rest().len(), 3nat,
    {
        match self.peek_keyword() {
            Some(Keyword::Continue) => {
                let keyword = self.take_token();
                let semi = match self.consume_and_return(Punctuation::Semicolon) {
                    Ok(t) => t,
                    Err(e) => return Err(e),
                };
                Ok(
                    Statement::Continue {
                        location: Location { start: keyword.location.start, end: semi.location.end },
                    },
                )
            },
            Some(Keyword::Break) => {
                let keyword = self.take_token();
                let semi = match self.consume_and_return(Punctuation::Semicolon) {
                    Ok(t) => t,
                    Err(e) => return Err(e),
                };
                Ok(
                    Statement::Break {
                        location: Location { start: keyword.location.start, end: semi.location.end },
                    },
                )
            },
            Some(Keyword::Return) => {
                let keyword = self.take_token();
                let return_value = match self.parse_expression(Precedence::Lowest) {
                    Ok(e) => e,
                    Err(e) => return Err(e),
                };
                let semi = match self.consume_and_return(Punctuation::Semicolon) {
                    Ok(t) => t,
                    Err(e) => return Err(e),
                };
                Ok(
                    Statement::Return {
                        location: Location { start: keyword.location.start, end: semi.location.end },
                        return_value,
                    },
                )
            },
            Some(Keyword::Var) => {
                let keyword = self.take_token();
                let name = match self.consume_identifier() {
                    Ok(id) => id,
                    Err(e) => return Err(e),
                };
                match self.consume(Punctuation::Eq) {
                    Ok(()) => {},
                    Err(e) => return Err(e),
                }
                let value = match self.parse_expression(Precedence::Lowest) {
                    Ok(e) => e,
                    Err(e) => return Err(e),
                };
                let semi = match self.consume_and_return(Punctuation::Semicolon) {
                    Ok(t) => t,
                    Err(e) => return Err(e),
                };
                Ok(
                    Statement::Var {
                        location: Location { start: keyword.location.start, end: semi.location.end },
                        name,
                        value,
                    },
                )
            },
            _ => {
                let expression = match self.parse_expression(Precedence::Lowest) {
                    Ok(e) => e,
                    Err(e) => return Err(e),
                };
                let start = expression.location().start;
                let semi = match self.consume_and_return(Punctuation::Semicolon) {
                    Ok(t) => t,
                    Err(e) => return Err(e),
                };
                Ok(
                    Statement::Expression {
                        location: Location { start, end: semi.location.end },
                        expression,
                    },
                )
            },
        }
    }

    pub fn parse_statements_block(&mut self) -> (r: ParseResult<StatementsBlock>)
        requires
            old(self).wf(),
        ensures
            final(self).wf(),
            agrees(r, block_spec(old(self).rest()), final(self).rest()),
            r is Ok ==> final(self).rest().len() < old(self).rest().len(),
        decreases old(self).rest().len(), 5nat,
    {
        let ghost ts = self.rest();
        let open = match self.consume_and_return(Punctuation::OpenBrace) {
            Ok(t) => t,
            Err(e) => return Err(e),
        };
        let ghost r0 = self.rest();
        let mut statements: Vec<Statement> = Vec::new();
        proof {
            assert(stmts_model(statements@) =~= Seq::<StmtModel>::empty());
        }
        loop
            invariant
                self.wf(),
                ts == old(self).rest(),
                r0.len() < ts.len(),
                self.rest().len() <= r0.len(),
                block_spec(ts) == match statements_spec(r0, seq![]) {
                    Err(e) => Err(e),
                    Ok((sts, r2)) => match expect_spec(r2, Punctuation::CloseBrace) {
                        Err(e) => Err(e),
                        Ok((close, r3)) => Ok(
                            (
                                BlockModel { statements: sts, location: span(open@.location, close.location) },
                                r3,
                            ),
                        ),
                    },
                },
                statements_spec(r0, seq![]) == statements_spec(
                    self.rest(),
                    stmts_model(statements@),
                ),
            ensures
                self.wf(),
                self.rest().len() <= r0.len(),
                statements_spec(r0, seq![]) == Ok::<
                    (Seq<StmtModel>, Seq<TokenModel>),
                    ParseErrorModel,
                >((stmts_model(statements@), self.rest())),
            decreases self.rest().len(),
        {
            let more = self.peek_is_some();
            let closing = self.peek_is(Punctuation::CloseBrace);
            if !more || closing {
                break;
            }
            let ghost before = stmts_model(statements@);
            let statement = match self.parse_statement() {
                Ok(s) => s,
                Err(e) => return Err(e),
            };
            let ghost sm = statement@;
            statements.push(statement);
            proof {
                assert(stmts_model(statements@) =~= before.push(sm));
            }
        }
        let close = match self.consume_and_return(Punctuation::CloseBrace) {
            Ok(t) => t,
            Err(e) => return Err(e),
        };
        Ok(
            StatementsBlock {
                statements,
                location: Location { start: open.location.start, end: close.location.end },
            },
        )
    }

    /// All statements up to the end of the input.
    pub fn parse(&mut self) -> (r: ParseResult<Module>)
        requires
            old(self).wf(),
        ensures
            final(self).wf(),
            match r {
                Ok(m) => module_spec(old(self).rest(), seq![]) == Ok::<
                    Seq<StmtModel>,
                    ParseErrorModel,
                >(stmts_model(m@)),
                Err(e) => module_spec(old(self).rest(), seq![]) == Err::<
                    Seq<StmtModel>,
                    ParseErrorModel,
                >(e@),
            },
    {
        let ghost ts = self.rest();
        let mut statements: Vec<Statement> = Vec::new();
        proof {
            assert(stmts_model(statements@) =~= Seq::<StmtModel>::empty());
        }
        loop
            invariant
                self.wf(),
                ts == old(self).rest(),
                module_spec(ts, seq![]) == module_spec(self.rest(), stmts_model(statements@)),
            ensures
                self.wf(),
                module_spec(ts, seq![]) == Ok::<Seq<StmtModel>, ParseErrorModel>(
                    stmts_model(statements@),
                ),
            decreases self.rest().len(),
        {
            if !self.peek_is_some() {
                break;
            }
            let ghost before = stmts_model(statements@);
            let statement = match self.parse_statement() {
                Ok(s) => s,
                Err(e) => return Err(e),
            };
            let ghost sm = statement@;
            statements.push(statement);
            proof {
                assert(stmts_model(statements@) =~= before.push(sm));
            }
        }
        Ok(statements)
    }
}

} // verus!
