use vstd::prelude::*;

use crate::token::{Location, RawToken, Token, TokenModel};

verus! {

/// The statements of a whole source text.
pub type Module = Vec<Statement>;

#[derive(Debug, PartialEq)]
pub struct StatementsBlock {
    pub statements: Vec<Statement>,
    pub location: Location,
}

#[derive(Debug, PartialEq)]
pub enum Statement {
    Expression { location: Location, expression: Expression },
    Return { location: Location, return_value: Expression },
    Break { location: Location },
    Continue { location: Location },
    Var { location: Location, name: IdentifierAST, value: Expression },
}

#[derive(Debug, PartialEq)]
pub enum Expression {
    Literal(Literal),
    Binary { left: Box<Expression>, right: Box<Expression>, operator: Token, location: Location },
    Postfix { left: Box<Expression>, operator: Token, location: Location },
    Prefix { operator: Token, right: Box<Expression>, location: Location },
    Identifier(IdentifierAST),
    Call { callee: Box<Expression>, arguments: Vec<Expression>, location: Location },
    FieldAccess { left: Box<Expression>, right: IdentifierAST, location: Location },
    Function { parameters: Vec<IdentifierAST>, block: StatementsBlock, location: Location },
}

#[derive(Debug, Clone, PartialEq)]
pub struct Literal {
    pub raw: RawLiteral,
    pub location: Location,
}

#[derive(Debug, Clone, PartialEq)]
pub struct IdentifierAST {
    pub identifier: String,
    pub location: Location,
}

#[derive(Debug, Clone, PartialEq)]
pub enum RawLiteral {
    Integer(u64),
    String(String),
    Char(char),
    Bool(bool),
}

// ---------------------------------------------------------------------------
// Models: the same trees, with text as sequences of characters
// ---------------------------------------------------------------------------

pub struct IdentModel {
    pub identifier: Seq<char>,
    pub location: Location,
}

pub enum LiteralModel {
    Integer(u64),
    String(Seq<char>),
    Char(char),
    Bool(bool),
}

pub enum ExprModel {
    Literal { raw: LiteralModel, location: Location },
    Binary { left: Box<ExprModel>, right: Box<ExprModel>, operator: TokenModel, location: Location },
    Postfix { left: Box<ExprModel>, operator: TokenModel, location: Location },
    Prefix { operator: TokenModel, right: Box<ExprModel>, location: Location },
    Identifier(IdentModel),
    Call { callee: Box<ExprModel>, arguments: Seq<ExprModel>, location: Location },
    FieldAccess { left: Box<ExprModel>, right: IdentModel, location: Location },
    Function { parameters: Seq<IdentModel>, block: BlockModel, location: Location },
}

pub struct BlockModel {
    pub statements: Seq<StmtModel>,
    pub location: Location,
}

pub enum StmtModel {
    Expression { location: Location, expression: ExprModel },
    Return { location: Location, return_value: ExprModel },
    Break { location: Location },
    Continue { location: Location },
    Var { location: Location, name: IdentModel, value: ExprModel },
}

impl ExprModel {
    pub open spec fn location(self) -> Location {
        match self {
            ExprModel::Literal { location, .. } => location,
            ExprModel::Binary { location, .. } => location,
            ExprModel::Postfix { location, .. } => location,
            ExprModel::Prefix { location, .. } => location,
            ExprModel::Identifier(id) => id.location,
            ExprModel::Call { location, .. } => location,
            ExprModel::FieldAccess { location, .. } => location,
            ExprModel::Function { location, .. } => location,
        }
    }

    /// The same node with its location replaced by `loc`.
    pub open spec fn with_location(self, loc: Location) -> ExprModel {
        match self {
            ExprModel::Literal { raw, .. } => ExprModel::Literal { raw, location: loc },
            ExprModel::Binary { left, right, operator, .. } => ExprModel::Binary {
                left,
                right,
                operator,
                location: loc,
            },
            ExprModel::Postfix { left, operator, .. } => ExprModel::Postfix {
                left,
                operator,
                location: loc,
            },
            ExprModel::Prefix { operator, right, .. } => ExprModel::Prefix {
                operator,
                right,
                location: loc,
            },
            ExprModel::Identifier(id) => ExprModel::Identifier(
                IdentModel { identifier: id.identifier, location: loc },
            ),
            ExprModel::Call { callee, arguments, .. } => ExprModel::Call {
                callee,
                arguments,
                location: loc,
            },
            ExprModel::FieldAccess { left, right, .. } => ExprModel::FieldAccess {
                left,
                right,
                location: loc,
            },
            ExprModel::Function { parameters, block, .. } => ExprModel::Function {
                parameters,
                block,
                location: loc,
            },
        }
    }
}

impl StmtModel {
    pub open spec fn location(self) -> Location {
        match self {
            StmtModel::Expression { location, .. } => location,
            StmtModel::Return { location, .. } => location,
            StmtModel::Break { location } => location,
            StmtModel::Continue { location } => location,
            StmtModel::Var { location, .. } => location,
        }
    }
}

impl View for IdentifierAST {
    type V = IdentModel;

    open spec fn view(&self) -> IdentModel {
        IdentModel { identifier: self.identifier@, location: self.location }
    }
}

impl View for RawLiteral {
    type V = LiteralModel;

    open spec fn view(&self) -> LiteralModel {
        match self {
            RawLiteral::Integer(v) => LiteralModel::Integer(*v),
            RawLiteral::String(s) => LiteralModel::String(s@),
            RawLiteral::Char(c) => LiteralModel::Char(*c),
            RawLiteral::Bool(b) => LiteralModel::Bool(*b),
        }
    }
}

pub open spec fn idents_model(v: Seq<IdentifierAST>) -> Seq<IdentModel> {
    v.map_values(|i: IdentifierAST| i@)
}

pub open spec fn exprs_model(v: Seq<Expression>) -> Seq<ExprModel>
    decreases v,
{
    Seq::new(
        v.len(),
        |i: int|
            if 0 <= i < v.len() {
                v[i].model()
            } else {
                ExprModel::Literal { raw: LiteralModel::Bool(false), location: Location { start: 0, end: 0 } }
            },
    )
}

pub open spec fn stmts_model(v: Seq<Statement>) -> Seq<StmtModel>
    decreases v,
{
    Seq::new(
        v.len(),
        |i: int|
            if 0 <= i < v.len() {
                v[i].model()
            } else {
                StmtModel::Break { location: Location { start: 0, end: 0 } }
            },
    )
}

impl Expression {
    pub open spec fn model(&self) -> ExprModel
        decreases self,
    {
        match self {
            Expression::Literal(l) => ExprModel::Literal { raw: l.raw@, location: l.location },
            Expression::Binary { left, right, operator, location } => ExprModel::Binary {
                left: Box::new(left.model()),
                right: Box::new(right.model()),
                operator: operator@,
                location: *location,
            },
            Expression::Postfix { left, operator, location } => ExprModel::Postfix {
                left: Box::new(left.model()),
                operator: operator@,
                location: *location,
            },
            Expression::Prefix { operator, right, location } => ExprModel::Prefix {
                operator: operator@,
                right: Box::new(right.model()),
                location: *location,
            },
            Expression::Identifier(id) => ExprModel::Identifier(id@),
            Expression::Call { callee, arguments, location } => ExprModel::Call {
                callee: Box::new(callee.model()),
                arguments: exprs_model(arguments@),
                location: *location,
            },
            Expression::FieldAccess { left, right, location } => ExprModel::FieldAccess {
                left: Box::new(left.model()),
                right: right@,
                location: *location,
            },
            Expression::Function { parameters, block, location } => ExprModel::Function {
                parameters: idents_model(parameters@),
                block: block.model(),
                location: *location,
            },
        }
    }

    pub fn location(&self) -> (r: Location)
        ensures
            r == self.model().location(),
    {
        match self {
            Expression::Identifier(IdentifierAST { location, .. })
            | Expression::Prefix { location, .. }
            | Expression::Postfix { location, .. }
            | Expression::Binary { location, .. }
            | Expression::Literal(Literal { location, .. })
            | Expression::Call { location, .. }
            | Expression::FieldAccess { location, .. }
            | Expression::Function { location, .. } => *location,
        }
    }

    /// Replaces the node's location by `loc`.
    pub fn set_location(&mut self, loc: Location)
        ensures
            final(self).model() == old(self).model().with_location(loc),
    {
        match self {
            Expression::Identifier(IdentifierAST { location, .. }) => {
                *location = loc;
            },
            Expression::Prefix { location, .. } => {
                *location = loc;
            },
            Expression::Postfix { location, .. } => {
                *location = loc;
            },
            Expression::Binary { location, .. } => {
                *location = loc;
            },
            Expression::Literal(Literal { location, .. }) => {
                *location = loc;
            },
            Expression::Call { location, .. } => {
                *location = loc;
            },
            Expression::FieldAccess { location, .. } => {
                *location = loc;
            },
            Expression::Function { location, .. } => {
                *location = loc;
            },
        }
    }
}

impl StatementsBlock {
    pub open spec fn model(&self) -> BlockModel
        decreases self,
    {
        BlockModel { statements: stmts_model(self.statements@), location: self.location }
    }
}

impl Statement {
    pub open spec fn model(&self) -> StmtModel
        decreases self,
    {
        match self {
            Statement::Expression { location, expression } => StmtModel::Expression {
                location: *location,
                expression: expression.model(),
            },
            Statement::Return { location, return_value } => StmtModel::Return {
                location: *location,
                return_value: return_value.model(),
            },
            Statement::Break { location } => StmtModel::Break { location: *location },
            Statement::Continue { location } => StmtModel::Continue { location: *location },
            Statement::Var { location, name, value } => StmtModel::Var {
                location: *location,
                name: name@,
                value: value.model(),
            },
        }
    }
}

impl View for Expression {
    type V = ExprModel;

    open spec fn view(&self) -> ExprModel {
        self.model()
    }
}

impl View for Statement {
    type V = StmtModel;

    open spec fn view(&self) -> StmtModel {
        self.model()
    }
}

impl View for StatementsBlock {
    type V = BlockModel;

    open spec fn view(&self) -> BlockModel {
        self.model()
    }
}

fn copy_token(t: &Token) -> (r: Token)
    ensures
        r@ == t@,
{
    let raw = match &t.raw {
        RawToken::Identifier(s) => RawToken::Identifier(s.clone()),
        RawToken::StringLiteral(s) => RawToken::StringLiteral(s.clone()),
        RawToken::Keyword(k) => RawToken::Keyword(*k),
        RawToken::Punctuation(p) => RawToken::Punctuation(*p),
        RawToken::BoolLiteral(b) => RawToken::BoolLiteral(*b),
        RawToken::IntegerLiteral(v) => RawToken::IntegerLiteral(*v),
        RawToken::CharLiteral(c) => RawToken::CharLiteral(*c),
        RawToken::UnexpectedChar(c) => RawToken::UnexpectedChar(*c),
    };
    Token { raw, location: t.location }
}

fn copy_ident(id: &IdentifierAST) -> (r: IdentifierAST)
    ensures
        r@ == id@,
{
    IdentifierAST { identifier: id.identifier.clone(), location: id.location }
}

fn copy_literal(l: &Literal) -> (r: Literal)
    ensures
        r.raw@ == l.raw@,
        r.location == l.location,
{
    let raw = match &l.raw {
        RawLiteral::Integer(v) => RawLiteral::Integer(*v),
        RawLiteral::String(s) => RawLiteral::String(s.clone()),
        RawLiteral::Char(c) => RawLiteral::Char(*c),
        RawLiteral::Bool(b) => RawLiteral::Bool(*b),
    };
    Literal { raw, location: l.location }
}

fn copy_idents(v: &Vec<IdentifierAST>) -> (r: Vec<IdentifierAST>)
    ensures
        idents_model(r@) == idents_model(v@),
{
    let mut out: Vec<IdentifierAST> = Vec::new();
    let mut i: usize = 0;
    while i < v.len()
        invariant
            i <= v.len(),
            out@.len() == i,
            forall|k: int| 0 <= k < i ==> (#[trigger] out@[k])@ == v@[k]@,
        decreases v.len() - i,
    {
        out.push(copy_ident(&v[i]));
        i = i + 1;
    }
    assert(idents_model(out@) =~= idents_model(v@));
    out
}

fn clone_exprs(v: &Vec<Expression>) -> (r: Vec<Expression>)
    ensures
        exprs_model(r@) == exprs_model(v@),
    decreases v,
{
    let mut out: Vec<Expression> = Vec::new();
    let mut i: usize = 0;
    while i < v.len()
        invariant
            i <= v.len(),
            out@.len() == i,
            forall|k: int| 0 <= k < i ==> (#[trigger] out@[k]).model() == v@[k].model(),
        decreases v.len() - i,
    {
        proof {
            assert(decreases_to!(v => v@[i as int]));
        }
        out.push(v[i].clone());
        i = i + 1;
    }
    assert(exprs_model(out@) =~= exprs_model(v@));
    out
}

fn clone_stmts(v: &Vec<Statement>) -> (r: Vec<Statement>)
    ensures
        stmts_model(r@) == stmts_model(v@),
    decreases v,
{
    let mut out: Vec<Statement> = Vec::new();
    let mut i: usize = 0;
    while i < v.len()
        invariant
            i <= v.len(),
            out@.len() == i,
            forall|k: int| 0 <= k < i ==> (#[trigger] out@[k]).model() == v@[k].model(),
        decreases v.len() - i,
    {
        proof {
            assert(decreases_to!(v => v@[i as int]));
        }
        out.push(v[i].clone());
        i = i + 1;
    }
    assert(stmts_model(out@) =~= stmts_model(v@));
    out
}

impl Clone for Expression {
    fn clone(&self) -> (r: Self)
        ensures
            r.model() == self.model(),
        decreases self,
    {
        match self {
            Expression::Literal(l) => Expression::Literal(copy_literal(l)),
            Expression::Binary { left, right, operator, location } => Expression::Binary {
                left: Box::new((**left).clone()),
                right: Box::new((**right).clone()),
                operator: copy_token(operator),
                location: *location,
            },
            Expression::Postfix { left, operator, location } => Expression::Postfix {
                left: Box::new((**left).clone()),
                operator: copy_token(operator),
                location: *location,
            },
            Expression::Prefix { operator, right, location } => Expression::Prefix {
                operator: copy_token(operator),
                right: Box::new((**right).clone()),
                location: *location,
            },
            Expression::Identifier(id) => Expression::Identifier(copy_ident(id)),
            Expression::Call { callee, arguments, location } => Expression::Call {
                callee: Box::new((**callee).clone()),
                arguments: clone_exprs(arguments),
                location: *location,
            },
            Expression::FieldAccess { left, right, location } => Expression::FieldAccess {
                left: Box::new((**left).clone()),
                right: copy_ident(right),
                location: *location,
            },
            Expression::Function { parameters, block, location } => Expression::Function {
                parameters: copy_idents(parameters),
                block: block.clone(),
                location: *location,
            },
        }
    }
}

impl Clone for StatementsBlock {
    fn clone(&self) -> (r: Self)
        ensures
            r.model() == self.model(),
        decreases self,
    {
        StatementsBlock { statements: clone_stmts(&self.statements), location: self.location }
    }
}

impl Clone for Statement {
    fn clone(&self) -> (r: Self)
        ensures
            r.model() == self.model(),
        decreases self,
    {
        match self {
            Statement::Expression { location, expression } => Statement::Expression {
                location: *location,
                expression: expression.clone(),
            },
            Statement::Return { location, return_value } => Statement::Return {
                location: *location,
                return_value: return_value.clone(),
            },
            Statement::Break { location } => Statement::Break { location: *location },
            Statement::Continue { location } => Statement::Continue { location: *location },
            Statement::Var { location, name, value } => Statement::Var {
                location: *location,
                name: copy_ident(name),
                value: value.clone(),
            },
        }
    }
}

} // verus!
