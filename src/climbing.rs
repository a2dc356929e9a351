use vstd::prelude::*;

use crate::ast::{ExprModel, IdentModel, LiteralModel};
use crate::parser::{climb_spec, expression_spec, is_binary, literal, primary_spec, span};
use crate::token::{punctuation_precedence, Precedence, RawTokenModel, TokenModel};

verus! {

/// A token that is a whole primary expression by itself: a name or a literal.
pub open spec fn is_atom(t: TokenModel) -> bool {
    match t.raw {
        RawTokenModel::Identifier(_) => true,
        RawTokenModel::IntegerLiteral(_) => true,
        RawTokenModel::BoolLiteral(_) => true,
        RawTokenModel::StringLiteral(_) => true,
        RawTokenModel::CharLiteral(_) => true,
        _ => false,
    }
}

/// The expression that an atom token stands for.
pub open spec fn atom(t: TokenModel) -> ExprModel {
    match t.raw {
        RawTokenModel::Identifier(name) => ExprModel::Identifier(
            IdentModel { identifier: name, location: t.location },
        ),
        RawTokenModel::IntegerLiteral(v) => literal(LiteralModel::Integer(v), t),
        RawTokenModel::BoolLiteral(b) => literal(LiteralModel::Bool(b), t),
        RawTokenModel::StringLiteral(s) => literal(LiteralModel::String(s), t),
        RawTokenModel::CharLiteral(c) => literal(LiteralModel::Char(c), t),
        _ => literal(LiteralModel::Bool(false), t),
    }
}

/// A binary operator (`+ - * /`) whose precedence is `level`.
pub open spec fn is_binary_at(t: TokenModel, level: Precedence) -> bool {
    match t.raw {
        RawTokenModel::Punctuation(p) => is_binary(p) && punctuation_precedence(p) == level,
        _ => false,
    }
}

/// Atoms at even positions joined by binary operators of one precedence level.
pub open spec fn is_chain(ts: Seq<TokenModel>, level: Precedence) -> bool {
    &&& ts.len() % 2 == 1
    &&& forall|i: int| 0 <= i < ts.len() && i % 2 == 0 ==> is_atom(#[trigger] ts[i])
    &&& forall|i: int| 0 <= i < ts.len() && i % 2 == 1 ==> is_binary_at(#[trigger] ts[i], level)
}

pub open spec fn binary(left: ExprModel, op: TokenModel, right: ExprModel) -> ExprModel {
    ExprModel::Binary {
        left: Box::new(left),
        right: Box::new(right),
        operator: op,
        location: span(left.location(), right.location()),
    }
}

/// The first `k` operators of a chain folded from the left:
/// `((e0 op1 e1) op2 e2) ... opk ek`.
pub open spec fn left_fold(ts: Seq<TokenModel>, k: int) -> ExprModel
    decreases k,
{
    if k <= 0 {
        atom(ts[0])
    } else {
        binary(left_fold(ts, k - 1), ts[2 * k - 1], atom(ts[2 * k]))
    }
}

proof fn lemma_primary_atom(ts: Seq<TokenModel>)
    requires
        ts.len() > 0,
        is_atom(ts[0]),
    ensures
        primary_spec(ts) == Ok::<(ExprModel, Seq<TokenModel>), crate::parser::ParseErrorModel>(
            (atom(ts[0]), ts.drop_first()),
        ),
{
}

/// An atom followed by nothing, or by an operator that binds no tighter than
/// `level`, is the whole expression at `level`.
proof fn lemma_atom_alone(ts: Seq<TokenModel>, level: Precedence)
    requires
        ts.len() > 0,
        is_atom(ts[0]),
        ts.len() == 1 || is_binary_at(ts[1], level),
    ensures
        expression_spec(ts, level) == Ok::<
            (ExprModel, Seq<TokenModel>),
            crate::parser::ParseErrorModel,
        >((atom(ts[0]), ts.drop_first())),
{
    lemma_primary_atom(ts);
    let r = ts.drop_first();
    assert(r.len() == 0 || r[0] == ts[1]);
    assert(climb_spec(atom(ts[0]), r, level) == Ok::<
        (ExprModel, Seq<TokenModel>),
        crate::parser::ParseErrorModel,
    >((atom(ts[0]), r)));
}

proof fn lemma_chain_from(ts: Seq<TokenModel>, level: Precedence, k: int)
    requires
        is_chain(ts, level),
        level == Precedence::Sum || level == Precedence::Product,
        0 <= k,
        2 * k + 1 <= ts.len(),
    ensures
        climb_spec(left_fold(ts, k), ts.skip(2 * k + 1), Precedence::Lowest) == Ok::<
            (ExprModel, Seq<TokenModel>),
            crate::parser::ParseErrorModel,
        >((left_fold(ts, (ts.len() - 1) / 2), Seq::<TokenModel>::empty())),
    decreases ts.len() - 2 * k,
{
    let rest = ts.skip(2 * k + 1);
    if 2 * k + 1 == ts.len() {
        assert(rest =~= Seq::<TokenModel>::empty());
        assert(k == (ts.len() - 1) / 2);
    } else {
        let op = ts[2 * k + 1];
        assert(is_binary_at(ts[2 * k + 1], level));
        assert(is_atom(ts[2 * k + 2]));
        assert(rest[0] == op);
        let r = rest.drop_first();
        assert(r =~= ts.skip(2 * k + 2));
        assert(r[0] == ts[2 * k + 2]);
        if r.len() > 1 {
            assert(r[1] == ts[2 * k + 3]);
            assert(is_binary_at(ts[2 * k + 3], level));
        }
        lemma_atom_alone(r, level);
        let r2 = r.drop_first();
        assert(r2 =~= ts.skip(2 * (k + 1) + 1));
        assert(left_fold(ts, k + 1) == binary(left_fold(ts, k), op, atom(ts[2 * k + 2])));
        lemma_chain_from(ts, level, k + 1);
    }
}

/// Operators of one precedence level fold to the left: a chain
/// `e0 op1 e1 ... opn en` parses as `(...((e0 op1 e1) op2 e2)...) opn en`, each right
/// operand being a single atom.
pub proof fn lemma_same_level_chain_folds_left(ts: Seq<TokenModel>, level: Precedence)
    requires
        is_chain(ts, level),
        level == Precedence::Sum || level == Precedence::Product,
    ensures
        expression_spec(ts, Precedence::Lowest) == Ok::<
            (ExprModel, Seq<TokenModel>),
            crate::parser::ParseErrorModel,
        >((left_fold(ts, (ts.len() - 1) / 2), Seq::<TokenModel>::empty())),
{
    assert(is_atom(ts[0]));
    lemma_primary_atom(ts);
    assert(ts.drop_first() =~= ts.skip(1));
    lemma_chain_from(ts, level, 0);
}

/// A tighter operator after a looser one takes the right operand: `a op1 b op2 c`, with
/// `op1` one of `+ -` and `op2` one of `* /`, parses as `a op1 (b op2 c)`.
pub proof fn lemma_tighter_operator_nests_right(ts: Seq<TokenModel>)
    requires
        ts.len() == 5,
        is_atom(ts[0]),
        is_atom(ts[2]),
        is_atom(ts[4]),
        is_binary_at(ts[1], Precedence::Sum),
        is_binary_at(ts[3], Precedence::Product),
    ensures
        expression_spec(ts, Precedence::Lowest) == Ok::<
            (ExprModel, Seq<TokenModel>),
            crate::parser::ParseErrorModel,
        >((binary(atom(ts[0]), ts[1], binary(atom(ts[2]), ts[3], atom(ts[4]))), Seq::<TokenModel>::empty())),
{
    lemma_primary_atom(ts);
    let r1 = ts.drop_first();
    assert(r1[0] == ts[1]);
    let r2 = r1.drop_first();
    assert(r2[0] == ts[2] && r2[1] == ts[3]);
    lemma_primary_atom(r2);
    let r3 = r2.drop_first();
    assert(r3[0] == ts[3]);
    let r4 = r3.drop_first();
    assert(r4[0] == ts[4] && r4.len() == 1);
    lemma_atom_alone(r4, Precedence::Product);
    let bc = binary(atom(ts[2]), ts[3], atom(ts[4]));
    let r5 = r4.drop_first();
    assert(r5 =~= Seq::<TokenModel>::empty());
    assert(climb_spec(atom(ts[2]), r3, Precedence::Sum) == climb_spec(bc, r5, Precedence::Sum));
    assert(expression_spec(r2, Precedence::Sum) == Ok::<
        (ExprModel, Seq<TokenModel>),
        crate::parser::ParseErrorModel,
    >((bc, r5)));
    let abc = binary(atom(ts[0]), ts[1], bc);
    assert(climb_spec(atom(ts[0]), r1, Precedence::Lowest) == climb_spec(
        abc,
        r5,
        Precedence::Lowest,
    ));
    assert(climb_spec(abc, r5, Precedence::Lowest) == Ok::<
        (ExprModel, Seq<TokenModel>),
        crate::parser::ParseErrorModel,
    >((abc, r5)));
}

} // verus!
