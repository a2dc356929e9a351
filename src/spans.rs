use vstd::prelude::*;

use crate::ast::{ExprModel, IdentModel, StmtModel};
use crate::parser::{
    arguments_spec, block_spec, climb_spec, expect_spec, expression_spec, identifier_spec,
    is_punct, parameters_spec, primary_spec, statement_spec, statements_spec,
};
use crate::token::{Precedence, Punctuation, TokenModel};

verus! {

// ---------------------------------------------------------------------------
// Every parsing step leaves a suffix of its input
// ---------------------------------------------------------------------------

/// `r` is what is left of `ts` after its first `ts.len() - r.len()` tokens.
pub open spec fn is_suffix(r: Seq<TokenModel>, ts: Seq<TokenModel>) -> bool {
    r.len() <= ts.len() && r == ts.skip(ts.len() - r.len())
}

/// The last token that a step consumed, when it went from `ts` to `r`.
pub open spec fn last_consumed(ts: Seq<TokenModel>, r: Seq<TokenModel>) -> TokenModel {
    ts[ts.len() - r.len() - 1]
}

proof fn lemma_suffix_refl(ts: Seq<TokenModel>)
    ensures
        is_suffix(ts, ts),
{
    assert(ts =~= ts.skip(0));
}

proof fn lemma_suffix_drop(ts: Seq<TokenModel>)
    requires
        ts.len() > 0,
    ensures
        is_suffix(ts.drop_first(), ts),
{
    assert(ts.drop_first() =~= ts.skip(1));
}

proof fn lemma_suffix_trans(a: Seq<TokenModel>, b: Seq<TokenModel>, c: Seq<TokenModel>)
    requires
        is_suffix(a, b),
        is_suffix(b, c),
    ensures
        is_suffix(a, c),
        a.len() < b.len() ==> last_consumed(c, a) == last_consumed(b, a),
{
    assert(a =~= c.skip(c.len() - a.len()));
}

proof fn lemma_expect_suffix(ts: Seq<TokenModel>, p: Punctuation)
    ensures
        expect_spec(ts, p) is Ok ==> ts.len() > 0 && expect_spec(ts, p)->Ok_0.0 == ts[0]
            && expect_spec(ts, p)->Ok_0.1 == ts.drop_first() && is_suffix(ts.drop_first(), ts)
            && last_consumed(ts, ts.drop_first()) == ts[0],
{
    if ts.len() > 0 {
        lemma_suffix_drop(ts);
    }
}

proof fn lemma_identifier_suffix(ts: Seq<TokenModel>)
    ensures
        identifier_spec(ts) is Ok ==> ts.len() > 0 && identifier_spec(ts)->Ok_0.0.location
            == ts[0].location && identifier_spec(ts)->Ok_0.1 == ts.drop_first() && is_suffix(
            ts.drop_first(),
            ts,
        ) && last_consumed(ts, ts.drop_first()) == ts[0],
{
    if ts.len() > 0 {
        lemma_suffix_drop(ts);
    }
}

pub proof fn lemma_expression_suffix(ts: Seq<TokenModel>, prec: Precedence)
    ensures
        expression_spec(ts, prec) is Ok ==> is_suffix(expression_spec(ts, prec)->Ok_0.1, ts)
            && expression_spec(ts, prec)->Ok_0.1.len() < ts.len(),
    decreases ts.len(), 2nat,
{
    lemma_primary_suffix(ts);
    match primary_spec(ts) {
        Ok((left, r)) => {
            if r.len() < ts.len() {
                lemma_climb_suffix(left, r, prec);
                if climb_spec(left, r, prec) is Ok {
                    lemma_suffix_trans(climb_spec(left, r, prec)->Ok_0.1, r, ts);
                }
            }
        },
        Err(_) => {},
    }
}

pub proof fn lemma_climb_suffix(left: ExprModel, ts: Seq<TokenModel>, prec: Precedence)
    ensures
        climb_spec(left, ts, prec) is Ok ==> is_suffix(climb_spec(left, ts, prec)->Ok_0.1, ts),
    decreases ts.len(), 0nat,
{
    lemma_suffix_refl(ts);
    if ts.len() > 0 && prec.spec_rank() < crate::token::raw_precedence(ts[0].raw).spec_rank() {
        let op = ts[0];
        let r = ts.drop_first();
        lemma_suffix_drop(ts);
        match op.raw {
            crate::token::RawTokenModel::Punctuation(p) => {
                if crate::parser::is_binary(p) {
                    lemma_expression_suffix(r, crate::token::punctuation_precedence(p));
                    match expression_spec(r, crate::token::punctuation_precedence(p)) {
                        Ok((right, r2)) => {
                            lemma_suffix_trans(r2, r, ts);
                            if r2.len() < ts.len() {
                                let nl = ExprModel::Binary {
                                    left: Box::new(left),
                                    right: Box::new(right),
                                    operator: op,
                                    location: crate::parser::span(left.location(), right.location()),
                                };
                                lemma_climb_suffix(nl, r2, prec);
                                if climb_spec(nl, r2, prec) is Ok {
                                    lemma_suffix_trans(climb_spec(nl, r2, prec)->Ok_0.1, r2, ts);
                                }
                            }
                        },
                        Err(_) => {},
                    }
                } else if crate::parser::is_postfix(p) {
                    let nl = ExprModel::Postfix {
                        left: Box::new(left),
                        operator: op,
                        location: crate::parser::span(left.location(), op.location),
                    };
                    lemma_climb_suffix(nl, r, prec);
                    if climb_spec(nl, r, prec) is Ok {
                        lemma_suffix_trans(climb_spec(nl, r, prec)->Ok_0.1, r, ts);
                    }
                } else if p == Punctuation::Dot {
                    lemma_identifier_suffix(r);
                    match identifier_spec(r) {
                        Ok((field, r2)) => {
                            lemma_suffix_trans(r2, r, ts);
                            if r2.len() < ts.len() {
                                let nl = ExprModel::FieldAccess {
                                    left: Box::new(left),
                                    right: field,
                                    location: crate::parser::span(left.location(), field.location),
                                };
                                lemma_climb_suffix(nl, r2, prec);
                                if climb_spec(nl, r2, prec) is Ok {
                                    lemma_suffix_trans(climb_spec(nl, r2, prec)->Ok_0.1, r2, ts);
                                }
                            }
                        },
                        Err(_) => {},
                    }
                } else if p == Punctuation::OpenParent {
                    lemma_arguments_suffix(r, seq![]);
                    match arguments_spec(r, seq![]) {
                        Ok((args, r2)) => {
                            lemma_suffix_trans(r2, r, ts);
                            lemma_expect_suffix(r2, Punctuation::CloseParent);
                            match expect_spec(r2, Punctuation::CloseParent) {
                                Ok((close, r3)) => {
                                    lemma_suffix_trans(r3, r2, ts);
                                    if r3.len() < ts.len() {
                                        let nl = ExprModel::Call {
                                            callee: Box::new(left),
                                            arguments: args,
                                            location: crate::parser::span(
                                                left.location(),
                                                close.location,
                                            ),
                                        };
                                        lemma_climb_suffix(nl, r3, prec);
                                        if climb_spec(nl, r3, prec) is Ok {
                                            lemma_suffix_trans(
                                                climb_spec(nl, r3, prec)->Ok_0.1,
                                                r3,
                                                ts,
                                            );
                                        }
                                    }
                                },
                                Err(_) => {},
                            }
                        },
                        Err(_) => {},
                    }
                }
            },
            _ => {},
        }
    }
}

pub proof fn lemma_arguments_suffix(ts: Seq<TokenModel>, acc: Seq<ExprModel>)
    ensures
        arguments_spec(ts, acc) is Ok ==> is_suffix(arguments_spec(ts, acc)->Ok_0.1, ts),
    decreases ts.len(), 3nat,
{
    lemma_suffix_refl(ts);
    if ts.len() > 0 && !is_punct(ts[0], Punctuation::CloseParent) {
        lemma_expression_suffix(ts, Precedence::Lowest);
        match expression_spec(ts, Precedence::Lowest) {
            Ok((a, r)) => {
                if crate::parser::starts_with(r, Punctuation::Comma) && r.len() <= ts.len() {
                    lemma_suffix_drop(r);
                    lemma_suffix_trans(r.drop_first(), r, ts);
                    lemma_arguments_suffix(r.drop_first(), acc.push(a));
                    if arguments_spec(r.drop_first(), acc.push(a)) is Ok {
                        lemma_suffix_trans(
                            arguments_spec(r.drop_first(), acc.push(a))->Ok_0.1,
                            r.drop_first(),
                            ts,
                        );
                    }
                }
            },
            Err(_) => {},
        }
    }
}

pub proof fn lemma_parameters_suffix(ts: Seq<TokenModel>, acc: Seq<IdentModel>)
    ensures
        parameters_spec(ts, acc) is Ok ==> is_suffix(parameters_spec(ts, acc)->Ok_0.1, ts),
    decreases ts.len(),
{
    lemma_suffix_refl(ts);
    if ts.len() > 0 && !is_punct(ts[0], Punctuation::CloseParent) {
        lemma_identifier_suffix(ts);
        match identifier_spec(ts) {
            Ok((id, r)) => {
                if crate::parser::starts_with(r, Punctuation::Comma) && r.len() <= ts.len() {
                    lemma_suffix_drop(r);
                    lemma_suffix_trans(r.drop_first(), r, ts);
                    lemma_parameters_suffix(r.drop_first(), acc.push(id));
                    if parameters_spec(r.drop_first(), acc.push(id)) is Ok {
                        lemma_suffix_trans(
                            parameters_spec(r.drop_first(), acc.push(id))->Ok_0.1,
                            r.drop_first(),
                            ts,
                        );
                    }
                }
            },
            Err(_) => {},
        }
    }
}

pub proof fn lemma_primary_suffix(ts: Seq<TokenModel>)
    ensures
        primary_spec(ts) is Ok ==> is_suffix(primary_spec(ts)->Ok_0.1, ts) && primary_spec(
            ts,
        )->Ok_0.1.len() < ts.len(),
    decreases ts.len(), 1nat,
{
    if ts.len() > 0 {
        let r = ts.drop_first();
        lemma_suffix_drop(ts);
        lemma_expression_suffix(r, Precedence::Lowest);
        match expression_spec(r, Precedence::Lowest) {
            Ok((_inner, r2)) => {
                lemma_suffix_trans(r2, r, ts);
                lemma_expect_suffix(r2, Punctuation::CloseParent);
                if expect_spec(r2, Punctuation::CloseParent) is Ok {
                    lemma_suffix_trans(r2.drop_first(), r2, ts);
                }
            },
            Err(_) => {},
        }
        lemma_expect_suffix(r, Punctuation::OpenParent);
        match expect_spec(r, Punctuation::OpenParent) {
            Ok((_open, r2)) => {
                lemma_suffix_trans(r2, r, ts);
                lemma_parameters_suffix(r2, seq![]);
                match parameters_spec(r2, seq![]) {
                    Ok((_params, r3)) => {
                        lemma_suffix_trans(r3, r2, ts);
                        lemma_expect_suffix(r3, Punctuation::CloseParent);
                        match expect_spec(r3, Punctuation::CloseParent) {
                            Ok((_close, r4)) => {
                                lemma_suffix_trans(r4, r3, ts);
                                if r4.len() < ts.len() {
                                    lemma_block_suffix(r4);
                                    if block_spec(r4) is Ok {
                                        lemma_suffix_trans(block_spec(r4)->Ok_0.1, r4, ts);
                                    }
                                }
                            },
                            Err(_) => {},
                        }
                    },
                    Err(_) => {},
                }
            },
            Err(_) => {},
        }
    }
}

pub proof fn lemma_statement_suffix(ts: Seq<TokenModel>)
    ensures
        statement_spec(ts) is Ok ==> is_suffix(statement_spec(ts)->Ok_0.1, ts) && statement_spec(
            ts,
        )->Ok_0.1.len() < ts.len(),
    decreases ts.len(), 3nat,
{
    lemma_expression_suffix(ts, Precedence::Lowest);
    match expression_spec(ts, Precedence::Lowest) {
        Ok((_e, r)) => {
            lemma_expect_suffix(r, Punctuation::Semicolon);
            if expect_spec(r, Punctuation::Semicolon) is Ok {
                lemma_suffix_trans(r.drop_first(), r, ts);
            }
        },
        Err(_) => {},
    }
    if ts.len() > 0 {
        let r = ts.drop_first();
        lemma_suffix_drop(ts);
        lemma_expect_suffix(r, Punctuation::Semicolon);
        if expect_spec(r, Punctuation::Semicolon) is Ok {
            lemma_suffix_trans(r.drop_first(), r, ts);
        }
        lemma_expression_suffix(r, Precedence::Lowest);
        match expression_spec(r, Precedence::Lowest) {
            Ok((_v, r2)) => {
                lemma_suffix_trans(r2, r, ts);
                lemma_expect_suffix(r2, Punctuation::Semicolon);
                if expect_spec(r2, Punctuation::Semicolon) is Ok {
                    lemma_suffix_trans(r2.drop_first(), r2, ts);
                }
            },
            Err(_) => {},
        }
        lemma_identifier_suffix(r);
        match identifier_spec(r) {
            Ok((_name, r2)) => {
                lemma_suffix_trans(r2, r, ts);
                lemma_expect_suffix(r2, Punctuation::Eq);
                match expect_spec(r2, Punctuation::Eq) {
                    Ok((_eq, r3)) => {
                        lemma_suffix_trans(r3, r2, ts);
                        if r3.len() < ts.len() {
                            lemma_expression_suffix(r3, Precedence::Lowest);
                            match expression_spec(r3, Precedence::Lowest) {
                                Ok((_v, r4)) => {
                                    lemma_suffix_trans(r4, r3, ts);
                                    lemma_expect_suffix(r4, Punctuation::Semicolon);
                                    if expect_spec(r4, Punctuation::Semicolon) is Ok {
                                        lemma_suffix_trans(r4.drop_first(), r4, ts);
                                    }
                                },
                                Err(_) => {},
                            }
                        }
                    },
                    Err(_) => {},
                }
            },
            Err(_) => {},
        }
    }
}

pub proof fn lemma_statements_suffix(ts: Seq<TokenModel>, acc: Seq<StmtModel>)
    ensures
        statements_spec(ts, acc) is Ok ==> is_suffix(statements_spec(ts, acc)->Ok_0.1, ts),
    decreases ts.len(), 4nat,
{
    lemma_suffix_refl(ts);
    if ts.len() > 0 && !is_punct(ts[0], Punctuation::CloseBrace) {
        lemma_statement_suffix(ts);
        match statement_spec(ts) {
            Ok((st, r)) => {
                if r.len() < ts.len() {
                    lemma_statements_suffix(r, acc.push(st));
                    if statements_spec(r, acc.push(st)) is Ok {
                        lemma_suffix_trans(statements_spec(r, acc.push(st))->Ok_0.1, r, ts);
                    }
                }
            },
            Err(_) => {},
        }
    }
}

pub proof fn lemma_block_suffix(ts: Seq<TokenModel>)
    ensures
        block_spec(ts) is Ok ==> is_suffix(block_spec(ts)->Ok_0.1, ts) && block_spec(
            ts,
        )->Ok_0.1.len() < ts.len() && block_spec(ts)->Ok_0.0.location.end == last_consumed(
            ts,
            block_spec(ts)->Ok_0.1,
        ).location.end,
    decreases ts.len(), 5nat,
{
    lemma_expect_suffix(ts, Punctuation::OpenBrace);
    match expect_spec(ts, Punctuation::OpenBrace) {
        Ok((_open, r)) => {
            if r.len() < ts.len() {
                lemma_statements_suffix(r, seq![]);
                match statements_spec(r, seq![]) {
                    Ok((_sts, r2)) => {
                        lemma_suffix_trans(r2, r, ts);
                        lemma_expect_suffix(r2, Punctuation::CloseBrace);
                        if expect_spec(r2, Punctuation::CloseBrace) is Ok {
                            lemma_suffix_trans(r2.drop_first(), r2, ts);
                        }
                    },
                    Err(_) => {},
                }
            }
        },
        Err(_) => {},
    }
}

// ---------------------------------------------------------------------------
// Spans of parsed expressions
// ---------------------------------------------------------------------------

/// `e` ends where the last token consumed from `ts` (leaving `r`) ends.
pub open spec fn ends_at_last(e: ExprModel, ts: Seq<TokenModel>, r: Seq<TokenModel>) -> bool {
    e.location().end == last_consumed(ts, r).location.end
}

proof fn lemma_primary_end(ts: Seq<TokenModel>)
    ensures
        primary_spec(ts) is Ok ==> ends_at_last(
            primary_spec(ts)->Ok_0.0,
            ts,
            primary_spec(ts)->Ok_0.1,
        ),
        primary_spec(ts) is Ok ==> primary_spec(ts)->Ok_0.0.location().start
            == ts[0].location.start,
{
    if ts.len() > 0 {
        let r = ts.drop_first();
        lemma_suffix_drop(ts);
        lemma_expression_suffix(r, Precedence::Lowest);
        match expression_spec(r, Precedence::Lowest) {
            Ok((_inner, r2)) => {
                lemma_suffix_trans(r2, r, ts);
                lemma_expect_suffix(r2, Punctuation::CloseParent);
                if expect_spec(r2, Punctuation::CloseParent) is Ok {
                    lemma_suffix_trans(r2.drop_first(), r2, ts);
                }
            },
            Err(_) => {},
        }
        lemma_expect_suffix(r, Punctuation::OpenParent);
        match expect_spec(r, Punctuation::OpenParent) {
            Ok((_open, r2)) => {
                lemma_suffix_trans(r2, r, ts);
                lemma_parameters_suffix(r2, seq![]);
                match parameters_spec(r2, seq![]) {
                    Ok((_params, r3)) => {
                        lemma_suffix_trans(r3, r2, ts);
                        lemma_expect_suffix(r3, Punctuation::CloseParent);
                        match expect_spec(r3, Punctuation::CloseParent) {
                            Ok((_close, r4)) => {
                                lemma_suffix_trans(r4, r3, ts);
                                if r4.len() < ts.len() {
                                    lemma_block_suffix(r4);
                                    if block_spec(r4) is Ok {
                                        lemma_suffix_trans(block_spec(r4)->Ok_0.1, r4, ts);
                                    }
                                }
                            },
                            Err(_) => {},
                        }
                    },
                    Err(_) => {},
                }
            },
            Err(_) => {},
        }
    }
}

proof fn lemma_expression_end(ts: Seq<TokenModel>, prec: Precedence)
    ensures
        expression_spec(ts, prec) is Ok ==> ends_at_last(
            expression_spec(ts, prec)->Ok_0.0,
            ts,
            expression_spec(ts, prec)->Ok_0.1,
        ),
    decreases ts.len(), 1nat,
{
    lemma_primary_end(ts);
    lemma_primary_suffix(ts);
    match primary_spec(ts) {
        Ok((left, r)) => {
            if r.len() < ts.len() {
                lemma_climb_end(left, r, prec);
                lemma_climb_suffix(left, r, prec);
                if climb_spec(left, r, prec) is Ok {
                    lemma_suffix_trans(climb_spec(left, r, prec)->Ok_0.1, r, ts);
                }
            }
        },
        Err(_) => {},
    }
}

proof fn lemma_climb_end(left: ExprModel, ts: Seq<TokenModel>, prec: Precedence)
    ensures
        climb_spec(left, ts, prec) is Ok ==> ({
            let (e, r) = climb_spec(left, ts, prec)->Ok_0;
            (r == ts && e == left) || (r.len() < ts.len() && ends_at_last(e, ts, r))
        }),
    decreases ts.len(), 0nat,
{
    if ts.len() > 0 && prec.spec_rank() < crate::token::raw_precedence(ts[0].raw).spec_rank() {
        let op = ts[0];
        let r = ts.drop_first();
        lemma_suffix_drop(ts);
        match op.raw {
            crate::token::RawTokenModel::Punctuation(p) => {
                if crate::parser::is_binary(p) {
                    let q = crate::token::punctuation_precedence(p);
                    lemma_expression_suffix(r, q);
                    lemma_expression_end(r, q);
                    match expression_spec(r, q) {
                        Ok((right, r2)) => {
                            lemma_suffix_trans(r2, r, ts);
                            if r2.len() < ts.len() {
                                let nl = ExprModel::Binary {
                                    left: Box::new(left),
                                    right: Box::new(right),
                                    operator: op,
                                    location: crate::parser::span(left.location(), right.location()),
                                };
                                lemma_climb_end(nl, r2, prec);
                                lemma_climb_suffix(nl, r2, prec);
                                if climb_spec(nl, r2, prec) is Ok {
                                    lemma_suffix_trans(climb_spec(nl, r2, prec)->Ok_0.1, r2, ts);
                                }
                            }
                        },
                        Err(_) => {},
                    }
                } else if crate::parser::is_postfix(p) {
                    let nl = ExprModel::Postfix {
                        left: Box::new(left),
                        operator: op,
                        location: crate::parser::span(left.location(), op.location),
                    };
                    lemma_climb_end(nl, r, prec);
                    lemma_climb_suffix(nl, r, prec);
                    if climb_spec(nl, r, prec) is Ok {
                        lemma_suffix_trans(climb_spec(nl, r, prec)->Ok_0.1, r, ts);
                    }
                } else if p == Punctuation::Dot {
                    lemma_identifier_suffix(r);
                    match identifier_spec(r) {
                        Ok((field, r2)) => {
                            lemma_suffix_trans(r2, r, ts);
                            if r2.len() < ts.len() {
                                let nl = ExprModel::FieldAccess {
                                    left: Box::new(left),
                                    right: field,
                                    location: crate::parser::span(left.location(), field.location),
                                };
                                lemma_climb_end(nl, r2, prec);
                                lemma_climb_suffix(nl, r2, prec);
                                if climb_spec(nl, r2, prec) is Ok {
                                    lemma_suffix_trans(climb_spec(nl, r2, prec)->Ok_0.1, r2, ts);
                                }
                            }
                        },
                        Err(_) => {},
                    }
                } else if p == Punctuation::OpenParent {
                    lemma_arguments_suffix(r, seq![]);
                    match arguments_spec(r, seq![]) {
                        Ok((args, r2)) => {
                            lemma_suffix_trans(r2, r, ts);
                            lemma_expect_suffix(r2, Punctuation::CloseParent);
                            match expect_spec(r2, Punctuation::CloseParent) {
                                Ok((close, r3)) => {
                                    lemma_suffix_trans(r3, r2, ts);
                                    if r3.len() < ts.len() {
                                        let nl = ExprModel::Call {
                                            callee: Box::new(left),
                                            arguments: args,
                                            location: crate::parser::span(
                                                left.location(),
                                                close.location,
                                            ),
                                        };
                                        lemma_climb_end(nl, r3, prec);
                                        lemma_climb_suffix(nl, r3, prec);
                                        if climb_spec(nl, r3, prec) is Ok {
                                            lemma_suffix_trans(
                                                climb_spec(nl, r3, prec)->Ok_0.1,
                                                r3,
                                                ts,
                                            );
                                        }
                                    }
                                },
                                Err(_) => {},
                            }
                        },
                        Err(_) => {},
                    }
                }
            },
            _ => {},
        }
    }
}

proof fn lemma_climb_start(left: ExprModel, ts: Seq<TokenModel>, prec: Precedence)
    ensures
        climb_spec(left, ts, prec) is Ok ==> climb_spec(left, ts, prec)->Ok_0.0.location().start
            == left.location().start,
    decreases ts.len(),
{
    if ts.len() > 0 && prec.spec_rank() < crate::token::raw_precedence(ts[0].raw).spec_rank() {
        let op = ts[0];
        let r = ts.drop_first();
        match op.raw {
            crate::token::RawTokenModel::Punctuation(p) => {
                if crate::parser::is_binary(p) {
                    match expression_spec(r, crate::token::punctuation_precedence(p)) {
                        Ok((right, r2)) => {
                            if r2.len() < ts.len() {
                                lemma_climb_start(
                                    ExprModel::Binary {
                                        left: Box::new(left),
                                        right: Box::new(right),
                                        operator: op,
                                        location: crate::parser::span(
                                            left.location(),
                                            right.location(),
                                        ),
                                    },
                                    r2,
                                    prec,
                                );
                            }
                        },
                        Err(_) => {},
                    }
                } else if crate::parser::is_postfix(p) {
                    lemma_climb_start(
                        ExprModel::Postfix {
                            left: Box::new(left),
                            operator: op,
                            location: crate::parser::span(left.location(), op.location),
                        },
                        r,
                        prec,
                    );
                } else if p == Punctuation::Dot {
                    match identifier_spec(r) {
                        Ok((field, r2)) => {
                            if r2.len() < ts.len() {
                                lemma_climb_start(
                                    ExprModel::FieldAccess {
                                        left: Box::new(left),
                                        right: field,
                                        location: crate::parser::span(
                                            left.location(),
                                            field.location,
                                        ),
                                    },
                                    r2,
                                    prec,
                                );
                            }
                        },
                        Err(_) => {},
                    }
                } else if p == Punctuation::OpenParent {
                    match arguments_spec(r, seq![]) {
                        Ok((args, r2)) => match expect_spec(r2, Punctuation::CloseParent) {
                            Ok((close, r3)) => {
                                if r3.len() < ts.len() {
                                    lemma_climb_start(
                                        ExprModel::Call {
                                            callee: Box::new(left),
                                            arguments: args,
                                            location: crate::parser::span(
                                                left.location(),
                                                close.location,
                                            ),
                                        },
                                        r3,
                                        prec,
                                    );
                                }
                            },
                            Err(_) => {},
                        },
                        Err(_) => {},
                    }
                }
            },
            _ => {},
        }
    }
}

/// A parsed expression spans from the start of its first token to the end of the
/// last token it consumed; a parenthesised group spans its parentheses.
pub proof fn lemma_expression_span(ts: Seq<TokenModel>, prec: Precedence)
    requires
        expression_spec(ts, prec) is Ok,
    ensures
        ({
            let (e, r) = expression_spec(ts, prec)->Ok_0;
            &&& r.len() < ts.len()
            &&& is_suffix(r, ts)
            &&& e.location().start == ts[0].location.start
            &&& e.location().end == last_consumed(ts, r).location.end
        }),
{
    lemma_expression_suffix(ts, prec);
    lemma_expression_end(ts, prec);
    lemma_primary_end(ts);
    lemma_primary_suffix(ts);
    match primary_spec(ts) {
        Ok((left, r)) => {
            lemma_climb_start(left, r, prec);
        },
        Err(_) => {},
    }
}

/// A parsed statement spans from the start of its leading token to the end of the
/// `;` that closes it, which is the last token it consumed.
pub proof fn lemma_statement_span(ts: Seq<TokenModel>)
    requires
        statement_spec(ts) is Ok,
    ensures
        ({
            let (st, r) = statement_spec(ts)->Ok_0;
            &&& r.len() < ts.len()
            &&& is_suffix(r, ts)
            &&& is_punct(last_consumed(ts, r), Punctuation::Semicolon)
            &&& st.location().start == ts[0].location.start
            &&& st.location().end == last_consumed(ts, r).location.end
        }),
{
    lemma_statement_suffix(ts);
    if ts.len() > 0 {
        let r = ts.drop_first();
        lemma_suffix_drop(ts);
        lemma_expect_suffix(r, Punctuation::Semicolon);
        if expect_spec(r, Punctuation::Semicolon) is Ok {
            lemma_suffix_trans(r.drop_first(), r, ts);
        }
        lemma_expression_suffix(r, Precedence::Lowest);
        match expression_spec(r, Precedence::Lowest) {
            Ok((_v, r2)) => {
                lemma_suffix_trans(r2, r, ts);
                lemma_expect_suffix(r2, Punctuation::Semicolon);
                if expect_spec(r2, Punctuation::Semicolon) is Ok {
                    lemma_suffix_trans(r2.drop_first(), r2, ts);
                }
            },
            Err(_) => {},
        }
        lemma_identifier_suffix(r);
        match identifier_spec(r) {
            Ok((_name, r2)) => {
                lemma_suffix_trans(r2, r, ts);
                lemma_expect_suffix(r2, Punctuation::Eq);
                match expect_spec(r2, Punctuation::Eq) {
                    Ok((_eq, r3)) => {
                        lemma_suffix_trans(r3, r2, ts);
                        if r3.len() < ts.len() {
                            lemma_expression_suffix(r3, Precedence::Lowest);
                            match expression_spec(r3, Precedence::Lowest) {
                                Ok((_v, r4)) => {
                                    lemma_suffix_trans(r4, r3, ts);
                                    lemma_expect_suffix(r4, Punctuation::Semicolon);
                                    if expect_spec(r4, Punctuation::Semicolon) is Ok {
                                        lemma_suffix_trans(r4.drop_first(), r4, ts);
                                    }
                                },
                                Err(_) => {},
                            }
                        }
                    },
                    Err(_) => {},
                }
            },
            Err(_) => {},
        }
    }
    lemma_expression_suffix(ts, Precedence::Lowest);
    if expression_spec(ts, Precedence::Lowest) is Ok {
        lemma_expression_span(ts, Precedence::Lowest);
        let r = expression_spec(ts, Precedence::Lowest)->Ok_0.1;
        lemma_expect_suffix(r, Punctuation::Semicolon);
        if expect_spec(r, Punctuation::Semicolon) is Ok {
            lemma_suffix_trans(r.drop_first(), r, ts);
        }
    }
}

} // verus!
