use vstd::prelude::*;

use crate::ast::{lemma_same_shape_reflexive, same_shape, view_expr, Expression, Node};
use crate::error::ParserError;
use crate::grammar::expression_at;
use crate::parser::expr_outcome;

verus! {

/// Parsing one input from one position twice gives equal trees, so trees
/// that agree in everything but spans, ending at the same position: the
/// outcome is a function of the input alone.
pub proof fn lemma_parse_deterministic(
    s: Seq<u8>,
    p: int,
    a: Result<Node<Expression>, ParserError>,
    end_a: usize,
    b: Result<Node<Expression>, ParserError>,
    end_b: usize,
)
    requires
        expr_outcome(a, end_a) == expression_at(s, p),
        expr_outcome(b, end_b) == expression_at(s, p),
    ensures
        a is Ok <==> b is Ok,
        a is Ok ==> view_expr(a->Ok_0) == view_expr(b->Ok_0) && end_a == end_b,
        a is Ok ==> same_shape(view_expr(a->Ok_0), view_expr(b->Ok_0)),
        a is Err ==> a->Err_0 == b->Err_0,
{
    if a is Ok {
        lemma_same_shape_reflexive(view_expr(a->Ok_0));
    }
}

} // verus!
