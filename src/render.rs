use vstd::prelude::*;
use vstd::string::StringExecFns;

use crate::ast::{
    lemma_view_list_push, view_expr, view_list, BinaryOperator, Expression, ExprView, Node,
    PrimaryExpression, UnaryOperator,
};
use crate::parser::push_char;

verus! {

pub open spec fn digit_char(d: int) -> char {
    ((d + 48) as u8) as char
}

/// The decimal digits of a natural number.
pub open spec fn nat_text(n: nat) -> Seq<char>
    decreases n,
{
    if n < 10 {
        seq![digit_char(n as int)]
    } else {
        nat_text(n / 10).push(digit_char((n % 10) as int))
    }
}

/// An integer in decimal, with a leading `-` when negative.
pub open spec fn int_text(v: int) -> Seq<char> {
    if v < 0 {
        "-"@ + nat_text((-v) as nat)
    } else {
        nat_text(v as nat)
    }
}

pub open spec fn unary_name(op: UnaryOperator) -> Seq<char> {
    match op {
        UnaryOperator::Neg => "Neg"@,
        UnaryOperator::Not => "Not"@,
        UnaryOperator::Inc => "Inc"@,
        UnaryOperator::Dec => "Dec"@,
    }
}

pub open spec fn binary_name(op: BinaryOperator) -> Seq<char> {
    match op {
        BinaryOperator::Add => "Add"@,
        BinaryOperator::Sub => "Sub"@,
        BinaryOperator::Mul => "Mul"@,
        BinaryOperator::Div => "Div"@,
        BinaryOperator::Pow => "Pow"@,
        BinaryOperator::Eq => "Eq"@,
        BinaryOperator::Ne => "Ne"@,
        BinaryOperator::Lt => "Lt"@,
        BinaryOperator::Gt => "Gt"@,
        BinaryOperator::Le => "Le"@,
        BinaryOperator::Ge => "Ge"@,
        BinaryOperator::And => "And"@,
        BinaryOperator::Or => "Or"@,
    }
}

/// The single-line text of a tree's payload, without spans: operators by
/// name with their operands in parentheses, numbers in decimal, names as
/// they are, arrays in brackets, calls as `name(args)`, groups in
/// parentheses.
pub open spec fn render(e: ExprView) -> Seq<char>
    decreases e,
{
    match e {
        ExprView::Unary { op, operand, is_prefix, .. } => match op {
            None => render(*operand),
            Some((_, o)) => (if is_prefix {
                "Prefix("@
            } else {
                "Postfix("@
            }) + unary_name(o) + ", "@ + render(*operand) + ")"@,
        },
        ExprView::Binary { lhs, op, rhs, .. } => binary_name(op.1) + "("@ + render(*lhs) + ", "@
            + render(*rhs) + ")"@,
        ExprView::Number { value, .. } => int_text(value as int),
        ExprView::Identifier { name, .. } => name,
        ExprView::Array { elements, .. } => "["@ + render_list(elements) + "]"@,
        ExprView::Call { name, arguments, .. } => name.1 + "("@ + render_list(arguments) + ")"@,
        ExprView::Grouped { inner, .. } => "("@ + render(*inner) + ")"@,
    }
}

/// The texts of a list of trees, separated by `, `.
pub open spec fn render_list(s: Seq<ExprView>) -> Seq<char>
    decreases s,
{
    if s.len() == 0 {
        Seq::empty()
    } else if s.len() == 1 {
        render(s[0])
    } else {
        render_list(s.drop_last()) + ", "@ + render(s.last())
    }
}

fn unary_text(op: UnaryOperator) -> (r: &'static str)
    ensures
        r@ == unary_name(op),
{
    match op {
        UnaryOperator::Neg => "Neg",
        UnaryOperator::Not => "Not",
        UnaryOperator::Inc => "Inc",
        UnaryOperator::Dec => "Dec",
    }
}

fn binary_text(op: BinaryOperator) -> (r: &'static str)
    ensures
        r@ == binary_name(op),
{
    match op {
        BinaryOperator::Add => "Add",
        BinaryOperator::Sub => "Sub",
        BinaryOperator::Mul => "Mul",
        BinaryOperator::Div => "Div",
        BinaryOperator::Pow => "Pow",
        BinaryOperator::Eq => "Eq",
        BinaryOperator::Ne => "Ne",
        BinaryOperator::Lt => "Lt",
        BinaryOperator::Gt => "Gt",
        BinaryOperator::Le => "Le",
        BinaryOperator::Ge => "Ge",
        BinaryOperator::And => "And",
        BinaryOperator::Or => "Or",
    }
}

fn push_nat(out: &mut String, n: u64)
    ensures
        final(out)@ == old(out)@ + nat_text(n as nat),
    decreases n,
{
    if n < 10 {
        push_char(out, ((n as u8) + 48) as char);
        assert(final(out)@ =~= old(out)@ + nat_text(n as nat));
    } else {
        push_nat(out, n / 10);
        push_char(out, (((n % 10) as u8) + 48) as char);
        assert(final(out)@ =~= old(out)@ + nat_text(n as nat));
    }
}

fn push_int(out: &mut String, v: i64)
    ensures
        final(out)@ == old(out)@ + int_text(v as int),
{
    if v < 0 {
        out.append("-");
        let magnitude = (0i128 - v as i128) as u64;
        push_nat(out, magnitude);
        assert(final(out)@ =~= old(out)@ + int_text(v as int));
    } else {
        push_nat(out, v as u64);
    }
}

fn render_list_into(s: &Vec<Node<Expression>>, out: &mut String)
    ensures
        final(out)@ == old(out)@ + render_list(view_list(s@)),
    decreases s, 0int,
{
    let ghost o0 = out@;
    let mut i: usize = 0;
    proof {
        assert(s@.subrange(0, 0) =~= Seq::<Node<Expression>>::empty());
        assert(out@ =~= o0 + render_list(view_list(s@.subrange(0, 0))));
    }
    while i < s.len()
        invariant
            i <= s@.len(),
            out@ == o0 + render_list(view_list(s@.subrange(0, i as int))),
        decreases s@.len() - i,
    {
        let ghost prefix = s@.subrange(0, i as int);
        proof {
            assert(s@.subrange(0, i + 1) =~= prefix.push(s@[i as int]));
            lemma_view_list_push(prefix, s@[i as int]);
            crate::ast::lemma_view_list_len(prefix);
            let vp = view_list(prefix);
            assert(vp.push(view_expr(s@[i as int])).drop_last() =~= vp);
        }
        if i > 0 {
            out.append(", ");
        }
        render_into(&s[i], out);
        proof {
            assert(out@ =~= o0 + render_list(view_list(s@.subrange(0, i + 1))));
        }
        i = i + 1;
    }
    proof {
        assert(s@.subrange(0, s@.len() as int) =~= s@);
    }
}

fn render_into(e: &Node<Expression>, out: &mut String)
    ensures
        final(out)@ == old(out)@ + render(view_expr(*e)),
    decreases e, 1int,
{
    match &e.node {
        Expression::UnaryExpression(u) => match &u.node.op {
            None => render_into(&u.node.expr, out),
            Some(o) => {
                if u.node.is_prefix {
                    out.append("Prefix(");
                } else {
                    out.append("Postfix(");
                }
                out.append(unary_text(o.node));
                out.append(", ");
                render_into(&u.node.expr, out);
                out.append(")");
                assert(final(out)@ =~= old(out)@ + render(view_expr(*e)));
            },
        },
        Expression::BinaryExpression(b) => {
            out.append(binary_text(b.node.op.node));
            out.append("(");
            render_into(&b.node.lhs, out);
            out.append(", ");
            render_into(&b.node.rhs, out);
            out.append(")");
            assert(final(out)@ =~= old(out)@ + render(view_expr(*e)));
        },
        Expression::PrimaryExpression(p) => match &p.node {
            PrimaryExpression::Number(n) => push_int(out, n.node),
            PrimaryExpression::Identifier(i) => out.append(i.node.as_str()),
            PrimaryExpression::Array(a) => {
                out.append("[");
                render_list_into(&a.node.elements, out);
                out.append("]");
                assert(final(out)@ =~= old(out)@ + render(view_expr(*e)));
            },
            PrimaryExpression::FunctionCall(c) => {
                out.append(c.node.name.node.as_str());
                out.append("(");
                render_list_into(&c.node.arguments, out);
                out.append(")");
                assert(final(out)@ =~= old(out)@ + render(view_expr(*e)));
            },
            PrimaryExpression::GroupedExpression(g) => {
                out.append("(");
                render_into(g, out);
                out.append(")");
                assert(final(out)@ =~= old(out)@ + render(view_expr(*e)));
            },
        },
    }
}

impl Node<Expression> {
    /// The single-line text of the tree's payload, without spans.
    pub fn render(&self) -> (r: String)
        ensures
            r@ == render(view_expr(*self)),
    {
        let mut out = String::new();
        render_into(self, &mut out);
        assert(out@ =~= render(view_expr(*self)));
        out
    }
}

} // verus!
