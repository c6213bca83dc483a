use vstd::prelude::*;

use crate::ast::{BinaryOperator, ExprView, Span, UnaryOperator};
use crate::error::ErrorKind;

verus! {

/// A failure in the grammar: where, and of which kind.
pub type SpecError = (int, ErrorKind);

pub open spec fn is_space(b: u8) -> bool {
    b == 32 || b == 9 || b == 10 || b == 13
}

pub open spec fn is_digit(b: u8) -> bool {
    48 <= b <= 57
}

pub open spec fn is_letter(b: u8) -> bool {
    (65 <= b <= 90) || (97 <= b <= 122)
}

pub open spec fn is_word(b: u8) -> bool {
    is_letter(b) || is_digit(b) || b == 95
}

/// The byte `a` stands at `p`.
pub open spec fn at1(s: Seq<u8>, p: int, a: u8) -> bool {
    0 <= p < s.len() && s[p] == a
}

/// The bytes `a`, `b` stand at `p`.
pub open spec fn at2(s: Seq<u8>, p: int, a: u8, b: u8) -> bool {
    0 <= p && p + 1 < s.len() && s[p] == a && s[p + 1] == b
}

/// The kind of failure for input that is wrong at `p`.
pub open spec fn kind_at(s: Seq<u8>, p: int) -> ErrorKind {
    if p >= s.len() {
        ErrorKind::UnexpectedEndOfInput
    } else {
        ErrorKind::UnexpectedToken
    }
}

/// The bytes `t` stand at `p`, and `p` lies inside the input.
pub open spec fn has_tag(s: Seq<u8>, p: int, t: Seq<u8>) -> bool {
    0 <= p < s.len() && p + t.len() <= s.len() && s.subrange(p, p + t.len()) == t
}

/// The kind of failure when `t` was expected at `p`.
pub open spec fn tag_kind(s: Seq<u8>, p: int, t: Seq<u8>) -> ErrorKind {
    if p >= s.len() || p + t.len() > s.len() {
        ErrorKind::UnexpectedEndOfInput
    } else {
        ErrorKind::UnexpectedToken
    }
}

/// Number of whitespace bytes from `p` on.
pub open spec fn space_run(s: Seq<u8>, p: int) -> nat
    decreases s.len() - p,
{
    if 0 <= p < s.len() && is_space(s[p]) {
        1 + space_run(s, p + 1)
    } else {
        0
    }
}

/// Number of ASCII digits from `p` on.
pub open spec fn digit_run(s: Seq<u8>, p: int) -> nat
    decreases s.len() - p,
{
    if 0 <= p < s.len() && is_digit(s[p]) {
        1 + digit_run(s, p + 1)
    } else {
        0
    }
}

/// Number of letters, digits and underscores from `p` on.
pub open spec fn word_run(s: Seq<u8>, p: int) -> nat
    decreases s.len() - p,
{
    if 0 <= p < s.len() && is_word(s[p]) {
        1 + word_run(s, p + 1)
    } else {
        0
    }
}

/// The value of a sequence of decimal digits.
pub open spec fn digits_value(d: Seq<u8>) -> int
    decreases d.len(),
{
    if d.len() == 0 {
        0
    } else {
        digits_value(d.drop_last()) * 10 + (d.last() - 48)
    }
}

/// ASCII bytes read as characters.
pub open spec fn ascii_chars(b: Seq<u8>) -> Seq<char> {
    b.map_values(|x: u8| x as char)
}

/// Bytes left from `p` to the end of the input.
pub open spec fn remaining(s: Seq<u8>, p: int) -> nat {
    if p < s.len() {
        (s.len() - p) as nat
    } else {
        0
    }
}

pub open spec fn span_of(a: int, b: int) -> Span {
    Span { start: a as usize, end: b as usize }
}

/// A number: an optional `-`, then one or more digits, read as a signed
/// 64-bit integer together with its sign.
pub open spec fn number_at(s: Seq<u8>, p: int) -> Result<(i64, int), SpecError> {
    let q = if at1(s, p, 45) { p + 1 } else { p };
    let e = q + digit_run(s, q);
    if e == q {
        Err((q, kind_at(s, q)))
    } else {
        let mag = digits_value(s.subrange(q, e));
        let v = if q > p { -mag } else { mag };
        if i64::MIN <= v <= i64::MAX {
            Ok((v as i64, e))
        } else {
            Err((p, ErrorKind::NumberOverflow))
        }
    }
}

/// An identifier: a letter, then letters, digits or underscores.
pub open spec fn identifier_at(s: Seq<u8>, p: int) -> Result<(Seq<char>, int), SpecError> {
    if 0 <= p < s.len() && is_letter(s[p]) {
        let e = p + 1 + word_run(s, p + 1);
        Ok((ascii_chars(s.subrange(p, e)), e))
    } else {
        Err((p, kind_at(s, p)))
    }
}

/// The unary operator at `p`, tried in the order `!`, `-`, `++`, `--`.
pub open spec fn unary_op_at(s: Seq<u8>, p: int) -> Result<(UnaryOperator, int), SpecError> {
    if at1(s, p, 33) {
        Ok((UnaryOperator::Not, p + 1))
    } else if at1(s, p, 45) {
        Ok((UnaryOperator::Neg, p + 1))
    } else if at2(s, p, 43, 43) {
        Ok((UnaryOperator::Inc, p + 2))
    } else if at2(s, p, 45, 45) {
        Ok((UnaryOperator::Dec, p + 2))
    } else {
        Err((p, kind_at(s, p)))
    }
}

/// The binary operator at `p` and its length; each two-byte operator is
/// tried before the one-byte operator that is its prefix.
pub open spec fn binary_op_at(s: Seq<u8>, p: int) -> Option<(BinaryOperator, int)> {
    if at1(s, p, 43) {
        Some((BinaryOperator::Add, 1))
    } else if at1(s, p, 45) {
        Some((BinaryOperator::Sub, 1))
    } else if at1(s, p, 42) {
        Some((BinaryOperator::Mul, 1))
    } else if at1(s, p, 47) {
        Some((BinaryOperator::Div, 1))
    } else if at1(s, p, 94) {
        Some((BinaryOperator::Pow, 1))
    } else if at2(s, p, 61, 61) {
        Some((BinaryOperator::Eq, 2))
    } else if at2(s, p, 33, 61) {
        Some((BinaryOperator::Ne, 2))
    } else if at2(s, p, 60, 61) {
        Some((BinaryOperator::Le, 2))
    } else if at2(s, p, 62, 61) {
        Some((BinaryOperator::Ge, 2))
    } else if at1(s, p, 60) {
        Some((BinaryOperator::Lt, 1))
    } else if at1(s, p, 62) {
        Some((BinaryOperator::Gt, 1))
    } else if at2(s, p, 38, 38) {
        Some((BinaryOperator::And, 2))
    } else if at2(s, p, 124, 124) {
        Some((BinaryOperator::Or, 2))
    } else {
        None
    }
}

/// Binding strength of a binary operator, 1 (loosest) to 6 (tightest).
pub open spec fn prec(op: BinaryOperator) -> u8 {
    match op {
        BinaryOperator::Or => 1,
        BinaryOperator::And => 2,
        BinaryOperator::Eq | BinaryOperator::Ne => 3,
        BinaryOperator::Lt | BinaryOperator::Gt | BinaryOperator::Le | BinaryOperator::Ge => 4,
        BinaryOperator::Add | BinaryOperator::Sub => 5,
        BinaryOperator::Mul | BinaryOperator::Div | BinaryOperator::Pow => 6,
    }
}

/// The binary node over two operands; its span runs from the left
/// operand's start to the right operand's end.
pub open spec fn combine(l: ExprView, op: (Span, BinaryOperator), r: ExprView) -> ExprView {
    ExprView::Binary {
        span: Span { start: l.span().start, end: r.span().end },
        lhs: Box::new(l),
        op,
        rhs: Box::new(r),
    }
}

/// Pops operators of binding strength at least `min` off the operator
/// stack, each combined with the two topmost operands.
pub open spec fn reduce(
    operands: Seq<ExprView>,
    ops: Seq<(Span, BinaryOperator)>,
    min: int,
) -> (Seq<ExprView>, Seq<(Span, BinaryOperator)>)
    decreases ops.len(),
{
    if ops.len() > 0 && operands.len() >= 2 && prec(ops.last().1) >= min {
        let n = operands.len();
        reduce(
            operands.subrange(0, n - 2).push(combine(operands[n - 2], ops.last(), operands[n - 1])),
            ops.drop_last(),
            min,
        )
    } else {
        (operands, ops)
    }
}

/// The operator-precedence pass over the pairs still to come.
pub open spec fn resolve_from(
    operands: Seq<ExprView>,
    ops: Seq<(Span, BinaryOperator)>,
    pairs: Seq<((Span, BinaryOperator), ExprView)>,
) -> Seq<ExprView>
    decreases pairs.len(),
{
    if pairs.len() == 0 {
        reduce(operands, ops, 0).0
    } else {
        let next = reduce(operands, ops, prec(pairs[0].0.1) as int);
        resolve_from(next.0.push(pairs[0].1), next.1.push(pairs[0].0), pairs.drop_first())
    }
}

/// The tree of a first operand followed by (operator, operand) pairs: every
/// operator binds left to right among its equals.
pub open spec fn resolve(first: ExprView, pairs: Seq<((Span, BinaryOperator), ExprView)>) -> ExprView {
    resolve_from(seq![first], Seq::empty(), pairs).last()
}

/// A result that must end beyond `p`; one that does not is refused. Every
/// rule that succeeds consumes input (the parser proves this of itself), so
/// the refusal never happens; it lets the grammar's recursion be seen to
/// terminate.
pub open spec fn forward<A>(p: int, r: Result<(A, int), SpecError>) -> Result<(A, int), SpecError> {
    match r {
        Ok((a, q)) => if q > p {
            Ok((a, q))
        } else {
            Err((p, ErrorKind::UnexpectedToken))
        },
        Err(e) => Err(e),
    }
}

/// An identifier directly followed by `(` stands at `p`.
pub open spec fn call_ahead(s: Seq<u8>, p: int) -> bool {
    match identifier_at(s, p) {
        Ok((_, e)) => at1(s, e, 40),
        Err(_) => false,
    }
}

/// An expression: a unary expression, then (operator, unary expression)
/// pairs for as long as an operator follows, resolved by precedence.
pub open spec fn expression_at(s: Seq<u8>, p: int) -> Result<(ExprView, int), SpecError>
    decreases remaining(s, p), 4int,
{
    match forward(p, unary_at(s, p)) {
        Err(e) => Err(e),
        Ok((first, q)) => match pairs_at(s, q + space_run(s, q), Seq::empty()) {
            Err(e) => Err(e),
            Ok((pairs, r)) => Ok((resolve(first, pairs), r)),
        },
    }
}

/// The (operator, operand) pairs from `w` on, after those in `acc`.
pub open spec fn pairs_at(
    s: Seq<u8>,
    w: int,
    acc: Seq<((Span, BinaryOperator), ExprView)>,
) -> Result<(Seq<((Span, BinaryOperator), ExprView)>, int), SpecError>
    decreases remaining(s, w), 0int,
{
    match binary_op_at(s, w) {
        None => Ok((acc, w)),
        Some((op, n)) => {
            let o = w + n;
            let w2 = o + space_run(s, o);
            match forward(w2, unary_at(s, w2)) {
                Err(e) => Err(e),
                Ok((u, q)) => pairs_at(s, q + space_run(s, q), acc.push(((span_of(w, o), op), u))),
            }
        },
    }
}

/// A prefix operator and its operand, or an operand and an optional
/// postfix operator.
pub open spec fn unary_at(s: Seq<u8>, p: int) -> Result<(ExprView, int), SpecError>
    decreases remaining(s, p), 3int,
{
    match unary_op_at(s, p) {
        Ok((op, o)) => match primary_at(s, o) {
            Err(e) => Err(e),
            Ok((operand, q)) => Ok((
                ExprView::Unary {
                    span: span_of(p, q),
                    op: Some((span_of(p, o), op)),
                    operand: Box::new(operand),
                    is_prefix: true,
                },
                q,
            )),
        },
        Err(_) => match primary_at(s, p) {
            Err(e) => Err(e),
            Ok((operand, q)) => match unary_op_at(s, q) {
                Ok((op, o)) => Ok((
                    ExprView::Unary {
                        span: Span { start: operand.span().start, end: o as usize },
                        op: Some((span_of(q, o), op)),
                        operand: Box::new(operand),
                        is_prefix: false,
                    },
                    o,
                )),
                Err(_) => Ok((operand, q)),
            },
        },
    }
}

/// A grouped expression, an array, a call, a number or an identifier,
/// tried in that order after whitespace.
pub open spec fn primary_at(s: Seq<u8>, p: int) -> Result<(ExprView, int), SpecError>
    decreases remaining(s, p), 2int,
{
    let w = p + space_run(s, p);
    if at1(s, w, 40) {
        match expression_at(s, w + 1) {
            Err(e) => Err(e),
            Ok((inner, q)) => {
                let c = q + space_run(s, q);
                if at1(s, c, 41) {
                    Ok((ExprView::Grouped { span: span_of(w, c + 1), inner: Box::new(inner) }, c + 1))
                } else {
                    Err((c, kind_at(s, c)))
                }
            },
        }
    } else if at1(s, w, 91) {
        match array_at(s, w) {
            Err(e) => Err(e),
            Ok((elements, e)) => Ok((ExprView::Array { span: span_of(w, e), elements }, e)),
        }
    } else if call_ahead(s, w) {
        match call_at(s, w) {
            Err(e) => Err(e),
            Ok((name, arguments, e)) => Ok((ExprView::Call { span: span_of(w, e), name, arguments }, e)),
        }
    } else {
        match number_at(s, w) {
            Ok((value, e)) => Ok((ExprView::Number { span: span_of(w, e), value }, e)),
            Err(_) => match identifier_at(s, w) {
                Ok((name, e)) => Ok((ExprView::Identifier { span: span_of(w, e), name }, e)),
                Err(_) => Err((w, kind_at(s, w))),
            },
        }
    }
}

/// Further `, expression` items from `q` on, after those in `acc`.
pub open spec fn more_at(s: Seq<u8>, q: int, acc: Seq<ExprView>) -> Result<(Seq<ExprView>, int), SpecError>
    decreases remaining(s, q), 0int,
{
    if at1(s, q, 44) {
        match forward(q + 1, expression_at(s, q + 1)) {
            Err(e) => Err(e),
            Ok((x, r)) => more_at(s, r, acc.push(x)),
        }
    } else {
        Ok((acc, q))
    }
}

/// An array: `[`, one or more expressions separated by `,`, then `]`.
pub open spec fn array_at(s: Seq<u8>, p: int) -> Result<(Seq<ExprView>, int), SpecError>
    decreases remaining(s, p), 1int,
{
    if !at1(s, p, 91) {
        Err((p, kind_at(s, p)))
    } else {
        match forward(p + 1, expression_at(s, p + 1)) {
            Err(e) => Err(e),
            Ok((first, q)) => match more_at(s, q, seq![first]) {
                Err(e) => Err(e),
                Ok((elements, r)) => if at1(s, r, 93) {
                    Ok((elements, r + 1))
                } else {
                    Err((r, kind_at(s, r)))
                },
            },
        }
    }
}

/// A call: an identifier, `(`, whitespace, zero or more expressions
/// separated by `,`, then `)`.
pub open spec fn call_at(s: Seq<u8>, p: int) -> Result<((Span, Seq<char>), Seq<ExprView>, int), SpecError>
    decreases remaining(s, p), 1int,
{
    match identifier_at(s, p) {
        Err(e) => Err(e),
        Ok((name, n)) => if !at1(s, n, 40) {
            Err((n, kind_at(s, n)))
        } else {
            let a = n + 1 + space_run(s, n + 1);
            if a >= s.len() {
                Err((a, ErrorKind::UnexpectedEndOfInput))
            } else if s[a] == 41 {
                Ok(((span_of(p, n), name), Seq::empty(), a + 1))
            } else {
                match forward(a, expression_at(s, a)) {
                    Err(e) => Err(e),
                    Ok((first, q)) => match more_at(s, q, seq![first]) {
                        Err(e) => Err(e),
                        Ok((arguments, r)) => if at1(s, r, 41) {
                            Ok(((span_of(p, n), name), arguments, r + 1))
                        } else {
                            Err((r, kind_at(s, r)))
                        },
                    },
                }
            }
        },
    }
}

} // verus!
