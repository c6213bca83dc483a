use math_equation::ast::{BinaryOperator, Expression, Node, PrimaryExpression, UnaryOperator};
use math_equation::error::ErrorKind;
use math_equation::parser::Parser;

fn parse(text: &str) -> Result<Node<Expression>, math_equation::error::ParserError> {
    let mut parser = Parser::new(text);
    parser.expression()
}

/// A compact rendering of a tree's payload, for comparisons.
fn shape(e: &Node<Expression>) -> String {
    match &e.node {
        Expression::UnaryExpression(u) => {
            let op = match &u.node.op {
                Some(o) => format!("{:?}", o.node),
                None => "None".to_string(),
            };
            if u.node.is_prefix {
                format!("{}({})", op, shape(&u.node.expr))
            } else {
                format!("({}){}", shape(&u.node.expr), op)
            }
        }
        Expression::BinaryExpression(b) => format!(
            "{:?}({}, {})",
            b.node.op.node,
            shape(&b.node.lhs),
            shape(&b.node.rhs)
        ),
        Expression::PrimaryExpression(p) => match &p.node {
            PrimaryExpression::Number(n) => format!("{}", n.node),
            PrimaryExpression::Identifier(i) => i.node.clone(),
            PrimaryExpression::Array(a) => {
                let items: Vec<String> = a.node.elements.iter().map(shape).collect();
                format!("[{}]", items.join(", "))
            }
            PrimaryExpression::FunctionCall(c) => {
                let items: Vec<String> = c.node.arguments.iter().map(shape).collect();
                format!("{}({})", c.node.name.node, items.join(", "))
            }
            PrimaryExpression::GroupedExpression(g) => format!("Grouped({})", shape(g)),
        },
    }
}

#[test]
fn multiplication_binds_tighter_than_addition() {
    let e = parse("1 + 2 * 3").unwrap();
    assert_eq!(shape(&e), "Add(1, Mul(2, 3))");
    assert_eq!((e.span.start, e.span.end), (0, 9));
}

#[test]
fn power_is_left_associative() {
    let e = parse("2 ^ 3 ^ 2").unwrap();
    assert_eq!(shape(&e), "Pow(Pow(2, 3), 2)");
}

#[test]
fn subtraction_is_left_associative() {
    assert_eq!(shape(&parse("10 - 4 - 3").unwrap()), "Sub(Sub(10, 4), 3)");
}

#[test]
fn two_byte_operator_is_one_node() {
    let e = parse("a <= b").unwrap();
    assert_eq!(shape(&e), "Le(a, b)");
    match &e.node {
        Expression::BinaryExpression(b) => {
            assert_eq!(b.node.op.node, BinaryOperator::Le);
            assert_eq!((b.node.op.span.start, b.node.op.span.end), (2, 4));
        }
        _ => panic!("expected a binary expression"),
    }
}

#[test]
fn grouping_overrides_precedence() {
    assert_eq!(shape(&parse("(1 + 2) * 3").unwrap()), "Mul(Grouped(Add(1, 2)), 3)");
}

#[test]
fn prefix_negation() {
    let e = parse("-x").unwrap();
    match &e.node {
        Expression::UnaryExpression(u) => {
            assert_eq!(u.node.op.as_ref().unwrap().node, UnaryOperator::Neg);
            assert!(u.node.is_prefix);
        }
        _ => panic!("expected a unary expression"),
    }
}

#[test]
fn postfix_increment() {
    let e = parse("x++").unwrap();
    match &e.node {
        Expression::UnaryExpression(u) => {
            assert_eq!(u.node.op.as_ref().unwrap().node, UnaryOperator::Inc);
            assert!(!u.node.is_prefix);
            assert_eq!((e.span.start, e.span.end), (0, 3));
        }
        _ => panic!("expected a unary expression"),
    }
}

#[test]
fn call_with_two_arguments() {
    let e = parse("f(1,2)").unwrap();
    assert_eq!(shape(&e), "f(1, 2)");
    match &e.node {
        Expression::PrimaryExpression(p) => match &p.node {
            PrimaryExpression::FunctionCall(c) => assert_eq!(c.node.arguments.len(), 2),
            _ => panic!("expected a call"),
        },
        _ => panic!("expected a primary expression"),
    }
}

#[test]
fn bare_name_is_identifier() {
    let e = parse("f").unwrap();
    match &e.node {
        Expression::PrimaryExpression(p) => match &p.node {
            PrimaryExpression::Identifier(i) => assert_eq!(i.node, "f"),
            _ => panic!("expected an identifier"),
        },
        _ => panic!("expected a primary expression"),
    }
}

#[test]
fn call_without_arguments() {
    assert_eq!(shape(&parse("f()").unwrap()), "f()");
    assert_eq!(shape(&parse("g( )").unwrap()), "g()");
}

#[test]
fn empty_array_is_an_error() {
    assert!(parse("[]").is_err());
}

#[test]
fn trailing_comma_in_array_is_an_error() {
    assert!(parse("[1,]").is_err());
}

#[test]
fn array_of_expressions() {
    assert_eq!(shape(&parse("[1, a + 2, f(x)]").unwrap()), "[1, Add(a, 2), f(x)]");
}

#[test]
fn operator_spans_run_from_leftmost_to_rightmost_child() {
    let e = parse("1 + 2 * 3").unwrap();
    match &e.node {
        Expression::BinaryExpression(b) => {
            assert_eq!(e.span.start, b.node.lhs.span.start);
            assert_eq!(e.span.end, b.node.rhs.span.end);
            assert_eq!((b.node.rhs.span.start, b.node.rhs.span.end), (4, 9));
        }
        _ => panic!("expected a binary expression"),
    }
}

#[test]
fn missing_operand_reports_end_of_input() {
    let mut parser = Parser::new("1 +");
    let err = parser.expression().unwrap_err();
    assert!(err.pos >= 2);
    assert_eq!(err.pos, 3);
    assert_eq!(err.kind, ErrorKind::UnexpectedEndOfInput);
    assert_eq!(parser.pos(), 0);
}

#[test]
fn failed_array_attempt_leaves_cursor() {
    let mut parser = Parser::new("123");
    assert!(parser.array().is_err());
    assert_eq!(parser.pos(), 0);
    let n = parser.number().unwrap();
    assert_eq!(n.node, 123);
    assert_eq!(parser.pos(), 3);
}

#[test]
fn parsing_twice_gives_the_same_tree() {
    let a = parse("f(a, [1, 2]) && !b || c >= -3").unwrap();
    let b = parse("f(a, [1, 2]) && !b || c >= -3").unwrap();
    assert_eq!(format!("{:?}", a), format!("{:?}", b));
    assert_eq!(shape(&a), "Or(And(f(a, [1, 2]), Not(b)), Ge(c, Neg(3)))");
}

#[test]
fn number_keeps_its_sign() {
    let mut parser = Parser::new("-42");
    assert_eq!(parser.number().unwrap().node, -42);
}

#[test]
fn number_extremes() {
    let mut low = Parser::new("-9223372036854775808");
    assert_eq!(low.number().unwrap().node, i64::MIN);
    let mut high = Parser::new("9223372036854775807");
    assert_eq!(high.number().unwrap().node, i64::MAX);
}

#[test]
fn number_overflow_is_reported() {
    let mut parser = Parser::new("9223372036854775808");
    let err = parser.number().unwrap_err();
    assert_eq!(err.kind, ErrorKind::NumberOverflow);
    assert_eq!(err.pos, 0);
    assert_eq!(parser.pos(), 0);
    let err = parse("1 + 99999999999999999999").unwrap_err();
    assert_eq!(err.pos, 4);
    assert_eq!(err.kind, ErrorKind::UnexpectedToken);
}

#[test]
fn number_needs_digits() {
    let mut parser = Parser::new("-x");
    let err = parser.number().unwrap_err();
    assert_eq!((err.pos, err.kind), (1, ErrorKind::UnexpectedToken));
    let mut parser = Parser::new("-");
    let err = parser.number().unwrap_err();
    assert_eq!((err.pos, err.kind), (1, ErrorKind::UnexpectedEndOfInput));
}

#[test]
fn identifier_rules() {
    let mut parser = Parser::new("ab_1 c");
    let id = parser.identifier().unwrap();
    assert_eq!(id.node, "ab_1");
    assert_eq!((id.span.start, id.span.end), (0, 4));
    let mut parser = Parser::new("1a");
    assert_eq!(parser.identifier().unwrap_err().kind, ErrorKind::UnexpectedToken);
    let mut parser = Parser::new("");
    assert_eq!(parser.identifier().unwrap_err().kind, ErrorKind::UnexpectedEndOfInput);
}

#[test]
fn unterminated_group_is_end_of_input() {
    let err = parse("(1").unwrap_err();
    assert_eq!((err.pos, err.kind), (2, ErrorKind::UnexpectedEndOfInput));
}

#[test]
fn unknown_character_is_unexpected_token() {
    let err = parse("#").unwrap_err();
    assert_eq!((err.pos, err.kind), (0, ErrorKind::UnexpectedToken));
}

#[test]
fn all_binary_operators() {
    let cases = [
        ("a + b", "Add"), ("a - b", "Sub"), ("a * b", "Mul"), ("a / b", "Div"), ("a ^ b", "Pow"),
        ("a == b", "Eq"), ("a != b", "Ne"), ("a < b", "Lt"), ("a > b", "Gt"), ("a <= b", "Le"),
        ("a >= b", "Ge"), ("a && b", "And"), ("a || b", "Or"),
    ];
    for (text, op) in cases {
        assert_eq!(shape(&parse(text).unwrap()), format!("{}(a, b)", op));
    }
}

#[test]
fn precedence_levels() {
    assert_eq!(
        shape(&parse("a || b && c == d < e + f * g").unwrap()),
        "Or(a, And(b, Eq(c, Lt(d, Add(e, Mul(f, g))))))"
    );
    assert_eq!(shape(&parse("a * b + c").unwrap()), "Add(Mul(a, b), c)");
}

#[test]
fn expression_stops_after_trailing_whitespace() {
    let mut parser = Parser::new("1 + 2  )");
    let e = parser.expression().unwrap();
    assert_eq!(shape(&e), "Add(1, 2)");
    assert_eq!(parser.pos(), 7);
}

#[test]
fn tag_and_starts_with() {
    let mut parser = Parser::new("<=x");
    assert!(parser.starts_with("<="));
    assert!(!parser.starts_with("<=y"));
    let node = parser.tag_node("<=").unwrap();
    assert_eq!((node.span.start, node.span.end), (0, 2));
    assert_eq!(parser.tag("x").unwrap(), "x");
    assert_eq!(parser.pos(), 3);
    let err = parser.tag(")").unwrap_err();
    assert_eq!((err.pos, err.kind), (3, ErrorKind::UnexpectedEndOfInput));
    parser.set_pos(0);
    let err = parser.tag("(").unwrap_err();
    assert_eq!((err.pos, err.kind), (0, ErrorKind::UnexpectedToken));
}

#[test]
fn slice_and_whitespace() {
    let mut parser = Parser::new(" \t\n\rab");
    parser.multispace0().unwrap();
    assert_eq!(parser.pos(), 4);
    assert!(!parser.is_multispace().unwrap());
    assert_eq!(parser.slice(4, 6).unwrap(), b"ab".to_vec());
    assert_eq!(parser.slice(5, 7).unwrap_err().kind, ErrorKind::OutOfBoundsSlice);
    parser.consume();
    assert_eq!(parser.pos(), 5);
}

#[test]
fn operators_alone() {
    let mut parser = Parser::new("!=");
    assert_eq!(parser.binary_operator().unwrap().node, BinaryOperator::Ne);
    let mut parser = Parser::new("!a");
    assert_eq!(parser.unary_operator().unwrap().node, UnaryOperator::Not);
    let mut parser = Parser::new("x");
    assert_eq!(parser.binary_operator().unwrap_err().kind, ErrorKind::UnexpectedToken);
}

#[test]
fn equality_ignores_spans() {
    let a = parse("1+2*3").unwrap();
    let b = parse("  1 +  2 * 3").unwrap();
    assert!(a.same_payload(&b));
    assert!(b.same_payload(&a));
    assert!(a.span.end != b.span.end);
}

#[test]
fn equality_sees_payload_differences() {
    let a = parse("1 + 2 * 3").unwrap();
    assert!(!a.same_payload(&parse("(1 + 2) * 3").unwrap()));
    assert!(!a.same_payload(&parse("1 + 2 * 4").unwrap()));
    assert!(!parse("f(a, b)").unwrap().same_payload(&parse("f(a)").unwrap()));
    assert!(!parse("f(a)").unwrap().same_payload(&parse("g(a)").unwrap()));
    assert!(parse("[x, -1]").unwrap().same_payload(&parse("[ x, -1]").unwrap()));
    assert_eq!(shape(&parse("[x, -1]").unwrap()), "[x, -1]");
    assert_eq!(shape(&parse("[x,-1]").unwrap()), "[x, Neg(1)]");
    assert!(!parse("[x, -1]").unwrap().same_payload(&parse("[x,-1]").unwrap()));
    assert!(!parse("x++").unwrap().same_payload(&parse("++x").unwrap()));
}

#[test]
fn render_shows_payload_only() {
    assert_eq!(parse("1 + 2 * 3").unwrap().render(), "Add(1, Mul(2, 3))");
    assert_eq!(parse("  1+2*3").unwrap().render(), "Add(1, Mul(2, 3))");
    assert_eq!(parse("(1 + 2) * 3").unwrap().render(), "Mul((Add(1, 2)), 3)");
    assert_eq!(parse("-x").unwrap().render(), "Prefix(Neg, x)");
    assert_eq!(parse("x++").unwrap().render(), "Postfix(Inc, x)");
    assert_eq!(parse("f(a, [1, -20], g())").unwrap().render(), "f(a, [1, -20], g())");
}

#[test]
fn render_number_extremes() {
    let err = parse("-9223372036854775808").unwrap_err();
    assert_eq!((err.pos, err.kind), (1, ErrorKind::UnexpectedToken));
    assert_eq!(parse("[ -9223372036854775808]").unwrap().render(), "[-9223372036854775808]");
    assert!(parse("[-9223372036854775808]").is_err());
    assert_eq!(parse("[0, 10, 9223372036854775807]").unwrap().render(), "[0, 10, 9223372036854775807]");
}

#[test]
fn error_messages_follow_the_kind() {
    let err = parse("1 +").unwrap_err();
    assert_eq!(err.message(), "unexpected end of input");
    let mut parser = Parser::new("99999999999999999999");
    assert_eq!(parser.number().unwrap_err().message(), "number does not fit in 64 bits");
    assert_eq!(parse("?").unwrap_err().message(), "unexpected token");
    assert_eq!(Parser::new("a").slice(0, 2).unwrap_err().message(), "range out of bounds");
}
