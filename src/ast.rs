use vstd::prelude::*;

verus! {

/// A half-open byte range `[start, end)` into the source text.
#[derive(Copy, Clone, Debug, Default)]
pub struct Span {
    pub start: usize,
    pub end: usize,
}

impl Span {
    pub fn span(start: usize, end: usize) -> (r: Span)
        ensures
            r.start == start,
            r.end == end,
    {
        Span { start, end }
    }
}

/// A payload together with the span of source text it came from.
#[derive(Clone, Debug)]
pub struct Node<T> {
    pub node: T,
    pub span: Span,
}

impl<T> Node<T> {
    pub fn new(span: Span, node: T) -> (r: Node<T>)
        ensures
            r.span == span,
            r.node == node,
    {
        Node { node, span }
    }
}

#[derive(Debug)]
pub enum Expression {
    UnaryExpression(Node<UnaryExpression>),
    BinaryExpression(Node<BinaryExpression>),
    PrimaryExpression(Node<PrimaryExpression>),
}

#[derive(Debug)]
pub struct UnaryExpression {
    /// `None` only for a bare operand without an operator.
    pub op: Option<Node<UnaryOperator>>,
    pub expr: Box<Node<Expression>>,
    pub is_prefix: bool,
}

#[derive(Debug)]
pub struct BinaryExpression {
    pub lhs: Box<Node<Expression>>,
    pub op: Node<BinaryOperator>,
    pub rhs: Box<Node<Expression>>,
}

#[derive(Debug)]
pub enum PrimaryExpression {
    Number(Node<i64>),
    Identifier(Node<String>),
    Array(Node<Array>),
    FunctionCall(Node<FunctionCall>),
    GroupedExpression(Box<Node<Expression>>),
}

#[derive(Debug)]
pub struct Array {
    pub elements: Vec<Node<Expression>>,
}

#[derive(Debug)]
pub struct FunctionCall {
    pub name: Node<String>,
    pub arguments: Vec<Node<Expression>>,
}

#[derive(Clone, Copy, Debug, PartialEq, Eq, Structural)]
pub enum UnaryOperator {
    Neg,
    Not,
    Inc,
    Dec,
}

#[derive(Clone, Copy, Debug, PartialEq, Eq, Structural)]
pub enum BinaryOperator {
    Add,
    Sub,
    Mul,
    Div,
    Pow,
    Eq,
    Ne,
    Lt,
    Gt,
    Le,
    Ge,
    And,
    Or,
}

/// The mathematical model of an expression tree: one span per expression,
/// operators with their spans, names as character sequences.
pub enum ExprView {
    Unary { span: Span, op: Option<(Span, UnaryOperator)>, operand: Box<ExprView>, is_prefix: bool },
    Binary { span: Span, lhs: Box<ExprView>, op: (Span, BinaryOperator), rhs: Box<ExprView> },
    Number { span: Span, value: i64 },
    Identifier { span: Span, name: Seq<char> },
    Array { span: Span, elements: Seq<ExprView> },
    Call { span: Span, name: (Span, Seq<char>), arguments: Seq<ExprView> },
    Grouped { span: Span, inner: Box<ExprView> },
}

impl ExprView {
    pub open spec fn span(self) -> Span {
        match self {
            ExprView::Unary { span, .. } => span,
            ExprView::Binary { span, .. } => span,
            ExprView::Number { span, .. } => span,
            ExprView::Identifier { span, .. } => span,
            ExprView::Array { span, .. } => span,
            ExprView::Call { span, .. } => span,
            ExprView::Grouped { span, .. } => span,
        }
    }
}

/// The model of an expression node.
pub open spec fn view_expr(e: Node<Expression>) -> ExprView
    decreases e,
{
    match e.node {
        Expression::UnaryExpression(u) => ExprView::Unary {
            span: e.span,
            op: match u.node.op {
                Some(o) => Some((o.span, o.node)),
                None => None,
            },
            operand: Box::new(view_expr(*u.node.expr)),
            is_prefix: u.node.is_prefix,
        },
        Expression::BinaryExpression(b) => ExprView::Binary {
            span: e.span,
            lhs: Box::new(view_expr(*b.node.lhs)),
            op: (b.node.op.span, b.node.op.node),
            rhs: Box::new(view_expr(*b.node.rhs)),
        },
        Expression::PrimaryExpression(p) => match p.node {
            PrimaryExpression::Number(n) => ExprView::Number { span: e.span, value: n.node },
            PrimaryExpression::Identifier(i) => ExprView::Identifier { span: e.span, name: i.node@ },
            PrimaryExpression::Array(a) => ExprView::Array {
                span: e.span,
                elements: view_list(a.node.elements@),
            },
            PrimaryExpression::FunctionCall(c) => ExprView::Call {
                span: e.span,
                name: (c.node.name.span, c.node.name.node@),
                arguments: view_list(c.node.arguments@),
            },
            PrimaryExpression::GroupedExpression(g) => ExprView::Grouped {
                span: e.span,
                inner: Box::new(view_expr(*g)),
            },
        },
    }
}

/// The models of a sequence of expression nodes, in order.
pub open spec fn view_list(s: Seq<Node<Expression>>) -> Seq<ExprView>
    decreases s,
{
    if s.len() == 0 {
        Seq::empty()
    } else {
        view_list(s.drop_last()).push(view_expr(s.last()))
    }
}

/// Every node of the tree carries consistent spans: the wrapper nodes of one
/// expression share its span, an operator node's span runs from its
/// leftmost child's start to its rightmost child's end, and a call's name
/// starts where the call does.
pub open spec fn well_formed(e: Node<Expression>) -> bool
    decreases e,
{
    match e.node {
        Expression::UnaryExpression(u) => {
            &&& u.span == e.span
            &&& well_formed(*u.node.expr)
            &&& match u.node.op {
                Some(o) => if u.node.is_prefix {
                    e.span.start == o.span.start && e.span.end == u.node.expr.span.end
                } else {
                    e.span.start == u.node.expr.span.start && e.span.end == o.span.end
                },
                None => e.span == u.node.expr.span,
            }
        },
        Expression::BinaryExpression(b) => {
            &&& b.span == e.span
            &&& e.span.start == b.node.lhs.span.start
            &&& e.span.end == b.node.rhs.span.end
            &&& well_formed(*b.node.lhs)
            &&& well_formed(*b.node.rhs)
        },
        Expression::PrimaryExpression(p) => {
            &&& p.span == e.span
            &&& match p.node {
                PrimaryExpression::Number(n) => n.span == e.span,
                PrimaryExpression::Identifier(i) => i.span == e.span,
                PrimaryExpression::Array(a) => {
                    &&& a.span == e.span
                    &&& forall|i: int|
                        0 <= i < a.node.elements@.len() ==> well_formed(#[trigger] a.node.elements@[i])
                },
                PrimaryExpression::FunctionCall(c) => {
                    &&& c.span == e.span
                    &&& c.node.name.span.start == e.span.start
                    &&& forall|i: int|
                        0 <= i < c.node.arguments@.len() ==> well_formed(#[trigger] c.node.arguments@[i])
                },
                PrimaryExpression::GroupedExpression(g) => well_formed(*g),
            }
        },
    }
}

pub open spec fn all_well_formed(s: Seq<Node<Expression>>) -> bool {
    forall|i: int| 0 <= i < s.len() ==> well_formed(#[trigger] s[i])
}

/// Two models agree in everything but their spans.
pub open spec fn same_shape(a: ExprView, b: ExprView) -> bool
    decreases a,
{
    match (a, b) {
        (
            ExprView::Unary { op: o1, operand: x1, is_prefix: p1, .. },
            ExprView::Unary { op: o2, operand: x2, is_prefix: p2, .. },
        ) => {
            &&& p1 == p2
            &&& match (o1, o2) {
                (Some(u1), Some(u2)) => u1.1 == u2.1,
                (None, None) => true,
                _ => false,
            }
            &&& same_shape(*x1, *x2)
        },
        (
            ExprView::Binary { lhs: l1, op: k1, rhs: r1, .. },
            ExprView::Binary { lhs: l2, op: k2, rhs: r2, .. },
        ) => k1.1 == k2.1 && same_shape(*l1, *l2) && same_shape(*r1, *r2),
        (ExprView::Number { value: v1, .. }, ExprView::Number { value: v2, .. }) => v1 == v2,
        (ExprView::Identifier { name: n1, .. }, ExprView::Identifier { name: n2, .. }) => n1 == n2,
        (ExprView::Array { elements: e1, .. }, ExprView::Array { elements: e2, .. }) => {
            &&& e1.len() == e2.len()
            &&& forall|i: int| 0 <= i < e1.len() ==> same_shape(#[trigger] e1[i], e2[i])
        },
        (
            ExprView::Call { name: n1, arguments: a1, .. },
            ExprView::Call { name: n2, arguments: a2, .. },
        ) => {
            &&& n1.1 == n2.1
            &&& a1.len() == a2.len()
            &&& forall|i: int| 0 <= i < a1.len() ==> same_shape(#[trigger] a1[i], a2[i])
        },
        (ExprView::Grouped { inner: i1, .. }, ExprView::Grouped { inner: i2, .. }) => same_shape(
            *i1,
            *i2,
        ),
        _ => false,
    }
}

/// Every model agrees with itself in everything but spans.
pub proof fn lemma_same_shape_reflexive(a: ExprView)
    ensures
        same_shape(a, a),
    decreases a,
{
    match a {
        ExprView::Unary { operand, .. } => lemma_same_shape_reflexive(*operand),
        ExprView::Binary { lhs, rhs, .. } => {
            lemma_same_shape_reflexive(*lhs);
            lemma_same_shape_reflexive(*rhs);
        },
        ExprView::Array { elements, .. } => {
            assert forall|i: int| 0 <= i < elements.len() implies same_shape(
                #[trigger] elements[i],
                elements[i],
            ) by {
                lemma_same_shape_reflexive(elements[i]);
            }
        },
        ExprView::Call { arguments, .. } => {
            assert forall|i: int| 0 <= i < arguments.len() implies same_shape(
                #[trigger] arguments[i],
                arguments[i],
            ) by {
                lemma_same_shape_reflexive(arguments[i]);
            }
        },
        ExprView::Grouped { inner, .. } => lemma_same_shape_reflexive(*inner),
        _ => {},
    }
}

fn same_name(a: &String, b: &String) -> (r: bool)
    ensures
        r == (a@ == b@),
{
    <String as PartialEq>::eq(a, b)
}

fn same_list(a: &Vec<Node<Expression>>, b: &Vec<Node<Expression>>) -> (r: bool)
    ensures
        r == {
            let (v1, v2) = (view_list(a@), view_list(b@));
            v1.len() == v2.len() && forall|i: int| 0 <= i < v1.len() ==> same_shape(#[trigger] v1[i], v2[i])
        },
    decreases a, 0int,
{
    proof {
        lemma_view_list_len(a@);
        lemma_view_list_len(b@);
    }
    if a.len() != b.len() {
        return false;
    }
    let mut i: usize = 0;
    while i < a.len()
        invariant
            a@.len() == b@.len(),
            view_list(a@).len() == a@.len(),
            view_list(b@).len() == b@.len(),
            i <= a@.len(),
            forall|j: int| 0 <= j < i ==> same_shape(#[trigger] view_list(a@)[j], view_list(b@)[j]),
        decreases a@.len() - i,
    {
        proof {
            lemma_view_list_index(a@, i as int);
            lemma_view_list_index(b@, i as int);
        }
        if !a[i].same_payload(&b[i]) {
            return false;
        }
        i = i + 1;
    }
    true
}

impl Node<Expression> {
    /// Whether two trees agree in everything but their spans.
    pub fn same_payload(&self, other: &Self) -> (r: bool)
        ensures
            r == same_shape(view_expr(*self), view_expr(*other)),
        decreases self, 1int,
    {
        match (&self.node, &other.node) {
            (Expression::UnaryExpression(u1), Expression::UnaryExpression(u2)) => {
                let ops = match (&u1.node.op, &u2.node.op) {
                    (Some(o1), Some(o2)) => o1.node == o2.node,
                    (None, None) => true,
                    _ => false,
                };
                ops && u1.node.is_prefix == u2.node.is_prefix && u1.node.expr.same_payload(&u2.node.expr)
            },
            (Expression::BinaryExpression(b1), Expression::BinaryExpression(b2)) => {
                b1.node.op.node == b2.node.op.node && b1.node.lhs.same_payload(&b2.node.lhs)
                    && b1.node.rhs.same_payload(&b2.node.rhs)
            },
            (Expression::PrimaryExpression(p1), Expression::PrimaryExpression(p2)) => match (
                &p1.node,
                &p2.node,
            ) {
                (PrimaryExpression::Number(n1), PrimaryExpression::Number(n2)) => n1.node == n2.node,
                (PrimaryExpression::Identifier(i1), PrimaryExpression::Identifier(i2)) => same_name(
                    &i1.node,
                    &i2.node,
                ),
                (PrimaryExpression::Array(a1), PrimaryExpression::Array(a2)) => same_list(
                    &a1.node.elements,
                    &a2.node.elements,
                ),
                (PrimaryExpression::FunctionCall(c1), PrimaryExpression::FunctionCall(c2)) => {
                    same_name(&c1.node.name.node, &c2.node.name.node) && same_list(
                        &c1.node.arguments,
                        &c2.node.arguments,
                    )
                },
                (
                    PrimaryExpression::GroupedExpression(g1),
                    PrimaryExpression::GroupedExpression(g2),
                ) => g1.same_payload(g2),
                _ => false,
            },
            _ => false,
        }
    }
}

pub proof fn lemma_view_list_len(s: Seq<Node<Expression>>)
    ensures
        view_list(s).len() == s.len(),
    decreases s.len(),
{
    if s.len() > 0 {
        lemma_view_list_len(s.drop_last());
    }
}

pub proof fn lemma_view_list_push(s: Seq<Node<Expression>>, x: Node<Expression>)
    ensures
        view_list(s.push(x)) == view_list(s).push(view_expr(x)),
{
    assert(s.push(x).drop_last() =~= s);
}

/// The model of a list of nodes holds the model of each, in order.
pub proof fn lemma_view_list_index(s: Seq<Node<Expression>>, i: int)
    requires
        0 <= i < s.len(),
    ensures
        view_list(s)[i] == view_expr(s[i]),
    decreases s.len(),
{
    lemma_view_list_len(s.drop_last());
    if i < s.len() - 1 {
        lemma_view_list_index(s.drop_last(), i);
    }
}

} // verus!
