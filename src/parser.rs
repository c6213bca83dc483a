use vstd::prelude::*;
use vstd::string::StringSliceAdditionalSpecFns;

use crate::ast::{
    all_well_formed, lemma_view_list_index, lemma_view_list_len, lemma_view_list_push, view_expr,
    view_list, well_formed, Array, BinaryExpression, BinaryOperator, Expression, FunctionCall, Node,
    PrimaryExpression, Span, UnaryExpression, UnaryOperator,
};
use crate::error::{ErrorKind, ParserError};
use crate::grammar::{
    ascii_chars, at1, at2, binary_op_at, call_ahead, call_at, digit_run, digits_value, expression_at,
    forward, has_tag, identifier_at, tag_kind, is_digit, is_letter, is_space, is_word, kind_at, more_at, number_at, array_at,
    pairs_at, prec, primary_at, reduce, resolve_from, space_run, span_of, unary_at,
    unary_op_at, word_run, SpecError,
};

verus! {

/// A parser over a byte buffer, with a scan cursor.
pub struct Parser<'a> {
    pub input: &'a [u8],
    pub pos: usize,
}

/// Relies on String::push: the character is appended at the end.
#[verifier::external_body]
pub(crate) fn push_char(s: &mut String, c: char)
    ensures
        final(s)@ == old(s)@.push(c),
{
    s.push(c)
}

/// Binding strength of a binary operator, 1 (loosest) to 6 (tightest).
pub fn precedence(binary_operator: &BinaryOperator) -> (r: u8)
    ensures
        r == prec(*binary_operator),
{
    match binary_operator {
        BinaryOperator::Or => 1,
        BinaryOperator::And => 2,
        BinaryOperator::Eq | BinaryOperator::Ne => 3,
        BinaryOperator::Lt | BinaryOperator::Gt | BinaryOperator::Le | BinaryOperator::Ge => 4,
        BinaryOperator::Add | BinaryOperator::Sub => 5,
        BinaryOperator::Mul | BinaryOperator::Div | BinaryOperator::Pow => 6,
    }
}

/// The outcome of a parse that yields an expression, as the grammar states it.
pub open spec fn expr_outcome(r: Result<Node<Expression>, ParserError>, pos: usize) -> Result<
    (crate::ast::ExprView, int),
    SpecError,
> {
    match r {
        Ok(n) => Ok((view_expr(n), pos as int)),
        Err(e) => Err(e.view()),
    }
}

/// The digits of `d` have a value no smaller than that of any prefix.
proof fn lemma_digits_prefix(d: Seq<u8>, k: int)
    requires
        0 <= k <= d.len(),
        forall|j: int| 0 <= j < d.len() ==> is_digit(#[trigger] d[j]),
    ensures
        0 <= digits_value(d.subrange(0, k)) <= digits_value(d),
    decreases d.len(),
{
    if k == d.len() {
        assert(d.subrange(0, k) =~= d);
        if d.len() > 0 {
            lemma_digits_prefix(d.drop_last(), 0);
        }
    } else {
        lemma_digits_prefix(d.drop_last(), k);
        assert(d.drop_last().subrange(0, k) =~= d.subrange(0, k));
    }
}

impl<'a> Parser<'a> {
    /// The cursor lies within the input or just past it.
    pub open spec fn wf(&self) -> bool {
        self.pos <= self.input@.len() <= usize::MAX
    }

    pub fn new(input: &'a str) -> (r: Parser<'a>)
        ensures
            r.input@ == input.spec_bytes(),
            r.pos == 0,
            r.wf(),
    {
        let input = input.as_bytes();
        let _ = input.len();
        Parser { input, pos: 0 }
    }

    pub fn pos(&self) -> (r: usize)
        ensures
            r == self.pos,
    {
        self.pos
    }

    pub fn set_pos(&mut self, pos: usize)
        requires
            old(self).wf(),
            pos <= old(self).input@.len(),
        ensures
            final(self).wf(),
            final(self).pos == pos,
            final(self).input == old(self).input,
    {
        self.pos = pos;
    }

    pub fn consume(&mut self)
        requires
            old(self).wf(),
            old(self).pos < old(self).input@.len(),
        ensures
            final(self).wf(),
            final(self).pos == old(self).pos + 1,
            final(self).input == old(self).input,
    {
        self.pos = self.pos + 1;
    }

    fn cur(&self) -> (r: Result<u8, ParserError>)
        ensures
            match r {
                Ok(b) => self.pos < self.input@.len() && b == self.input@[self.pos as int],
                Err(e) => self.pos >= self.input@.len() && e.pos == self.pos && e.kind
                    == ErrorKind::UnexpectedEndOfInput,
            },
    {
        if self.pos < self.input.len() {
            Ok(self.input[self.pos])
        } else {
            Err(self.parse_err(ErrorKind::UnexpectedEndOfInput))
        }
    }

    fn parse_err(&self, kind: ErrorKind) -> (r: ParserError)
        ensures
            r.pos == self.pos,
            r.kind == kind,
    {
        ParserError { pos: self.pos, kind }
    }

    /// The error for input that fits nothing at the cursor.
    fn unexpected(&self) -> (r: ParserError)
        ensures
            r.view() == (self.pos as int, kind_at(self.input@, self.pos as int)),
    {
        if self.pos >= self.input.len() {
            self.parse_err(ErrorKind::UnexpectedEndOfInput)
        } else {
            self.parse_err(ErrorKind::UnexpectedToken)
        }
    }

    fn at1(&self, a: u8) -> (r: bool)
        ensures
            r == at1(self.input@, self.pos as int, a),
    {
        self.pos < self.input.len() && self.input[self.pos] == a
    }

    fn at2(&self, a: u8, b: u8) -> (r: bool)
        requires
            self.wf(),
        ensures
            r == at2(self.input@, self.pos as int, a, b),
    {
        self.pos < self.input.len() && self.input.len() - self.pos > 1 && self.input[self.pos] == a
            && self.input[self.pos + 1] == b
    }

    /// Whether the byte at the cursor is a space, tab, newline or carriage return.
    pub fn is_multispace(&self) -> (r: Result<bool, ParserError>)
        ensures
            match r {
                Ok(b) => self.pos < self.input@.len() && b == is_space(self.input@[self.pos as int]),
                Err(e) => self.pos >= self.input@.len() && e.pos == self.pos && e.kind
                    == ErrorKind::UnexpectedEndOfInput,
            },
    {
        let cur = self.cur()?;
        Ok(cur == 32 || cur == 10 || cur == 9 || cur == 13)
    }

    /// Skips whitespace; never fails.
    pub fn multispace0(&mut self) -> (r: Result<(), ParserError>)
        requires
            old(self).wf(),
        ensures
            r is Ok,
            final(self).wf(),
            final(self).input == old(self).input,
            final(self).pos == old(self).pos + space_run(old(self).input@, old(self).pos as int),
    {
        let ghost p0 = self.pos as int;
        while self.pos < self.input.len() && is_space_byte(self.input[self.pos])
            invariant
                self.wf(),
                self.input == old(self).input,
                p0 + space_run(self.input@, p0) == self.pos + space_run(self.input@, self.pos as int),
            decreases self.input@.len() - self.pos,
        {
            self.consume();
        }
        Ok(())
    }

    /// Whether the bytes of `s` stand at the cursor.
    pub fn starts_with(&self, s: &str) -> (r: bool)
        requires
            self.wf(),
        ensures
            r == has_tag(self.input@, self.pos as int, s.spec_bytes()),
    {
        let t = s.as_bytes();
        let start = self.pos;
        if start >= self.input.len() || t.len() > self.input.len() - start {
            return false;
        }
        let mut i: usize = 0;
        while i < t.len()
            invariant
                i <= t@.len(),
                self.wf(),
                start + t@.len() <= self.input@.len(),
                start == self.pos,
                t@ == s.spec_bytes(),
                forall|j: int| 0 <= j < i ==> self.input@[start + j] == t@[j],
            decreases t@.len() - i,
        {
            if self.input[start + i] != t[i] {
                proof {
                    assert(self.input@.subrange(start as int, start + t@.len())[i as int] != t@[i as int]);
                }
                return false;
            }
            i = i + 1;
        }
        proof {
            assert(self.input@.subrange(start as int, start + t@.len()) =~= t@);
        }
        true
    }

    /// Matches the bytes of `tag` at the cursor and moves past them, giving
    /// their span.
    pub fn tag_node(&mut self, tag: &str) -> (r: Result<Node<()>, ParserError>)
        requires
            old(self).wf(),
        ensures
            final(self).wf(),
            final(self).input == old(self).input,
            match r {
                Ok(n) => has_tag(old(self).input@, old(self).pos as int, tag.spec_bytes())
                    && final(self).pos == old(self).pos + tag.spec_bytes().len() && n.span
                    == span_of(old(self).pos as int, final(self).pos as int),
                Err(e) => !has_tag(old(self).input@, old(self).pos as int, tag.spec_bytes())
                    && final(self).pos == old(self).pos && e.view() == (
                    old(self).pos as int,
                    tag_kind(old(self).input@, old(self).pos as int, tag.spec_bytes()),
                ),
            },
    {
        let start = self.pos;
        let len = tag.as_bytes().len();
        if self.starts_with(tag) {
            self.pos = start + len;
            Ok(Node::new(Span::span(start, self.pos), ()))
        } else if start >= self.input.len() || len > self.input.len() - start {
            Err(self.parse_err(ErrorKind::UnexpectedEndOfInput))
        } else {
            Err(self.parse_err(ErrorKind::UnexpectedToken))
        }
    }

    /// Matches the bytes of `tag` at the cursor and moves past them, giving
    /// the matched text.
    pub fn tag(&mut self, tag: &str) -> (r: Result<String, ParserError>)
        requires
            old(self).wf(),
        ensures
            final(self).wf(),
            final(self).input == old(self).input,
            match r {
                Ok(text) => has_tag(old(self).input@, old(self).pos as int, tag.spec_bytes())
                    && final(self).pos == old(self).pos + tag.spec_bytes().len() && text@ == tag@,
                Err(e) => !has_tag(old(self).input@, old(self).pos as int, tag.spec_bytes())
                    && final(self).pos == old(self).pos && e.view() == (
                    old(self).pos as int,
                    tag_kind(old(self).input@, old(self).pos as int, tag.spec_bytes()),
                ),
            },
    {
        match self.tag_node(tag) {
            Ok(_) => Ok(tag.to_owned()),
            Err(e) => Err(e),
        }
    }

    /// The bytes from `start` up to `end`, if that range lies in the input.
    pub fn slice(&self, start: usize, end: usize) -> (r: Result<Vec<u8>, ParserError>)
        ensures
            match r {
                Ok(b) => start < self.input@.len() && start <= end <= self.input@.len() && b@
                    == self.input@.subrange(start as int, end as int),
                Err(e) => !(start < self.input@.len() && start <= end <= self.input@.len()) && e.pos
                    == self.pos && e.kind == ErrorKind::OutOfBoundsSlice,
            },
    {
        if !(start < self.input.len() && start <= end && end <= self.input.len()) {
            return Err(self.parse_err(ErrorKind::OutOfBoundsSlice));
        }
        let mut out: Vec<u8> = Vec::new();
        let mut i = start;
        while i < end
            invariant
                start <= i <= end <= self.input@.len(),
                out@ == self.input@.subrange(start as int, i as int),
            decreases end - i,
        {
            proof {
                assert(self.input@.subrange(start as int, i + 1) =~= out@.push(self.input@[i as int]));
            }
            out.push(self.input[i]);
            i = i + 1;
        }
        Ok(out)
    }

    /// The unary operator at the cursor, tried as `!`, `-`, `++`, `--`.
    pub fn unary_operator(&mut self) -> (r: Result<Node<UnaryOperator>, ParserError>)
        requires
            old(self).wf(),
        ensures
            final(self).wf(),
            final(self).input == old(self).input,
            match r {
                Ok(n) => unary_op_at(old(self).input@, old(self).pos as int) == Ok::<
                    (UnaryOperator, int),
                    SpecError,
                >((n.node, final(self).pos as int)) && n.span == span_of(
                    old(self).pos as int,
                    final(self).pos as int,
                ),
                Err(e) => unary_op_at(old(self).input@, old(self).pos as int) == Err::<
                    (UnaryOperator, int),
                    SpecError,
                >(e.view()) && final(self).pos == old(self).pos,
            },
    {
        let start = self.pos;
        let (operator, len): (UnaryOperator, usize) = if self.at1(33) {
            (UnaryOperator::Not, 1)
        } else if self.at1(45) {
            (UnaryOperator::Neg, 1)
        } else if self.at2(43, 43) {
            (UnaryOperator::Inc, 2)
        } else if self.at2(45, 45) {
            (UnaryOperator::Dec, 2)
        } else {
            return Err(self.unexpected());
        };
        self.pos = start + len;
        Ok(Node::new(Span::span(start, self.pos), operator))
    }

    /// The binary operator at the cursor; two-byte operators are tried before
    /// the one-byte operators that are their prefixes.
    pub fn binary_operator(&mut self) -> (r: Result<Node<BinaryOperator>, ParserError>)
        requires
            old(self).wf(),
        ensures
            final(self).wf(),
            final(self).input == old(self).input,
            match r {
                Ok(n) => binary_op_at(old(self).input@, old(self).pos as int) == Some(
                    (n.node, final(self).pos - old(self).pos),
                ) && n.span == span_of(old(self).pos as int, final(self).pos as int),
                Err(e) => binary_op_at(old(self).input@, old(self).pos as int) is None && e.view()
                    == (old(self).pos as int, kind_at(old(self).input@, old(self).pos as int))
                    && final(self).pos == old(self).pos,
            },
    {
        let start = self.pos;
        let (operator, len): (BinaryOperator, usize) = if self.at1(43) {
            (BinaryOperator::Add, 1)
        } else if self.at1(45) {
            (BinaryOperator::Sub, 1)
        } else if self.at1(42) {
            (BinaryOperator::Mul, 1)
        } else if self.at1(47) {
            (BinaryOperator::Div, 1)
        } else if self.at1(94) {
            (BinaryOperator::Pow, 1)
        } else if self.at2(61, 61) {
            (BinaryOperator::Eq, 2)
        } else if self.at2(33, 61) {
            (BinaryOperator::Ne, 2)
        } else if self.at2(60, 61) {
            (BinaryOperator::Le, 2)
        } else if self.at2(62, 61) {
            (BinaryOperator::Ge, 2)
        } else if self.at1(60) {
            (BinaryOperator::Lt, 1)
        } else if self.at1(62) {
            (BinaryOperator::Gt, 1)
        } else if self.at2(38, 38) {
            (BinaryOperator::And, 2)
        } else if self.at2(124, 124) {
            (BinaryOperator::Or, 2)
        } else {
            return Err(self.unexpected());
        };
        self.pos = start + len;
        Ok(Node::new(Span::span(start, self.pos), operator))
    }

    /// A number: an optional `-`, then one or more digits, read together with
    /// the sign as a signed 64-bit integer.
    pub fn number(&mut self) -> (r: Result<Node<i64>, ParserError>)
        requires
            old(self).wf(),
        ensures
            final(self).wf(),
            final(self).input == old(self).input,
            match r {
                Ok(n) => number_at(old(self).input@, old(self).pos as int) == Ok::<
                    (i64, int),
                    SpecError,
                >((n.node, final(self).pos as int)) && n.span == span_of(
                    old(self).pos as int,
                    final(self).pos as int,
                ),
                Err(e) => number_at(old(self).input@, old(self).pos as int) == Err::<
                    (i64, int),
                    SpecError,
                >(e.view()) && final(self).pos == old(self).pos,
            },
    {
        let ghost s = self.input@;
        let start = self.pos;
        let _ = self.input.len();
        let negative = self.at1(45);
        let q = if negative { start + 1 } else { start };
        let mut e = q;
        while e < self.input.len() && is_digit_byte(self.input[e])
            invariant
                q <= e <= s.len(),
                s == self.input@,
                q + digit_run(s, q as int) == e + digit_run(s, e as int),
                forall|j: int| q <= j < e ==> is_digit(#[trigger] s[j]),
            decreases s.len() - e,
        {
            e = e + 1;
        }
        if e == q {
            return Err(
                if q >= self.input.len() {
                    ParserError { pos: q, kind: ErrorKind::UnexpectedEndOfInput }
                } else {
                    ParserError { pos: q, kind: ErrorKind::UnexpectedToken }
                },
            );
        }
        let limit: u128 = if negative {
            9223372036854775808
        } else {
            9223372036854775807
        };
        let mut magnitude: u128 = 0;
        let mut i = q;
        while i < e
            invariant
                q <= i <= e <= s.len(),
                s == self.input@,
                self.pos == start,
                self.wf(),
                q == if negative { start + 1 } else { start as int },
                negative == at1(s, start as int, 45),
                q + digit_run(s, q as int) == e,
                forall|j: int| q <= j < e ==> is_digit(#[trigger] s[j]),
                magnitude == digits_value(s.subrange(q as int, i as int)),
                magnitude <= limit,
                limit == if negative { 9223372036854775808u128 } else { 9223372036854775807u128 },
            decreases e - i,
        {
            let d = self.input[i] - 48;
            proof {
                assert(s.subrange(q as int, i + 1).drop_last() =~= s.subrange(q as int, i as int));
            }
            magnitude = magnitude * 10 + d as u128;
            i = i + 1;
            if magnitude > limit {
                proof {
                    let whole = s.subrange(q as int, e as int);
                    assert forall|j: int| 0 <= j < whole.len() implies is_digit(#[trigger] whole[j]) by {
                        assert(whole[j] == s[q + j]);
                    }
                    lemma_digits_prefix(whole, i - q);
                    assert(whole.subrange(0, i - q) =~= s.subrange(q as int, i as int));
                    assert(digits_value(whole) > limit);
                }
                return Err(ParserError { pos: start, kind: ErrorKind::NumberOverflow });
            }
        }
        let value: i64 = if !negative {
            magnitude as i64
        } else if magnitude == 9223372036854775808 {
            i64::MIN
        } else {
            -(magnitude as i64)
        };
        self.pos = e;
        Ok(Node::new(Span::span(start, e), value))
    }

    /// An identifier: an ASCII letter, then letters, digits or underscores.
    pub fn identifier(&mut self) -> (r: Result<Node<String>, ParserError>)
        requires
            old(self).wf(),
        ensures
            final(self).wf(),
            final(self).input == old(self).input,
            match r {
                Ok(n) => identifier_at(old(self).input@, old(self).pos as int) == Ok::<
                    (Seq<char>, int),
                    SpecError,
                >((n.node@, final(self).pos as int)) && n.span == span_of(
                    old(self).pos as int,
                    final(self).pos as int,
                ),
                Err(e) => identifier_at(old(self).input@, old(self).pos as int) == Err::<
                    (Seq<char>, int),
                    SpecError,
                >(e.view()) && final(self).pos == old(self).pos,
            },
    {
        let ghost s = self.input@;
        let start = self.pos;
        if !(start < self.input.len() && is_letter_byte(self.input[start])) {
            return Err(self.unexpected());
        }
        let mut e = start + 1;
        while e < self.input.len() && is_word_byte(self.input[e])
            invariant
                start < e <= s.len(),
                s == self.input@,
                start + 1 + word_run(s, start + 1) == e + word_run(s, e as int),
            decreases s.len() - e,
        {
            e = e + 1;
        }
        let mut name = String::new();
        let mut i = start;
        while i < e
            invariant
                start <= i <= e <= s.len(),
                s == self.input@,
                name@ == ascii_chars(s.subrange(start as int, i as int)),
            decreases e - i,
        {
            proof {
                assert(ascii_chars(s.subrange(start as int, i + 1)) =~= ascii_chars(
                    s.subrange(start as int, i as int),
                ).push(s[i as int] as char));
            }
            push_char(&mut name, self.input[i] as char);
            i = i + 1;
        }
        self.pos = e;
        Ok(Node::new(Span::span(start, e), name))
    }

    /// One expression from the cursor on: a unary expression, then
    /// (operator, unary expression) pairs for as long as an operator
    /// follows, resolved by precedence, every operator binding left to right.
    /// The cursor stops after the expression and the whitespace behind it;
    /// on failure it stays where it was.
    pub fn expression(&mut self) -> (r: Result<Node<Expression>, ParserError>)
        requires
            old(self).wf(),
        ensures
            final(self).wf(),
            final(self).input == old(self).input,
            expr_outcome(r, final(self).pos) == expression_at(old(self).input@, old(self).pos as int),
            r is Err ==> final(self).pos == old(self).pos,
            r is Ok ==> final(self).pos > old(self).pos && well_formed(r->Ok_0),
        decreases old(self).input@.len() - old(self).pos, 4int,
    {
        let ghost s = self.input@;
        let p0 = self.pos;
        let first = match self.unary_expression() {
            Ok(u) => u,
            Err(e) => return Err(e),
        };
        let ghost first_v = view_expr(first);
        let ghost q0 = self.pos as int;
        let _ = self.multispace0();
        let ghost w0 = self.pos as int;
        let mut matched: Vec<(Node<BinaryOperator>, Node<Expression>)> = Vec::new();
        assert(view_pairs(matched@) =~= Seq::empty());
        loop
            invariant_except_break
                self.wf(),
                self.input == old(self).input,
                s == old(self).input@,
                p0 == old(self).pos,
                self.pos > p0,
                forward(p0 as int, unary_at(s, p0 as int)) == Ok::<(crate::ast::ExprView, int), SpecError>(
                    (first_v, q0),
                ),
                w0 == q0 + space_run(s, q0),
                pairs_at(s, w0, Seq::empty()) == pairs_at(s, self.pos as int, view_pairs(matched@)),
                forall|i: int| 0 <= i < matched@.len() ==> well_formed(#[trigger] matched@[i].1),
            ensures
                self.wf(),
                self.input == old(self).input,
                s == old(self).input@,
                p0 == old(self).pos,
                self.pos > p0,
                pairs_at(s, w0, Seq::empty()) == Ok::<
                    (Seq<((Span, BinaryOperator), crate::ast::ExprView)>, int),
                    SpecError,
                >((view_pairs(matched@), self.pos as int)),
                forall|i: int| 0 <= i < matched@.len() ==> well_formed(#[trigger] matched@[i].1),
            decreases s.len() - self.pos,
        {
            let w = self.pos;
            let op = match self.binary_operator() {
                Ok(op) => op,
                Err(_) => break,
            };
            let _ = self.multispace0();
            let operand = match self.unary_expression() {
                Ok(u) => u,
                Err(e) => {
                    self.pos = p0;
                    return Err(e);
                },
            };
            let _ = self.multispace0();
            let ghost before = matched@;
            matched.push((op, operand));
            proof {
                assert(view_pairs(matched@) =~= view_pairs(before).push(
                    ((op.span, op.node), view_expr(operand)),
                ));
            }
        }
        let ghost pairs_v = view_pairs(matched@);
        let mut operands: Vec<Node<Expression>> = Vec::new();
        operands.push(first);
        let mut operators: Vec<Node<BinaryOperator>> = Vec::new();
        proof {
            assert(view_list(operands@) =~= seq![first_v]) by {
                lemma_view_list_push(Seq::empty(), first);
                assert(Seq::<Node<Expression>>::empty().push(first) =~= operands@);
            }
            assert(view_ops(operators@) =~= Seq::empty());
        }
        while matched.len() > 0
            invariant
                self.wf(),
                self.input == old(self).input,
                s == old(self).input@,
                operands@.len() == operators@.len() + 1,
                all_well_formed(operands@),
                forall|i: int| 0 <= i < matched@.len() ==> well_formed(#[trigger] matched@[i].1),
                resolve_from(view_list(operands@), view_ops(operators@), view_pairs(matched@))
                    == resolve_from(seq![first_v], Seq::empty(), pairs_v),
            decreases matched@.len(),
        {
            let ghost rest = matched@;
            let (op, operand) = matched.remove(0);
            proof {
                assert(view_pairs(rest)[0] == ((op.span, op.node), view_expr(operand)));
                assert(view_pairs(rest).drop_first() =~= view_pairs(matched@));
                assert(well_formed(rest[0].1));
            }
            let min = precedence(&op.node);
            reduce_stacks(&mut operands, &mut operators, min);
            let ghost before_operands = operands@;
            let ghost before_operators = operators@;
            operands.push(operand);
            operators.push(op);
            proof {
                lemma_view_list_push(before_operands, operand);
                assert(view_ops(operators@) =~= view_ops(before_operators).push((op.span, op.node)));
            }
        }
        reduce_stacks(&mut operands, &mut operators, 0);
        proof {
            lemma_view_list_len(operands@);
            lemma_view_list_index(operands@, 0);
        }
        let result = operands.pop().unwrap();
        Ok(result)
    }

    /// A prefix operator and its operand, or an operand with an optional
    /// postfix operator; without an operator the operand itself.
    pub fn unary_expression(&mut self) -> (r: Result<Node<Expression>, ParserError>)
        requires
            old(self).wf(),
        ensures
            final(self).wf(),
            final(self).input == old(self).input,
            expr_outcome(r, final(self).pos) == unary_at(old(self).input@, old(self).pos as int),
            r is Err ==> final(self).pos == old(self).pos,
            r is Ok ==> final(self).pos > old(self).pos && well_formed(r->Ok_0),
        decreases old(self).input@.len() - old(self).pos, 3int,
    {
        let start = self.pos;
        match self.unary_operator() {
            Ok(op) => match self.primary_expression() {
                Err(e) => {
                    self.pos = start;
                    Err(e)
                },
                Ok(operand) => {
                    let span = Span::span(start, self.pos);
                    Ok(
                        Node::new(
                            span,
                            Expression::UnaryExpression(
                                Node::new(
                                    span,
                                    UnaryExpression { op: Some(op), expr: Box::new(operand), is_prefix: true },
                                ),
                            ),
                        ),
                    )
                },
            },
            Err(_) => match self.primary_expression() {
                Err(e) => Err(e),
                Ok(operand) => match self.unary_operator() {
                    Ok(op) => {
                        let span = Span::span(operand.span.start, self.pos);
                        Ok(
                            Node::new(
                                span,
                                Expression::UnaryExpression(
                                    Node::new(
                                        span,
                                        UnaryExpression {
                                            op: Some(op),
                                            expr: Box::new(operand),
                                            is_prefix: false,
                                        },
                                    ),
                                ),
                            ),
                        )
                    },
                    Err(_) => Ok(operand),
                },
            },
        }
    }

    /// After whitespace: a grouped expression, an array, a call, a number or
    /// an identifier, tried in that order; the first that fits is taken.
    pub fn primary_expression(&mut self) -> (r: Result<Node<Expression>, ParserError>)
        requires
            old(self).wf(),
        ensures
            final(self).wf(),
            final(self).input == old(self).input,
            expr_outcome(r, final(self).pos) == primary_at(old(self).input@, old(self).pos as int),
            r is Err ==> final(self).pos == old(self).pos,
            r is Ok ==> final(self).pos > old(self).pos && well_formed(r->Ok_0) && r->Ok_0.span.end
                == final(self).pos,
        decreases old(self).input@.len() - old(self).pos, 2int,
    {
        let start = self.pos;
        let _ = self.multispace0();
        let w = self.pos;
        if self.at1(40) {
            self.consume();
            match self.expression() {
                Err(e) => {
                    self.pos = start;
                    return Err(e);
                },
                Ok(inner) => {
                    let _ = self.multispace0();
                    if !self.at1(41) {
                        let e = self.unexpected();
                        self.pos = start;
                        return Err(e);
                    }
                    self.consume();
                    let span = Span::span(w, self.pos);
                    return Ok(
                        Node::new(
                            span,
                            Expression::PrimaryExpression(
                                Node::new(span, PrimaryExpression::GroupedExpression(Box::new(inner))),
                            ),
                        ),
                    );
                },
            }
        }
        if self.at1(91) {
            match self.array() {
                Err(e) => {
                    self.pos = start;
                    return Err(e);
                },
                Ok(array) => {
                    let span = Span::span(w, self.pos);
                    return Ok(
                        Node::new(
                            span,
                            Expression::PrimaryExpression(Node::new(span, PrimaryExpression::Array(array))),
                        ),
                    );
                },
            }
        }
        if self.starts_with_func_call() {
            match self.function_call() {
                Err(e) => {
                    self.pos = start;
                    return Err(e);
                },
                Ok(call) => {
                    let span = Span::span(w, self.pos);
                    return Ok(
                        Node::new(
                            span,
                            Expression::PrimaryExpression(
                                Node::new(span, PrimaryExpression::FunctionCall(call)),
                            ),
                        ),
                    );
                },
            }
        }
        if let Ok(number) = self.number() {
            let span = Span::span(w, self.pos);
            return Ok(
                Node::new(
                    span,
                    Expression::PrimaryExpression(Node::new(span, PrimaryExpression::Number(number))),
                ),
            );
        }
        if let Ok(identifier) = self.identifier() {
            let span = Span::span(w, self.pos);
            return Ok(
                Node::new(
                    span,
                    Expression::PrimaryExpression(
                        Node::new(span, PrimaryExpression::Identifier(identifier)),
                    ),
                ),
            );
        }
        let e = self.unexpected();
        self.pos = start;
        Err(e)
    }

    /// Further `, expression` items, appended to `items`.
    fn more_items(&mut self, items: &mut Vec<Node<Expression>>) -> (r: Result<(), ParserError>)
        requires
            old(self).wf(),
            all_well_formed(old(items)@),
        ensures
            final(self).wf(),
            final(self).input == old(self).input,
            match (r, more_at(old(self).input@, old(self).pos as int, view_list(old(items)@))) {
                (Ok(_), Ok((v, q))) => view_list(final(items)@) == v && final(self).pos == q
                    && all_well_formed(final(items)@) && final(self).pos >= old(self).pos,
                (Err(e), Err(x)) => e.view() == x,
                _ => false,
            },
        decreases old(self).input@.len() - old(self).pos, 0int,
    {
        let ghost s = self.input@;
        let ghost p0 = self.pos as int;
        let ghost v0 = view_list(items@);
        while self.at1(44)
            invariant
                self.wf(),
                self.input == old(self).input,
                s == old(self).input@,
                p0 == old(self).pos,
                self.pos >= p0,
                v0 == view_list(old(items)@),
                more_at(s, p0, v0) == more_at(s, self.pos as int, view_list(items@)),
                all_well_formed(items@),
            decreases s.len() - self.pos,
        {
            self.consume();
            match self.expression() {
                Err(e) => return Err(e),
                Ok(x) => {
                    proof {
                        lemma_view_list_push(items@, x);
                    }
                    items.push(x);
                },
            }
        }
        Ok(())
    }

    /// An array: `[`, one or more expressions separated by `,`, then `]`.
    pub fn array(&mut self) -> (r: Result<Node<Array>, ParserError>)
        requires
            old(self).wf(),
        ensures
            final(self).wf(),
            final(self).input == old(self).input,
            match (r, array_at(old(self).input@, old(self).pos as int)) {
                (Ok(n), Ok((v, q))) => view_list(n.node.elements@) == v && final(self).pos == q
                    && n.span == span_of(old(self).pos as int, q) && all_well_formed(n.node.elements@)
                    && q > old(self).pos,
                (Err(e), Err(x)) => e.view() == x && final(self).pos == old(self).pos,
                _ => false,
            },
        decreases old(self).input@.len() - old(self).pos, 1int,
    {
        let start = self.pos;
        if !self.at1(91) {
            return Err(self.unexpected());
        }
        self.consume();
        let mut elements: Vec<Node<Expression>> = Vec::new();
        match self.expression() {
            Err(e) => {
                self.pos = start;
                return Err(e);
            },
            Ok(first) => {
                proof {
                    lemma_view_list_push(elements@, first);
                    assert(elements@.push(first) =~= seq![first]);
                }
                elements.push(first);
            },
        }
        if let Err(e) = self.more_items(&mut elements) {
            self.pos = start;
            return Err(e);
        }
        if !self.at1(93) {
            let e = self.unexpected();
            self.pos = start;
            return Err(e);
        }
        self.consume();
        Ok(Node::new(Span::span(start, self.pos), Array { elements }))
    }

    /// A call: an identifier, `(`, whitespace, zero or more expressions
    /// separated by `,`, then `)`.
    pub fn function_call(&mut self) -> (r: Result<Node<FunctionCall>, ParserError>)
        requires
            old(self).wf(),
        ensures
            final(self).wf(),
            final(self).input == old(self).input,
            match (r, call_at(old(self).input@, old(self).pos as int)) {
                (Ok(n), Ok((name, v, q))) => name == (n.node.name.span, n.node.name.node@) && view_list(
                    n.node.arguments@,
                ) == v && final(self).pos == q && n.span == span_of(old(self).pos as int, q)
                    && n.node.name.span.start == old(self).pos && all_well_formed(n.node.arguments@)
                    && q > old(self).pos,
                (Err(e), Err(x)) => e.view() == x && final(self).pos == old(self).pos,
                _ => false,
            },
        decreases old(self).input@.len() - old(self).pos, 1int,
    {
        let start = self.pos;
        let name = self.identifier()?;
        if !self.at1(40) {
            let e = self.unexpected();
            self.pos = start;
            return Err(e);
        }
        self.consume();
        let _ = self.multispace0();
        let mut arguments: Vec<Node<Expression>> = Vec::new();
        let c = match self.cur() {
            Ok(c) => c,
            Err(e) => {
                self.pos = start;
                return Err(e);
            },
        };
        if c != 41 {
            match self.expression() {
                Err(e) => {
                    self.pos = start;
                    return Err(e);
                },
                Ok(first) => {
                    proof {
                        lemma_view_list_push(arguments@, first);
                        assert(arguments@.push(first) =~= seq![first]);
                    }
                    arguments.push(first);
                },
            }
            if let Err(e) = self.more_items(&mut arguments) {
                self.pos = start;
                return Err(e);
            }
            if !self.at1(41) {
                let e = self.unexpected();
                self.pos = start;
                return Err(e);
            }
        }
        self.consume();
        Ok(Node::new(Span::span(start, self.pos), FunctionCall { name, arguments }))
    }

    /// Whether an identifier directly followed by `(` stands at the cursor;
    /// the cursor is left where it was.
    fn starts_with_func_call(&mut self) -> (r: bool)
        requires
            old(self).wf(),
        ensures
            *final(self) == *old(self),
            r == call_ahead(old(self).input@, old(self).pos as int),
    {
        let start = self.pos;
        let r = match self.identifier() {
            Ok(_) => self.at1(40),
            Err(_) => false,
        };
        self.pos = start;
        r
    }
}

/// The models of (operator, operand) pairs.
pub open spec fn view_pairs(s: Seq<(Node<BinaryOperator>, Node<Expression>)>) -> Seq<
    ((Span, BinaryOperator), crate::ast::ExprView),
> {
    s.map_values(|x: (Node<BinaryOperator>, Node<Expression>)| ((x.0.span, x.0.node), view_expr(x.1)))
}

/// The models of operator nodes.
pub open spec fn view_ops(s: Seq<Node<BinaryOperator>>) -> Seq<(Span, BinaryOperator)> {
    s.map_values(|x: Node<BinaryOperator>| (x.span, x.node))
}

/// Combines the two topmost operands with the topmost operator for as long
/// as that operator binds at least as tightly as `min`.
fn reduce_stacks(operands: &mut Vec<Node<Expression>>, operators: &mut Vec<Node<BinaryOperator>>, min: u8)
    requires
        old(operands)@.len() == old(operators)@.len() + 1,
        all_well_formed(old(operands)@),
    ensures
        final(operands)@.len() == final(operators)@.len() + 1,
        all_well_formed(final(operands)@),
        (view_list(final(operands)@), view_ops(final(operators)@)) == reduce(
            view_list(old(operands)@),
            view_ops(old(operators)@),
            min as int,
        ),
{
    while operators.len() > 0 && precedence(&operators[operators.len() - 1].node) >= min
        invariant
            operands@.len() == operators@.len() + 1,
            all_well_formed(operands@),
            reduce(view_list(operands@), view_ops(operators@), min as int) == reduce(
                view_list(old(operands)@),
                view_ops(old(operators)@),
                min as int,
            ),
        decreases operators@.len(),
    {
        let ghost before = operands@;
        let ghost before_ops = operators@;
        let right = operands.pop().unwrap();
        let left = operands.pop().unwrap();
        let operator = operators.pop().unwrap();
        let span = Span { start: left.span.start, end: right.span.end };
        let combined = Node::new(
            span,
            Expression::BinaryExpression(
                Node::new(span, BinaryExpression { lhs: Box::new(left), op: operator, rhs: Box::new(right) }),
            ),
        );
        proof {
            let n = before.len();
            lemma_view_list_len(before);
            lemma_view_list_index(before, n - 1);
            lemma_view_list_index(before, n - 2);
            assert(operands@ =~= before.subrange(0, n - 2));
            assert(view_list(before.subrange(0, n - 2)) =~= view_list(before).subrange(0, n - 2)) by {
                assert(before.drop_last() =~= before.subrange(0, n - 1));
                assert(before.subrange(0, n - 1).drop_last() =~= before.subrange(0, n - 2));
                lemma_view_list_len(before.drop_last());
            }
            lemma_view_list_push(operands@, combined);
            assert(view_ops(operators@) =~= view_ops(before_ops).drop_last());
            assert(well_formed(before[n - 1]));
            assert(well_formed(before[n - 2]));
        }
        operands.push(combined);
    }
}

fn is_space_byte(b: u8) -> (r: bool)
    ensures
        r == is_space(b),
{
    b == 32 || b == 9 || b == 10 || b == 13
}

fn is_digit_byte(b: u8) -> (r: bool)
    ensures
        r == is_digit(b),
{
    48 <= b && b <= 57
}

fn is_letter_byte(b: u8) -> (r: bool)
    ensures
        r == is_letter(b),
{
    (65 <= b && b <= 90) || (97 <= b && b <= 122)
}

fn is_word_byte(b: u8) -> (r: bool)
    ensures
        r == is_word(b),
{
    is_letter_byte(b) || is_digit_byte(b) || b == 95
}

} // verus!
