//! The text of untyped expressions, as it appears in error messages.

use vstd::prelude::*;
use vstd::string::StringExecFns;
use crate::absy::{
    Assignee, AssigneeView, Expression, ExpressionNode, ExpressionView, NodeView, Range,
    RangeOrExpression, RangeOrExpressionView, RangeView, SpreadOrExpression,
    SpreadOrExpressionView,
};
use crate::field::FieldValue;
use crate::text::{append_joined, dec_text, join, string_views};
use crate::typed_text::{
    bool_text, bracketed_text, bracketed_to_string, call_text, call_to_string, if_else_text,
    if_else_to_string, infix_text, infix_to_string, select_text, select_to_string,
};

verus! {

/// The text of a bound of a range: its decimal text, or nothing where it is
/// left out.
pub open spec fn bound_text(bound: Option<nat>) -> Seq<char> {
    match bound {
        Some(n) => dec_text(n),
        None => Seq::empty(),
    }
}

/// The text of a range: the bounds with two dots between them.
pub open spec fn range_text(range: RangeView) -> Seq<char> {
    bound_text(range.from) + ".."@ + bound_text(range.to)
}

/// The text of an expression.
pub open spec fn expression_text(e: ExpressionView) -> Seq<char>
    decreases e,
{
    match e {
        ExpressionView::FieldConstant(n) => dec_text(n),
        ExpressionView::BooleanConstant(b) => bool_text(b),
        ExpressionView::Identifier(name) => name,
        ExpressionView::Add(a, b) => bracketed_text(
            expression_text(a.value),
            " + "@,
            expression_text(b.value),
        ),
        ExpressionView::Sub(a, b) => bracketed_text(
            expression_text(a.value),
            " - "@,
            expression_text(b.value),
        ),
        ExpressionView::Mult(a, b) => bracketed_text(
            expression_text(a.value),
            " * "@,
            expression_text(b.value),
        ),
        ExpressionView::Div(a, b) => bracketed_text(
            expression_text(a.value),
            " / "@,
            expression_text(b.value),
        ),
        ExpressionView::Pow(a, b) => infix_text(
            expression_text(a.value),
            "**"@,
            expression_text(b.value),
        ),
        ExpressionView::IfElse(c, a, b) => if_else_text(
            expression_text(c.value),
            expression_text(a.value),
            expression_text(b.value),
        ),
        ExpressionView::FunctionCall(name, arguments) => call_text(
            name,
            expression_texts(arguments),
        ),
        ExpressionView::Lt(a, b) => infix_text(
            expression_text(a.value),
            " < "@,
            expression_text(b.value),
        ),
        ExpressionView::Le(a, b) => infix_text(
            expression_text(a.value),
            " <= "@,
            expression_text(b.value),
        ),
        ExpressionView::Eq(a, b) => infix_text(
            expression_text(a.value),
            " == "@,
            expression_text(b.value),
        ),
        ExpressionView::Ge(a, b) => infix_text(
            expression_text(a.value),
            " >= "@,
            expression_text(b.value),
        ),
        ExpressionView::Gt(a, b) => infix_text(
            expression_text(a.value),
            " > "@,
            expression_text(b.value),
        ),
        ExpressionView::And(a, b) => infix_text(
            expression_text(a.value),
            " && "@,
            expression_text(b.value),
        ),
        ExpressionView::Not(a) => "!"@ + expression_text(a.value),
        ExpressionView::InlineArray(items) => "["@ + join(spread_or_expression_texts(items), ", "@)
            + "]"@,
        ExpressionView::Select(a, index) => select_text(
            expression_text(a.value),
            range_or_expression_text(*index),
        ),
        ExpressionView::Or(a, b) => infix_text(
            expression_text(a.value),
            " || "@,
            expression_text(b.value),
        ),
    }
}

/// The texts of a sequence of expressions.
pub open spec fn expression_texts(es: Seq<NodeView<ExpressionView>>) -> Seq<Seq<char>>
    decreases es,
{
    Seq::new(
        es.len(),
        |i: int|
            if 0 <= i < es.len() {
                expression_text(es[i].value)
            } else {
                arbitrary()
            },
    )
}

/// The text of an element of an inline array; a spread is written with three
/// dots before it.
pub open spec fn spread_or_expression_text(item: SpreadOrExpressionView) -> Seq<char>
    decreases item,
{
    match item {
        SpreadOrExpressionView::Spread(s) => "..."@ + expression_text(s.value.expression.value),
        SpreadOrExpressionView::Expression(e) => expression_text(e.value),
    }
}

/// The texts of the elements of an inline array.
pub open spec fn spread_or_expression_texts(items: Seq<SpreadOrExpressionView>) -> Seq<Seq<char>>
    decreases items,
{
    Seq::new(
        items.len(),
        |i: int|
            if 0 <= i < items.len() {
                spread_or_expression_text(items[i])
            } else {
                arbitrary()
            },
    )
}

/// The text of a range or an index.
pub open spec fn range_or_expression_text(index: RangeOrExpressionView) -> Seq<char>
    decreases index,
{
    match index {
        RangeOrExpressionView::Range(r) => range_text(r.value),
        RangeOrExpressionView::Expression(e) => expression_text(e.value),
    }
}

/// The text of the left-hand side of an assignment.
pub open spec fn assignee_text(a: AssigneeView) -> Seq<char>
    decreases a,
{
    match a {
        AssigneeView::Identifier(name) => name,
        AssigneeView::ArrayElement(base, index) => select_text(
            assignee_text(base.value),
            range_or_expression_text(*index),
        ),
    }
}

/// Renders a bound of a range.
pub fn bound_to_string(bound: &Option<FieldValue>) -> (r: String)
    ensures
        r@ == bound_text(crate::absy::bound_view(*bound)),
{
    match bound {
        Some(n) => n.to_dec_string(),
        None => String::new(),
    }
}

/// Renders a range.
pub fn range_to_string(range: &Range) -> (r: String)
    ensures
        r@ == range_text(range@),
{
    let mut out = bound_to_string(&range.from);
    out.append("..");
    let to = bound_to_string(&range.to);
    out.append(to.as_str());
    out
}

/// Renders each of a list of expressions.
pub fn expressions_to_strings(es: &Vec<ExpressionNode>) -> (r: Vec<String>)
    ensures
        r@.len() == es@.len(),
        forall|j: int| 0 <= j < es@.len() ==> (#[trigger] r@[j])@ == expression_text(es@[j]@.value),
    decreases es,
{
    let mut out: Vec<String> = Vec::new();
    let mut i: usize = 0;
    while i < es.len()
        invariant
            i <= es.len(),
            out@.len() == i,
            forall|j: int| 0 <= j < i ==> (#[trigger] out@[j])@ == expression_text(es@[j]@.value),
        decreases es.len() - i,
    {
        let part = expression_to_string(&es[i].value);
        out.push(part);
        i += 1;
    }
    out
}

/// Renders each of the elements of an inline array.
pub fn spread_or_expressions_to_strings(items: &Vec<SpreadOrExpression>) -> (r: Vec<String>)
    ensures
        r@.len() == items@.len(),
        forall|j: int|
            0 <= j < items@.len() ==> (#[trigger] r@[j])@ == spread_or_expression_text(items@[j]@),
    decreases items,
{
    let mut out: Vec<String> = Vec::new();
    let mut i: usize = 0;
    while i < items.len()
        invariant
            i <= items.len(),
            out@.len() == i,
            forall|j: int|
                0 <= j < i ==> (#[trigger] out@[j])@ == spread_or_expression_text(items@[j]@),
        decreases items.len() - i,
    {
        let part = spread_or_expression_to_string(&items[i]);
        out.push(part);
        i += 1;
    }
    out
}

/// Renders an expression.
pub fn expression_to_string(e: &Expression) -> (r: String)
    ensures
        r@ == expression_text(e@),
    decreases e,
{
    match e {
        Expression::FieldConstant(n) => n.to_dec_string(),
        Expression::BooleanConstant(b) => {
            if *b {
                String::from_str("true")
            } else {
                String::from_str("false")
            }
        },
        Expression::Identifier(name) => name.clone(),
        Expression::Add(a, b) => bracketed_to_string(
            expression_to_string(&a.value),
            " + ",
            expression_to_string(&b.value),
        ),
        Expression::Sub(a, b) => bracketed_to_string(
            expression_to_string(&a.value),
            " - ",
            expression_to_string(&b.value),
        ),
        Expression::Mult(a, b) => bracketed_to_string(
            expression_to_string(&a.value),
            " * ",
            expression_to_string(&b.value),
        ),
        Expression::Div(a, b) => bracketed_to_string(
            expression_to_string(&a.value),
            " / ",
            expression_to_string(&b.value),
        ),
        Expression::Pow(a, b) => infix_to_string(
            expression_to_string(&a.value),
            "**",
            expression_to_string(&b.value),
        ),
        Expression::IfElse(c, a, b) => if_else_to_string(
            expression_to_string(&c.value),
            expression_to_string(&a.value),
            expression_to_string(&b.value),
        ),
        Expression::FunctionCall(name, arguments) => {
            let parts = expressions_to_strings(arguments);
            proof {
                assert(string_views(parts@) =~= expression_texts(e@->FunctionCall_1));
            }
            call_to_string(name, &parts)
        },
        Expression::Lt(a, b) => infix_to_string(
            expression_to_string(&a.value),
            " < ",
            expression_to_string(&b.value),
        ),
        Expression::Le(a, b) => infix_to_string(
            expression_to_string(&a.value),
            " <= ",
            expression_to_string(&b.value),
        ),
        Expression::Eq(a, b) => infix_to_string(
            expression_to_string(&a.value),
            " == ",
            expression_to_string(&b.value),
        ),
        Expression::Ge(a, b) => infix_to_string(
            expression_to_string(&a.value),
            " >= ",
            expression_to_string(&b.value),
        ),
        Expression::Gt(a, b) => infix_to_string(
            expression_to_string(&a.value),
            " > ",
            expression_to_string(&b.value),
        ),
        Expression::And(a, b) => infix_to_string(
            expression_to_string(&a.value),
            " && ",
            expression_to_string(&b.value),
        ),
        Expression::Not(a) => {
            let mut out = String::from_str("!");
            let inner = expression_to_string(&a.value);
            out.append(inner.as_str());
            out
        },
        Expression::InlineArray(items) => {
            let parts = spread_or_expressions_to_strings(items);
            proof {
                assert(string_views(parts@) =~= spread_or_expression_texts(e@->InlineArray_0));
            }
            let mut out = String::from_str("[");
            append_joined(&mut out, &parts, ", ");
            out.append("]");
            out
        },
        Expression::Select(a, index) => select_to_string(
            expression_to_string(&a.value),
            range_or_expression_to_string(index),
        ),
        Expression::Or(a, b) => infix_to_string(
            expression_to_string(&a.value),
            " || ",
            expression_to_string(&b.value),
        ),
    }
}

/// Renders an element of an inline array.
pub fn spread_or_expression_to_string(item: &SpreadOrExpression) -> (r: String)
    ensures
        r@ == spread_or_expression_text(item@),
    decreases item,
{
    match item {
        SpreadOrExpression::Spread(s) => {
            let mut out = String::from_str("...");
            let inner = expression_to_string(&s.value.expression.value);
            out.append(inner.as_str());
            out
        },
        SpreadOrExpression::Expression(e) => expression_to_string(&e.value),
    }
}

/// Renders a range or an index.
pub fn range_or_expression_to_string(index: &RangeOrExpression) -> (r: String)
    ensures
        r@ == range_or_expression_text(index@),
    decreases index,
{
    match index {
        RangeOrExpression::Range(r) => range_to_string(&r.value),
        RangeOrExpression::Expression(e) => expression_to_string(&e.value),
    }
}

/// Renders the left-hand side of an assignment.
pub fn assignee_to_string(a: &Assignee) -> (r: String)
    ensures
        r@ == assignee_text(a@),
    decreases a,
{
    match a {
        Assignee::Identifier(name) => name.clone(),
        Assignee::ArrayElement(base, index) => select_to_string(
            assignee_to_string(&base.value),
            range_or_expression_to_string(index),
        ),
    }
}

impl Expression {
    /// Renders the expression.
    pub fn to_string(&self) -> (r: String)
        ensures
            r@ == expression_text(self@),
    {
        expression_to_string(self)
    }
}

impl Assignee {
    /// Renders the left-hand side.
    pub fn to_string(&self) -> (r: String)
        ensures
            r@ == assignee_text(self@),
    {
        assignee_to_string(self)
    }
}

impl Range {
    /// Renders the range.
    pub fn to_string(&self) -> (r: String)
        ensures
            r@ == range_text(self@),
    {
        range_to_string(self)
    }
}

} // verus!
