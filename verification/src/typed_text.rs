//! The text of typed expressions, as it appears in error messages.

use vstd::prelude::*;
use vstd::string::StringExecFns;
use crate::absy::views;
use crate::text::{append_joined, dec_text, join, string_views};
use crate::typed_absy::{
    lemma_array_call_view, lemma_array_value_view, lemma_boolean_call_view,
    lemma_field_call_view, BooleanExpression, BooleanExpressionView, FieldElementArrayExpression,
    FieldElementArrayExpressionView, FieldElementExpression, FieldElementExpressionView,
    TypedAssignee, TypedAssigneeView, TypedExpression, TypedExpressionView,
};

verus! {

/// The text of a binary operation: the operands with `op` between them.
pub open spec fn infix_text(left: Seq<char>, op: Seq<char>, right: Seq<char>) -> Seq<char> {
    left + op + right
}

/// The text of a binary operation in round brackets.
pub open spec fn bracketed_text(left: Seq<char>, op: Seq<char>, right: Seq<char>) -> Seq<char> {
    "("@ + left + op + right + ")"@
}

/// The text of a conditional expression.
pub open spec fn if_else_text(
    condition: Seq<char>,
    consequence: Seq<char>,
    alternative: Seq<char>,
) -> Seq<char> {
    "if "@ + condition + " then "@ + consequence + " else "@ + alternative + " fi"@
}

/// The text of a call: the name, and the arguments in round brackets.
pub open spec fn call_text(name: Seq<char>, arguments: Seq<Seq<char>>) -> Seq<char> {
    name + "("@ + join(arguments, ", "@) + ")"@
}

/// The text of a selection: what is selected from, and the index in square
/// brackets.
pub open spec fn select_text(base: Seq<char>, index: Seq<char>) -> Seq<char> {
    base + "["@ + index + "]"@
}

/// The text of a boolean constant.
pub open spec fn bool_text(b: bool) -> Seq<char> {
    if b {
        "true"@
    } else {
        "false"@
    }
}

/// The text of a typed expression.
pub open spec fn typed_expression_text(e: TypedExpressionView) -> Seq<char>
    decreases e,
{
    match e {
        TypedExpressionView::Boolean(b) => boolean_text(b),
        TypedExpressionView::FieldElement(f) => field_text(f),
        TypedExpressionView::FieldElementArray(a) => array_text(a),
    }
}

/// The texts of a sequence of typed expressions.
pub open spec fn typed_expression_texts(es: Seq<TypedExpressionView>) -> Seq<Seq<char>>
    decreases es,
{
    Seq::new(
        es.len(),
        |i: int|
            if 0 <= i < es.len() {
                typed_expression_text(es[i])
            } else {
                arbitrary()
            },
    )
}

/// The texts of a sequence of field element expressions.
pub open spec fn field_texts(es: Seq<FieldElementExpressionView>) -> Seq<Seq<char>>
    decreases es,
{
    Seq::new(
        es.len(),
        |i: int|
            if 0 <= i < es.len() {
                field_text(es[i])
            } else {
                arbitrary()
            },
    )
}

/// The text of a field element expression.
pub open spec fn field_text(e: FieldElementExpressionView) -> Seq<char>
    decreases e,
{
    match e {
        FieldElementExpressionView::Number(n) => dec_text(n),
        FieldElementExpressionView::Identifier(name) => name,
        FieldElementExpressionView::Add(a, b) => bracketed_text(
            field_text(*a),
            " + "@,
            field_text(*b),
        ),
        FieldElementExpressionView::Sub(a, b) => bracketed_text(
            field_text(*a),
            " - "@,
            field_text(*b),
        ),
        FieldElementExpressionView::Mult(a, b) => bracketed_text(
            field_text(*a),
            " * "@,
            field_text(*b),
        ),
        FieldElementExpressionView::Div(a, b) => bracketed_text(
            field_text(*a),
            " / "@,
            field_text(*b),
        ),
        FieldElementExpressionView::Pow(a, b) => infix_text(field_text(*a), "**"@, field_text(*b)),
        FieldElementExpressionView::IfElse(c, a, b) => if_else_text(
            boolean_text(*c),
            field_text(*a),
            field_text(*b),
        ),
        FieldElementExpressionView::FunctionCall(name, arguments) => call_text(
            name,
            typed_expression_texts(arguments),
        ),
        FieldElementExpressionView::Select(a, i) => select_text(array_text(*a), field_text(*i)),
    }
}

/// The text of a boolean expression.
pub open spec fn boolean_text(e: BooleanExpressionView) -> Seq<char>
    decreases e,
{
    match e {
        BooleanExpressionView::Identifier(name) => name,
        BooleanExpressionView::Value(b) => bool_text(b),
        BooleanExpressionView::Lt(a, b) => infix_text(field_text(*a), " < "@, field_text(*b)),
        BooleanExpressionView::Le(a, b) => infix_text(field_text(*a), " <= "@, field_text(*b)),
        BooleanExpressionView::Eq(a, b) => infix_text(field_text(*a), " == "@, field_text(*b)),
        BooleanExpressionView::Ge(a, b) => infix_text(field_text(*a), " >= "@, field_text(*b)),
        BooleanExpressionView::Gt(a, b) => infix_text(field_text(*a), " > "@, field_text(*b)),
        BooleanExpressionView::Or(a, b) => infix_text(boolean_text(*a), " || "@, boolean_text(*b)),
        BooleanExpressionView::And(a, b) => infix_text(
            boolean_text(*a),
            " && "@,
            boolean_text(*b),
        ),
        BooleanExpressionView::Not(a) => "!"@ + boolean_text(*a),
        BooleanExpressionView::IfElse(c, a, b) => if_else_text(
            boolean_text(*c),
            boolean_text(*a),
            boolean_text(*b),
        ),
        BooleanExpressionView::FunctionCall(name, arguments) => call_text(
            name,
            typed_expression_texts(arguments),
        ),
    }
}

/// The text of an array expression.
pub open spec fn array_text(e: FieldElementArrayExpressionView) -> Seq<char>
    decreases e,
{
    match e {
        FieldElementArrayExpressionView::Identifier(_, name) => name,
        FieldElementArrayExpressionView::Value(_, values) => "["@ + join(
            field_texts(values),
            ", "@,
        ) + "]"@,
        FieldElementArrayExpressionView::FunctionCall(_, name, arguments) => call_text(
            name,
            typed_expression_texts(arguments),
        ),
        FieldElementArrayExpressionView::IfElse(c, a, b) => if_else_text(
            boolean_text(*c),
            array_text(*a),
            array_text(*b),
        ),
    }
}

/// The text of a checked left-hand side.
pub open spec fn typed_assignee_text(a: TypedAssigneeView) -> Seq<char>
    decreases a,
{
    match a {
        TypedAssigneeView::Identifier(v) => v.id,
        TypedAssigneeView::ArrayElement(base, index) => select_text(
            typed_assignee_text(*base),
            field_text(*index),
        ),
    }
}

/// Renders a binary operation.
pub fn infix_to_string(left: String, op: &str, right: String) -> (r: String)
    ensures
        r@ == infix_text(left@, op@, right@),
{
    let mut out = left;
    out.append(op);
    out.append(right.as_str());
    out
}

/// Renders a binary operation in round brackets.
pub fn bracketed_to_string(left: String, op: &str, right: String) -> (r: String)
    ensures
        r@ == bracketed_text(left@, op@, right@),
{
    let mut out = String::from_str("(");
    out.append(left.as_str());
    out.append(op);
    out.append(right.as_str());
    out.append(")");
    out
}

/// Renders a conditional expression.
pub fn if_else_to_string(condition: String, consequence: String, alternative: String) -> (r:
    String)
    ensures
        r@ == if_else_text(condition@, consequence@, alternative@),
{
    let mut out = String::from_str("if ");
    out.append(condition.as_str());
    out.append(" then ");
    out.append(consequence.as_str());
    out.append(" else ");
    out.append(alternative.as_str());
    out.append(" fi");
    out
}

/// Renders a call.
pub fn call_to_string(name: &String, arguments: &Vec<String>) -> (r: String)
    ensures
        r@ == call_text(name@, string_views(arguments@)),
{
    let mut out = name.clone();
    out.append("(");
    append_joined(&mut out, arguments, ", ");
    out.append(")");
    out
}

/// Renders a selection.
pub fn select_to_string(base: String, index: String) -> (r: String)
    ensures
        r@ == select_text(base@, index@),
{
    let mut out = base;
    out.append("[");
    out.append(index.as_str());
    out.append("]");
    out
}

/// Renders each of a list of typed expressions.
pub fn typed_expressions_to_strings(es: &Vec<TypedExpression>) -> (r: Vec<String>)
    ensures
        string_views(r@) == typed_expression_texts(views(es@)),
    decreases es,
{
    let mut out: Vec<String> = Vec::new();
    let mut i: usize = 0;
    while i < es.len()
        invariant
            i <= es.len(),
            out@.len() == i,
            forall|j: int| 0 <= j < i ==> (#[trigger] out@[j])@ == typed_expression_text(es@[j]@),
        decreases es.len() - i,
    {
        let part = typed_expression_to_string(&es[i]);
        out.push(part);
        i += 1;
    }
    proof {
        assert(string_views(out@) =~= typed_expression_texts(views(es@)));
    }
    out
}

/// Renders each of a list of field element expressions.
pub fn field_expressions_to_strings(es: &Vec<FieldElementExpression>) -> (r: Vec<String>)
    ensures
        string_views(r@) == field_texts(views(es@)),
    decreases es,
{
    let mut out: Vec<String> = Vec::new();
    let mut i: usize = 0;
    while i < es.len()
        invariant
            i <= es.len(),
            out@.len() == i,
            forall|j: int| 0 <= j < i ==> (#[trigger] out@[j])@ == field_text(es@[j]@),
        decreases es.len() - i,
    {
        let part = field_to_string(&es[i]);
        out.push(part);
        i += 1;
    }
    proof {
        assert(string_views(out@) =~= field_texts(views(es@)));
    }
    out
}

/// Renders a typed expression.
pub fn typed_expression_to_string(e: &TypedExpression) -> (r: String)
    ensures
        r@ == typed_expression_text(e@),
    decreases e,
{
    match e {
        TypedExpression::Boolean(b) => boolean_to_string(b),
        TypedExpression::FieldElement(f) => field_to_string(f),
        TypedExpression::FieldElementArray(a) => array_to_string(a),
    }
}

/// Renders a field element expression.
pub fn field_to_string(e: &FieldElementExpression) -> (r: String)
    ensures
        r@ == field_text(e@),
    decreases e,
{
    match e {
        FieldElementExpression::Number(n) => n.to_dec_string(),
        FieldElementExpression::Identifier(name) => name.clone(),
        FieldElementExpression::Add(a, b) => bracketed_to_string(
            field_to_string(a),
            " + ",
            field_to_string(b),
        ),
        FieldElementExpression::Sub(a, b) => bracketed_to_string(
            field_to_string(a),
            " - ",
            field_to_string(b),
        ),
        FieldElementExpression::Mult(a, b) => bracketed_to_string(
            field_to_string(a),
            " * ",
            field_to_string(b),
        ),
        FieldElementExpression::Div(a, b) => bracketed_to_string(
            field_to_string(a),
            " / ",
            field_to_string(b),
        ),
        FieldElementExpression::Pow(a, b) => infix_to_string(
            field_to_string(a),
            "**",
            field_to_string(b),
        ),
        FieldElementExpression::IfElse(c, a, b) => if_else_to_string(
            boolean_to_string(c),
            field_to_string(a),
            field_to_string(b),
        ),
        FieldElementExpression::FunctionCall(name, arguments) => {
            let parts = typed_expressions_to_strings(arguments);
            proof {
                lemma_field_call_view(*name, *arguments);
            }
            call_to_string(name, &parts)
        },
        FieldElementExpression::Select(a, i) => select_to_string(
            array_to_string(a),
            field_to_string(i),
        ),
    }
}

/// Renders a boolean expression.
pub fn boolean_to_string(e: &BooleanExpression) -> (r: String)
    ensures
        r@ == boolean_text(e@),
    decreases e,
{
    match e {
        BooleanExpression::Identifier(name) => name.clone(),
        BooleanExpression::Value(b) => {
            if *b {
                String::from_str("true")
            } else {
                String::from_str("false")
            }
        },
        BooleanExpression::Lt(a, b) => infix_to_string(
            field_to_string(a),
            " < ",
            field_to_string(b),
        ),
        BooleanExpression::Le(a, b) => infix_to_string(
            field_to_string(a),
            " <= ",
            field_to_string(b),
        ),
        BooleanExpression::Eq(a, b) => infix_to_string(
            field_to_string(a),
            " == ",
            field_to_string(b),
        ),
        BooleanExpression::Ge(a, b) => infix_to_string(
            field_to_string(a),
            " >= ",
            field_to_string(b),
        ),
        BooleanExpression::Gt(a, b) => infix_to_string(
            field_to_string(a),
            " > ",
            field_to_string(b),
        ),
        BooleanExpression::Or(a, b) => infix_to_string(
            boolean_to_string(a),
            " || ",
            boolean_to_string(b),
        ),
        BooleanExpression::And(a, b) => infix_to_string(
            boolean_to_string(a),
            " && ",
            boolean_to_string(b),
        ),
        BooleanExpression::Not(a) => {
            let mut out = String::from_str("!");
            let inner = boolean_to_string(a);
            out.append(inner.as_str());
            out
        },
        BooleanExpression::IfElse(c, a, b) => if_else_to_string(
            boolean_to_string(c),
            boolean_to_string(a),
            boolean_to_string(b),
        ),
        BooleanExpression::FunctionCall(name, arguments) => {
            let parts = typed_expressions_to_strings(arguments);
            proof {
                lemma_boolean_call_view(*name, *arguments);
            }
            call_to_string(name, &parts)
        },
    }
}

/// Renders an array expression.
pub fn array_to_string(e: &FieldElementArrayExpression) -> (r: String)
    ensures
        r@ == array_text(e@),
    decreases e,
{
    match e {
        FieldElementArrayExpression::Identifier(_, name) => name.clone(),
        FieldElementArrayExpression::Value(size, values) => {
            let parts = field_expressions_to_strings(values);
            proof {
                lemma_array_value_view(*size, *values);
            }
            let mut out = String::from_str("[");
            append_joined(&mut out, &parts, ", ");
            out.append("]");
            out
        },
        FieldElementArrayExpression::FunctionCall(size, name, arguments) => {
            let parts = typed_expressions_to_strings(arguments);
            proof {
                lemma_array_call_view(*size, *name, *arguments);
            }
            call_to_string(name, &parts)
        },
        FieldElementArrayExpression::IfElse(c, a, b) => if_else_to_string(
            boolean_to_string(c),
            array_to_string(a),
            array_to_string(b),
        ),
    }
}

/// Renders a checked left-hand side.
pub fn typed_assignee_to_string(a: &TypedAssignee) -> (r: String)
    ensures
        r@ == typed_assignee_text(a@),
    decreases a,
{
    match a {
        TypedAssignee::Identifier(v) => v.id.clone(),
        TypedAssignee::ArrayElement(base, index) => select_to_string(
            typed_assignee_to_string(base),
            field_to_string(index),
        ),
    }
}

impl TypedExpression {
    /// Renders the expression.
    pub fn to_string(&self) -> (r: String)
        ensures
            r@ == typed_expression_text(self@),
    {
        typed_expression_to_string(self)
    }
}

impl FieldElementExpression {
    /// Renders the expression.
    pub fn to_string(&self) -> (r: String)
        ensures
            r@ == field_text(self@),
    {
        field_to_string(self)
    }
}

impl BooleanExpression {
    /// Renders the expression.
    pub fn to_string(&self) -> (r: String)
        ensures
            r@ == boolean_text(self@),
    {
        boolean_to_string(self)
    }
}

impl FieldElementArrayExpression {
    /// Renders the expression.
    pub fn to_string(&self) -> (r: String)
        ensures
            r@ == array_text(self@),
    {
        array_to_string(self)
    }
}

impl TypedAssignee {
    /// Renders the left-hand side.
    pub fn to_string(&self) -> (r: String)
        ensures
            r@ == typed_assignee_text(self@),
    {
        typed_assignee_to_string(self)
    }
}

} // verus!
