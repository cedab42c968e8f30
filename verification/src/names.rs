//! What holds of the names in what the checker accepts: each is bound in
//! the scope in which it was checked, to the type of the place where it
//! stands, and stays so when the scopes are walked again over the checked
//! statements.

use vstd::prelude::*;
use crate::absy::{
    AssigneeView, ExpressionView, FunctionView, NodeView, RangeOrExpressionView,
    SpreadOrExpressionView, StatementView,
};
use crate::position::Position;
use crate::rules::{
    argument_variables, as_typed, bound_type, checked_assignee, checked_block, checked_body,
    checked_each, checked_expression, checked_expressions, checked_function, checked_item,
    checked_statement, collect, element_of, elements_of, expanded_items, lemma_collect_values,
    range_from, range_to, selections, CheckerView, ScopedVariableView,
};
use crate::typed_absy::{
    BooleanExpressionView, FieldElementArrayExpressionView, FieldElementExpressionView,
    TypedAssigneeView, TypedExpressionListView, TypedExpressionView, TypedStatementView,
};
use crate::types::Type;

verus! {

/// Whether each name in a typed expression is bound to the type of the
/// place where it stands.
pub open spec fn names_bound(scope: Seq<ScopedVariableView>, t: TypedExpressionView) -> bool
    decreases t,
{
    match t {
        TypedExpressionView::Boolean(b) => boolean_names_bound(scope, b),
        TypedExpressionView::FieldElement(f) => field_names_bound(scope, f),
        TypedExpressionView::FieldElementArray(a) => array_names_bound(scope, a),
    }
}

/// Whether each name in each of the typed expressions is bound to the type
/// of the place where it stands.
pub open spec fn all_names_bound(scope: Seq<ScopedVariableView>, ts: Seq<TypedExpressionView>)
    -> bool
    decreases ts,
{
    forall|i: int| 0 <= i < ts.len() ==> names_bound(scope, #[trigger] ts[i])
}

/// Whether each name in each of the field element expressions is bound to
/// the type of the place where it stands.
pub open spec fn all_field_names_bound(
    scope: Seq<ScopedVariableView>,
    es: Seq<FieldElementExpressionView>,
) -> bool
    decreases es,
{
    forall|i: int| 0 <= i < es.len() ==> field_names_bound(scope, #[trigger] es[i])
}

/// Whether each name in a field element expression is bound to the type of
/// the place where it stands.
pub open spec fn field_names_bound(scope: Seq<ScopedVariableView>, e: FieldElementExpressionView)
    -> bool
    decreases e,
{
    match e {
        FieldElementExpressionView::Number(_) => true,
        FieldElementExpressionView::Identifier(name) => bound_type(scope, name) == Some(
            Type::FieldElement,
        ),
        FieldElementExpressionView::Add(a, b) => field_names_bound(scope, *a)
            && field_names_bound(scope, *b),
        FieldElementExpressionView::Sub(a, b) => field_names_bound(scope, *a)
            && field_names_bound(scope, *b),
        FieldElementExpressionView::Mult(a, b) => field_names_bound(scope, *a)
            && field_names_bound(scope, *b),
        FieldElementExpressionView::Div(a, b) => field_names_bound(scope, *a)
            && field_names_bound(scope, *b),
        FieldElementExpressionView::Pow(a, b) => field_names_bound(scope, *a)
            && field_names_bound(scope, *b),
        FieldElementExpressionView::IfElse(c, a, b) => boolean_names_bound(scope, *c)
            && field_names_bound(scope, *a) && field_names_bound(scope, *b),
        FieldElementExpressionView::FunctionCall(_, arguments) => all_names_bound(scope, arguments),
        FieldElementExpressionView::Select(a, i) => array_names_bound(scope, *a)
            && field_names_bound(scope, *i),
    }
}

/// Whether each name in a boolean expression is bound to the type of the
/// place where it stands.
pub open spec fn boolean_names_bound(scope: Seq<ScopedVariableView>, e: BooleanExpressionView)
    -> bool
    decreases e,
{
    match e {
        BooleanExpressionView::Identifier(name) => bound_type(scope, name) == Some(Type::Boolean),
        BooleanExpressionView::Value(_) => true,
        BooleanExpressionView::Lt(a, b) => field_names_bound(scope, *a) && field_names_bound(
            scope,
            *b,
        ),
        BooleanExpressionView::Le(a, b) => field_names_bound(scope, *a) && field_names_bound(
            scope,
            *b,
        ),
        BooleanExpressionView::Eq(a, b) => field_names_bound(scope, *a) && field_names_bound(
            scope,
            *b,
        ),
        BooleanExpressionView::Ge(a, b) => field_names_bound(scope, *a) && field_names_bound(
            scope,
            *b,
        ),
        BooleanExpressionView::Gt(a, b) => field_names_bound(scope, *a) && field_names_bound(
            scope,
            *b,
        ),
        BooleanExpressionView::Or(a, b) => boolean_names_bound(scope, *a) && boolean_names_bound(
            scope,
            *b,
        ),
        BooleanExpressionView::And(a, b) => boolean_names_bound(scope, *a) && boolean_names_bound(
            scope,
            *b,
        ),
        BooleanExpressionView::Not(a) => boolean_names_bound(scope, *a),
        BooleanExpressionView::IfElse(c, a, b) => boolean_names_bound(scope, *c)
            && boolean_names_bound(scope, *a) && boolean_names_bound(scope, *b),
        BooleanExpressionView::FunctionCall(_, arguments) => all_names_bound(scope, arguments),
    }
}

/// Whether each name in an array expression is bound to the type of the
/// place where it stands.
pub open spec fn array_names_bound(
    scope: Seq<ScopedVariableView>,
    e: FieldElementArrayExpressionView,
) -> bool
    decreases e,
{
    match e {
        FieldElementArrayExpressionView::Identifier(size, name) => bound_type(scope, name) == Some(
            Type::FieldElementArray(size),
        ),
        FieldElementArrayExpressionView::Value(_, values) => all_field_names_bound(scope, values),
        FieldElementArrayExpressionView::FunctionCall(_, _, arguments) => all_names_bound(
            scope,
            arguments,
        ),
        FieldElementArrayExpressionView::IfElse(c, a, b) => boolean_names_bound(scope, *c)
            && array_names_bound(scope, *a) && array_names_bound(scope, *b),
    }
}

/// Whether each name in a checked left-hand side is bound: the name that is
/// assigned to, to its type, and each name in an index, to the type of the
/// place where it stands.
pub open spec fn assignee_names_bound(scope: Seq<ScopedVariableView>, a: TypedAssigneeView) -> bool
    decreases a,
{
    match a {
        TypedAssigneeView::Identifier(v) => bound_type(scope, v.id) == Some(v.ty),
        TypedAssigneeView::ArrayElement(base, index) => assignee_names_bound(scope, *base)
            && field_names_bound(scope, *index),
    }
}

/// The selections from an array whose names are bound have their names
/// bound.
proof fn lemma_selections_bound(
    scope: Seq<ScopedVariableView>,
    array: FieldElementArrayExpressionView,
    from: nat,
    count: nat,
)
    requires
        array_names_bound(scope, array),
    ensures
        all_field_names_bound(scope, selections(array, from, count)),
        all_names_bound(scope, as_typed(selections(array, from, count))),
{
    let fields = selections(array, from, count);
    assert forall|i: int| 0 <= i < fields.len() implies field_names_bound(
        scope,
        #[trigger] fields[i],
    ) by {
        assert(field_names_bound(
            scope,
            FieldElementExpressionView::Number((from + i) as nat),
        ));
    }
    assert forall|i: int| 0 <= i < as_typed(fields).len() implies names_bound(
        scope,
        #[trigger] as_typed(fields)[i],
    ) by {
        assert(field_names_bound(scope, fields[i]));
    }
}

/// The elements of an inline array whose names are bound have their names
/// bound.
proof fn lemma_elements_bound(
    scope: Seq<ScopedVariableView>,
    es: Seq<TypedExpressionView>,
    pos: (Position, Position),
)
    requires
        all_names_bound(scope, es),
    ensures
        collect(elements_of(es, pos)) matches Ok(fields) ==> all_field_names_bound(scope, fields),
{
    lemma_collect_values(elements_of(es, pos));
    match collect(elements_of(es, pos)) {
        Ok(fields) => {
            assert forall|i: int| 0 <= i < fields.len() implies field_names_bound(
                scope,
                #[trigger] fields[i],
            ) by {
                assert(elements_of(es, pos)[i] == element_of(es[i], pos));
                assert(names_bound(scope, es[i]));
            }
        },
        Err(_) => {},
    }
}

/// In the typed form of an expression, each name is bound, in the scope in
/// which the expression was checked, to the type of the place where it
/// stands.
pub proof fn law_checked_names_are_bound(c: CheckerView, e: NodeView<ExpressionView>)
    ensures
        checked_expression(c, e) matches Ok(t) ==> names_bound(c.scope, t),
    decreases e, 1nat,
{
    match e.value {
        ExpressionView::FieldConstant(_) => {},
        ExpressionView::BooleanConstant(_) => {},
        ExpressionView::Identifier(_) => {},
        ExpressionView::Add(_, _) => lemma_bound_in_arithmetic(c, e),
        ExpressionView::Sub(_, _) => lemma_bound_in_arithmetic(c, e),
        ExpressionView::Mult(_, _) => lemma_bound_in_arithmetic(c, e),
        ExpressionView::Div(_, _) => lemma_bound_in_arithmetic(c, e),
        ExpressionView::Pow(_, _) => lemma_bound_in_arithmetic(c, e),
        ExpressionView::Lt(_, _) => lemma_bound_in_comparison(c, e),
        ExpressionView::Le(_, _) => lemma_bound_in_comparison(c, e),
        ExpressionView::Eq(_, _) => lemma_bound_in_comparison(c, e),
        ExpressionView::Ge(_, _) => lemma_bound_in_comparison(c, e),
        ExpressionView::Gt(_, _) => lemma_bound_in_comparison(c, e),
        ExpressionView::And(_, _) => lemma_bound_in_logical(c, e),
        ExpressionView::Or(_, _) => lemma_bound_in_logical(c, e),
        ExpressionView::Not(_) => lemma_bound_in_logical(c, e),
        ExpressionView::IfElse(_, _, _) => lemma_bound_in_conditional(c, e),
        ExpressionView::FunctionCall(_, _) => lemma_bound_in_call(c, e),
        ExpressionView::InlineArray(_) => lemma_bound_in_inline_array(c, e),
        ExpressionView::Select(_, _) => lemma_bound_in_select(c, e),
    }
}

/// The names in the typed form of an arithmetic operation are bound.
proof fn lemma_bound_in_arithmetic(c: CheckerView, e: NodeView<ExpressionView>)
    requires
        e.value is Add || e.value is Sub || e.value is Mult || e.value is Div || e.value is Pow,
    ensures
        checked_expression(c, e) matches Ok(t) ==> names_bound(c.scope, t),
    decreases e, 0nat,
{
    match e.value {
        ExpressionView::Add(a, b) => {
            law_checked_names_are_bound(c, *a);
            law_checked_names_are_bound(c, *b);
        },
        ExpressionView::Sub(a, b) => {
            law_checked_names_are_bound(c, *a);
            law_checked_names_are_bound(c, *b);
        },
        ExpressionView::Mult(a, b) => {
            law_checked_names_are_bound(c, *a);
            law_checked_names_are_bound(c, *b);
        },
        ExpressionView::Div(a, b) => {
            law_checked_names_are_bound(c, *a);
            law_checked_names_are_bound(c, *b);
        },
        ExpressionView::Pow(a, b) => {
            law_checked_names_are_bound(c, *a);
            law_checked_names_are_bound(c, *b);
        },
        _ => {},
    }
}

/// The names in the typed form of a comparison are bound.
proof fn lemma_bound_in_comparison(c: CheckerView, e: NodeView<ExpressionView>)
    requires
        e.value is Lt || e.value is Le || e.value is Eq || e.value is Ge || e.value is Gt,
    ensures
        checked_expression(c, e) matches Ok(t) ==> names_bound(c.scope, t),
    decreases e, 0nat,
{
    match e.value {
        ExpressionView::Lt(a, b) => {
            law_checked_names_are_bound(c, *a);
            law_checked_names_are_bound(c, *b);
        },
        ExpressionView::Le(a, b) => {
            law_checked_names_are_bound(c, *a);
            law_checked_names_are_bound(c, *b);
        },
        ExpressionView::Eq(a, b) => {
            law_checked_names_are_bound(c, *a);
            law_checked_names_are_bound(c, *b);
        },
        ExpressionView::Ge(a, b) => {
            law_checked_names_are_bound(c, *a);
            law_checked_names_are_bound(c, *b);
        },
        ExpressionView::Gt(a, b) => {
            law_checked_names_are_bound(c, *a);
            law_checked_names_are_bound(c, *b);
        },
        _ => {},
    }
}

/// The names in the typed form of a conjunction, a disjunction or a
/// negation are bound.
proof fn lemma_bound_in_logical(c: CheckerView, e: NodeView<ExpressionView>)
    requires
        e.value is And || e.value is Or || e.value is Not,
    ensures
        checked_expression(c, e) matches Ok(t) ==> names_bound(c.scope, t),
    decreases e, 0nat,
{
    match e.value {
        ExpressionView::And(a, b) => {
            law_checked_names_are_bound(c, *a);
            law_checked_names_are_bound(c, *b);
        },
        ExpressionView::Or(a, b) => {
            law_checked_names_are_bound(c, *a);
            law_checked_names_are_bound(c, *b);
        },
        ExpressionView::Not(a) => {
            law_checked_names_are_bound(c, *a);
        },
        _ => {},
    }
}

/// The names in the typed form of a conditional are bound.
proof fn lemma_bound_in_conditional(c: CheckerView, e: NodeView<ExpressionView>)
    requires
        e.value is IfElse,
    ensures
        checked_expression(c, e) matches Ok(t) ==> names_bound(c.scope, t),
    decreases e, 0nat,
{
    match e.value {
        ExpressionView::IfElse(condition, a, b) => {
            law_checked_names_are_bound(c, *condition);
            law_checked_names_are_bound(c, *a);
            law_checked_names_are_bound(c, *b);
        },
        _ => {},
    }
}

/// The names in the typed form of a call are bound.
proof fn lemma_bound_in_call(c: CheckerView, e: NodeView<ExpressionView>)
    requires
        e.value is FunctionCall,
    ensures
        checked_expression(c, e) matches Ok(t) ==> names_bound(c.scope, t),
    decreases e, 0nat,
{
    match e.value {
        ExpressionView::FunctionCall(_, arguments) => {
            let results = checked_each(c, arguments);
            lemma_collect_values(results);
            match collect(results) {
                Ok(typed) => {
                    assert forall|i: int| 0 <= i < typed.len() implies names_bound(
                        c.scope,
                        #[trigger] typed[i],
                    ) by {
                        law_checked_names_are_bound(c, arguments[i]);
                        assert(results[i] == checked_expression(c, arguments[i]));
                    }
                    assert(all_names_bound(c.scope, typed));
                },
                Err(_) => {},
            }
        },
        _ => {},
    }
}

/// The names in the typed forms of the elements of an inline array are
/// bound.
proof fn lemma_bound_in_items(c: CheckerView, items: Seq<SpreadOrExpressionView>)
    ensures
        expanded_items(c, items) matches Ok(es) ==> all_names_bound(c.scope, es),
    decreases items, 0nat,
{
    if items.len() > 0 {
        lemma_bound_in_items(c, items.drop_last());
        match items.last() {
            SpreadOrExpressionView::Spread(s) => {
                law_checked_names_are_bound(c, s.value.expression);
                match checked_expression(c, s.value.expression) {
                    Ok(TypedExpressionView::FieldElementArray(array)) => {
                        lemma_selections_bound(c.scope, array, 0, array.size() as nat);
                    },
                    _ => {},
                }
            },
            SpreadOrExpressionView::Expression(inner) => {
                law_checked_names_are_bound(c, inner);
            },
        }
        match expanded_items(c, items) {
            Ok(es) => {
                let before = expanded_items(c, items.drop_last())->Ok_0;
                let group = checked_item(c, items.last())->Ok_0;
                assert(all_names_bound(c.scope, group));
                assert forall|i: int| 0 <= i < es.len() implies names_bound(
                    c.scope,
                    #[trigger] es[i],
                ) by {
                    if i < before.len() {
                        assert(es[i] == before[i]);
                    } else {
                        assert(es[i] == group[i - before.len()]);
                    }
                }
            },
            Err(_) => {},
        }
    }
}

/// The names in the typed form of an inline array are bound.
proof fn lemma_bound_in_inline_array(c: CheckerView, e: NodeView<ExpressionView>)
    requires
        e.value is InlineArray,
    ensures
        checked_expression(c, e) matches Ok(t) ==> names_bound(c.scope, t),
    decreases e, 0nat,
{
    match e.value {
        ExpressionView::InlineArray(items) => {
            lemma_bound_in_items(c, items);
            match expanded_items(c, items) {
                Ok(es) => {
                    lemma_elements_bound(c.scope, es, e.pos());
                    assert(all_field_names_bound(
                        c.scope,
                        Seq::<FieldElementExpressionView>::empty(),
                    ));
                },
                Err(_) => {},
            }
        },
        _ => {},
    }
}

/// The names in the typed form of a selection are bound.
proof fn lemma_bound_in_select(c: CheckerView, e: NodeView<ExpressionView>)
    requires
        e.value is Select,
    ensures
        checked_expression(c, e) matches Ok(t) ==> names_bound(c.scope, t),
    decreases e, 0nat,
{
    match e.value {
        ExpressionView::Select(a, index) => {
            law_checked_names_are_bound(c, *a);
            match *index {
                RangeOrExpressionView::Range(r) => {
                    match checked_expression(c, *a) {
                        Ok(TypedExpressionView::FieldElementArray(array)) => {
                            let from = range_from(r.value);
                            let to = range_to(r.value, array.size() as nat);
                            if from <= to {
                                lemma_selections_bound(c.scope, array, from, (to - from) as nat);
                            }
                        },
                        _ => {},
                    }
                },
                RangeOrExpressionView::Expression(i) => {
                    law_checked_names_are_bound(c, i);
                },
            }
        },
        _ => {},
    }
}

/// In the checked form of a left-hand side, each name is bound in the
/// scope in which the left-hand side was checked.
pub proof fn law_checked_assignee_is_bound(c: CheckerView, a: NodeView<AssigneeView>)
    ensures
        checked_assignee(c, a) matches Ok(t) ==> assignee_names_bound(c.scope, t),
    decreases a,
{
    match a.value {
        AssigneeView::Identifier(_) => {},
        AssigneeView::ArrayElement(base, index) => {
            law_checked_assignee_is_bound(c, *base);
            match *index {
                RangeOrExpressionView::Range(_) => {},
                RangeOrExpressionView::Expression(i) => {
                    law_checked_names_are_bound(c, i);
                },
            }
        },
    }
}

/// In the typed forms of a sequence of expressions, each name is bound in
/// the scope in which the expressions were checked.
pub proof fn law_checked_expressions_are_bound(c: CheckerView, es: Seq<NodeView<ExpressionView>>)
    ensures
        checked_expressions(c, es) matches Ok(typed) ==> all_names_bound(c.scope, typed),
{
    let results = checked_each(c, es);
    lemma_collect_values(results);
    match collect(results) {
        Ok(typed) => {
            assert forall|i: int| 0 <= i < typed.len() implies names_bound(
                c.scope,
                #[trigger] typed[i],
            ) by {
                law_checked_names_are_bound(c, es[i]);
                assert(results[i] == checked_expression(c, es[i]));
            }
        },
        Err(_) => {},
    }
}

/// The checker that a checked statement leaves behind, when the scopes are
/// walked again over the checked statement alone: a declaration and a
/// definition of several values bind their names, and a loop binds its
/// variable and what its body binds in a scope of its own.
pub open spec fn walked(c: CheckerView, t: TypedStatementView) -> CheckerView
    decreases t,
{
    match t {
        TypedStatementView::Declaration(v) => c.insert(v),
        TypedStatementView::MultipleDefinition(vs, _) => c.insert_all(vs),
        TypedStatementView::For(v, _, _, body) => walked_all(c.enter().insert(v), body).exit(),
        _ => c,
    }
}

/// The checker that checked statements leave behind, when the scopes are
/// walked again over them.
pub open spec fn walked_all(c: CheckerView, ts: Seq<TypedStatementView>) -> CheckerView
    decreases ts,
{
    if ts.len() == 0 {
        c
    } else {
        walked(walked_all(c, ts.drop_last()), ts.last())
    }
}

/// Whether each name in a checked statement is bound where it stands, when
/// the scopes are walked again from a checker.
pub open spec fn statement_names_bound(c: CheckerView, t: TypedStatementView) -> bool
    decreases t,
{
    match t {
        TypedStatementView::Return(es) => all_names_bound(c.scope, es),
        TypedStatementView::Definition(a, e) => assignee_names_bound(c.scope, a) && names_bound(
            c.scope,
            e,
        ),
        TypedStatementView::Declaration(_) => true,
        TypedStatementView::Condition(l, r) => names_bound(c.scope, l) && names_bound(c.scope, r),
        TypedStatementView::For(v, _, _, body) => statements_names_bound(
            c.enter().insert(v),
            body,
        ),
        TypedStatementView::MultipleDefinition(_, call) => match call {
            TypedExpressionListView::FunctionCall(_, arguments, _) => all_names_bound(
                c.scope,
                arguments,
            ),
        },
    }
}

/// Whether each name in checked statements is bound where it stands, when
/// the scopes are walked again from a checker.
pub open spec fn statements_names_bound(c: CheckerView, ts: Seq<TypedStatementView>) -> bool
    decreases ts,
{
    if ts.len() == 0 {
        true
    } else {
        statements_names_bound(c, ts.drop_last()) && statement_names_bound(
            walked_all(c, ts.drop_last()),
            ts.last(),
        )
    }
}

/// In a checked statement, each name is bound where it stands when the
/// scopes are walked again, and the walk leaves the checker as the check
/// did.
pub proof fn law_checked_statement_is_bound(
    c: CheckerView,
    s: NodeView<StatementView>,
    outputs: Seq<Type>,
)
    ensures
        checked_statement(c, s, outputs).1 matches Ok(t) ==> statement_names_bound(c, t)
            && walked(c, t) == checked_statement(c, s, outputs).0,
    decreases s,
{
    match s.value {
        StatementView::Return(list) => {
            law_checked_expressions_are_bound(c, list.value.expressions);
        },
        StatementView::Declaration(_) => {},
        StatementView::Definition(a, e) => {
            law_checked_names_are_bound(c, e);
            law_checked_assignee_is_bound(c, a);
        },
        StatementView::Condition(l, r) => {
            law_checked_names_are_bound(c, l);
            law_checked_names_are_bound(c, r);
        },
        StatementView::For(v, _, _, body) => {
            law_checked_block_is_bound(c.enter().insert(v.value), body, outputs);
        },
        StatementView::MultipleDefinition(_, rhs) => {
            match rhs.value {
                ExpressionView::FunctionCall(_, arguments) => {
                    law_checked_expressions_are_bound(c, arguments);
                },
                _ => {},
            }
        },
    }
}

/// In the checked body of a loop, each name is bound where it stands when
/// the scopes are walked again, and the walk leaves the checker as the
/// check did.
pub proof fn law_checked_block_is_bound(
    c: CheckerView,
    statements: Seq<NodeView<StatementView>>,
    outputs: Seq<Type>,
)
    ensures
        checked_block(c, statements, outputs).1 matches Ok(ts) ==> statements_names_bound(c, ts)
            && walked_all(c, ts) == checked_block(c, statements, outputs).0,
    decreases statements,
{
    if statements.len() > 0 {
        law_checked_block_is_bound(c, statements.drop_last(), outputs);
        match checked_block(c, statements.drop_last(), outputs).1 {
            Ok(before) => {
                let state = checked_block(c, statements.drop_last(), outputs).0;
                law_checked_statement_is_bound(state, statements.last(), outputs);
                match checked_statement(state, statements.last(), outputs).1 {
                    Ok(t) => {
                        assert(before.push(t).drop_last() =~= before);
                    },
                    Err(_) => {},
                }
            },
            Err(_) => {},
        }
    }
}

/// In the checked statements of a body that had no error, each name is
/// bound where it stands when the scopes are walked again, and the walk
/// leaves the checker as the check did.
pub proof fn law_checked_body_is_bound(
    c: CheckerView,
    statements: Seq<NodeView<StatementView>>,
    outputs: Seq<Type>,
)
    requires
        checked_body(c, statements, outputs).2.len() == 0,
    ensures
        statements_names_bound(c, checked_body(c, statements, outputs).1),
        walked_all(c, checked_body(c, statements, outputs).1) == checked_body(
            c,
            statements,
            outputs,
        ).0,
    decreases statements.len(),
{
    if statements.len() > 0 {
        let before = checked_body(c, statements.drop_last(), outputs);
        law_checked_body_is_bound(c, statements.drop_last(), outputs);
        law_checked_statement_is_bound(before.0, statements.last(), outputs);
        match checked_statement(before.0, statements.last(), outputs).1 {
            Ok(t) => {
                assert(before.1.push(t).drop_last() =~= before.1);
            },
            Err(_) => {},
        }
    }
}

/// In a function that is checked without error, each name is bound where it
/// stands, when the scopes are walked again from the checker in which the
/// arguments are bound.
pub proof fn law_checked_function_is_bound(c: CheckerView, f: NodeView<FunctionView>)
    requires
        checked_function(c, f).1 is Ok,
    ensures
        statements_names_bound(
            c.insert_all(argument_variables(f.value.arguments)),
            checked_function(c, f).1->Ok_0.statements,
        ),
{
    law_checked_body_is_bound(
        c.insert_all(argument_variables(f.value.arguments)),
        f.value.statements,
        f.value.signature.outputs,
    );
}

} // verus!
