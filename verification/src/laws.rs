//! What holds of the rules of the checker, whatever the program.

use vstd::prelude::*;
use crate::absy::{
    ExpressionView, FunctionView, NodeView, ProgView, RangeOrExpressionView, RangeView,
    SpreadOrExpressionView, StatementView, VariableView,
};
use crate::messages::{duplicate_definition_text, many_mains_text};
use crate::rules::{
    answers, argument_variables, candidates, checked_block, checked_body, checked_each,
    checked_expression, checked_function, checked_functions, checked_item, checked_program,
    checked_statement, declared, duplicate_errors, if_else_of, is_main, lemma_collect_any_error,
    lemma_expanded_any_error, lookup, main_count, own_query, range_from, range_to, return_of,
    select_range_of, typed_call, typed_identifier, CheckerView, ErrorView,
    FunctionDeclarationView, FunctionQueryView, ScopedVariableView,
};
use crate::semantics::lemma_exit_keeps_prefix;
use crate::position::Position;
use crate::typed_absy::{
    expression_types, FieldElementArrayExpressionView, TypedExpressionView, TypedStatementView,
};
use crate::types::Type;

verus! {

/// Whether no binding was made above the current level.
pub open spec fn levels_bounded(c: CheckerView) -> bool {
    forall|j: int| 0 <= j < c.scope.len() ==> (#[trigger] c.scope[j]).level <= c.level
}

/// Whether no name is bound twice.
pub open spec fn names_distinct(scope: Seq<ScopedVariableView>) -> bool {
    forall|i: int, j: int|
        0 <= i < j < scope.len() ==> (#[trigger] scope[i]).id.id != (#[trigger] scope[j]).id.id
}

/// Whether one checker comes from another by bindings at the current level
/// only: the level and the functions are the same, the bindings of the
/// first are the first bindings of the second, and the others are bindings
/// of the current level.
pub open spec fn extends(before: CheckerView, after: CheckerView) -> bool {
    &&& after.level == before.level
    &&& after.functions == before.functions
    &&& before.scope.len() <= after.scope.len()
    &&& forall|j: int| 0 <= j < before.scope.len() ==> #[trigger] after.scope[j] == before.scope[j]
    &&& forall|j: int|
        before.scope.len() <= j < after.scope.len() ==> (#[trigger] after.scope[j]).level
            == before.level
}

/// A name that was offered to the scope is bound: to the variable that was
/// offered, at the current level, if it was not bound before.
pub proof fn law_lookup_after_insert(c: CheckerView, v: VariableView)
    ensures
        lookup(c.insert(v).scope, v.id) is Some,
        lookup(c.scope, v.id) is None ==> lookup(c.insert(v).scope, v.id) == Some(
            ScopedVariableView { id: v, level: c.level },
        ),
        lookup(c.scope, v.id) is Some ==> c.insert(v) == c,
{
    if lookup(c.scope, v.id) is None {
        lemma_lookup_push(c.scope, ScopedVariableView { id: v, level: c.level }, v.id);
    }
}

/// Looking a name up behind one more binding: the binding is found where
/// the name was not bound and is its name; else nothing changes.
pub proof fn lemma_lookup_push(
    scope: Seq<ScopedVariableView>,
    binding: ScopedVariableView,
    name: Seq<char>,
)
    ensures
        lookup(scope.push(binding), name) == if lookup(scope, name) is Some {
            lookup(scope, name)
        } else if binding.id.id == name {
            Some(binding)
        } else {
            None
        },
    decreases scope.len(),
{
    if scope.len() == 0 {
        assert(scope.push(binding).drop_first() =~= scope);
    } else {
        assert(scope.push(binding).drop_first() =~= scope.drop_first().push(binding));
        lemma_lookup_push(scope.drop_first(), binding, name);
    }
}

/// To offer a variable to the scope changes the binding of no other name.
pub proof fn law_insert_keeps_other_bindings(c: CheckerView, v: VariableView, name: Seq<char>)
    requires
        name != v.id,
    ensures
        lookup(c.insert(v).scope, name) == lookup(c.scope, name),
{
    lemma_lookup_push(c.scope, ScopedVariableView { id: v, level: c.level }, name);
}

/// To offer a variable to the scope extends the checker.
pub proof fn lemma_insert_extends(c: CheckerView, v: VariableView)
    ensures
        extends(c, c.insert(v)),
        levels_bounded(c) ==> levels_bounded(c.insert(v)),
{
}

/// To extend a checker twice is to extend it.
pub proof fn lemma_extends_twice(a: CheckerView, b: CheckerView, c: CheckerView)
    requires
        extends(a, b),
        extends(b, c),
    ensures
        extends(a, c),
{
    assert forall|j: int| 0 <= j < a.scope.len() implies #[trigger] c.scope[j] == a.scope[j] by {
        assert(c.scope[j] == b.scope[j]);
    }
    assert forall|j: int| a.scope.len() <= j < c.scope.len() implies (#[trigger] c.scope[j]).level
        == a.level by {
        if j < b.scope.len() {
            assert(c.scope[j] == b.scope[j]);
        }
    }
}

/// To offer variables to the scope extends the checker.
pub proof fn lemma_insert_all_extends(c: CheckerView, vs: Seq<VariableView>)
    ensures
        extends(c, c.insert_all(vs)),
        levels_bounded(c) ==> levels_bounded(c.insert_all(vs)),
    decreases vs.len(),
{
    if vs.len() > 0 {
        lemma_insert_all_extends(c, vs.drop_last());
        lemma_insert_extends(c.insert_all(vs.drop_last()), vs.last());
        lemma_extends_twice(c, c.insert_all(vs.drop_last()), c.insert_all(vs));
    }
}

/// To leave a scope that was entered, with whatever was bound in it, gives
/// the checker back as it was.
pub proof fn law_exit_drops_what_was_bound(before: CheckerView, inner: CheckerView)
    requires
        levels_bounded(before),
        extends(before.enter(), inner),
    ensures
        inner.exit() == before,
{
    let n = before.scope.len() as int;
    assert forall|j: int| 0 <= j < n implies (#[trigger] inner.scope[j]).level < inner.level by {
        assert(inner.scope[j] == before.enter().scope[j]);
        assert(before.scope[j].level <= before.level);
    }
    lemma_exit_keeps_prefix(inner.scope, n, inner.level);
    assert(inner.scope.take(n) =~= before.scope);
}

/// To enter a scope and leave it at once changes nothing.
pub proof fn law_exit_after_enter(c: CheckerView)
    requires
        levels_bounded(c),
    ensures
        c.enter().exit() == c,
{
    law_exit_drops_what_was_bound(c, c.enter());
}

/// A statement extends the checker: it binds names at the current level,
/// and changes neither the level nor the functions nor a binding that was
/// there.
pub proof fn law_statement_extends(
    c: CheckerView,
    s: NodeView<StatementView>,
    outputs: Seq<Type>,
)
    requires
        levels_bounded(c),
    ensures
        extends(c, checked_statement(c, s, outputs).0),
        levels_bounded(checked_statement(c, s, outputs).0),
    decreases s,
{
    match s.value {
        StatementView::Declaration(v) => {
            lemma_insert_extends(c, v.value);
        },
        StatementView::For(v, from, to, body) => {
            law_loop_leaves_no_binding(c, s, outputs);
        },
        StatementView::MultipleDefinition(assignees, rhs) => {
            let after = checked_statement(c, s, outputs).0;
            if after != c {
                let vs = choose|vs: Seq<VariableView>| after == c.insert_all(vs);
                lemma_insert_all_extends(c, vs);
            }
        },
        _ => {},
    }
}

/// The body of a loop extends the checker.
pub proof fn law_block_extends(
    c: CheckerView,
    statements: Seq<NodeView<StatementView>>,
    outputs: Seq<Type>,
)
    requires
        levels_bounded(c),
    ensures
        extends(c, checked_block(c, statements, outputs).0),
        levels_bounded(checked_block(c, statements, outputs).0),
    decreases statements,
{
    if statements.len() > 0 {
        law_block_extends(c, statements.drop_last(), outputs);
        let before = checked_block(c, statements.drop_last(), outputs).0;
        if checked_block(c, statements.drop_last(), outputs).1 is Ok {
            law_statement_extends(before, statements.last(), outputs);
            lemma_extends_twice(c, before, checked_block(c, statements, outputs).0);
        }
    }
}

/// A loop leaves the checker as it found it, whether its body is accepted
/// or not: what is bound in the loop is not bound behind it.
pub proof fn law_loop_leaves_no_binding(
    c: CheckerView,
    s: NodeView<StatementView>,
    outputs: Seq<Type>,
)
    requires
        levels_bounded(c),
        s.value is For,
    ensures
        checked_statement(c, s, outputs).0 == c,
    decreases s, 0nat,
{
    match s.value {
        StatementView::For(v, from, to, body) => {
            let entered = c.enter();
            let start = entered.insert(v.value);
            lemma_insert_extends(entered, v.value);
            law_block_extends(start, body, outputs);
            let inner = checked_block(start, body, outputs).0;
            lemma_extends_twice(entered, start, inner);
            law_exit_drops_what_was_bound(c, inner);
        },
        _ => {},
    }
}

/// Of the statements of a body, each gives a checked statement or an
/// error.
pub proof fn law_body_counts(
    c: CheckerView,
    statements: Seq<NodeView<StatementView>>,
    outputs: Seq<Type>,
)
    ensures
        checked_body(c, statements, outputs).1.len() + checked_body(c, statements, outputs).2.len()
            == statements.len(),
    decreases statements.len(),
{
    if statements.len() > 0 {
        law_body_counts(c, statements.drop_last(), outputs);
    }
}

/// A function that is checked without error has as many checked statements
/// as statements.
pub proof fn law_function_keeps_statement_count(c: CheckerView, f: NodeView<FunctionView>)
    requires
        checked_function(c, f).1 is Ok,
    ensures
        checked_function(c, f).1->Ok_0.statements.len() == f.value.statements.len(),
{
    law_body_counts(
        c.insert_all(argument_variables(f.value.arguments)),
        f.value.statements,
        f.value.signature.outputs,
    );
}

/// What the first `k` statements of a body give comes first in what the
/// whole body gives.
pub proof fn lemma_body_grows(
    c: CheckerView,
    statements: Seq<NodeView<StatementView>>,
    outputs: Seq<Type>,
    k: int,
)
    requires
        0 <= k <= statements.len(),
    ensures
        checked_body(c, statements.take(k), outputs).1.len() <= checked_body(
            c,
            statements,
            outputs,
        ).1.len(),
        checked_body(c, statements, outputs).1.take(
            checked_body(c, statements.take(k), outputs).1.len() as int,
        ) == checked_body(c, statements.take(k), outputs).1,
        checked_body(c, statements.take(k), outputs).2.len() <= checked_body(
            c,
            statements,
            outputs,
        ).2.len(),
    decreases statements.len() - k,
{
    if k < statements.len() {
        lemma_body_grows(c, statements, outputs, k + 1);
        assert(statements.take(k + 1).drop_last() =~= statements.take(k));
        let first = checked_body(c, statements.take(k), outputs);
        let next = checked_body(c, statements.take(k + 1), outputs);
        let all = checked_body(c, statements, outputs);
        assert(next.1.take(first.1.len() as int) =~= first.1);
        assert(all.1.take(first.1.len() as int) =~= all.1.take(next.1.len() as int).take(
            first.1.len() as int,
        ));
    } else {
        assert(statements.take(k) =~= statements);
        let all = checked_body(c, statements, outputs);
        assert(all.1.take(all.1.len() as int) =~= all.1);
    }
}

/// In a function that is checked without error, the checked statements
/// stand in the order of the statements: each is what the checker answers
/// for the statement at its place, after the statements before it.
pub proof fn law_function_keeps_statement_order(
    c: CheckerView,
    f: NodeView<FunctionView>,
    i: int,
)
    requires
        checked_function(c, f).1 is Ok,
        0 <= i < f.value.statements.len(),
    ensures
        checked_statement(
            checked_body(
                c.insert_all(argument_variables(f.value.arguments)),
                f.value.statements.take(i),
                f.value.signature.outputs,
            ).0,
            f.value.statements[i],
            f.value.signature.outputs,
        ).1 == Ok::<TypedStatementView, ErrorView>(
            checked_function(c, f).1->Ok_0.statements[i],
        ),
{
    let start = c.insert_all(argument_variables(f.value.arguments));
    let statements = f.value.statements;
    let outputs = f.value.signature.outputs;
    lemma_body_grows(start, statements, outputs, i);
    lemma_body_grows(start, statements, outputs, i + 1);
    law_body_counts(start, statements.take(i), outputs);
    law_body_counts(start, statements.take(i + 1), outputs);
    law_body_counts(start, statements, outputs);
    assert(statements.take(i + 1).drop_last() =~= statements.take(i));
    assert(statements.take(i + 1).last() == statements[i]);
    let next = checked_body(start, statements.take(i + 1), outputs);
    let all = checked_body(start, statements, outputs);
    assert(next.1.len() == i + 1);
    assert(all.1.take(i + 1)[i] == next.1[i]);
}

/// A program that is checked without error declares exactly one function
/// `main`.
pub proof fn law_checked_program_has_one_main(c: CheckerView, p: ProgView)
    requires
        checked_program(c, p).1 is Ok,
    ensures
        main_count(checked_program(c, p).0.functions) == 1,
{
}

/// Whether an expression mentions a name as an identifier, at any depth.
pub open spec fn mentions(e: NodeView<ExpressionView>, name: Seq<char>) -> bool
    decreases e,
{
    match e.value {
        ExpressionView::FieldConstant(_) => false,
        ExpressionView::BooleanConstant(_) => false,
        ExpressionView::Identifier(id) => id == name,
        ExpressionView::Add(a, b) => mentions(*a, name) || mentions(*b, name),
        ExpressionView::Sub(a, b) => mentions(*a, name) || mentions(*b, name),
        ExpressionView::Mult(a, b) => mentions(*a, name) || mentions(*b, name),
        ExpressionView::Div(a, b) => mentions(*a, name) || mentions(*b, name),
        ExpressionView::Pow(a, b) => mentions(*a, name) || mentions(*b, name),
        ExpressionView::IfElse(c, a, b) => mentions(*c, name) || mentions(*a, name) || mentions(
            *b,
            name,
        ),
        ExpressionView::FunctionCall(_, arguments) => exists|i: int|
            0 <= i < arguments.len() && mentions(#[trigger] arguments[i], name),
        ExpressionView::Lt(a, b) => mentions(*a, name) || mentions(*b, name),
        ExpressionView::Le(a, b) => mentions(*a, name) || mentions(*b, name),
        ExpressionView::Eq(a, b) => mentions(*a, name) || mentions(*b, name),
        ExpressionView::Ge(a, b) => mentions(*a, name) || mentions(*b, name),
        ExpressionView::Gt(a, b) => mentions(*a, name) || mentions(*b, name),
        ExpressionView::And(a, b) => mentions(*a, name) || mentions(*b, name),
        ExpressionView::Or(a, b) => mentions(*a, name) || mentions(*b, name),
        ExpressionView::Not(a) => mentions(*a, name),
        ExpressionView::InlineArray(items) => exists|i: int|
            0 <= i < items.len() && item_mentions(#[trigger] items[i], name),
        ExpressionView::Select(a, index) => mentions(*a, name) || match *index {
            RangeOrExpressionView::Range(_) => false,
            RangeOrExpressionView::Expression(i) => mentions(i, name),
        },
    }
}

/// Whether an element of an inline array mentions a name as an identifier.
pub open spec fn item_mentions(item: SpreadOrExpressionView, name: Seq<char>) -> bool
    decreases item,
{
    match item {
        SpreadOrExpressionView::Spread(s) => mentions(s.value.expression, name),
        SpreadOrExpressionView::Expression(e) => mentions(e, name),
    }
}

/// An expression that mentions a name that is not bound is refused.
pub proof fn law_unbound_identifier_is_refused(
    c: CheckerView,
    e: NodeView<ExpressionView>,
    name: Seq<char>,
)
    requires
        mentions(e, name),
        lookup(c.scope, name) is None,
    ensures
        checked_expression(c, e) is Err,
    decreases e, 1nat,
{
    match e.value {
        ExpressionView::FieldConstant(_) => {},
        ExpressionView::BooleanConstant(_) => {},
        ExpressionView::Identifier(_) => {},
        ExpressionView::Add(_, _) => lemma_unbound_in_arithmetic(c, e, name),
        ExpressionView::Sub(_, _) => lemma_unbound_in_arithmetic(c, e, name),
        ExpressionView::Mult(_, _) => lemma_unbound_in_arithmetic(c, e, name),
        ExpressionView::Div(_, _) => lemma_unbound_in_arithmetic(c, e, name),
        ExpressionView::Pow(_, _) => lemma_unbound_in_arithmetic(c, e, name),
        ExpressionView::Lt(_, _) => lemma_unbound_in_comparison(c, e, name),
        ExpressionView::Le(_, _) => lemma_unbound_in_comparison(c, e, name),
        ExpressionView::Eq(_, _) => lemma_unbound_in_comparison(c, e, name),
        ExpressionView::Ge(_, _) => lemma_unbound_in_comparison(c, e, name),
        ExpressionView::Gt(_, _) => lemma_unbound_in_comparison(c, e, name),
        ExpressionView::And(_, _) => lemma_unbound_in_logical(c, e, name),
        ExpressionView::Or(_, _) => lemma_unbound_in_logical(c, e, name),
        ExpressionView::Not(_) => lemma_unbound_in_logical(c, e, name),
        ExpressionView::IfElse(_, _, _) => lemma_unbound_in_logical(c, e, name),
        ExpressionView::FunctionCall(_, _) => lemma_unbound_in_call(c, e, name),
        ExpressionView::InlineArray(_) => lemma_unbound_in_inline_array(c, e, name),
        ExpressionView::Select(_, _) => lemma_unbound_in_select(c, e, name),
    }
}

/// An arithmetic operation that mentions a name that is not bound is refused.
proof fn lemma_unbound_in_arithmetic(c: CheckerView, e: NodeView<ExpressionView>, name: Seq<char>)
    requires
        mentions(e, name),
        lookup(c.scope, name) is None,
        e.value is Add || e.value is Sub || e.value is Mult || e.value is Div || e.value is Pow,
    ensures
        checked_expression(c, e) is Err,
    decreases e, 0nat,
{
    match e.value {
        ExpressionView::Add(a, b) => {
            if mentions(*a, name) {
                law_unbound_identifier_is_refused(c, *a, name);
            } else {
                law_unbound_identifier_is_refused(c, *b, name);
            }
        },
        ExpressionView::Sub(a, b) => {
            if mentions(*a, name) {
                law_unbound_identifier_is_refused(c, *a, name);
            } else {
                law_unbound_identifier_is_refused(c, *b, name);
            }
        },
        ExpressionView::Mult(a, b) => {
            if mentions(*a, name) {
                law_unbound_identifier_is_refused(c, *a, name);
            } else {
                law_unbound_identifier_is_refused(c, *b, name);
            }
        },
        ExpressionView::Div(a, b) => {
            if mentions(*a, name) {
                law_unbound_identifier_is_refused(c, *a, name);
            } else {
                law_unbound_identifier_is_refused(c, *b, name);
            }
        },
        ExpressionView::Pow(a, b) => {
            if mentions(*a, name) {
                law_unbound_identifier_is_refused(c, *a, name);
            } else {
                law_unbound_identifier_is_refused(c, *b, name);
            }
        },
        _ => {},
    }
}

/// A comparison that mentions a name that is not bound is refused.
proof fn lemma_unbound_in_comparison(c: CheckerView, e: NodeView<ExpressionView>, name: Seq<char>)
    requires
        mentions(e, name),
        lookup(c.scope, name) is None,
        e.value is Lt || e.value is Le || e.value is Eq || e.value is Ge || e.value is Gt,
    ensures
        checked_expression(c, e) is Err,
    decreases e, 0nat,
{
    match e.value {
        ExpressionView::Lt(a, b) => {
            if mentions(*a, name) {
                law_unbound_identifier_is_refused(c, *a, name);
            } else {
                law_unbound_identifier_is_refused(c, *b, name);
            }
        },
        ExpressionView::Le(a, b) => {
            if mentions(*a, name) {
                law_unbound_identifier_is_refused(c, *a, name);
            } else {
                law_unbound_identifier_is_refused(c, *b, name);
            }
        },
        ExpressionView::Eq(a, b) => {
            if mentions(*a, name) {
                law_unbound_identifier_is_refused(c, *a, name);
            } else {
                law_unbound_identifier_is_refused(c, *b, name);
            }
        },
        ExpressionView::Ge(a, b) => {
            if mentions(*a, name) {
                law_unbound_identifier_is_refused(c, *a, name);
            } else {
                law_unbound_identifier_is_refused(c, *b, name);
            }
        },
        ExpressionView::Gt(a, b) => {
            if mentions(*a, name) {
                law_unbound_identifier_is_refused(c, *a, name);
            } else {
                law_unbound_identifier_is_refused(c, *b, name);
            }
        },
        _ => {},
    }
}

/// A conjunction, a disjunction, a negation or a conditional that mentions a
/// name that is not bound is refused.
proof fn lemma_unbound_in_logical(c: CheckerView, e: NodeView<ExpressionView>, name: Seq<char>)
    requires
        mentions(e, name),
        lookup(c.scope, name) is None,
        e.value is And || e.value is Or || e.value is Not || e.value is IfElse,
    ensures
        checked_expression(c, e) is Err,
    decreases e, 0nat,
{
    match e.value {
        ExpressionView::And(a, b) => {
            if mentions(*a, name) {
                law_unbound_identifier_is_refused(c, *a, name);
            } else {
                law_unbound_identifier_is_refused(c, *b, name);
            }
        },
        ExpressionView::Or(a, b) => {
            if mentions(*a, name) {
                law_unbound_identifier_is_refused(c, *a, name);
            } else {
                law_unbound_identifier_is_refused(c, *b, name);
            }
        },
        ExpressionView::Not(a) => {
            law_unbound_identifier_is_refused(c, *a, name);
        },
        ExpressionView::IfElse(condition, a, b) => {
            if mentions(*condition, name) {
                law_unbound_identifier_is_refused(c, *condition, name);
            } else if mentions(*a, name) {
                law_unbound_identifier_is_refused(c, *a, name);
            } else {
                law_unbound_identifier_is_refused(c, *b, name);
            }
        },
        _ => {},
    }
}

/// A call that mentions a name that is not bound is refused.
proof fn lemma_unbound_in_call(c: CheckerView, e: NodeView<ExpressionView>, name: Seq<char>)
    requires
        mentions(e, name),
        lookup(c.scope, name) is None,
        e.value is FunctionCall,
    ensures
        checked_expression(c, e) is Err,
    decreases e, 0nat,
{
    match e.value {
        ExpressionView::FunctionCall(_, arguments) => {
            let i = choose|i: int|
                0 <= i < arguments.len() && mentions(#[trigger] arguments[i], name);
            law_unbound_identifier_is_refused(c, arguments[i], name);
            assert(checked_each(c, arguments)[i] == checked_expression(c, arguments[i]));
            lemma_collect_any_error(checked_each(c, arguments), i);
        },
        _ => {},
    }
}

/// An inline array that mentions a name that is not bound is refused.
proof fn lemma_unbound_in_inline_array(c: CheckerView, e: NodeView<ExpressionView>, name: Seq<char>)
    requires
        mentions(e, name),
        lookup(c.scope, name) is None,
        e.value is InlineArray,
    ensures
        checked_expression(c, e) is Err,
    decreases e, 0nat,
{
    match e.value {
        ExpressionView::InlineArray(items) => {
            let i = choose|i: int|
                0 <= i < items.len() && item_mentions(#[trigger] items[i], name);
            match items[i] {
                SpreadOrExpressionView::Spread(s) => {
                    law_unbound_identifier_is_refused(c, s.value.expression, name);
                },
                SpreadOrExpressionView::Expression(inner) => {
                    law_unbound_identifier_is_refused(c, inner, name);
                },
            }
            assert(checked_item(c, items[i]) is Err);
            lemma_expanded_any_error(c, items, i);
        },
        _ => {},
    }
}

/// A selection that mentions a name that is not bound is refused.
proof fn lemma_unbound_in_select(c: CheckerView, e: NodeView<ExpressionView>, name: Seq<char>)
    requires
        mentions(e, name),
        lookup(c.scope, name) is None,
        e.value is Select,
    ensures
        checked_expression(c, e) is Err,
    decreases e, 0nat,
{
    match e.value {
        ExpressionView::Select(a, index) => {
            if mentions(*a, name) {
                law_unbound_identifier_is_refused(c, *a, name);
            } else {
                match *index {
                    RangeOrExpressionView::Range(_) => {},
                    RangeOrExpressionView::Expression(i) => {
                        law_unbound_identifier_is_refused(c, i, name);
                    },
                }
            }
        },
        _ => {},
    }
}

/// A statement changes neither the level nor the functions.
pub proof fn lemma_statement_keeps_functions(
    c: CheckerView,
    s: NodeView<StatementView>,
    outputs: Seq<Type>,
)
    ensures
        checked_statement(c, s, outputs).0.functions == c.functions,
        checked_statement(c, s, outputs).0.level == c.level,
    decreases s,
{
    match s.value {
        StatementView::For(v, from, to, body) => {
            lemma_block_keeps_functions(c.enter().insert(v.value), body, outputs);
        },
        StatementView::MultipleDefinition(assignees, rhs) => {
            let after = checked_statement(c, s, outputs).0;
            if after != c {
                let vs = choose|vs: Seq<VariableView>| after == c.insert_all(vs);
                lemma_insert_all_extends(c, vs);
            }
        },
        _ => {},
    }
}

/// The body of a loop changes neither the level nor the functions.
pub proof fn lemma_block_keeps_functions(
    c: CheckerView,
    statements: Seq<NodeView<StatementView>>,
    outputs: Seq<Type>,
)
    ensures
        checked_block(c, statements, outputs).0.functions == c.functions,
        checked_block(c, statements, outputs).0.level == c.level,
    decreases statements,
{
    if statements.len() > 0 {
        lemma_block_keeps_functions(c, statements.drop_last(), outputs);
        if checked_block(c, statements.drop_last(), outputs).1 is Ok {
            lemma_statement_keeps_functions(
                checked_block(c, statements.drop_last(), outputs).0,
                statements.last(),
                outputs,
            );
        }
    }
}

/// The body of a function changes neither the level nor the functions.
pub proof fn lemma_body_keeps_functions(
    c: CheckerView,
    statements: Seq<NodeView<StatementView>>,
    outputs: Seq<Type>,
)
    ensures
        checked_body(c, statements, outputs).0.functions == c.functions,
        checked_body(c, statements, outputs).0.level == c.level,
    decreases statements.len(),
{
    if statements.len() > 0 {
        lemma_body_keeps_functions(c, statements.drop_last(), outputs);
        lemma_statement_keeps_functions(
            checked_body(c, statements.drop_last(), outputs).0,
            statements.last(),
            outputs,
        );
    }
}

/// A function changes neither the level nor the functions.
pub proof fn law_function_keeps_functions(c: CheckerView, f: NodeView<FunctionView>)
    ensures
        checked_function(c, f).0.functions == c.functions,
        checked_function(c, f).0.level == c.level,
{
    let start = c.insert_all(argument_variables(f.value.arguments));
    lemma_insert_all_extends(c, argument_variables(f.value.arguments));
    lemma_body_keeps_functions(start, f.value.statements, f.value.signature.outputs);
}

/// The functions that are declared behind the first `k` functions of a
/// program stay declared, and the errors of the first `k` functions come
/// first among the errors.
pub proof fn lemma_functions_grow(c: CheckerView, fs: Seq<NodeView<FunctionView>>, k: int)
    requires
        0 <= k <= fs.len(),
    ensures
        forall|g: FunctionDeclarationView|
            checked_functions(c, fs.take(k)).0.functions.contains(g) ==> checked_functions(
                c,
                fs,
            ).0.functions.contains(g),
        forall|e: ErrorView|
            checked_functions(c, fs.take(k)).2.contains(e) ==> checked_functions(c, fs).2.contains(
                e,
            ),
    decreases fs.len() - k,
{
    if k < fs.len() {
        lemma_functions_grow(c, fs, k + 1);
        assert(fs.take(k + 1).drop_last() =~= fs.take(k));
        let before = checked_functions(c, fs.take(k));
        let next = checked_functions(c, fs.take(k + 1));
        let f = fs.take(k + 1).last();
        law_function_keeps_functions(before.0.enter(), f);
        assert forall|g: FunctionDeclarationView|
            before.0.functions.contains(g) implies next.0.functions.contains(g) by {
            let i = choose|i: int| 0 <= i < before.0.functions.len() && before.0.functions[i] == g;
            if !before.0.functions.contains(declared(f.value)) {
                assert(before.0.functions.push(declared(f.value))[i] == g);
            }
        }
        assert forall|e: ErrorView| before.2.contains(e) implies next.2.contains(e) by {
            let i = choose|i: int| 0 <= i < before.2.len() && before.2[i] == e;
            assert(next.2[i] == e);
        }
    } else {
        assert(fs.take(k) =~= fs);
    }
}

/// Each function of a program is declared when the program has been
/// checked.
pub proof fn law_functions_are_declared(c: CheckerView, fs: Seq<NodeView<FunctionView>>, i: int)
    requires
        0 <= i < fs.len(),
    ensures
        checked_functions(c, fs).0.functions.contains(declared(fs[i].value)),
{
    assert(fs.take(i + 1).drop_last() =~= fs.take(i));
    let before = checked_functions(c, fs.take(i));
    let next = checked_functions(c, fs.take(i + 1));
    law_function_keeps_functions(before.0.enter(), fs[i]);
    let g = declared(fs[i].value);
    if before.0.functions.contains(g) {
    } else {
        assert(before.0.functions.push(g).last() == g);
    }
    assert(next.0.functions.contains(g));
    lemma_functions_grow(c, fs, i + 1);
}

/// The query of a function is answered by its own declaration.
pub proof fn law_own_query_matches(f: FunctionView)
    ensures
        own_query(f).matches(declared(f)),
{
}

/// The query of a function is answered by no declaration but its own.
pub proof fn law_own_query_matches_nothing_else(f: FunctionView, g: FunctionDeclarationView)
    requires
        own_query(f).matches(g),
    ensures
        g == declared(f),
{
    assert forall|i: int| 0 <= i < g.signature.outputs.len() implies g.signature.outputs[i]
        == f.signature.outputs[i] by {
        assert(own_query(f).outputs[i] == Some(f.signature.outputs[i]));
    }
    assert(g.signature.outputs =~= f.signature.outputs);
}

/// A query that asks for no type of an output is answered by every
/// declaration of its name and its inputs that has as many outputs.
pub proof fn law_open_query_matches_by_arity(
    query: FunctionQueryView,
    g: FunctionDeclarationView,
)
    requires
        forall|i: int| 0 <= i < query.outputs.len() ==> #[trigger] query.outputs[i] is None,
    ensures
        query.matches(g) <==> query.id == g.id && query.inputs == g.signature.inputs
            && query.outputs.len() == g.signature.outputs.len(),
{
}

/// A `return` that is accepted returns values of the types that the
/// signature gives, in order.
pub proof fn law_return_has_shape_of_signature(
    es: Seq<TypedExpressionView>,
    outputs: Seq<Type>,
    pos: (Position, Position),
)
    requires
        return_of(Ok(es), outputs, pos) is Ok,
    ensures
        return_of(Ok(es), outputs, pos) == Ok::<TypedStatementView, ErrorView>(
            TypedStatementView::Return(es),
        ),
        expression_types(es) == outputs,
{
}

/// The type of a typed expression says in which variant it stands.
pub proof fn law_type_tells_variant(t: TypedExpressionView)
    ensures
        t.get_type() == Type::Boolean <==> t is Boolean,
        t.get_type() == Type::FieldElement <==> t is FieldElement,
        t.get_type() is FieldElementArray <==> t is FieldElementArray,
{
}

/// The typed form of a name has the type that the name is bound to.
pub proof fn law_identifier_has_bound_type(name: Seq<char>, ty: Type)
    ensures
        typed_identifier(name, ty).get_type() == ty,
{
}

/// The typed form of a call has the type that the function returns.
pub proof fn law_call_has_returned_type(
    name: Seq<char>,
    arguments: Seq<TypedExpressionView>,
    output: Type,
)
    ensures
        typed_call(name, arguments, output).get_type() == output,
{
}

/// A conditional that is accepted has the type of both its branches.
pub proof fn law_conditional_has_type_of_branches(
    condition: TypedExpressionView,
    consequence: TypedExpressionView,
    alternative: TypedExpressionView,
    pos: (Position, Position),
)
    requires
        if_else_of(Ok(condition), Ok(consequence), Ok(alternative), pos) is Ok,
    ensures
        condition is Boolean,
        consequence.get_type() == alternative.get_type(),
        if_else_of(
            Ok(condition),
            Ok(consequence),
            Ok(alternative),
            pos,
        )->Ok_0.get_type() == consequence.get_type(),
{
}

/// The selection of a range that is accepted is an array of as many
/// selections as the range is long, and has the type of such an array.
pub proof fn law_range_selection_has_length_of_range(
    array: FieldElementArrayExpressionView,
    range: RangeView,
    pos: (Position, Position),
)
    requires
        select_range_of(
            Ok(TypedExpressionView::FieldElementArray(array)),
            range,
            pos,
        ) is Ok,
    ensures
        range_from(range) <= range_to(range, array.size() as nat)
            <= array.size(),
        select_range_of(
            Ok(TypedExpressionView::FieldElementArray(array)),
            range,
            pos,
        )->Ok_0 matches TypedExpressionView::FieldElementArray(
            FieldElementArrayExpressionView::Value(size, values),
        ) && size == range_to(range, array.size() as nat) - range_from(
            range,
        ) && values.len() == size,
{
}

/// The error that says that a function is defined twice.
pub open spec fn duplicate_error(f: NodeView<FunctionView>) -> ErrorView {
    ErrorView {
        pos: Some(f.pos()),
        message: duplicate_definition_text(f.value.id, f.value.signature.text()),
    }
}

/// A function whose name and signature are declared already is refused, and
/// the first error says that it is defined twice.
pub proof fn law_declared_function_is_refused(c: CheckerView, f: NodeView<FunctionView>)
    requires
        c.functions.contains(declared(f.value)),
    ensures
        checked_function(c, f).1 is Err,
        checked_function(c, f).1->Err_0.len() > 0,
        checked_function(c, f).1->Err_0[0] == duplicate_error(f),
{
    let g = declared(f.value);
    law_own_query_matches(f.value);
    let at = choose|at: int| 0 <= at < c.functions.len() && c.functions[at] == g;
    c.functions.lemma_filter_contains(answers(own_query(f.value)), at);
    let found = candidates(own_query(f.value), c.functions);
    assert(found.contains(g));
    assert(found.len() > 0);
    assert(duplicate_errors(c, f) =~= seq![duplicate_error(f)]);
}

/// The errors of a program are the errors of its functions but the last,
/// and then those of the last.
pub proof fn lemma_last_function_errors(c: CheckerView, fs: Seq<NodeView<FunctionView>>)
    requires
        fs.len() > 0,
    ensures
        checked_functions(c, fs).2 == checked_functions(c, fs.drop_last()).2 + (match checked_function(
            checked_functions(c, fs.drop_last()).0.enter(),
            fs.last(),
        ).1 {
            Ok(_) => Seq::<ErrorView>::empty(),
            Err(es) => es,
        }),
{
    let before = checked_functions(c, fs.drop_last());
    assert(before.2 + Seq::<ErrorView>::empty() =~= before.2);
}

/// A function whose name and signature an earlier function of the program
/// has is reported as defined twice.
pub proof fn law_duplicate_definition_is_reported(
    c: CheckerView,
    fs: Seq<NodeView<FunctionView>>,
    i: int,
    j: int,
)
    requires
        0 <= i < j < fs.len(),
        declared(fs[i].value) == declared(fs[j].value),
    ensures
        checked_functions(c, fs).2.contains(duplicate_error(fs[j])),
{
    let wanted = duplicate_error(fs[j]);
    let upto = fs.take(j + 1);
    assert(upto.drop_last() =~= fs.take(j));
    assert(upto.last() == fs[j]);
    let before = checked_functions(c, fs.take(j));
    law_functions_are_declared(c, fs.take(j), i);
    assert(fs.take(j)[i] == fs[i]);
    law_declared_function_is_refused(before.0.enter(), fs[j]);
    lemma_last_function_errors(c, upto);
    let all = checked_function(before.0.enter(), fs[j]).1->Err_0;
    let next = checked_functions(c, upto).2;
    assert(next == before.2 + all);
    assert(next[before.2.len() as int] == all[0]);
    assert(next.contains(wanted));
    lemma_functions_grow(c, fs, j + 1);
}

/// Where two functions of a program are named `main` and have different
/// signatures, the program is refused, and its last error says how many
/// functions `main` are declared.
pub proof fn law_several_mains_are_reported(c: CheckerView, p: ProgView, i: int, j: int)
    requires
        0 <= i < p.functions.len(),
        0 <= j < p.functions.len(),
        p.functions[i].value.id == "main"@,
        p.functions[j].value.id == "main"@,
        p.functions[i].value.signature != p.functions[j].value.signature,
    ensures
        main_count(checked_program(c, p).0.functions) >= 2,
        checked_program(c, p).1 is Err,
        checked_program(c, p).1->Err_0.last() == (ErrorView {
            pos: None,
            message: many_mains_text(main_count(checked_program(c, p).0.functions)),
        }),
{
    let start = c.register_all(p.imported_functions);
    let functions = checked_program(c, p).0.functions;
    law_functions_are_declared(start, p.functions, i);
    law_functions_are_declared(start, p.functions, j);
    let first = declared(p.functions[i].value);
    let second = declared(p.functions[j].value);
    let a = choose|a: int| 0 <= a < functions.len() && functions[a] == first;
    let b = choose|b: int| 0 <= b < functions.len() && functions[b] == second;
    functions.lemma_filter_contains(is_main(), a);
    functions.lemma_filter_contains(is_main(), b);
    let mains = functions.filter(is_main());
    let x = choose|x: int| 0 <= x < mains.len() && mains[x] == first;
    let y = choose|y: int| 0 <= y < mains.len() && mains[y] == second;
    assert(x != y);
}

} // verus!
