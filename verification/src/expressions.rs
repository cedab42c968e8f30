//! The checking of expressions and of the left-hand sides of assignments.

use vstd::pervasive::unreached;
use vstd::prelude::*;
use vstd::string::StringExecFns;
use crate::absy::{
    lemma_call_view, lemma_inline_array_view, views, Assignee, AssigneeNode, Expression,
    ExpressionNode, ExpressionView, Range, RangeOrExpression, SpreadOrExpression,
    SpreadOrExpressionView, Variable,
};
use crate::field::FieldValue;
use crate::messages::{
    ambiguous_call, boolean_operands, bounds_reversed, branches_differ, cannot_access,
    cannot_compare, cannot_compare_types, cannot_negate, condition_not_boolean, element_type,
    empty_array, expected_field_elements, function_not_found, higher_bound_out, index_type,
    lower_bound_out, multiple_returns, slice_assignment, spread_not_array, undeclared_variable,
    undefined_identifier, unsupported_array,
};
use crate::position::Position;
use crate::rules::{
    and_of, arithmetic_of, as_typed, call_of, call_query, checked_assignee, checked_each,
    checked_expression, checked_expressions, checked_identifier, checked_item, collect,
    comparison_of, element_of, elements_of, expanded_items, if_else_of, inline_array_of,
    lemma_collect_error, lemma_collect_value, lemma_expanded_keeps_error, not_of, or_of,
    select_index_of, select_range_of, selections, spread_of, typed_call, typed_identifier,
    ArithmeticOp, ComparisonOp, ErrorView,
};
use crate::semantics::{list_result_view, result_view, Checker, Error, FunctionQuery};
use crate::text::usize_to_string;
use crate::typed_absy::{
    expression_types, lemma_array_call_view, lemma_array_value_view, lemma_boolean_call_view,
    lemma_field_call_view, BooleanExpression, FieldElementArrayExpression, FieldElementExpression,
    FieldElementExpressionView, TypedAssignee, TypedExpression, TypedExpressionView,
};
use crate::types::{types_to_string, Type};

verus! {

/// The types of a list of typed expressions.
pub fn types_of(es: &Vec<TypedExpression>) -> (r: Vec<Type>)
    ensures
        r@ == expression_types(views(es@)),
{
    let mut out: Vec<Type> = Vec::new();
    let mut i: usize = 0;
    while i < es.len()
        invariant
            i <= es.len(),
            out@.len() == i,
            forall|j: int| 0 <= j < i ==> #[trigger] out@[j] == es@[j]@.get_type(),
        decreases es.len() - i,
    {
        out.push(es[i].get_type());
        i += 1;
    }
    proof {
        assert(out@ =~= expression_types(views(es@)));
    }
    out
}

/// The typed form of a name, by the type that it is bound to.
pub fn typed_identifier_of(name: &String, ty: Type) -> (r: TypedExpression)
    ensures
        r@ == typed_identifier(name@, ty),
{
    match ty {
        Type::Boolean => TypedExpression::Boolean(BooleanExpression::Identifier(name.clone())),
        Type::FieldElement => TypedExpression::FieldElement(
            FieldElementExpression::Identifier(name.clone()),
        ),
        Type::FieldElementArray(size) => TypedExpression::FieldElementArray(
            FieldElementArrayExpression::Identifier(size, name.clone()),
        ),
    }
}

/// Checks an arithmetic operation on two checked operands.
pub fn arithmetic_on(
    op: ArithmeticOp,
    left: TypedExpression,
    right: TypedExpression,
    pos: (Position, Position),
) -> (r: Result<TypedExpression, Error>)
    ensures
        result_view(r) == arithmetic_of(op, Ok(left@), Ok(right@), pos),
{
    match (left, right) {
        (TypedExpression::FieldElement(l), TypedExpression::FieldElement(r)) => {
            let l = Box::new(l);
            let r = Box::new(r);
            Ok(
                TypedExpression::FieldElement(
                    match op {
                        ArithmeticOp::Add => FieldElementExpression::Add(l, r),
                        ArithmeticOp::Sub => FieldElementExpression::Sub(l, r),
                        ArithmeticOp::Mult => FieldElementExpression::Mult(l, r),
                        ArithmeticOp::Div => FieldElementExpression::Div(l, r),
                        ArithmeticOp::Pow => FieldElementExpression::Pow(l, r),
                    },
                ),
            )
        },
        (l, r) => Err(Error::new(Some(pos), expected_field_elements(l.get_type(), r.get_type()))),
    }
}

/// Checks a comparison of two checked operands.
pub fn comparison_on(
    op: ComparisonOp,
    left: TypedExpression,
    right: TypedExpression,
    pos: (Position, Position),
) -> (r: Result<TypedExpression, Error>)
    ensures
        result_view(r) == comparison_of(op, Ok(left@), Ok(right@), pos),
{
    match (left, right) {
        (TypedExpression::FieldElement(l), TypedExpression::FieldElement(r)) => {
            let l = Box::new(l);
            let r = Box::new(r);
            Ok(
                TypedExpression::Boolean(
                    match op {
                        ComparisonOp::Lt => BooleanExpression::Lt(l, r),
                        ComparisonOp::Le => BooleanExpression::Le(l, r),
                        ComparisonOp::Eq => BooleanExpression::Eq(l, r),
                        ComparisonOp::Ge => BooleanExpression::Ge(l, r),
                        ComparisonOp::Gt => BooleanExpression::Gt(l, r),
                    },
                ),
            )
        },
        (l, r) => {
            let left_text = l.to_string();
            let right_text = r.to_string();
            Err(
                Error::new(
                    Some(pos),
                    cannot_compare(
                        left_text.as_str(),
                        l.get_type(),
                        right_text.as_str(),
                        r.get_type(),
                    ),
                ),
            )
        },
    }
}

/// Checks a conjunction of two checked operands.
pub fn and_on(left: TypedExpression, right: TypedExpression, pos: (Position, Position)) -> (r:
    Result<TypedExpression, Error>)
    ensures
        result_view(r) == and_of(Ok(left@), Ok(right@), pos),
{
    match (left, right) {
        (TypedExpression::Boolean(l), TypedExpression::Boolean(r)) => Ok(
            TypedExpression::Boolean(BooleanExpression::And(Box::new(l), Box::new(r))),
        ),
        (l, r) => Err(Error::new(Some(pos), boolean_operands(l.get_type(), r.get_type()))),
    }
}

/// Checks a disjunction of two checked operands.
pub fn or_on(left: TypedExpression, right: TypedExpression, pos: (Position, Position)) -> (r:
    Result<TypedExpression, Error>)
    ensures
        result_view(r) == or_of(Ok(left@), Ok(right@), pos),
{
    match (left, right) {
        (TypedExpression::Boolean(l), TypedExpression::Boolean(r)) => Ok(
            TypedExpression::Boolean(BooleanExpression::Or(Box::new(l), Box::new(r))),
        ),
        (l, r) => Err(Error::new(Some(pos), cannot_compare_types(l.get_type(), r.get_type()))),
    }
}

/// Checks a negation of a checked operand.
pub fn not_on(operand: TypedExpression, pos: (Position, Position)) -> (r: Result<
    TypedExpression,
    Error,
>)
    ensures
        result_view(r) == not_of(Ok(operand@), pos),
{
    match operand {
        TypedExpression::Boolean(b) => Ok(
            TypedExpression::Boolean(BooleanExpression::Not(Box::new(b))),
        ),
        other => Err(Error::new(Some(pos), cannot_negate(other.get_type()))),
    }
}

/// Checks a conditional on its checked parts.
pub fn if_else_on(
    condition: TypedExpression,
    consequence: TypedExpression,
    alternative: TypedExpression,
    pos: (Position, Position),
) -> (r: Result<TypedExpression, Error>)
    ensures
        result_view(r) == if_else_of(Ok(condition@), Ok(consequence@), Ok(alternative@), pos),
{
    match condition {
        TypedExpression::Boolean(c) => {
            let consequence_type = consequence.get_type();
            let alternative_type = alternative.get_type();
            if consequence_type == alternative_type {
                match (consequence, alternative) {
                    (TypedExpression::FieldElement(a), TypedExpression::FieldElement(b)) => Ok(
                        TypedExpression::FieldElement(
                            FieldElementExpression::IfElse(
                                Box::new(c),
                                Box::new(a),
                                Box::new(b),
                            ),
                        ),
                    ),
                    (
                        TypedExpression::FieldElementArray(a),
                        TypedExpression::FieldElementArray(b),
                    ) => Ok(
                        TypedExpression::FieldElementArray(
                            FieldElementArrayExpression::IfElse(
                                Box::new(c),
                                Box::new(a),
                                Box::new(b),
                            ),
                        ),
                    ),
                    (TypedExpression::Boolean(a), TypedExpression::Boolean(b)) => Ok(
                        TypedExpression::Boolean(
                            BooleanExpression::IfElse(Box::new(c), Box::new(a), Box::new(b)),
                        ),
                    ),
                    _ => Err(
                        Error::new(
                            Some(pos),
                            branches_differ(consequence_type, alternative_type),
                        ),
                    ),
                }
            } else {
                Err(Error::new(Some(pos), branches_differ(consequence_type, alternative_type)))
            }
        },
        other => Err(Error::new(Some(pos), condition_not_boolean(other.get_type()))),
    }
}

/// The typed form of a call that yields one value, by the type of the value.
pub fn typed_call_of(name: String, arguments: Vec<TypedExpression>, output: Type) -> (r:
    TypedExpression)
    ensures
        r@ == typed_call(name@, views(arguments@), output),
{
    proof {
        lemma_field_call_view(name, arguments);
        lemma_boolean_call_view(name, arguments);
    }
    match output {
        Type::FieldElement => TypedExpression::FieldElement(
            FieldElementExpression::FunctionCall(name, arguments),
        ),
        Type::Boolean => TypedExpression::Boolean(
            BooleanExpression::FunctionCall(name, arguments),
        ),
        Type::FieldElementArray(size) => {
            proof {
                lemma_array_call_view(size, name, arguments);
            }
            TypedExpression::FieldElementArray(
                FieldElementArrayExpression::FunctionCall(size, name, arguments),
            )
        },
    }
}

/// The selections of `count` elements of an array in a row, starting with the
/// element at `from`.
pub fn selections_of(array: &FieldElementArrayExpression, from: usize, count: usize) -> (r: Vec<
    FieldElementExpression,
>)
    requires
        from + count <= usize::MAX,
    ensures
        views(r@) == selections(array@, from as nat, count as nat),
{
    let mut out: Vec<FieldElementExpression> = Vec::new();
    let mut i: usize = 0;
    while i < count
        invariant
            i <= count,
            from + count <= usize::MAX,
            out@.len() == i,
            forall|j: int|
                0 <= j < i ==> (#[trigger] out@[j])@ == FieldElementExpressionView::Select(
                    Box::new(array@),
                    Box::new(FieldElementExpressionView::Number((from + j) as nat)),
                ),
        decreases count - i,
    {
        let index = FieldValue::from_usize(from + i);
        let copy = array.clone();
        let item = FieldElementExpression::Select(
            Box::new(copy),
            Box::new(FieldElementExpression::Number(index)),
        );
        proof {
            assert(item@ == FieldElementExpressionView::Select(
                Box::new(copy@),
                Box::new(FieldElementExpression::Number(index)@),
            ));
        }
        out.push(item);
        i += 1;
    }
    proof {
        assert(views(out@) =~= selections(array@, from as nat, count as nat));
    }
    out
}

/// Checks the selection of a range from a checked expression.
pub fn select_range_on(base: TypedExpression, range: &Range, pos: (Position, Position)) -> (r:
    Result<TypedExpression, Error>)
    ensures
        result_view(r) == select_range_of(Ok(base@), range@, pos),
{
    match base {
        TypedExpression::FieldElementArray(array) => {
            let size = array.size();
            let (from, from_text) = match &range.from {
                Some(v) => (v.to_usize(), v.to_dec_string()),
                None => (Some(0usize), usize_to_string(0)),
            };
            let (to, to_text) = match &range.to {
                Some(v) => (v.to_usize(), v.to_dec_string()),
                None => (Some(size), usize_to_string(size)),
            };
            let first: usize = match from {
                Some(f) => f,
                None => {
                    return Err(
                        Error::new(Some(pos), lower_bound_out(from_text.as_str(), size)),
                    );
                },
            };
            if first > size {
                return Err(Error::new(Some(pos), lower_bound_out(from_text.as_str(), size)));
            }
            let end: usize = match to {
                Some(t) => t,
                None => {
                    return Err(Error::new(Some(pos), higher_bound_out(to_text.as_str(), size)));
                },
            };
            if end > size {
                return Err(Error::new(Some(pos), higher_bound_out(to_text.as_str(), size)));
            }
            if first > end {
                return Err(
                    Error::new(Some(pos), bounds_reversed(from_text.as_str(), to_text.as_str())),
                );
            }
            let values = selections_of(&array, first, end - first);
            proof {
                lemma_array_value_view((end - first) as usize, values);
            }
            Ok(
                TypedExpression::FieldElementArray(
                    FieldElementArrayExpression::Value(end - first, values),
                ),
            )
        },
        other => {
            let text = range.to_string();
            Err(Error::new(Some(pos), cannot_access(text.as_str(), other.get_type())))
        },
    }
}

/// Checks the selection of one element from a checked expression, by a
/// checked index.
pub fn select_index_on(base: TypedExpression, index: TypedExpression, pos: (Position, Position))
    -> (r: Result<TypedExpression, Error>)
    ensures
        result_view(r) == select_index_of(Ok(base@), Ok(index@), pos),
{
    match (base, index) {
        (TypedExpression::FieldElementArray(a), TypedExpression::FieldElement(i)) => Ok(
            TypedExpression::FieldElement(FieldElementExpression::Select(Box::new(a), Box::new(i))),
        ),
        (a, i) => {
            let text = i.to_string();
            Err(Error::new(Some(pos), cannot_access(text.as_str(), a.get_type())))
        },
    }
}

/// Checks a spread of a checked expression.
pub fn spread_on(operand: TypedExpression, pos: (Position, Position)) -> (r: Result<
    Vec<TypedExpression>,
    Error,
>)
    ensures
        list_result_view(r) == spread_of(Ok(operand@), pos),
{
    match operand {
        TypedExpression::FieldElementArray(array) => {
            let size = array.size();
            let fields = selections_of(&array, 0, size);
            let ghost all = fields@;
            let mut out: Vec<TypedExpression> = Vec::new();
            for f in it: fields
                invariant
                    it.seq() == all,
                    out@.len() == it.index(),
                    forall|j: int|
                        0 <= j < it.index() ==> (#[trigger] out@[j])@
                            == TypedExpressionView::FieldElement(all[j]@),
            {
                out.push(TypedExpression::FieldElement(f));
            }
            proof {
                assert(views(out@) =~= as_typed(views(all)));
            }
            Ok(out)
        },
        other => Err(Error::new(Some(pos), spread_not_array(other.get_type()))),
    }
}

/// Checks an inline array on its checked and expanded elements.
pub fn inline_array_on(es: Vec<TypedExpression>, pos: (Position, Position)) -> (r: Result<
    TypedExpression,
    Error,
>)
    ensures
        result_view(r) == inline_array_of(Ok(views(es@)), pos),
{
    if es.len() == 0 {
        let values: Vec<FieldElementExpression> = Vec::new();
        proof {
            lemma_array_value_view(0, values);
            assert(views(values@) =~= Seq::<FieldElementExpressionView>::empty());
        }
        return Ok(TypedExpression::FieldElementArray(FieldElementArrayExpression::Value(0, values)));
    }
    let first = es[0].get_type();
    if first != Type::FieldElement {
        return Err(Error::new(Some(pos), unsupported_array(first)));
    }
    let ghost all = es@;
    let ghost results = elements_of(views(all), pos);
    let count = es.len();
    let mut fields: Vec<FieldElementExpression> = Vec::new();
    proof {
        assert(results.take(0) =~= Seq::<Result<FieldElementExpressionView, ErrorView>>::empty());
        assert(views(fields@) =~= Seq::<FieldElementExpressionView>::empty());
    }
    for e in it: es
        invariant
            it.seq() == all,
            count == all.len(),
            count > 0,
            views(all)[0].get_type() == Type::FieldElement,
            results == elements_of(views(all), pos),
            fields@.len() == it.index(),
            collect(results.take(it.index() as int)) == Ok::<
                Seq<FieldElementExpressionView>,
                ErrorView,
            >(views(fields@)),
    {
        let ghost i = it.index() as int;
        assert(results[i] == element_of(all[i]@, pos));
        match e {
            TypedExpression::FieldElement(f) => {
                proof {
                    lemma_collect_value(results, i, views(fields@), f@);
                    assert(views(fields@.push(f)) =~= views(fields@).push(f@));
                }
                fields.push(f);
            },
            other => {
                let text = other.to_string();
                let error = Error::new(
                    Some(pos),
                    element_type(text.as_str(), Type::FieldElement, other.get_type()),
                );
                proof {
                    lemma_collect_error(results, i, error@);
                }
                return Err(error);
            },
        }
    }
    proof {
        assert(results.take(count as int) =~= results);
        lemma_array_value_view(count, fields);
    }
    Ok(TypedExpression::FieldElementArray(FieldElementArrayExpression::Value(count, fields)))
}

impl Checker {
    /// Checks a name: it has to be bound.
    pub fn check_identifier(&self, name: &String, pos: (Position, Position)) -> (r: Result<
        TypedExpression,
        Error,
    >)
        ensures
            result_view(r) == checked_identifier(self@, name@, pos),
    {
        match self.get_scope(name.as_str()) {
            Some(binding) => Ok(typed_identifier_of(name, binding.id().get_type())),
            None => Err(Error::new(Some(pos), undefined_identifier(name.as_str()))),
        }
    }

    /// Checks a call inside an expression, on its checked arguments.
    pub fn call_on(&self, name: &String, arguments: Vec<TypedExpression>, pos: (Position, Position))
        -> (r: Result<TypedExpression, Error>)
        ensures
            result_view(r) == call_of(self@, name@, Ok(views(arguments@)), pos),
    {
        let types = types_of(&arguments);
        let mut slots: Vec<Option<Type>> = Vec::new();
        slots.push(None);
        proof {
            assert(slots@ =~= seq![None::<Type>]);
        }
        let query = FunctionQuery::new(name.as_str(), &types, &slots);
        let found = self.find_candidates(&query);
        proof {
            assert(query@ == call_query(name@, views(arguments@)));
            assert(views(found@).len() == found@.len());
        }
        if found.len() == 0 {
            let text = query.to_string();
            Err(Error::new(Some(pos), function_not_found(name.as_str(), text.as_str())))
        } else if found.len() == 1 {
            let f = &found[0];
            proof {
                assert(views(found@)[0] == f@);
            }
            let outputs = &f.signature().outputs;
            if outputs.len() == 1 {
                Ok(typed_call_of(f.id().clone(), arguments, outputs[0]))
            } else {
                Err(Error::new(Some(pos), multiple_returns(f.id().as_str(), outputs.len())))
            }
        } else {
            let text = types_to_string(&types);
            Err(Error::new(Some(pos), ambiguous_call(name.as_str(), text.as_str())))
        }
    }

    /// Checks an expression: gives its typed form, or the first error met
    /// when its parts are checked from left to right.
    pub fn check_expression(&self, expr: &ExpressionNode) -> (r: Result<TypedExpression, Error>)
        ensures
            result_view(r) == checked_expression(self@, expr@),
        decreases expr, 1nat,
    {
        let pos = expr.pos();
        match &expr.value {
            Expression::BooleanConstant(b) => Ok(
                TypedExpression::Boolean(BooleanExpression::Value(*b)),
            ),
            Expression::FieldConstant(n) => Ok(
                TypedExpression::FieldElement(FieldElementExpression::Number(n.clone())),
            ),
            Expression::Identifier(name) => self.check_identifier(name, pos),
            Expression::Add(_, _) => self.check_arithmetic(expr),
            Expression::Sub(_, _) => self.check_arithmetic(expr),
            Expression::Mult(_, _) => self.check_arithmetic(expr),
            Expression::Div(_, _) => self.check_arithmetic(expr),
            Expression::Pow(_, _) => self.check_arithmetic(expr),
            Expression::Lt(_, _) => self.check_comparison(expr),
            Expression::Le(_, _) => self.check_comparison(expr),
            Expression::Eq(_, _) => self.check_comparison(expr),
            Expression::Ge(_, _) => self.check_comparison(expr),
            Expression::Gt(_, _) => self.check_comparison(expr),
            Expression::And(_, _) => self.check_logical(expr),
            Expression::Or(_, _) => self.check_logical(expr),
            Expression::Not(_) => self.check_logical(expr),
            Expression::IfElse(_, _, _) => self.check_logical(expr),
            Expression::FunctionCall(_, _) => self.check_call(expr),
            Expression::Select(_, _) => self.check_select(expr),
            Expression::InlineArray(_) => self.check_inline_array(expr),
        }
    }

    /// Checks an arithmetic operation.
    fn check_arithmetic(&self, expr: &ExpressionNode) -> (r: Result<TypedExpression, Error>)
        requires
            expr.value is Add || expr.value is Sub || expr.value is Mult || expr.value is Div
                || expr.value is Pow,
        ensures
            result_view(r) == checked_expression(self@, expr@),
        decreases expr, 0nat,
    {
        let pos = expr.pos();
        match &expr.value {
            Expression::Add(a, b) => {
                let l = self.check_expression(a)?;
                let r = self.check_expression(b)?;
                arithmetic_on(ArithmeticOp::Add, l, r, pos)
            },
            Expression::Sub(a, b) => {
                let l = self.check_expression(a)?;
                let r = self.check_expression(b)?;
                arithmetic_on(ArithmeticOp::Sub, l, r, pos)
            },
            Expression::Mult(a, b) => {
                let l = self.check_expression(a)?;
                let r = self.check_expression(b)?;
                arithmetic_on(ArithmeticOp::Mult, l, r, pos)
            },
            Expression::Div(a, b) => {
                let l = self.check_expression(a)?;
                let r = self.check_expression(b)?;
                arithmetic_on(ArithmeticOp::Div, l, r, pos)
            },
            Expression::Pow(a, b) => {
                let l = self.check_expression(a)?;
                let r = self.check_expression(b)?;
                arithmetic_on(ArithmeticOp::Pow, l, r, pos)
            },
            _ => unreached(),
        }
    }

    /// Checks a comparison.
    fn check_comparison(&self, expr: &ExpressionNode) -> (r: Result<TypedExpression, Error>)
        requires
            expr.value is Lt || expr.value is Le || expr.value is Eq || expr.value is Ge
                || expr.value is Gt,
        ensures
            result_view(r) == checked_expression(self@, expr@),
        decreases expr, 0nat,
    {
        let pos = expr.pos();
        match &expr.value {
            Expression::Lt(a, b) => {
                let l = self.check_expression(a)?;
                let r = self.check_expression(b)?;
                comparison_on(ComparisonOp::Lt, l, r, pos)
            },
            Expression::Le(a, b) => {
                let l = self.check_expression(a)?;
                let r = self.check_expression(b)?;
                comparison_on(ComparisonOp::Le, l, r, pos)
            },
            Expression::Eq(a, b) => {
                let l = self.check_expression(a)?;
                let r = self.check_expression(b)?;
                comparison_on(ComparisonOp::Eq, l, r, pos)
            },
            Expression::Ge(a, b) => {
                let l = self.check_expression(a)?;
                let r = self.check_expression(b)?;
                comparison_on(ComparisonOp::Ge, l, r, pos)
            },
            Expression::Gt(a, b) => {
                let l = self.check_expression(a)?;
                let r = self.check_expression(b)?;
                comparison_on(ComparisonOp::Gt, l, r, pos)
            },
            _ => unreached(),
        }
    }

    /// Checks a conjunction, a disjunction, a negation or a conditional.
    fn check_logical(&self, expr: &ExpressionNode) -> (r: Result<TypedExpression, Error>)
        requires
            expr.value is And || expr.value is Or || expr.value is Not || expr.value is IfElse,
        ensures
            result_view(r) == checked_expression(self@, expr@),
        decreases expr, 0nat,
    {
        let pos = expr.pos();
        match &expr.value {
            Expression::And(a, b) => {
                let l = self.check_expression(a)?;
                let r = self.check_expression(b)?;
                and_on(l, r, pos)
            },
            Expression::Or(a, b) => {
                let l = self.check_expression(a)?;
                let r = self.check_expression(b)?;
                or_on(l, r, pos)
            },
            Expression::Not(a) => {
                let t = self.check_expression(a)?;
                not_on(t, pos)
            },
            Expression::IfElse(condition, a, b) => {
                let tc = self.check_expression(condition)?;
                let ta = self.check_expression(a)?;
                let tb = self.check_expression(b)?;
                if_else_on(tc, ta, tb, pos)
            },
            _ => unreached(),
        }
    }

    /// Checks a call inside an expression.
    fn check_call(&self, expr: &ExpressionNode) -> (r: Result<TypedExpression, Error>)
        requires
            expr.value is FunctionCall,
        ensures
            result_view(r) == checked_expression(self@, expr@),
        decreases expr, 0nat,
    {
        let pos = expr.pos();
        match &expr.value {
            Expression::FunctionCall(name, arguments) => {
                proof {
                    lemma_call_view(*name, *arguments);
                }
                let typed = self.check_expressions(arguments)?;
                self.call_on(name, typed, pos)
            },
            _ => unreached(),
        }
    }

    /// Checks a selection from an array.
    fn check_select(&self, expr: &ExpressionNode) -> (r: Result<TypedExpression, Error>)
        requires
            expr.value is Select,
        ensures
            result_view(r) == checked_expression(self@, expr@),
        decreases expr, 0nat,
    {
        let pos = expr.pos();
        match &expr.value {
            Expression::Select(a, index) => {
                proof {
                    assert(expr@.value == ExpressionView::Select(
                        Box::new((**a)@),
                        Box::new((**index)@),
                    ));
                }
                let base = self.check_expression(a)?;
                match &**index {
                    RangeOrExpression::Range(r) => select_range_on(base, &r.value, pos),
                    RangeOrExpression::Expression(i) => {
                        let ti = self.check_expression(i)?;
                        select_index_on(base, ti, pos)
                    },
                }
            },
            _ => unreached(),
        }
    }

    /// Checks an inline array.
    fn check_inline_array(&self, expr: &ExpressionNode) -> (r: Result<TypedExpression, Error>)
        requires
            expr.value is InlineArray,
        ensures
            result_view(r) == checked_expression(self@, expr@),
        decreases expr, 0nat,
    {
        let pos = expr.pos();
        match &expr.value {
            Expression::InlineArray(items) => {
                proof {
                    lemma_inline_array_view(*items);
                }
                if items.len() == 0 {
                    return Err(Error::new(Some(pos), empty_array()));
                }
                let es = self.expand_items(items)?;
                inline_array_on(es, pos)
            },
            _ => unreached(),
        }
    }

    /// Checks each of a list of expressions: gives their typed forms, or the
    /// first error.
    pub fn check_expressions(&self, es: &Vec<ExpressionNode>) -> (r: Result<
        Vec<TypedExpression>,
        Error,
    >)
        ensures
            list_result_view(r) == checked_expressions(self@, views(es@)),
        decreases es, 0nat,
    {
        let ghost results = checked_each(self@, views(es@));
        let mut typed: Vec<TypedExpression> = Vec::new();
        let mut i: usize = 0;
        proof {
            assert(results.take(0) =~= Seq::<Result<TypedExpressionView, ErrorView>>::empty());
            assert(views(typed@) =~= Seq::<TypedExpressionView>::empty());
        }
        while i < es.len()
            invariant
                i <= es.len(),
                results == checked_each(self@, views(es@)),
                collect(results.take(i as int)) == Ok::<Seq<TypedExpressionView>, ErrorView>(
                    views(typed@),
                ),
            decreases es.len() - i,
        {
            proof {
                assert(results[i as int] == checked_expression(self@, es@[i as int]@));
            }
            match self.check_expression(&es[i]) {
                Ok(t) => {
                    proof {
                        lemma_collect_value(results, i as int, views(typed@), t@);
                        assert(views(typed@.push(t)) =~= views(typed@).push(t@));
                    }
                    typed.push(t);
                },
                Err(e) => {
                    proof {
                        lemma_collect_error(results, i as int, e@);
                    }
                    return Err(e);
                },
            }
            i += 1;
        }
        proof {
            assert(results.take(i as int) =~= results);
        }
        Ok(typed)
    }

    /// Checks an element of an inline array: gives the typed expressions that
    /// it stands for, or the first error.
    pub fn check_spread_or_expression(&self, item: &SpreadOrExpression) -> (r: Result<
        Vec<TypedExpression>,
        Error,
    >)
        ensures
            list_result_view(r) == checked_item(self@, item@),
        decreases item, 0nat,
    {
        match item {
            SpreadOrExpression::Spread(s) => {
                let pos = s.pos();
                let t = self.check_expression(&s.value.expression)?;
                spread_on(t, pos)
            },
            SpreadOrExpression::Expression(e) => {
                let t = self.check_expression(e)?;
                let mut out: Vec<TypedExpression> = Vec::new();
                proof {
                    assert(views(out@.push(t)) =~= seq![t@]);
                }
                out.push(t);
                Ok(out)
            },
        }
    }

    /// Checks the elements of an inline array: gives all the typed
    /// expressions that they stand for, in order, or the first error.
    pub fn expand_items(&self, items: &Vec<SpreadOrExpression>) -> (r: Result<
        Vec<TypedExpression>,
        Error,
    >)
        ensures
            list_result_view(r) == expanded_items(self@, views(items@)),
        decreases items, 0nat,
    {
        let ghost all = views(items@);
        let mut typed: Vec<TypedExpression> = Vec::new();
        let mut i: usize = 0;
        proof {
            assert(all.take(0) =~= Seq::<SpreadOrExpressionView>::empty());
            assert(views(typed@) =~= Seq::<TypedExpressionView>::empty());
        }
        while i < items.len()
            invariant
                i <= items.len(),
                all == views(items@),
                expanded_items(self@, all.take(i as int)) == Ok::<
                    Seq<TypedExpressionView>,
                    ErrorView,
                >(views(typed@)),
            decreases items.len() - i,
        {
            proof {
                assert(all.take(i as int + 1).drop_last() =~= all.take(i as int));
                assert(all.take(i as int + 1).last() == items@[i as int]@);
            }
            match self.check_spread_or_expression(&items[i]) {
                Ok(group) => {
                    let mut group = group;
                    proof {
                        assert(views(typed@ + group@) =~= views(typed@) + views(group@));
                    }
                    typed.append(&mut group);
                },
                Err(e) => {
                    proof {
                        lemma_expanded_keeps_error(self@, all, i as int + 1);
                    }
                    return Err(e);
                },
            }
            i += 1;
        }
        proof {
            assert(all.take(i as int) =~= all);
        }
        Ok(typed)
    }

    /// Checks the left-hand side of an assignment.
    pub fn check_assignee(&self, assignee: &AssigneeNode) -> (r: Result<TypedAssignee, Error>)
        ensures
            result_view(r) == checked_assignee(self@, assignee@),
        decreases assignee, 0nat,
    {
        let pos = assignee.pos();
        match &assignee.value {
            Assignee::Identifier(name) => match self.get_scope(name.as_str()) {
                Some(binding) => Ok(
                    TypedAssignee::Identifier(
                        Variable::new(name.clone(), binding.id().get_type()),
                    ),
                ),
                None => Err(Error::new(Some(pos), undeclared_variable(name.as_str()))),
            },
            Assignee::ArrayElement(base, index) => {
                let typed_base = self.check_assignee(base)?;
                match &**index {
                    RangeOrExpression::Range(r) => {
                        let text = r.value.to_string();
                        Err(Error::new(Some(pos), slice_assignment(text.as_str())))
                    },
                    RangeOrExpression::Expression(i) => {
                        let ti = self.check_expression(i)?;
                        match ti {
                            TypedExpression::FieldElement(f) => Ok(
                                TypedAssignee::ArrayElement(Box::new(typed_base), Box::new(f)),
                            ),
                            other => {
                                let text = typed_base.to_string();
                                Err(
                                    Error::new(
                                        Some(pos),
                                        index_type(text.as_str(), other.get_type()),
                                    ),
                                )
                            },
                        }
                    },
                }
            },
        }
    }
}

} // verus!
