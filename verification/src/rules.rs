//! The rules of the checker, stated over the views of the trees.
//!
//! These functions say what the checker answers: for an expression its typed
//! form or the first error, for a statement also the scope that it leaves
//! behind. The executable checker is proved to compute exactly this.

use vstd::prelude::*;
use crate::absy::{
    AssigneeView, ExpressionView, FunctionView, ImportView, NodeView, ParameterView, ProgView,
    RangeOrExpressionView, RangeView, SpreadOrExpressionView, StatementView, VariableView,
};
use crate::absy_text::{assignee_text, expression_text, range_text};
use crate::messages::{
    ambiguous_call_text, assignee_not_identifier_text, boolean_operands_text,
    bounds_reversed_text, branches_differ_text, cannot_access_text, cannot_assign_text,
    cannot_compare_text, cannot_compare_types_text, cannot_negate_text,
    condition_not_boolean_text, duplicate_declaration_text, duplicate_definition_text,
    element_type_text, empty_array_text, expected_field_elements_text, function_not_found_text,
    higher_bound_out_text, index_type_text, loop_variable_type_text, lower_bound_out_text,
    many_mains_text, multiple_returns_text, no_main_text, not_a_call_text, return_shape_text,
    slice_assignment_text, spread_not_array_text, undeclared_variable_text,
    undefined_identifier_text, unsupported_array_text,
};
use crate::position::Position;
use crate::text::{dec_text, join};
use crate::typed_absy::{
    expression_types, BooleanExpressionView, FieldElementArrayExpressionView,
    FieldElementExpressionView, TypedAssigneeView, TypedExpressionListView, TypedExpressionView,
    TypedFunctionView, TypedProgView, TypedStatementView,
};
use crate::typed_text::{typed_assignee_text, typed_expression_text};
use crate::types::{types_text, SignatureView, Type};

verus! {

/// The mathematical value of an error: where it is, and what it says.
pub struct ErrorView {
    pub pos: Option<(Position, Position)>,
    pub message: Seq<char>,
}

/// The mathematical value of a binding: a variable and the level of the
/// scope that declared it.
pub struct ScopedVariableView {
    pub id: VariableView,
    pub level: nat,
}

/// The mathematical value of a function declaration.
pub struct FunctionDeclarationView {
    pub id: Seq<char>,
    pub signature: SignatureView,
}

/// The mathematical value of a query: the name and the input types of a
/// call, and for each output either the type that is asked for or nothing.
pub struct FunctionQueryView {
    pub id: Seq<char>,
    pub inputs: Seq<Type>,
    pub outputs: Seq<Option<Type>>,
}

/// The mathematical value of a checker: the bindings in the order in which
/// they were made, the declared functions in the order in which they were
/// declared, and the level of the current scope.
pub struct CheckerView {
    pub scope: Seq<ScopedVariableView>,
    pub functions: Seq<FunctionDeclarationView>,
    pub level: nat,
}

/// The arithmetic operations.
#[derive(Clone, Copy, Debug, PartialEq, Eq, Structural)]
pub enum ArithmeticOp {
    Add,
    Sub,
    Mult,
    Div,
    Pow,
}

/// The comparisons of field elements.
#[derive(Clone, Copy, Debug, PartialEq, Eq, Structural)]
pub enum ComparisonOp {
    Lt,
    Le,
    Eq,
    Ge,
    Gt,
}

impl ErrorView {
    /// The text of an error: the place where it starts, or a question mark
    /// where it has none, then on a new line, behind a tab, what it says.
    pub open spec fn text(self) -> Seq<char> {
        (match self.pos {
            Some(p) => p.0.text(),
            None => "?"@,
        }) + "\n\t"@ + self.message
    }
}

/// An error at a place.
pub open spec fn failure<T>(pos: (Position, Position), message: Seq<char>) -> Result<
    T,
    ErrorView,
> {
    Err(ErrorView { pos: Some(pos), message })
}

/// All the values, if every result is one; else the first error.
pub open spec fn collect<T>(results: Seq<Result<T, ErrorView>>) -> Result<Seq<T>, ErrorView>
    decreases results.len(),
{
    if results.len() == 0 {
        Ok(Seq::empty())
    } else {
        match collect(results.drop_last()) {
            Err(e) => Err(e),
            Ok(values) => match results.last() {
                Err(e) => Err(e),
                Ok(value) => Ok(values.push(value)),
            },
        }
    }
}

/// Where the results up to one are values and that one is a value too, the
/// values up to and with that one are those values and that value.
pub proof fn lemma_collect_value<T>(
    results: Seq<Result<T, ErrorView>>,
    i: int,
    values: Seq<T>,
    value: T,
)
    requires
        0 <= i < results.len(),
        collect(results.take(i)) == Ok::<Seq<T>, ErrorView>(values),
        results[i] == Ok::<T, ErrorView>(value),
    ensures
        collect(results.take(i + 1)) == Ok::<Seq<T>, ErrorView>(values.push(value)),
{
    assert(results.take(i + 1).drop_last() =~= results.take(i));
}

/// An error among the first results is the error of all the results.
pub proof fn lemma_collect_keeps_error<T>(results: Seq<Result<T, ErrorView>>, k: int)
    requires
        0 <= k <= results.len(),
        collect(results.take(k)) is Err,
    ensures
        collect(results) == collect(results.take(k)),
    decreases results.len() - k,
{
    if k < results.len() {
        assert(results.take(k + 1).drop_last() =~= results.take(k));
        lemma_collect_keeps_error(results, k + 1);
    } else {
        assert(results.take(k) =~= results);
    }
}

/// Where the results up to one are values and that one is an error, it is
/// the error of all the results.
pub proof fn lemma_collect_error<T>(results: Seq<Result<T, ErrorView>>, i: int, e: ErrorView)
    requires
        0 <= i < results.len(),
        collect(results.take(i)) is Ok,
        results[i] == Err::<T, ErrorView>(e),
    ensures
        collect(results) == Err::<Seq<T>, ErrorView>(e),
{
    assert(results.take(i + 1).drop_last() =~= results.take(i));
    lemma_collect_keeps_error(results, i + 1);
}

/// Where one of the results is an error, there is an error of all the
/// results.
pub proof fn lemma_collect_any_error<T>(results: Seq<Result<T, ErrorView>>, i: int)
    requires
        0 <= i < results.len(),
        results[i] is Err,
    ensures
        collect(results) is Err,
{
    assert(results.take(i + 1).drop_last() =~= results.take(i));
    lemma_collect_keeps_error(results, i + 1);
}

/// Where all the results are values, each is the value at its place.
pub proof fn lemma_collect_values<T>(results: Seq<Result<T, ErrorView>>)
    ensures
        collect(results) matches Ok(values) ==> values.len() == results.len() && forall|i: int|
            0 <= i < results.len() ==> #[trigger] results[i] == Ok::<T, ErrorView>(values[i]),
    decreases results.len(),
{
    if results.len() > 0 {
        lemma_collect_values(results.drop_last());
        match collect(results) {
            Ok(values) => {
                let before = collect(results.drop_last())->Ok_0;
                assert forall|i: int| 0 <= i < results.len() implies #[trigger] results[i] == Ok::<
                    T,
                    ErrorView,
                >(values[i]) by {
                    if i < results.len() - 1 {
                        assert(results.drop_last()[i] == results[i]);
                        assert(values[i] == before[i]);
                    }
                }
            },
            Err(_) => {},
        }
    }
}

/// The text of an output of a query: the type, or `_` where none is asked
/// for.
pub open spec fn slot_text(slot: Option<Type>) -> Seq<char> {
    match slot {
        Some(t) => t.text(),
        None => "_"@,
    }
}

/// The texts of the outputs of a query.
pub open spec fn slot_texts(slots: Seq<Option<Type>>) -> Seq<Seq<char>> {
    Seq::new(slots.len(), |i: int| slot_text(slots[i]))
}

/// The query that asks for every output of a signature.
pub open spec fn exact_slots(types: Seq<Type>) -> Seq<Option<Type>> {
    Seq::new(types.len(), |i: int| Some(types[i]))
}

impl FunctionQueryView {
    /// The text of a query: `(inputs) -> (outputs)`.
    pub open spec fn text(self) -> Seq<char> {
        "("@ + types_text(self.inputs) + ") -> ("@ + join(slot_texts(self.outputs), ", "@) + ")"@
    }

    /// Whether a declaration answers the query: the names and the inputs are
    /// equal, there are as many outputs, and each output that is asked for
    /// is the declared one.
    pub open spec fn matches(self, f: FunctionDeclarationView) -> bool {
        &&& self.id == f.id
        &&& self.inputs == f.signature.inputs
        &&& self.outputs.len() == f.signature.outputs.len()
        &&& forall|i: int|
            0 <= i < self.outputs.len() ==> (#[trigger] self.outputs[i] matches Some(t)
                ==> t == f.signature.outputs[i])
    }
}

/// The test whether a declaration answers a query.
pub open spec fn answers(query: FunctionQueryView) -> spec_fn(FunctionDeclarationView) -> bool {
    |f: FunctionDeclarationView| query.matches(f)
}

/// The declarations that answer a query, in the order of the registry.
pub open spec fn candidates(
    query: FunctionQueryView,
    functions: Seq<FunctionDeclarationView>,
) -> Seq<FunctionDeclarationView> {
    functions.filter(answers(query))
}

/// The test whether a declaration is one of a function `main`.
pub open spec fn is_main() -> spec_fn(FunctionDeclarationView) -> bool {
    |f: FunctionDeclarationView| f.id == "main"@
}

/// The number of declared functions named `main`.
pub open spec fn main_count(functions: Seq<FunctionDeclarationView>) -> nat {
    functions.filter(is_main()).len()
}

/// The test whether a binding was made below a level.
pub open spec fn below(level: nat) -> spec_fn(ScopedVariableView) -> bool {
    |b: ScopedVariableView| b.level < level
}

/// The first binding of a name, if there is one.
pub open spec fn lookup(scope: Seq<ScopedVariableView>, name: Seq<char>) -> Option<
    ScopedVariableView,
>
    decreases scope.len(),
{
    if scope.len() == 0 {
        None
    } else if scope[0].id.id == name {
        Some(scope[0])
    } else {
        lookup(scope.drop_first(), name)
    }
}

/// The type that a name is bound to, if it is bound.
pub open spec fn bound_type(scope: Seq<ScopedVariableView>, name: Seq<char>) -> Option<Type> {
    match lookup(scope, name) {
        Some(binding) => Some(binding.id.ty),
        None => None,
    }
}

impl CheckerView {
    /// The checker with no binding, no function and level zero.
    pub open spec fn empty() -> CheckerView {
        CheckerView { scope: Seq::empty(), functions: Seq::empty(), level: 0 }
    }

    /// The checker after a variable was offered to the scope: it is bound at
    /// the current level, unless its name is bound already.
    pub open spec fn insert(self, v: VariableView) -> CheckerView {
        if lookup(self.scope, v.id) is Some {
            self
        } else {
            CheckerView {
                scope: self.scope.push(ScopedVariableView { id: v, level: self.level }),
                ..self
            }
        }
    }

    /// The checker after each of the variables was offered to the scope, in
    /// order.
    pub open spec fn insert_all(self, vs: Seq<VariableView>) -> CheckerView
        decreases vs.len(),
    {
        if vs.len() == 0 {
            self
        } else {
            self.insert_all(vs.drop_last()).insert(vs.last())
        }
    }

    /// The checker after a scope was entered.
    pub open spec fn enter(self) -> CheckerView {
        CheckerView { level: self.level + 1, ..self }
    }

    /// The checker after the current scope was left: the bindings of the
    /// current level or above are gone.
    pub open spec fn exit(self) -> CheckerView {
        CheckerView {
            scope: self.scope.filter(below(self.level)),
            level: (self.level - 1) as nat,
            ..self
        }
    }

    /// The checker after a function was declared: it is added, unless an
    /// equal declaration is there already.
    pub open spec fn register(self, f: FunctionDeclarationView) -> CheckerView {
        if self.functions.contains(f) {
            self
        } else {
            CheckerView { functions: self.functions.push(f), ..self }
        }
    }

    /// The checker after each of the functions was declared, in order.
    pub open spec fn register_all(self, fs: Seq<FunctionDeclarationView>) -> CheckerView
        decreases fs.len(),
    {
        if fs.len() == 0 {
            self
        } else {
            self.register_all(fs.drop_last()).register(fs.last())
        }
    }
}

/// The typed form of a name: by the type that it is bound to.
pub open spec fn typed_identifier(name: Seq<char>, ty: Type) -> TypedExpressionView {
    match ty {
        Type::Boolean => TypedExpressionView::Boolean(BooleanExpressionView::Identifier(name)),
        Type::FieldElement => TypedExpressionView::FieldElement(
            FieldElementExpressionView::Identifier(name),
        ),
        Type::FieldElementArray(size) => TypedExpressionView::FieldElementArray(
            FieldElementArrayExpressionView::Identifier(size, name),
        ),
    }
}

/// The rule for a name: it has to be bound.
pub open spec fn checked_identifier(
    c: CheckerView,
    name: Seq<char>,
    pos: (Position, Position),
) -> Result<TypedExpressionView, ErrorView> {
    match bound_type(c.scope, name) {
        Some(ty) => Ok(typed_identifier(name, ty)),
        None => failure(pos, undefined_identifier_text(name)),
    }
}

/// An arithmetic operation on two field element expressions.
pub open spec fn arithmetic(
    op: ArithmeticOp,
    left: FieldElementExpressionView,
    right: FieldElementExpressionView,
) -> FieldElementExpressionView {
    match op {
        ArithmeticOp::Add => FieldElementExpressionView::Add(Box::new(left), Box::new(right)),
        ArithmeticOp::Sub => FieldElementExpressionView::Sub(Box::new(left), Box::new(right)),
        ArithmeticOp::Mult => FieldElementExpressionView::Mult(Box::new(left), Box::new(right)),
        ArithmeticOp::Div => FieldElementExpressionView::Div(Box::new(left), Box::new(right)),
        ArithmeticOp::Pow => FieldElementExpressionView::Pow(Box::new(left), Box::new(right)),
    }
}

/// A comparison of two field element expressions.
pub open spec fn comparison(
    op: ComparisonOp,
    left: FieldElementExpressionView,
    right: FieldElementExpressionView,
) -> BooleanExpressionView {
    match op {
        ComparisonOp::Lt => BooleanExpressionView::Lt(Box::new(left), Box::new(right)),
        ComparisonOp::Le => BooleanExpressionView::Le(Box::new(left), Box::new(right)),
        ComparisonOp::Eq => BooleanExpressionView::Eq(Box::new(left), Box::new(right)),
        ComparisonOp::Ge => BooleanExpressionView::Ge(Box::new(left), Box::new(right)),
        ComparisonOp::Gt => BooleanExpressionView::Gt(Box::new(left), Box::new(right)),
    }
}

/// The rule for an arithmetic operation, on what the checker answers for
/// the operands: both have to be field elements.
pub open spec fn arithmetic_of(
    op: ArithmeticOp,
    left: Result<TypedExpressionView, ErrorView>,
    right: Result<TypedExpressionView, ErrorView>,
    pos: (Position, Position),
) -> Result<TypedExpressionView, ErrorView> {
    match (left, right) {
        (Err(e), _) => Err(e),
        (Ok(_), Err(e)) => Err(e),
        (
            Ok(TypedExpressionView::FieldElement(l)),
            Ok(TypedExpressionView::FieldElement(r)),
        ) => Ok(TypedExpressionView::FieldElement(arithmetic(op, l, r))),
        (Ok(l), Ok(r)) => failure(pos, expected_field_elements_text(l.get_type(), r.get_type())),
    }
}

/// The rule for a comparison, on what the checker answers for the operands:
/// both have to be field elements.
pub open spec fn comparison_of(
    op: ComparisonOp,
    left: Result<TypedExpressionView, ErrorView>,
    right: Result<TypedExpressionView, ErrorView>,
    pos: (Position, Position),
) -> Result<TypedExpressionView, ErrorView> {
    match (left, right) {
        (Err(e), _) => Err(e),
        (Ok(_), Err(e)) => Err(e),
        (
            Ok(TypedExpressionView::FieldElement(l)),
            Ok(TypedExpressionView::FieldElement(r)),
        ) => Ok(TypedExpressionView::Boolean(comparison(op, l, r))),
        (Ok(l), Ok(r)) => failure(
            pos,
            cannot_compare_text(
                typed_expression_text(l),
                l.get_type(),
                typed_expression_text(r),
                r.get_type(),
            ),
        ),
    }
}

/// The rule for a conjunction, on what the checker answers for the operands:
/// both have to be booleans.
pub open spec fn and_of(
    left: Result<TypedExpressionView, ErrorView>,
    right: Result<TypedExpressionView, ErrorView>,
    pos: (Position, Position),
) -> Result<TypedExpressionView, ErrorView> {
    match (left, right) {
        (Err(e), _) => Err(e),
        (Ok(_), Err(e)) => Err(e),
        (Ok(TypedExpressionView::Boolean(l)), Ok(TypedExpressionView::Boolean(r))) => Ok(
            TypedExpressionView::Boolean(BooleanExpressionView::And(Box::new(l), Box::new(r))),
        ),
        (Ok(l), Ok(r)) => failure(pos, boolean_operands_text(l.get_type(), r.get_type())),
    }
}

/// The rule for a disjunction, on what the checker answers for the operands:
/// both have to be booleans.
pub open spec fn or_of(
    left: Result<TypedExpressionView, ErrorView>,
    right: Result<TypedExpressionView, ErrorView>,
    pos: (Position, Position),
) -> Result<TypedExpressionView, ErrorView> {
    match (left, right) {
        (Err(e), _) => Err(e),
        (Ok(_), Err(e)) => Err(e),
        (Ok(TypedExpressionView::Boolean(l)), Ok(TypedExpressionView::Boolean(r))) => Ok(
            TypedExpressionView::Boolean(BooleanExpressionView::Or(Box::new(l), Box::new(r))),
        ),
        (Ok(l), Ok(r)) => failure(pos, cannot_compare_types_text(l.get_type(), r.get_type())),
    }
}

/// The rule for a negation, on what the checker answers for the operand: it
/// has to be a boolean.
pub open spec fn not_of(
    operand: Result<TypedExpressionView, ErrorView>,
    pos: (Position, Position),
) -> Result<TypedExpressionView, ErrorView> {
    match operand {
        Err(e) => Err(e),
        Ok(TypedExpressionView::Boolean(b)) => Ok(
            TypedExpressionView::Boolean(BooleanExpressionView::Not(Box::new(b))),
        ),
        Ok(other) => failure(pos, cannot_negate_text(other.get_type())),
    }
}

/// The conditional with a condition and two branches of one type.
pub open spec fn typed_if_else(
    condition: BooleanExpressionView,
    consequence: TypedExpressionView,
    alternative: TypedExpressionView,
) -> Option<TypedExpressionView> {
    match (consequence, alternative) {
        (TypedExpressionView::FieldElement(a), TypedExpressionView::FieldElement(b)) => Some(
            TypedExpressionView::FieldElement(
                FieldElementExpressionView::IfElse(Box::new(condition), Box::new(a), Box::new(b)),
            ),
        ),
        (
            TypedExpressionView::FieldElementArray(a),
            TypedExpressionView::FieldElementArray(b),
        ) => Some(
            TypedExpressionView::FieldElementArray(
                FieldElementArrayExpressionView::IfElse(
                    Box::new(condition),
                    Box::new(a),
                    Box::new(b),
                ),
            ),
        ),
        (TypedExpressionView::Boolean(a), TypedExpressionView::Boolean(b)) => Some(
            TypedExpressionView::Boolean(
                BooleanExpressionView::IfElse(Box::new(condition), Box::new(a), Box::new(b)),
            ),
        ),
        _ => None,
    }
}

/// The rule for a conditional, on what the checker answers for its parts:
/// the condition has to be a boolean and the branches have to have one type,
/// which is the type of the result.
pub open spec fn if_else_of(
    condition: Result<TypedExpressionView, ErrorView>,
    consequence: Result<TypedExpressionView, ErrorView>,
    alternative: Result<TypedExpressionView, ErrorView>,
    pos: (Position, Position),
) -> Result<TypedExpressionView, ErrorView> {
    match (condition, consequence, alternative) {
        (Err(e), _, _) => Err(e),
        (Ok(_), Err(e), _) => Err(e),
        (Ok(_), Ok(_), Err(e)) => Err(e),
        (Ok(TypedExpressionView::Boolean(c)), Ok(a), Ok(b)) => {
            if a.get_type() == b.get_type() && typed_if_else(c, a, b) is Some {
                Ok(typed_if_else(c, a, b)->0)
            } else {
                failure(pos, branches_differ_text(a.get_type(), b.get_type()))
            }
        },
        (Ok(c), Ok(_), Ok(_)) => failure(pos, condition_not_boolean_text(c.get_type())),
    }
}

/// The typed form of a call that yields one value: by the type of the
/// value.
pub open spec fn typed_call(name: Seq<char>, arguments: Seq<TypedExpressionView>, output: Type)
    -> TypedExpressionView {
    match output {
        Type::FieldElement => TypedExpressionView::FieldElement(
            FieldElementExpressionView::FunctionCall(name, arguments),
        ),
        Type::Boolean => TypedExpressionView::Boolean(
            BooleanExpressionView::FunctionCall(name, arguments),
        ),
        Type::FieldElementArray(size) => TypedExpressionView::FieldElementArray(
            FieldElementArrayExpressionView::FunctionCall(size, name, arguments),
        ),
    }
}

/// The query of a call inside an expression: the types of the arguments, and
/// one output of any type.
pub open spec fn call_query(name: Seq<char>, arguments: Seq<TypedExpressionView>)
    -> FunctionQueryView {
    FunctionQueryView { id: name, inputs: expression_types(arguments), outputs: seq![None] }
}

/// The rule for a call inside an expression, on what the checker answers
/// for the arguments: exactly one declared function has to answer the
/// query, and it has to return one value.
pub open spec fn call_of(
    c: CheckerView,
    name: Seq<char>,
    arguments: Result<Seq<TypedExpressionView>, ErrorView>,
    pos: (Position, Position),
) -> Result<TypedExpressionView, ErrorView> {
    match arguments {
        Err(e) => Err(e),
        Ok(typed) => {
            let query = call_query(name, typed);
            let found = candidates(query, c.functions);
            if found.len() == 0 {
                failure(pos, function_not_found_text(name, query.text()))
            } else if found.len() == 1 {
                let f = found[0];
                if f.signature.outputs.len() == 1 {
                    Ok(typed_call(f.id, typed, f.signature.outputs[0]))
                } else {
                    failure(pos, multiple_returns_text(f.id, f.signature.outputs.len()))
                }
            } else {
                failure(pos, ambiguous_call_text(name, types_text(query.inputs)))
            }
        },
    }
}

/// The selections of `count` elements of an array in a row, starting with the
/// element at `from`.
pub open spec fn selections(array: FieldElementArrayExpressionView, from: nat, count: nat) -> Seq<
    FieldElementExpressionView,
> {
    Seq::new(
        count,
        |i: int|
            FieldElementExpressionView::Select(
                Box::new(array),
                Box::new(FieldElementExpressionView::Number((from + i) as nat)),
            ),
    )
}

/// Field element expressions as typed expressions.
pub open spec fn as_typed(fields: Seq<FieldElementExpressionView>) -> Seq<TypedExpressionView> {
    Seq::new(fields.len(), |i: int| TypedExpressionView::FieldElement(fields[i]))
}

/// The first index of a range: zero where it is left out.
pub open spec fn range_from(range: RangeView) -> nat {
    match range.from {
        Some(n) => n,
        None => 0,
    }
}

/// The index behind the last of a range: the length of the array where it is
/// left out.
pub open spec fn range_to(range: RangeView, size: nat) -> nat {
    match range.to {
        Some(n) => n,
        None => size,
    }
}

/// The rule for the selection of a range, on what the checker answers for
/// the expression that is selected from: it has to be an array, and the
/// bounds have to lie in it, in order. The result is the array of the
/// selected elements.
pub open spec fn select_range_of(
    base: Result<TypedExpressionView, ErrorView>,
    range: RangeView,
    pos: (Position, Position),
) -> Result<TypedExpressionView, ErrorView> {
    match base {
        Err(e) => Err(e),
        Ok(TypedExpressionView::FieldElementArray(array)) => {
            let size = array.size() as nat;
            let from = range_from(range);
            let to = range_to(range, size);
            if from > size {
                failure(pos, lower_bound_out_text(dec_text(from), size))
            } else if to > size {
                failure(pos, higher_bound_out_text(dec_text(to), size))
            } else if from > to {
                failure(pos, bounds_reversed_text(dec_text(from), dec_text(to)))
            } else {
                Ok(
                    TypedExpressionView::FieldElementArray(
                        FieldElementArrayExpressionView::Value(
                            (to - from) as usize,
                            selections(array, from, (to - from) as nat),
                        ),
                    ),
                )
            }
        },
        Ok(other) => failure(pos, cannot_access_text(range_text(range), other.get_type())),
    }
}

/// The rule for the selection of one element, on what the checker answers
/// for the expression that is selected from and for the index: the first has
/// to be an array and the second a field element.
pub open spec fn select_index_of(
    base: Result<TypedExpressionView, ErrorView>,
    index: Result<TypedExpressionView, ErrorView>,
    pos: (Position, Position),
) -> Result<TypedExpressionView, ErrorView> {
    match (base, index) {
        (Err(e), _) => Err(e),
        (Ok(_), Err(e)) => Err(e),
        (
            Ok(TypedExpressionView::FieldElementArray(a)),
            Ok(TypedExpressionView::FieldElement(i)),
        ) => Ok(
            TypedExpressionView::FieldElement(
                FieldElementExpressionView::Select(Box::new(a), Box::new(i)),
            ),
        ),
        (Ok(a), Ok(i)) => failure(pos, cannot_access_text(typed_expression_text(i), a.get_type())),
    }
}

/// The rule for a spread, on what the checker answers for its operand: it
/// has to be an array, and stands for the selections of all its elements.
pub open spec fn spread_of(
    operand: Result<TypedExpressionView, ErrorView>,
    pos: (Position, Position),
) -> Result<Seq<TypedExpressionView>, ErrorView> {
    match operand {
        Err(e) => Err(e),
        Ok(TypedExpressionView::FieldElementArray(array)) => Ok(
            as_typed(selections(array, 0, array.size() as nat)),
        ),
        Ok(other) => failure(pos, spread_not_array_text(other.get_type())),
    }
}

/// The rule for an element of an inline array, on what the checker answers
/// for it: the one expression.
pub open spec fn single_of(e: Result<TypedExpressionView, ErrorView>) -> Result<
    Seq<TypedExpressionView>,
    ErrorView,
> {
    match e {
        Err(e) => Err(e),
        Ok(t) => Ok(seq![t]),
    }
}

/// The rule for an element of an inline array: it has to be a field
/// element.
pub open spec fn element_of(e: TypedExpressionView, pos: (Position, Position)) -> Result<
    FieldElementExpressionView,
    ErrorView,
> {
    match e {
        TypedExpressionView::FieldElement(f) => Ok(f),
        _ => failure(
            pos,
            element_type_text(typed_expression_text(e), Type::FieldElement, e.get_type()),
        ),
    }
}

/// The results of the rule for an element, for each of a sequence.
pub open spec fn elements_of(es: Seq<TypedExpressionView>, pos: (Position, Position)) -> Seq<
    Result<FieldElementExpressionView, ErrorView>,
> {
    Seq::new(es.len(), |i: int| element_of(es[i], pos))
}

/// The rule for an inline array, on what the checker answers for its
/// elements: the first of the expressions that they stand for has to be a
/// field element, and then every one. The result is an array of as many
/// elements.
pub open spec fn inline_array_of(
    items: Result<Seq<TypedExpressionView>, ErrorView>,
    pos: (Position, Position),
) -> Result<TypedExpressionView, ErrorView> {
    match items {
        Err(e) => Err(e),
        Ok(es) => {
            if es.len() == 0 {
                Ok(
                    TypedExpressionView::FieldElementArray(
                        FieldElementArrayExpressionView::Value(0, Seq::empty()),
                    ),
                )
            } else if es[0].get_type() == Type::FieldElement {
                match collect(elements_of(es, pos)) {
                    Ok(fields) => Ok(
                        TypedExpressionView::FieldElementArray(
                            FieldElementArrayExpressionView::Value(es.len() as usize, fields),
                        ),
                    ),
                    Err(e) => Err(e),
                }
            } else {
                failure(pos, unsupported_array_text(es[0].get_type()))
            }
        },
    }
}

/// What the checker answers for an expression: its typed form, or the first
/// error met when the parts are checked from left to right.
pub open spec fn checked_expression(c: CheckerView, e: NodeView<ExpressionView>) -> Result<
    TypedExpressionView,
    ErrorView,
>
    decreases e,
{
    let pos = e.pos();
    match e.value {
        ExpressionView::BooleanConstant(b) => Ok(
            TypedExpressionView::Boolean(BooleanExpressionView::Value(b)),
        ),
        ExpressionView::FieldConstant(n) => Ok(
            TypedExpressionView::FieldElement(FieldElementExpressionView::Number(n)),
        ),
        ExpressionView::Identifier(name) => checked_identifier(c, name, pos),
        ExpressionView::Add(a, b) => arithmetic_of(
            ArithmeticOp::Add,
            checked_expression(c, *a),
            checked_expression(c, *b),
            pos,
        ),
        ExpressionView::Sub(a, b) => arithmetic_of(
            ArithmeticOp::Sub,
            checked_expression(c, *a),
            checked_expression(c, *b),
            pos,
        ),
        ExpressionView::Mult(a, b) => arithmetic_of(
            ArithmeticOp::Mult,
            checked_expression(c, *a),
            checked_expression(c, *b),
            pos,
        ),
        ExpressionView::Div(a, b) => arithmetic_of(
            ArithmeticOp::Div,
            checked_expression(c, *a),
            checked_expression(c, *b),
            pos,
        ),
        ExpressionView::Pow(a, b) => arithmetic_of(
            ArithmeticOp::Pow,
            checked_expression(c, *a),
            checked_expression(c, *b),
            pos,
        ),
        ExpressionView::IfElse(condition, a, b) => if_else_of(
            checked_expression(c, *condition),
            checked_expression(c, *a),
            checked_expression(c, *b),
            pos,
        ),
        ExpressionView::FunctionCall(name, arguments) => call_of(
            c,
            name,
            collect(checked_each(c, arguments)),
            pos,
        ),
        ExpressionView::Lt(a, b) => comparison_of(
            ComparisonOp::Lt,
            checked_expression(c, *a),
            checked_expression(c, *b),
            pos,
        ),
        ExpressionView::Le(a, b) => comparison_of(
            ComparisonOp::Le,
            checked_expression(c, *a),
            checked_expression(c, *b),
            pos,
        ),
        ExpressionView::Eq(a, b) => comparison_of(
            ComparisonOp::Eq,
            checked_expression(c, *a),
            checked_expression(c, *b),
            pos,
        ),
        ExpressionView::Ge(a, b) => comparison_of(
            ComparisonOp::Ge,
            checked_expression(c, *a),
            checked_expression(c, *b),
            pos,
        ),
        ExpressionView::Gt(a, b) => comparison_of(
            ComparisonOp::Gt,
            checked_expression(c, *a),
            checked_expression(c, *b),
            pos,
        ),
        ExpressionView::And(a, b) => and_of(
            checked_expression(c, *a),
            checked_expression(c, *b),
            pos,
        ),
        ExpressionView::Or(a, b) => or_of(checked_expression(c, *a), checked_expression(c, *b), pos),
        ExpressionView::Not(a) => not_of(checked_expression(c, *a), pos),
        ExpressionView::Select(a, index) => match *index {
            RangeOrExpressionView::Range(r) => select_range_of(
                checked_expression(c, *a),
                r.value,
                pos,
            ),
            RangeOrExpressionView::Expression(i) => select_index_of(
                checked_expression(c, *a),
                checked_expression(c, i),
                pos,
            ),
        },
        ExpressionView::InlineArray(items) => {
            if items.len() == 0 {
                failure(pos, empty_array_text())
            } else {
                inline_array_of(expanded_items(c, items), pos)
            }
        },
    }
}

/// What the checker answers for each of a sequence of expressions.
pub open spec fn checked_each(c: CheckerView, es: Seq<NodeView<ExpressionView>>) -> Seq<
    Result<TypedExpressionView, ErrorView>,
>
    decreases es,
{
    Seq::new(
        es.len(),
        |i: int|
            if 0 <= i < es.len() {
                checked_expression(c, es[i])
            } else {
                arbitrary()
            },
    )
}

/// What the checker answers for a sequence of expressions: their typed
/// forms, or the first error.
pub open spec fn checked_expressions(c: CheckerView, es: Seq<NodeView<ExpressionView>>) -> Result<
    Seq<TypedExpressionView>,
    ErrorView,
> {
    collect(checked_each(c, es))
}

/// What the checker answers for an element of an inline array: the typed
/// expressions that it stands for, or the first error.
pub open spec fn checked_item(c: CheckerView, item: SpreadOrExpressionView) -> Result<
    Seq<TypedExpressionView>,
    ErrorView,
>
    decreases item,
{
    match item {
        SpreadOrExpressionView::Spread(s) => spread_of(
            checked_expression(c, s.value.expression),
            s.pos(),
        ),
        SpreadOrExpressionView::Expression(e) => single_of(checked_expression(c, e)),
    }
}

/// What the checker answers for the elements of an inline array: all the
/// typed expressions that they stand for, in order, or the first error.
pub open spec fn expanded_items(c: CheckerView, items: Seq<SpreadOrExpressionView>) -> Result<
    Seq<TypedExpressionView>,
    ErrorView,
>
    decreases items,
{
    if items.len() == 0 {
        Ok(Seq::empty())
    } else {
        match expanded_items(c, items.drop_last()) {
            Err(e) => Err(e),
            Ok(before) => match checked_item(c, items.last()) {
                Err(e) => Err(e),
                Ok(group) => Ok(before + group),
            },
        }
    }
}

/// An error among the first elements of an inline array is the error of all
/// the elements.
pub proof fn lemma_expanded_keeps_error(
    c: CheckerView,
    items: Seq<SpreadOrExpressionView>,
    k: int,
)
    requires
        0 <= k <= items.len(),
        expanded_items(c, items.take(k)) is Err,
    ensures
        expanded_items(c, items) == expanded_items(c, items.take(k)),
    decreases items.len() - k,
{
    if k < items.len() {
        assert(items.take(k + 1).drop_last() =~= items.take(k));
        lemma_expanded_keeps_error(c, items, k + 1);
    } else {
        assert(items.take(k) =~= items);
    }
}

/// Where one of the elements of an inline array has an error, the elements
/// have one.
pub proof fn lemma_expanded_any_error(c: CheckerView, items: Seq<SpreadOrExpressionView>, i: int)
    requires
        0 <= i < items.len(),
        checked_item(c, items[i]) is Err,
    ensures
        expanded_items(c, items) is Err,
{
    assert(items.take(i + 1).drop_last() =~= items.take(i));
    lemma_expanded_keeps_error(c, items, i + 1);
}

/// The rule for an assignment to a range of an array, on what the checker
/// answers for the array: such an assignment is refused.
pub open spec fn element_range_of(
    base: Result<TypedAssigneeView, ErrorView>,
    range: RangeView,
    pos: (Position, Position),
) -> Result<TypedAssigneeView, ErrorView> {
    match base {
        Err(e) => Err(e),
        Ok(_) => failure(pos, slice_assignment_text(range_text(range))),
    }
}

/// The rule for an assignment to an element of an array, on what the
/// checker answers for the array and for the index: the index has to be a
/// field element.
pub open spec fn element_index_of(
    base: Result<TypedAssigneeView, ErrorView>,
    index: Result<TypedExpressionView, ErrorView>,
    pos: (Position, Position),
) -> Result<TypedAssigneeView, ErrorView> {
    match (base, index) {
        (Err(e), _) => Err(e),
        (Ok(_), Err(e)) => Err(e),
        (Ok(typed_base), Ok(TypedExpressionView::FieldElement(f))) => Ok(
            TypedAssigneeView::ArrayElement(Box::new(typed_base), Box::new(f)),
        ),
        (Ok(typed_base), Ok(other)) => failure(
            pos,
            index_type_text(typed_assignee_text(typed_base), other.get_type()),
        ),
    }
}

/// What the checker answers for the left-hand side of an assignment: a name
/// has to be bound, and an element of an array has to be selected by a field
/// element.
pub open spec fn checked_assignee(c: CheckerView, a: NodeView<AssigneeView>) -> Result<
    TypedAssigneeView,
    ErrorView,
>
    decreases a,
{
    let pos = a.pos();
    match a.value {
        AssigneeView::Identifier(name) => match bound_type(c.scope, name) {
            Some(ty) => Ok(TypedAssigneeView::Identifier(VariableView { id: name, ty })),
            None => failure(pos, undeclared_variable_text(name)),
        },
        AssigneeView::ArrayElement(base, index) => match *index {
            RangeOrExpressionView::Range(r) => element_range_of(
                checked_assignee(c, *base),
                r.value,
                pos,
            ),
            RangeOrExpressionView::Expression(i) => element_index_of(
                checked_assignee(c, *base),
                checked_expression(c, i),
                pos,
            ),
        },
    }
}

/// The rule for the variable of a loop: it has to be a field element.
pub open spec fn checked_for_var(v: NodeView<VariableView>) -> Result<(), ErrorView> {
    match v.value.ty {
        Type::FieldElement => Ok(()),
        t => failure(v.pos(), loop_variable_type_text(t)),
    }
}

/// The rule for a `return`, on what the checker answers for its
/// expressions: their types have to be the outputs of the signature.
pub open spec fn return_of(
    es: Result<Seq<TypedExpressionView>, ErrorView>,
    outputs: Seq<Type>,
    pos: (Position, Position),
) -> Result<TypedStatementView, ErrorView> {
    match es {
        Err(e) => Err(e),
        Ok(typed) => {
            if expression_types(typed) == outputs {
                Ok(TypedStatementView::Return(typed))
            } else {
                failure(
                    pos,
                    return_shape_text(types_text(outputs), types_text(expression_types(typed))),
                )
            }
        },
    }
}

/// The rule for an assignment, on what the checker answers for the
/// expression and then for the left-hand side: their types have to be
/// equal.
pub open spec fn definition_of(
    e: Result<TypedExpressionView, ErrorView>,
    assignee: Result<TypedAssigneeView, ErrorView>,
    pos: (Position, Position),
) -> Result<TypedStatementView, ErrorView> {
    match (e, assignee) {
        (Err(e), _) => Err(e),
        (Ok(_), Err(e)) => Err(e),
        (Ok(te), Ok(ta)) => {
            if ta.get_type() == te.get_type() {
                Ok(TypedStatementView::Definition(ta, te))
            } else {
                failure(
                    pos,
                    cannot_assign_text(
                        typed_expression_text(te),
                        te.get_type(),
                        typed_assignee_text(ta),
                        ta.get_type(),
                    ),
                )
            }
        },
    }
}

/// The rule for the assertion that two expressions are equal, on what the
/// checker answers for them: their types have to be equal.
pub open spec fn condition_of(
    left: Result<TypedExpressionView, ErrorView>,
    right: Result<TypedExpressionView, ErrorView>,
    pos: (Position, Position),
) -> Result<TypedStatementView, ErrorView> {
    match (left, right) {
        (Err(e), _) => Err(e),
        (Ok(_), Err(e)) => Err(e),
        (Ok(l), Ok(r)) => {
            if l.get_type() == r.get_type() {
                Ok(TypedStatementView::Condition(l, r))
            } else {
                failure(
                    pos,
                    cannot_compare_text(
                        typed_expression_text(l),
                        l.get_type(),
                        typed_expression_text(r),
                        r.get_type(),
                    ),
                )
            }
        },
    }
}

/// The name of a left-hand side of a definition of several values, and the
/// type that the name is bound to, if it is bound. Only a name can stand
/// there.
pub open spec fn assignee_slot(
    c: CheckerView,
    a: NodeView<AssigneeView>,
    pos: (Position, Position),
) -> Result<(Seq<char>, Option<Type>), ErrorView> {
    match a.value {
        AssigneeView::Identifier(name) => Ok((name, bound_type(c.scope, name))),
        _ => failure(pos, assignee_not_identifier_text(assignee_text(a.value))),
    }
}

/// The names and bound types of the left-hand sides, each with its error
/// where it has one.
pub open spec fn assignee_slot_results(
    c: CheckerView,
    assignees: Seq<NodeView<AssigneeView>>,
    pos: (Position, Position),
) -> Seq<Result<(Seq<char>, Option<Type>), ErrorView>> {
    Seq::new(assignees.len(), |i: int| assignee_slot(c, assignees[i], pos))
}

/// The names and bound types of the left-hand sides, or the first error.
pub open spec fn assignee_slots(
    c: CheckerView,
    assignees: Seq<NodeView<AssigneeView>>,
    pos: (Position, Position),
) -> Result<Seq<(Seq<char>, Option<Type>)>, ErrorView> {
    collect(assignee_slot_results(c, assignees, pos))
}

/// The variables that a definition of several values defines: the names of
/// the left-hand sides with the outputs of the function.
pub open spec fn defined_variables(slots: Seq<(Seq<char>, Option<Type>)>, outputs: Seq<Type>)
    -> Seq<VariableView> {
    Seq::new(slots.len(), |i: int| VariableView { id: slots[i].0, ty: outputs[i] })
}

/// The query of a definition of several values: the types of the arguments,
/// and for each left-hand side the type that its name is bound to.
pub open spec fn definition_query(
    name: Seq<char>,
    arguments: Seq<TypedExpressionView>,
    slots: Seq<(Seq<char>, Option<Type>)>,
) -> FunctionQueryView {
    FunctionQueryView {
        id: name,
        inputs: expression_types(arguments),
        outputs: Seq::new(slots.len(), |i: int| slots[i].1),
    }
}

/// The rule for a definition of several values by a call, on the names of
/// the left-hand sides and on what the checker answers for the arguments:
/// only names can stand on the left, and exactly one declared function has
/// to answer the query. The names are then bound to the outputs of the
/// function.
pub open spec fn multiple_definition_of(
    c: CheckerView,
    name: Seq<char>,
    slots: Result<Seq<(Seq<char>, Option<Type>)>, ErrorView>,
    arguments: Result<Seq<TypedExpressionView>, ErrorView>,
    pos: (Position, Position),
) -> (CheckerView, Result<TypedStatementView, ErrorView>) {
    match (slots, arguments) {
        (Err(e), _) => (c, Err(e)),
        (Ok(_), Err(e)) => (c, Err(e)),
        (Ok(names), Ok(typed)) => {
            let query = definition_query(name, typed, names);
            let found = candidates(query, c.functions);
            if found.len() == 0 {
                (c, failure(pos, function_not_found_text(name, query.text())))
            } else if found.len() == 1 {
                let f = found[0];
                let variables = defined_variables(names, f.signature.outputs);
                (
                    c.insert_all(variables),
                    Ok(
                        TypedStatementView::MultipleDefinition(
                            variables,
                            TypedExpressionListView::FunctionCall(
                                f.id,
                                typed,
                                f.signature.outputs,
                            ),
                        ),
                    ),
                )
            } else {
                (c, failure(pos, ambiguous_call_text(name, types_text(query.inputs))))
            }
        },
    }
}

/// The rule for a declaration: the name must not be bound yet, and is bound
/// then.
pub open spec fn declaration_of(c: CheckerView, v: VariableView, pos: (Position, Position)) -> (
    CheckerView,
    Result<TypedStatementView, ErrorView>,
) {
    if lookup(c.scope, v.id) is None {
        (c.insert(v), Ok(TypedStatementView::Declaration(v)))
    } else {
        (c, failure(pos, duplicate_declaration_text(v.id)))
    }
}

/// The rule for a loop, on what the checker answers for its body: the scope
/// of the body is left, and the loop is given back if the body had no
/// error.
pub open spec fn for_of(
    v: VariableView,
    from: nat,
    to: nat,
    body: (CheckerView, Result<Seq<TypedStatementView>, ErrorView>),
) -> (CheckerView, Result<TypedStatementView, ErrorView>) {
    (
        body.0.exit(),
        match body.1 {
            Err(e) => Err(e),
            Ok(statements) => Ok(TypedStatementView::For(v, from, to, statements)),
        },
    )
}

/// What the checker answers for a statement, and the checker that the
/// statement leaves behind.
pub open spec fn checked_statement(
    c: CheckerView,
    s: NodeView<StatementView>,
    outputs: Seq<Type>,
) -> (CheckerView, Result<TypedStatementView, ErrorView>)
    decreases s,
{
    let pos = s.pos();
    match s.value {
        StatementView::Return(list) => (
            c,
            return_of(checked_expressions(c, list.value.expressions), outputs, pos),
        ),
        StatementView::Declaration(v) => declaration_of(c, v.value, pos),
        StatementView::Definition(a, e) => (
            c,
            definition_of(checked_expression(c, e), checked_assignee(c, a), pos),
        ),
        StatementView::Condition(l, r) => (
            c,
            condition_of(checked_expression(c, l), checked_expression(c, r), pos),
        ),
        StatementView::For(v, from, to, body) => match checked_for_var(v) {
            Err(e) => (c, Err(e)),
            Ok(_) => for_of(
                v.value,
                from,
                to,
                checked_block(c.enter().insert(v.value), body, outputs),
            ),
        },
        StatementView::MultipleDefinition(assignees, rhs) => match rhs.value {
            ExpressionView::FunctionCall(name, arguments) => multiple_definition_of(
                c,
                name,
                assignee_slots(c, assignees, pos),
                checked_expressions(c, arguments),
                pos,
            ),
            _ => (c, failure(pos, not_a_call_text(expression_text(rhs.value)))),
        },
    }
}

/// What the checker answers for the body of a loop: the checked statements,
/// or the error of the first statement that fails, behind which no
/// statement is checked.
pub open spec fn checked_block(
    c: CheckerView,
    statements: Seq<NodeView<StatementView>>,
    outputs: Seq<Type>,
) -> (CheckerView, Result<Seq<TypedStatementView>, ErrorView>)
    decreases statements,
{
    if statements.len() == 0 {
        (c, Ok(Seq::empty()))
    } else {
        let (before, results) = checked_block(c, statements.drop_last(), outputs);
        match results {
            Err(e) => (before, Err(e)),
            Ok(typed) => {
                let (after, result) = checked_statement(before, statements.last(), outputs);
                (
                    after,
                    match result {
                        Err(e) => Err(e),
                        Ok(t) => Ok(typed.push(t)),
                    },
                )
            },
        }
    }
}

/// An error among the first statements of the body of a loop is the error
/// of the body, and the checker is left as that statement left it.
pub proof fn lemma_block_keeps_error(
    c: CheckerView,
    statements: Seq<NodeView<StatementView>>,
    k: int,
    outputs: Seq<Type>,
)
    requires
        0 <= k <= statements.len(),
        checked_block(c, statements.take(k), outputs).1 is Err,
    ensures
        checked_block(c, statements, outputs) == checked_block(c, statements.take(k), outputs),
    decreases statements.len() - k,
{
    if k < statements.len() {
        assert(statements.take(k + 1).drop_last() =~= statements.take(k));
        lemma_block_keeps_error(c, statements, k + 1, outputs);
    } else {
        assert(statements.take(k) =~= statements);
    }
}

/// What the checker answers for the body of a function: every statement is
/// checked, and the checked statements and the errors are gathered, each in
/// the order of the statements.
pub open spec fn checked_body(
    c: CheckerView,
    statements: Seq<NodeView<StatementView>>,
    outputs: Seq<Type>,
) -> (CheckerView, Seq<TypedStatementView>, Seq<ErrorView>)
    decreases statements.len(),
{
    if statements.len() == 0 {
        (c, Seq::empty(), Seq::empty())
    } else {
        let (before, typed, errors) = checked_body(c, statements.drop_last(), outputs);
        let (after, result) = checked_statement(before, statements.last(), outputs);
        match result {
            Ok(t) => (after, typed.push(t), errors),
            Err(e) => (after, typed, errors.push(e)),
        }
    }
}

/// The variables of the arguments of a function.
pub open spec fn argument_variables(arguments: Seq<NodeView<ParameterView>>) -> Seq<VariableView> {
    Seq::new(arguments.len(), |i: int| arguments[i].value.id)
}

/// The arguments of a function without their places.
pub open spec fn argument_values(arguments: Seq<NodeView<ParameterView>>) -> Seq<ParameterView> {
    Seq::new(arguments.len(), |i: int| arguments[i].value)
}

/// The declaration of a function.
pub open spec fn declared(f: FunctionView) -> FunctionDeclarationView {
    FunctionDeclarationView { id: f.id, signature: f.signature }
}

/// The query that only a function of the same name and signature answers.
pub open spec fn own_query(f: FunctionView) -> FunctionQueryView {
    FunctionQueryView {
        id: f.id,
        inputs: f.signature.inputs,
        outputs: exact_slots(f.signature.outputs),
    }
}

/// The error for a function whose name and signature are declared already,
/// if they are.
pub open spec fn duplicate_errors(c: CheckerView, f: NodeView<FunctionView>) -> Seq<ErrorView> {
    if candidates(own_query(f.value), c.functions).len() > 0 {
        seq![
            ErrorView {
                pos: Some(f.pos()),
                message: duplicate_definition_text(f.value.id, f.value.signature.text()),
            },
        ]
    } else {
        Seq::empty()
    }
}

/// What the checker answers for a function, and the checker that the
/// function leaves behind: the arguments are bound, every statement is
/// checked, and the function is given back if there was no error.
pub open spec fn checked_function(c: CheckerView, f: NodeView<FunctionView>) -> (
    CheckerView,
    Result<TypedFunctionView, Seq<ErrorView>>,
) {
    let (after, statements, errors) = checked_body(
        c.insert_all(argument_variables(f.value.arguments)),
        f.value.statements,
        f.value.signature.outputs,
    );
    let all = duplicate_errors(c, f) + errors;
    (
        after,
        if all.len() > 0 {
            Err(all)
        } else {
            Ok(
                TypedFunctionView {
                    id: f.value.id,
                    arguments: argument_values(f.value.arguments),
                    statements,
                    signature: f.value.signature,
                },
            )
        },
    )
}

/// What the checker answers for the functions of a program: each is checked
/// in a scope of its own and then declared, and the checked functions and
/// the errors are gathered, each in the order of the functions.
pub open spec fn checked_functions(c: CheckerView, fs: Seq<NodeView<FunctionView>>) -> (
    CheckerView,
    Seq<TypedFunctionView>,
    Seq<ErrorView>,
)
    decreases fs.len(),
{
    if fs.len() == 0 {
        (c, Seq::empty(), Seq::empty())
    } else {
        let (before, typed, errors) = checked_functions(c, fs.drop_last());
        let (inner, result) = checked_function(before.enter(), fs.last());
        let after = inner.register(declared(fs.last().value)).exit();
        match result {
            Ok(t) => (after, typed.push(t), errors),
            Err(es) => (after, typed, errors + es),
        }
    }
}

/// The rule that a program has exactly one function `main`.
pub open spec fn checked_single_main(functions: Seq<FunctionDeclarationView>) -> Result<
    (),
    ErrorView,
> {
    let count = main_count(functions);
    if count == 1 {
        Ok(())
    } else if count == 0 {
        Err(ErrorView { pos: None, message: no_main_text() })
    } else {
        Err(ErrorView { pos: None, message: many_mains_text(count) })
    }
}

/// The errors of the rule that a program has exactly one function `main`.
pub open spec fn main_errors(functions: Seq<FunctionDeclarationView>) -> Seq<ErrorView> {
    match checked_single_main(functions) {
        Ok(_) => Seq::empty(),
        Err(e) => seq![e],
    }
}

/// The imports of a program without their places.
pub open spec fn import_values(imports: Seq<NodeView<ImportView>>) -> Seq<ImportView> {
    Seq::new(imports.len(), |i: int| imports[i].value)
}

/// What the checker answers for a program, and the checker that the program
/// leaves behind: the imported functions are declared, the functions are
/// checked in order, and there has to be exactly one `main`.
pub open spec fn checked_program(c: CheckerView, p: ProgView) -> (
    CheckerView,
    Result<TypedProgView, Seq<ErrorView>>,
) {
    let (after, functions, errors) = checked_functions(
        c.register_all(p.imported_functions),
        p.functions,
    );
    let all = errors + main_errors(after.functions);
    (
        after,
        if all.len() > 0 {
            Err(all)
        } else {
            Ok(
                TypedProgView {
                    functions,
                    imports: import_values(p.imports),
                    imported_functions: p.imported_functions,
                },
            )
        },
    )
}

/// Whether a statement is one that a parser hands over: no assignment to one
/// left-hand side has a call as its right-hand side, at any depth.
pub open spec fn well_formed_statement(s: NodeView<StatementView>) -> bool
    decreases s,
{
    match s.value {
        StatementView::Definition(_, e) => !(e.value is FunctionCall),
        StatementView::For(_, _, _, body) => well_formed_statements(body),
        _ => true,
    }
}

/// Whether each of the statements is one that a parser hands over.
pub open spec fn well_formed_statements(statements: Seq<NodeView<StatementView>>) -> bool
    decreases statements,
{
    forall|i: int|
        0 <= i < statements.len() ==> well_formed_statement(#[trigger] statements[i])
}

/// Whether a function is one that a parser hands over: it has as many
/// arguments as its signature has inputs, and its statements are well
/// formed.
pub open spec fn well_formed_function(f: FunctionView) -> bool {
    &&& f.arguments.len() == f.signature.inputs.len()
    &&& well_formed_statements(f.statements)
}

/// Whether a program is one that a parser hands over.
pub open spec fn well_formed_program(p: ProgView) -> bool {
    forall|i: int|
        0 <= i < p.functions.len() ==> well_formed_function((#[trigger] p.functions[i]).value)
}

} // verus!
