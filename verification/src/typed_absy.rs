//! The typed syntax tree: what the checker hands on.
//!
//! An expression is a field element, a boolean or an array of field elements,
//! and the variant it stands in says which. Each type has a view, as in the
//! untyped tree.

use vstd::prelude::*;
use crate::absy::{Import, ImportView, Parameter, ParameterView, Variable, VariableView, views};
use crate::field::FieldValue;
use crate::rules::FunctionDeclarationView;
use crate::semantics::FunctionDeclaration;
use crate::types::{Signature, SignatureView, Type};

verus! {

/// An expression with its type.
#[derive(Debug, PartialEq, Eq)]
pub enum TypedExpression {
    Boolean(BooleanExpression),
    FieldElement(FieldElementExpression),
    FieldElementArray(FieldElementArrayExpression),
}

/// An expression whose value is a field element.
#[derive(Debug, PartialEq, Eq)]
pub enum FieldElementExpression {
    Number(FieldValue),
    Identifier(String),
    Add(Box<FieldElementExpression>, Box<FieldElementExpression>),
    Sub(Box<FieldElementExpression>, Box<FieldElementExpression>),
    Mult(Box<FieldElementExpression>, Box<FieldElementExpression>),
    Div(Box<FieldElementExpression>, Box<FieldElementExpression>),
    Pow(Box<FieldElementExpression>, Box<FieldElementExpression>),
    IfElse(Box<BooleanExpression>, Box<FieldElementExpression>, Box<FieldElementExpression>),
    FunctionCall(String, Vec<TypedExpression>),
    Select(Box<FieldElementArrayExpression>, Box<FieldElementExpression>),
}

/// An expression whose value is a boolean.
#[derive(Debug, PartialEq, Eq)]
pub enum BooleanExpression {
    Identifier(String),
    Value(bool),
    Lt(Box<FieldElementExpression>, Box<FieldElementExpression>),
    Le(Box<FieldElementExpression>, Box<FieldElementExpression>),
    Eq(Box<FieldElementExpression>, Box<FieldElementExpression>),
    Ge(Box<FieldElementExpression>, Box<FieldElementExpression>),
    Gt(Box<FieldElementExpression>, Box<FieldElementExpression>),
    Or(Box<BooleanExpression>, Box<BooleanExpression>),
    And(Box<BooleanExpression>, Box<BooleanExpression>),
    Not(Box<BooleanExpression>),
    IfElse(Box<BooleanExpression>, Box<BooleanExpression>, Box<BooleanExpression>),
    FunctionCall(String, Vec<TypedExpression>),
}

/// An expression whose value is an array of field elements. Each variant but
/// the conditional carries the length of the array.
#[derive(Debug, PartialEq, Eq)]
pub enum FieldElementArrayExpression {
    Identifier(usize, String),
    Value(usize, Vec<FieldElementExpression>),
    FunctionCall(usize, String, Vec<TypedExpression>),
    IfElse(
        Box<BooleanExpression>,
        Box<FieldElementArrayExpression>,
        Box<FieldElementArrayExpression>,
    ),
}

/// The checked left-hand side of an assignment.
#[derive(Debug, PartialEq, Eq)]
pub enum TypedAssignee {
    Identifier(Variable),
    ArrayElement(Box<TypedAssignee>, Box<FieldElementExpression>),
}

/// An expression that yields several values: a call, with the types of what
/// it returns.
#[derive(Debug, PartialEq, Eq)]
pub enum TypedExpressionList {
    FunctionCall(String, Vec<TypedExpression>, Vec<Type>),
}

/// A checked statement.
#[derive(Debug, PartialEq, Eq)]
pub enum TypedStatement {
    Return(Vec<TypedExpression>),
    Definition(TypedAssignee, TypedExpression),
    Declaration(Variable),
    Condition(TypedExpression, TypedExpression),
    For(Variable, FieldValue, FieldValue, Vec<TypedStatement>),
    MultipleDefinition(Vec<Variable>, TypedExpressionList),
}

/// A checked function.
#[derive(Debug, PartialEq, Eq)]
pub struct TypedFunction {
    pub id: String,
    pub arguments: Vec<Parameter>,
    pub statements: Vec<TypedStatement>,
    pub signature: Signature,
}

/// A checked program.
#[derive(Debug, PartialEq, Eq)]
pub struct TypedProg {
    pub functions: Vec<TypedFunction>,
    pub imports: Vec<Import>,
    pub imported_functions: Vec<FunctionDeclaration>,
}

/// The mathematical value of a typed expression.
pub enum TypedExpressionView {
    Boolean(BooleanExpressionView),
    FieldElement(FieldElementExpressionView),
    FieldElementArray(FieldElementArrayExpressionView),
}

/// The mathematical value of a field element expression.
pub enum FieldElementExpressionView {
    Number(nat),
    Identifier(Seq<char>),
    Add(Box<FieldElementExpressionView>, Box<FieldElementExpressionView>),
    Sub(Box<FieldElementExpressionView>, Box<FieldElementExpressionView>),
    Mult(Box<FieldElementExpressionView>, Box<FieldElementExpressionView>),
    Div(Box<FieldElementExpressionView>, Box<FieldElementExpressionView>),
    Pow(Box<FieldElementExpressionView>, Box<FieldElementExpressionView>),
    IfElse(
        Box<BooleanExpressionView>,
        Box<FieldElementExpressionView>,
        Box<FieldElementExpressionView>,
    ),
    FunctionCall(Seq<char>, Seq<TypedExpressionView>),
    Select(Box<FieldElementArrayExpressionView>, Box<FieldElementExpressionView>),
}

/// The mathematical value of a boolean expression.
pub enum BooleanExpressionView {
    Identifier(Seq<char>),
    Value(bool),
    Lt(Box<FieldElementExpressionView>, Box<FieldElementExpressionView>),
    Le(Box<FieldElementExpressionView>, Box<FieldElementExpressionView>),
    Eq(Box<FieldElementExpressionView>, Box<FieldElementExpressionView>),
    Ge(Box<FieldElementExpressionView>, Box<FieldElementExpressionView>),
    Gt(Box<FieldElementExpressionView>, Box<FieldElementExpressionView>),
    Or(Box<BooleanExpressionView>, Box<BooleanExpressionView>),
    And(Box<BooleanExpressionView>, Box<BooleanExpressionView>),
    Not(Box<BooleanExpressionView>),
    IfElse(Box<BooleanExpressionView>, Box<BooleanExpressionView>, Box<BooleanExpressionView>),
    FunctionCall(Seq<char>, Seq<TypedExpressionView>),
}

/// The mathematical value of an array expression.
pub enum FieldElementArrayExpressionView {
    Identifier(usize, Seq<char>),
    Value(usize, Seq<FieldElementExpressionView>),
    FunctionCall(usize, Seq<char>, Seq<TypedExpressionView>),
    IfElse(
        Box<BooleanExpressionView>,
        Box<FieldElementArrayExpressionView>,
        Box<FieldElementArrayExpressionView>,
    ),
}

/// The mathematical value of a checked left-hand side.
pub enum TypedAssigneeView {
    Identifier(VariableView),
    ArrayElement(Box<TypedAssigneeView>, Box<FieldElementExpressionView>),
}

/// The mathematical value of a call that yields several values.
pub enum TypedExpressionListView {
    FunctionCall(Seq<char>, Seq<TypedExpressionView>, Seq<Type>),
}

/// The mathematical value of a checked statement.
pub enum TypedStatementView {
    Return(Seq<TypedExpressionView>),
    Definition(TypedAssigneeView, TypedExpressionView),
    Declaration(VariableView),
    Condition(TypedExpressionView, TypedExpressionView),
    For(VariableView, nat, nat, Seq<TypedStatementView>),
    MultipleDefinition(Seq<VariableView>, TypedExpressionListView),
}

/// The mathematical value of a checked function.
pub struct TypedFunctionView {
    pub id: Seq<char>,
    pub arguments: Seq<ParameterView>,
    pub statements: Seq<TypedStatementView>,
    pub signature: SignatureView,
}

/// The mathematical value of a checked program.
pub struct TypedProgView {
    pub functions: Seq<TypedFunctionView>,
    pub imports: Seq<ImportView>,
    pub imported_functions: Seq<FunctionDeclarationView>,
}

/// The view of a typed expression.
pub open spec fn typed_expression_view(e: TypedExpression) -> TypedExpressionView
    decreases e,
{
    match e {
        TypedExpression::Boolean(b) => TypedExpressionView::Boolean(boolean_view(b)),
        TypedExpression::FieldElement(f) => TypedExpressionView::FieldElement(field_view(f)),
        TypedExpression::FieldElementArray(a) => TypedExpressionView::FieldElementArray(
            array_view(a),
        ),
    }
}

/// The view of a field element expression.
pub open spec fn field_view(e: FieldElementExpression) -> FieldElementExpressionView
    decreases e,
{
    match e {
        FieldElementExpression::Number(n) => FieldElementExpressionView::Number(n@),
        FieldElementExpression::Identifier(name) => FieldElementExpressionView::Identifier(name@),
        FieldElementExpression::Add(a, b) => FieldElementExpressionView::Add(
            Box::new(field_view(*a)),
            Box::new(field_view(*b)),
        ),
        FieldElementExpression::Sub(a, b) => FieldElementExpressionView::Sub(
            Box::new(field_view(*a)),
            Box::new(field_view(*b)),
        ),
        FieldElementExpression::Mult(a, b) => FieldElementExpressionView::Mult(
            Box::new(field_view(*a)),
            Box::new(field_view(*b)),
        ),
        FieldElementExpression::Div(a, b) => FieldElementExpressionView::Div(
            Box::new(field_view(*a)),
            Box::new(field_view(*b)),
        ),
        FieldElementExpression::Pow(a, b) => FieldElementExpressionView::Pow(
            Box::new(field_view(*a)),
            Box::new(field_view(*b)),
        ),
        FieldElementExpression::IfElse(c, a, b) => FieldElementExpressionView::IfElse(
            Box::new(boolean_view(*c)),
            Box::new(field_view(*a)),
            Box::new(field_view(*b)),
        ),
        FieldElementExpression::FunctionCall(name, arguments) => {
            FieldElementExpressionView::FunctionCall(
                name@,
                Seq::new(
                    arguments@.len(),
                    |i: int|
                        if 0 <= i < arguments@.len() {
                            typed_expression_view(arguments@[i])
                        } else {
                            arbitrary()
                        },
                ),
            )
        },
        FieldElementExpression::Select(a, i) => FieldElementExpressionView::Select(
            Box::new(array_view(*a)),
            Box::new(field_view(*i)),
        ),
    }
}

/// The view of a boolean expression.
pub open spec fn boolean_view(e: BooleanExpression) -> BooleanExpressionView
    decreases e,
{
    match e {
        BooleanExpression::Identifier(name) => BooleanExpressionView::Identifier(name@),
        BooleanExpression::Value(b) => BooleanExpressionView::Value(b),
        BooleanExpression::Lt(a, b) => BooleanExpressionView::Lt(
            Box::new(field_view(*a)),
            Box::new(field_view(*b)),
        ),
        BooleanExpression::Le(a, b) => BooleanExpressionView::Le(
            Box::new(field_view(*a)),
            Box::new(field_view(*b)),
        ),
        BooleanExpression::Eq(a, b) => BooleanExpressionView::Eq(
            Box::new(field_view(*a)),
            Box::new(field_view(*b)),
        ),
        BooleanExpression::Ge(a, b) => BooleanExpressionView::Ge(
            Box::new(field_view(*a)),
            Box::new(field_view(*b)),
        ),
        BooleanExpression::Gt(a, b) => BooleanExpressionView::Gt(
            Box::new(field_view(*a)),
            Box::new(field_view(*b)),
        ),
        BooleanExpression::Or(a, b) => BooleanExpressionView::Or(
            Box::new(boolean_view(*a)),
            Box::new(boolean_view(*b)),
        ),
        BooleanExpression::And(a, b) => BooleanExpressionView::And(
            Box::new(boolean_view(*a)),
            Box::new(boolean_view(*b)),
        ),
        BooleanExpression::Not(a) => BooleanExpressionView::Not(Box::new(boolean_view(*a))),
        BooleanExpression::IfElse(c, a, b) => BooleanExpressionView::IfElse(
            Box::new(boolean_view(*c)),
            Box::new(boolean_view(*a)),
            Box::new(boolean_view(*b)),
        ),
        BooleanExpression::FunctionCall(name, arguments) => BooleanExpressionView::FunctionCall(
            name@,
            Seq::new(
                arguments@.len(),
                |i: int|
                    if 0 <= i < arguments@.len() {
                        typed_expression_view(arguments@[i])
                    } else {
                        arbitrary()
                    },
            ),
        ),
    }
}

/// The view of an array expression.
pub open spec fn array_view(e: FieldElementArrayExpression) -> FieldElementArrayExpressionView
    decreases e,
{
    match e {
        FieldElementArrayExpression::Identifier(size, name) => {
            FieldElementArrayExpressionView::Identifier(size, name@)
        },
        FieldElementArrayExpression::Value(size, values) => FieldElementArrayExpressionView::Value(
            size,
            Seq::new(
                values@.len(),
                |i: int|
                    if 0 <= i < values@.len() {
                        field_view(values@[i])
                    } else {
                        arbitrary()
                    },
            ),
        ),
        FieldElementArrayExpression::FunctionCall(size, name, arguments) => {
            FieldElementArrayExpressionView::FunctionCall(
                size,
                name@,
                Seq::new(
                    arguments@.len(),
                    |i: int|
                        if 0 <= i < arguments@.len() {
                            typed_expression_view(arguments@[i])
                        } else {
                            arbitrary()
                        },
                ),
            )
        },
        FieldElementArrayExpression::IfElse(c, a, b) => FieldElementArrayExpressionView::IfElse(
            Box::new(boolean_view(*c)),
            Box::new(array_view(*a)),
            Box::new(array_view(*b)),
        ),
    }
}

/// The view of a checked left-hand side.
pub open spec fn typed_assignee_view(a: TypedAssignee) -> TypedAssigneeView
    decreases a,
{
    match a {
        TypedAssignee::Identifier(v) => TypedAssigneeView::Identifier(v@),
        TypedAssignee::ArrayElement(base, index) => TypedAssigneeView::ArrayElement(
            Box::new(typed_assignee_view(*base)),
            Box::new(field_view(*index)),
        ),
    }
}

/// The view of a checked statement.
pub open spec fn typed_statement_view(s: TypedStatement) -> TypedStatementView
    decreases s,
{
    match s {
        TypedStatement::Return(es) => TypedStatementView::Return(views(es@)),
        TypedStatement::Definition(a, e) => TypedStatementView::Definition(a@, e@),
        TypedStatement::Declaration(v) => TypedStatementView::Declaration(v@),
        TypedStatement::Condition(l, r) => TypedStatementView::Condition(l@, r@),
        TypedStatement::For(v, from, to, body) => TypedStatementView::For(
            v@,
            from@,
            to@,
            Seq::new(
                body@.len(),
                |i: int|
                    if 0 <= i < body@.len() {
                        typed_statement_view(body@[i])
                    } else {
                        arbitrary()
                    },
            ),
        ),
        TypedStatement::MultipleDefinition(vs, call) => TypedStatementView::MultipleDefinition(
            views(vs@),
            call@,
        ),
    }
}

impl View for TypedExpression {
    type V = TypedExpressionView;

    open spec fn view(&self) -> TypedExpressionView {
        typed_expression_view(*self)
    }
}

impl View for FieldElementExpression {
    type V = FieldElementExpressionView;

    open spec fn view(&self) -> FieldElementExpressionView {
        field_view(*self)
    }
}

impl View for BooleanExpression {
    type V = BooleanExpressionView;

    open spec fn view(&self) -> BooleanExpressionView {
        boolean_view(*self)
    }
}

impl View for FieldElementArrayExpression {
    type V = FieldElementArrayExpressionView;

    open spec fn view(&self) -> FieldElementArrayExpressionView {
        array_view(*self)
    }
}

impl View for TypedAssignee {
    type V = TypedAssigneeView;

    open spec fn view(&self) -> TypedAssigneeView {
        typed_assignee_view(*self)
    }
}

impl View for TypedExpressionList {
    type V = TypedExpressionListView;

    open spec fn view(&self) -> TypedExpressionListView {
        match self {
            TypedExpressionList::FunctionCall(name, arguments, types) => {
                TypedExpressionListView::FunctionCall(name@, views(arguments@), types@)
            },
        }
    }
}

impl View for TypedStatement {
    type V = TypedStatementView;

    open spec fn view(&self) -> TypedStatementView {
        typed_statement_view(*self)
    }
}

impl View for TypedFunction {
    type V = TypedFunctionView;

    open spec fn view(&self) -> TypedFunctionView {
        TypedFunctionView {
            id: self.id@,
            arguments: views(self.arguments@),
            statements: views(self.statements@),
            signature: self.signature@,
        }
    }
}

impl View for TypedProg {
    type V = TypedProgView;

    open spec fn view(&self) -> TypedProgView {
        TypedProgView {
            functions: views(self.functions@),
            imports: views(self.imports@),
            imported_functions: views(self.imported_functions@),
        }
    }
}

impl FieldElementArrayExpressionView {
    /// The length of the array.
    pub open spec fn size(self) -> usize
        decreases self,
    {
        match self {
            FieldElementArrayExpressionView::Identifier(size, _) => size,
            FieldElementArrayExpressionView::Value(size, _) => size,
            FieldElementArrayExpressionView::FunctionCall(size, _, _) => size,
            FieldElementArrayExpressionView::IfElse(_, consequence, _) => consequence.size(),
        }
    }
}

impl TypedExpressionView {
    /// The type of the expression.
    pub open spec fn get_type(self) -> Type {
        match self {
            TypedExpressionView::Boolean(_) => Type::Boolean,
            TypedExpressionView::FieldElement(_) => Type::FieldElement,
            TypedExpressionView::FieldElementArray(a) => Type::FieldElementArray(a.size()),
        }
    }
}

impl TypedAssigneeView {
    /// The type of what is assigned to: that of the variable, or a field
    /// element for an element of an array.
    pub open spec fn get_type(self) -> Type {
        match self {
            TypedAssigneeView::Identifier(v) => v.ty,
            TypedAssigneeView::ArrayElement(_, _) => Type::FieldElement,
        }
    }
}

/// The types of a sequence of typed expressions.
pub open spec fn expression_types(es: Seq<TypedExpressionView>) -> Seq<Type> {
    Seq::new(es.len(), |i: int| es[i].get_type())
}

/// A field element call has the views of its arguments.
pub proof fn lemma_field_call_view(name: String, arguments: Vec<TypedExpression>)
    ensures
        FieldElementExpression::FunctionCall(name, arguments)@
            == FieldElementExpressionView::FunctionCall(name@, views(arguments@)),
{
    assert(FieldElementExpression::FunctionCall(name, arguments)@->FunctionCall_1 =~= views(
        arguments@,
    ));
}

/// A boolean call has the views of its arguments.
pub proof fn lemma_boolean_call_view(name: String, arguments: Vec<TypedExpression>)
    ensures
        BooleanExpression::FunctionCall(name, arguments)@ == BooleanExpressionView::FunctionCall(
            name@,
            views(arguments@),
        ),
{
    assert(BooleanExpression::FunctionCall(name, arguments)@->FunctionCall_1 =~= views(
        arguments@,
    ));
}

/// An array call has the views of its arguments.
pub proof fn lemma_array_call_view(size: usize, name: String, arguments: Vec<TypedExpression>)
    ensures
        FieldElementArrayExpression::FunctionCall(size, name, arguments)@
            == FieldElementArrayExpressionView::FunctionCall(size, name@, views(arguments@)),
{
    assert(FieldElementArrayExpression::FunctionCall(size, name, arguments)@->FunctionCall_2
        =~= views(arguments@));
}

/// An array value has the views of its elements.
pub proof fn lemma_array_value_view(size: usize, values: Vec<FieldElementExpression>)
    ensures
        FieldElementArrayExpression::Value(size, values)@ == FieldElementArrayExpressionView::Value(
            size,
            views(values@),
        ),
{
    assert(FieldElementArrayExpression::Value(size, values)@->Value_1 =~= views(values@));
}

/// A checked loop has the views of the statements of its body.
pub proof fn lemma_typed_for_view(
    v: Variable,
    from: FieldValue,
    to: FieldValue,
    body: Vec<TypedStatement>,
)
    ensures
        TypedStatement::For(v, from, to, body)@ == TypedStatementView::For(
            v@,
            from@,
            to@,
            views(body@),
        ),
{
    assert(TypedStatement::For(v, from, to, body)@->For_3 =~= views(body@));
}

/// A copy of a list of typed expressions.
pub fn copy_typed_expressions(es: &Vec<TypedExpression>) -> (r: Vec<TypedExpression>)
    ensures
        views(r@) == views(es@),
    decreases es,
{
    let mut out: Vec<TypedExpression> = Vec::new();
    let mut i: usize = 0;
    while i < es.len()
        invariant
            i <= es.len(),
            out@.len() == i,
            forall|j: int| 0 <= j < i ==> (#[trigger] out@[j])@ == es@[j]@,
        decreases es.len() - i,
    {
        let e = copy_typed_expression(&es[i]);
        out.push(e);
        i += 1;
    }
    proof {
        assert(views(out@) =~= views(es@));
    }
    out
}

/// A copy of a list of field element expressions.
pub fn copy_field_expressions(es: &Vec<FieldElementExpression>) -> (r: Vec<FieldElementExpression>)
    ensures
        views(r@) == views(es@),
    decreases es,
{
    let mut out: Vec<FieldElementExpression> = Vec::new();
    let mut i: usize = 0;
    while i < es.len()
        invariant
            i <= es.len(),
            out@.len() == i,
            forall|j: int| 0 <= j < i ==> (#[trigger] out@[j])@ == es@[j]@,
        decreases es.len() - i,
    {
        let e = copy_field_expression(&es[i]);
        out.push(e);
        i += 1;
    }
    proof {
        assert(views(out@) =~= views(es@));
    }
    out
}

/// A copy of a typed expression.
pub fn copy_typed_expression(e: &TypedExpression) -> (r: TypedExpression)
    ensures
        r@ == e@,
    decreases e,
{
    match e {
        TypedExpression::Boolean(b) => TypedExpression::Boolean(copy_boolean_expression(b)),
        TypedExpression::FieldElement(f) => TypedExpression::FieldElement(
            copy_field_expression(f),
        ),
        TypedExpression::FieldElementArray(a) => TypedExpression::FieldElementArray(
            copy_array_expression(a),
        ),
    }
}

/// A copy of a field element expression.
pub fn copy_field_expression(e: &FieldElementExpression) -> (r: FieldElementExpression)
    ensures
        r@ == e@,
    decreases e,
{
    match e {
        FieldElementExpression::Number(n) => FieldElementExpression::Number(n.clone()),
        FieldElementExpression::Identifier(name) => FieldElementExpression::Identifier(
            name.clone(),
        ),
        FieldElementExpression::Add(a, b) => FieldElementExpression::Add(
            Box::new(copy_field_expression(a)),
            Box::new(copy_field_expression(b)),
        ),
        FieldElementExpression::Sub(a, b) => FieldElementExpression::Sub(
            Box::new(copy_field_expression(a)),
            Box::new(copy_field_expression(b)),
        ),
        FieldElementExpression::Mult(a, b) => FieldElementExpression::Mult(
            Box::new(copy_field_expression(a)),
            Box::new(copy_field_expression(b)),
        ),
        FieldElementExpression::Div(a, b) => FieldElementExpression::Div(
            Box::new(copy_field_expression(a)),
            Box::new(copy_field_expression(b)),
        ),
        FieldElementExpression::Pow(a, b) => FieldElementExpression::Pow(
            Box::new(copy_field_expression(a)),
            Box::new(copy_field_expression(b)),
        ),
        FieldElementExpression::IfElse(c, a, b) => FieldElementExpression::IfElse(
            Box::new(copy_boolean_expression(c)),
            Box::new(copy_field_expression(a)),
            Box::new(copy_field_expression(b)),
        ),
        FieldElementExpression::FunctionCall(name, arguments) => {
            let copies = copy_typed_expressions(arguments);
            let id = name.clone();
            proof {
                lemma_field_call_view(*name, *arguments);
                lemma_field_call_view(id, copies);
            }
            FieldElementExpression::FunctionCall(id, copies)
        },
        FieldElementExpression::Select(a, i) => FieldElementExpression::Select(
            Box::new(copy_array_expression(a)),
            Box::new(copy_field_expression(i)),
        ),
    }
}

/// A copy of a boolean expression.
pub fn copy_boolean_expression(e: &BooleanExpression) -> (r: BooleanExpression)
    ensures
        r@ == e@,
    decreases e,
{
    match e {
        BooleanExpression::Identifier(name) => BooleanExpression::Identifier(name.clone()),
        BooleanExpression::Value(b) => BooleanExpression::Value(*b),
        BooleanExpression::Lt(a, b) => BooleanExpression::Lt(
            Box::new(copy_field_expression(a)),
            Box::new(copy_field_expression(b)),
        ),
        BooleanExpression::Le(a, b) => BooleanExpression::Le(
            Box::new(copy_field_expression(a)),
            Box::new(copy_field_expression(b)),
        ),
        BooleanExpression::Eq(a, b) => BooleanExpression::Eq(
            Box::new(copy_field_expression(a)),
            Box::new(copy_field_expression(b)),
        ),
        BooleanExpression::Ge(a, b) => BooleanExpression::Ge(
            Box::new(copy_field_expression(a)),
            Box::new(copy_field_expression(b)),
        ),
        BooleanExpression::Gt(a, b) => BooleanExpression::Gt(
            Box::new(copy_field_expression(a)),
            Box::new(copy_field_expression(b)),
        ),
        BooleanExpression::Or(a, b) => BooleanExpression::Or(
            Box::new(copy_boolean_expression(a)),
            Box::new(copy_boolean_expression(b)),
        ),
        BooleanExpression::And(a, b) => BooleanExpression::And(
            Box::new(copy_boolean_expression(a)),
            Box::new(copy_boolean_expression(b)),
        ),
        BooleanExpression::Not(a) => BooleanExpression::Not(Box::new(copy_boolean_expression(a))),
        BooleanExpression::IfElse(c, a, b) => BooleanExpression::IfElse(
            Box::new(copy_boolean_expression(c)),
            Box::new(copy_boolean_expression(a)),
            Box::new(copy_boolean_expression(b)),
        ),
        BooleanExpression::FunctionCall(name, arguments) => {
            let copies = copy_typed_expressions(arguments);
            let id = name.clone();
            proof {
                lemma_boolean_call_view(*name, *arguments);
                lemma_boolean_call_view(id, copies);
            }
            BooleanExpression::FunctionCall(id, copies)
        },
    }
}

/// A copy of an array expression.
pub fn copy_array_expression(e: &FieldElementArrayExpression) -> (r: FieldElementArrayExpression)
    ensures
        r@ == e@,
    decreases e,
{
    match e {
        FieldElementArrayExpression::Identifier(size, name) => {
            FieldElementArrayExpression::Identifier(*size, name.clone())
        },
        FieldElementArrayExpression::Value(size, values) => {
            let copies = copy_field_expressions(values);
            proof {
                lemma_array_value_view(*size, *values);
                lemma_array_value_view(*size, copies);
            }
            FieldElementArrayExpression::Value(*size, copies)
        },
        FieldElementArrayExpression::FunctionCall(size, name, arguments) => {
            let copies = copy_typed_expressions(arguments);
            let id = name.clone();
            proof {
                lemma_array_call_view(*size, *name, *arguments);
                lemma_array_call_view(*size, id, copies);
            }
            FieldElementArrayExpression::FunctionCall(*size, id, copies)
        },
        FieldElementArrayExpression::IfElse(c, a, b) => FieldElementArrayExpression::IfElse(
            Box::new(copy_boolean_expression(c)),
            Box::new(copy_array_expression(a)),
            Box::new(copy_array_expression(b)),
        ),
    }
}

impl Clone for TypedExpression {
    fn clone(&self) -> (r: TypedExpression)
        ensures
            r@ == self@,
    {
        copy_typed_expression(self)
    }
}

impl Clone for FieldElementExpression {
    fn clone(&self) -> (r: FieldElementExpression)
        ensures
            r@ == self@,
    {
        copy_field_expression(self)
    }
}

impl Clone for BooleanExpression {
    fn clone(&self) -> (r: BooleanExpression)
        ensures
            r@ == self@,
    {
        copy_boolean_expression(self)
    }
}

impl Clone for FieldElementArrayExpression {
    fn clone(&self) -> (r: FieldElementArrayExpression)
        ensures
            r@ == self@,
    {
        copy_array_expression(self)
    }
}

impl FieldElementArrayExpression {
    /// The length of the array.
    pub fn size(&self) -> (r: usize)
        ensures
            r == self@.size(),
        decreases self,
    {
        match self {
            FieldElementArrayExpression::Identifier(size, _) => *size,
            FieldElementArrayExpression::Value(size, _) => *size,
            FieldElementArrayExpression::FunctionCall(size, _, _) => *size,
            FieldElementArrayExpression::IfElse(_, consequence, _) => consequence.size(),
        }
    }
}

impl TypedExpression {
    /// The type of the expression.
    pub fn get_type(&self) -> (r: Type)
        ensures
            r == self@.get_type(),
    {
        match self {
            TypedExpression::Boolean(_) => Type::Boolean,
            TypedExpression::FieldElement(_) => Type::FieldElement,
            TypedExpression::FieldElementArray(a) => Type::FieldElementArray(a.size()),
        }
    }
}

impl TypedAssignee {
    /// The type of what is assigned to.
    pub fn get_type(&self) -> (r: Type)
        ensures
            r == self@.get_type(),
    {
        match self {
            TypedAssignee::Identifier(v) => v.get_type(),
            TypedAssignee::ArrayElement(_, _) => Type::FieldElement,
        }
    }
}

} // verus!
