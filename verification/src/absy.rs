//! The untyped syntax tree: what a parser hands to the checker.
//!
//! Every node carries the place in the source text where it starts and ends.
//! Each type has a view that holds names as sequences of characters, lists as
//! sequences and constants as natural numbers.

use vstd::prelude::*;
use crate::field::FieldValue;
use crate::position::Position;
use crate::rules::FunctionDeclarationView;
use crate::semantics::FunctionDeclaration;
use crate::types::{Signature, SignatureView, Type};

verus! {

/// A value together with the places where it starts and ends.
#[derive(Debug, PartialEq, Eq)]
pub struct Node<T> {
    pub start: Position,
    pub end: Position,
    pub value: T,
}

/// The mathematical value of a node.
pub struct NodeView<V> {
    pub start: Position,
    pub end: Position,
    pub value: V,
}

impl<V> NodeView<V> {
    /// The places where the node starts and ends.
    pub open spec fn pos(self) -> (Position, Position) {
        (self.start, self.end)
    }
}

/// The view of a node whose value has the view `value`.
pub open spec fn node_view<T, V>(node: Node<T>, value: V) -> NodeView<V> {
    NodeView { start: node.start, end: node.end, value }
}

impl<T: View> View for Node<T> {
    type V = NodeView<T::V>;

    open spec fn view(&self) -> NodeView<T::V> {
        NodeView { start: self.start, end: self.end, value: self.value@ }
    }
}

impl<T> Node<T> {
    /// A value with the places where it starts and ends.
    pub fn new(start: Position, end: Position, value: T) -> (r: Node<T>)
        ensures
            r == (Node { start, end, value }),
    {
        Node { start, end, value }
    }

    /// The places where the node starts and ends.
    pub fn pos(&self) -> (r: (Position, Position))
        ensures
            r == (self.start, self.end),
    {
        (self.start, self.end)
    }
}

/// The views of the elements of a sequence.
pub open spec fn views<T: View>(items: Seq<T>) -> Seq<T::V> {
    Seq::new(items.len(), |i: int| items[i]@)
}

/// A name with its type.
#[derive(Debug, PartialEq, Eq, Hash)]
pub struct Variable {
    pub id: String,
    pub ty: Type,
}

/// The mathematical value of a variable.
pub struct VariableView {
    pub id: Seq<char>,
    pub ty: Type,
}

impl View for Variable {
    type V = VariableView;

    open spec fn view(&self) -> VariableView {
        VariableView { id: self.id@, ty: self.ty }
    }
}

impl Clone for Variable {
    fn clone(&self) -> (r: Variable)
        ensures
            r@ == self@,
    {
        Variable { id: self.id.clone(), ty: self.ty }
    }
}

impl Variable {
    /// A variable of a type.
    pub fn new(id: String, ty: Type) -> (r: Variable)
        ensures
            r@ == (VariableView { id: id@, ty }),
    {
        Variable { id, ty }
    }

    /// A variable that holds a field element.
    pub fn field_element(id: String) -> (r: Variable)
        ensures
            r@ == (VariableView { id: id@, ty: Type::FieldElement }),
    {
        Variable { id, ty: Type::FieldElement }
    }

    /// A variable that holds a boolean.
    pub fn boolean(id: String) -> (r: Variable)
        ensures
            r@ == (VariableView { id: id@, ty: Type::Boolean }),
    {
        Variable { id, ty: Type::Boolean }
    }

    /// A variable that holds an array of `size` field elements.
    pub fn field_array(id: String, size: usize) -> (r: Variable)
        ensures
            r@ == (VariableView { id: id@, ty: Type::FieldElementArray(size) }),
    {
        Variable { id, ty: Type::FieldElementArray(size) }
    }

    /// The type of the variable.
    pub fn get_type(&self) -> (r: Type)
        ensures
            r == self@.ty,
    {
        self.ty
    }
}

/// An argument of a function: a variable that is private or public.
#[derive(Debug, PartialEq, Eq)]
pub struct Parameter {
    pub id: Variable,
    pub private: bool,
}

/// The mathematical value of a parameter.
pub struct ParameterView {
    pub id: VariableView,
    pub private: bool,
}

impl View for Parameter {
    type V = ParameterView;

    open spec fn view(&self) -> ParameterView {
        ParameterView { id: self.id@, private: self.private }
    }
}

impl Clone for Parameter {
    fn clone(&self) -> (r: Parameter)
        ensures
            r@ == self@,
    {
        Parameter { id: self.id.clone(), private: self.private }
    }
}

/// A request to bring in the functions of another source file.
#[derive(Debug, PartialEq, Eq)]
pub struct Import {
    pub source: String,
    pub alias: Option<String>,
}

/// The mathematical value of an import.
pub struct ImportView {
    pub source: Seq<char>,
    pub alias: Option<Seq<char>>,
}

impl View for Import {
    type V = ImportView;

    open spec fn view(&self) -> ImportView {
        ImportView {
            source: self.source@,
            alias: match self.alias {
                Some(a) => Some(a@),
                None => None,
            },
        }
    }
}

impl Clone for Import {
    fn clone(&self) -> (r: Import)
        ensures
            r@ == self@,
    {
        let alias = match &self.alias {
            Some(a) => Some(a.clone()),
            None => None,
        };
        Import { source: self.source.clone(), alias }
    }
}

pub type VariableNode = Node<Variable>;

pub type ParameterNode = Node<Parameter>;

pub type ImportNode = Node<Import>;

pub type ExpressionNode = Node<Expression>;

pub type SpreadNode = Node<Spread>;

pub type RangeNode = Node<Range>;

pub type AssigneeNode = Node<Assignee>;

pub type ExpressionListNode = Node<ExpressionList>;

pub type StatementNode = Node<Statement>;

pub type FunctionNode = Node<Function>;

/// An expression as it was written.
#[derive(Debug, PartialEq, Eq)]
pub enum Expression {
    FieldConstant(FieldValue),
    BooleanConstant(bool),
    Identifier(String),
    Add(Box<ExpressionNode>, Box<ExpressionNode>),
    Sub(Box<ExpressionNode>, Box<ExpressionNode>),
    Mult(Box<ExpressionNode>, Box<ExpressionNode>),
    Div(Box<ExpressionNode>, Box<ExpressionNode>),
    Pow(Box<ExpressionNode>, Box<ExpressionNode>),
    IfElse(Box<ExpressionNode>, Box<ExpressionNode>, Box<ExpressionNode>),
    FunctionCall(String, Vec<ExpressionNode>),
    Lt(Box<ExpressionNode>, Box<ExpressionNode>),
    Le(Box<ExpressionNode>, Box<ExpressionNode>),
    Eq(Box<ExpressionNode>, Box<ExpressionNode>),
    Ge(Box<ExpressionNode>, Box<ExpressionNode>),
    Gt(Box<ExpressionNode>, Box<ExpressionNode>),
    And(Box<ExpressionNode>, Box<ExpressionNode>),
    Not(Box<ExpressionNode>),
    InlineArray(Vec<SpreadOrExpression>),
    Select(Box<ExpressionNode>, Box<RangeOrExpression>),
    Or(Box<ExpressionNode>, Box<ExpressionNode>),
}

/// An element of an inline array: one expression, or all the elements of an
/// array.
#[derive(Debug, PartialEq, Eq)]
pub enum SpreadOrExpression {
    Spread(SpreadNode),
    Expression(ExpressionNode),
}

/// All the elements of an array, in place of one element.
#[derive(Debug, PartialEq, Eq)]
pub struct Spread {
    pub expression: ExpressionNode,
}

/// What stands between the brackets of a selection: a range or an index.
#[derive(Debug, PartialEq, Eq)]
pub enum RangeOrExpression {
    Range(RangeNode),
    Expression(ExpressionNode),
}

/// A range of indices; a bound that is left out stands for the start or the
/// end of the array.
#[derive(Debug, PartialEq, Eq)]
pub struct Range {
    pub from: Option<FieldValue>,
    pub to: Option<FieldValue>,
}

/// The left-hand side of an assignment.
#[derive(Debug, PartialEq, Eq)]
pub enum Assignee {
    Identifier(String),
    ArrayElement(Box<AssigneeNode>, Box<RangeOrExpression>),
}

/// The expressions of a `return`.
#[derive(Debug, PartialEq, Eq)]
pub struct ExpressionList {
    pub expressions: Vec<ExpressionNode>,
}

/// A statement as it was written.
#[derive(Debug, PartialEq, Eq)]
pub enum Statement {
    Return(ExpressionListNode),
    Declaration(VariableNode),
    Definition(AssigneeNode, ExpressionNode),
    Condition(ExpressionNode, ExpressionNode),
    For(VariableNode, FieldValue, FieldValue, Vec<StatementNode>),
    MultipleDefinition(Vec<AssigneeNode>, ExpressionNode),
}

/// A function as it was written.
#[derive(Debug, PartialEq, Eq)]
pub struct Function {
    pub id: String,
    pub arguments: Vec<ParameterNode>,
    pub statements: Vec<StatementNode>,
    pub signature: Signature,
}

/// A program as it was written, with the declarations of the functions that
/// its imports bring in.
#[derive(Debug, PartialEq, Eq)]
pub struct Prog {
    pub functions: Vec<FunctionNode>,
    pub imports: Vec<ImportNode>,
    pub imported_functions: Vec<FunctionDeclaration>,
}

/// The mathematical value of an expression.
pub enum ExpressionView {
    FieldConstant(nat),
    BooleanConstant(bool),
    Identifier(Seq<char>),
    Add(Box<NodeView<ExpressionView>>, Box<NodeView<ExpressionView>>),
    Sub(Box<NodeView<ExpressionView>>, Box<NodeView<ExpressionView>>),
    Mult(Box<NodeView<ExpressionView>>, Box<NodeView<ExpressionView>>),
    Div(Box<NodeView<ExpressionView>>, Box<NodeView<ExpressionView>>),
    Pow(Box<NodeView<ExpressionView>>, Box<NodeView<ExpressionView>>),
    IfElse(
        Box<NodeView<ExpressionView>>,
        Box<NodeView<ExpressionView>>,
        Box<NodeView<ExpressionView>>,
    ),
    FunctionCall(Seq<char>, Seq<NodeView<ExpressionView>>),
    Lt(Box<NodeView<ExpressionView>>, Box<NodeView<ExpressionView>>),
    Le(Box<NodeView<ExpressionView>>, Box<NodeView<ExpressionView>>),
    Eq(Box<NodeView<ExpressionView>>, Box<NodeView<ExpressionView>>),
    Ge(Box<NodeView<ExpressionView>>, Box<NodeView<ExpressionView>>),
    Gt(Box<NodeView<ExpressionView>>, Box<NodeView<ExpressionView>>),
    And(Box<NodeView<ExpressionView>>, Box<NodeView<ExpressionView>>),
    Not(Box<NodeView<ExpressionView>>),
    InlineArray(Seq<SpreadOrExpressionView>),
    Select(Box<NodeView<ExpressionView>>, Box<RangeOrExpressionView>),
    Or(Box<NodeView<ExpressionView>>, Box<NodeView<ExpressionView>>),
}

/// The mathematical value of an element of an inline array.
pub enum SpreadOrExpressionView {
    Spread(NodeView<SpreadView>),
    Expression(NodeView<ExpressionView>),
}

/// The mathematical value of a spread.
pub struct SpreadView {
    pub expression: NodeView<ExpressionView>,
}

/// The mathematical value of a range or an index.
pub enum RangeOrExpressionView {
    Range(NodeView<RangeView>),
    Expression(NodeView<ExpressionView>),
}

/// The mathematical value of a range.
pub struct RangeView {
    pub from: Option<nat>,
    pub to: Option<nat>,
}

/// The mathematical value of the left-hand side of an assignment.
pub enum AssigneeView {
    Identifier(Seq<char>),
    ArrayElement(Box<NodeView<AssigneeView>>, Box<RangeOrExpressionView>),
}

/// The mathematical value of the expressions of a `return`.
pub struct ExpressionListView {
    pub expressions: Seq<NodeView<ExpressionView>>,
}

/// The mathematical value of a statement.
pub enum StatementView {
    Return(NodeView<ExpressionListView>),
    Declaration(NodeView<VariableView>),
    Definition(NodeView<AssigneeView>, NodeView<ExpressionView>),
    Condition(NodeView<ExpressionView>, NodeView<ExpressionView>),
    For(NodeView<VariableView>, nat, nat, Seq<NodeView<StatementView>>),
    MultipleDefinition(Seq<NodeView<AssigneeView>>, NodeView<ExpressionView>),
}

/// The mathematical value of a function.
pub struct FunctionView {
    pub id: Seq<char>,
    pub arguments: Seq<NodeView<ParameterView>>,
    pub statements: Seq<NodeView<StatementView>>,
    pub signature: SignatureView,
}

/// The mathematical value of a program.
pub struct ProgView {
    pub functions: Seq<NodeView<FunctionView>>,
    pub imports: Seq<NodeView<ImportView>>,
    pub imported_functions: Seq<FunctionDeclarationView>,
}

/// The view of an optional constant.
pub open spec fn bound_view(bound: Option<FieldValue>) -> Option<nat> {
    match bound {
        Some(v) => Some(v@),
        None => None,
    }
}

/// The view of a range.
pub open spec fn range_view(range: Range) -> RangeView {
    RangeView { from: bound_view(range.from), to: bound_view(range.to) }
}

/// The view of an expression.
pub open spec fn expression_view(e: Expression) -> ExpressionView
    decreases e,
{
    match e {
        Expression::FieldConstant(n) => ExpressionView::FieldConstant(n@),
        Expression::BooleanConstant(b) => ExpressionView::BooleanConstant(b),
        Expression::Identifier(name) => ExpressionView::Identifier(name@),
        Expression::Add(a, b) => ExpressionView::Add(
            Box::new(node_view(*a, expression_view(a.value))),
            Box::new(node_view(*b, expression_view(b.value))),
        ),
        Expression::Sub(a, b) => ExpressionView::Sub(
            Box::new(node_view(*a, expression_view(a.value))),
            Box::new(node_view(*b, expression_view(b.value))),
        ),
        Expression::Mult(a, b) => ExpressionView::Mult(
            Box::new(node_view(*a, expression_view(a.value))),
            Box::new(node_view(*b, expression_view(b.value))),
        ),
        Expression::Div(a, b) => ExpressionView::Div(
            Box::new(node_view(*a, expression_view(a.value))),
            Box::new(node_view(*b, expression_view(b.value))),
        ),
        Expression::Pow(a, b) => ExpressionView::Pow(
            Box::new(node_view(*a, expression_view(a.value))),
            Box::new(node_view(*b, expression_view(b.value))),
        ),
        Expression::IfElse(c, a, b) => ExpressionView::IfElse(
            Box::new(node_view(*c, expression_view(c.value))),
            Box::new(node_view(*a, expression_view(a.value))),
            Box::new(node_view(*b, expression_view(b.value))),
        ),
        Expression::FunctionCall(name, arguments) => ExpressionView::FunctionCall(
            name@,
            Seq::new(
                arguments@.len(),
                |i: int|
                    if 0 <= i < arguments@.len() {
                        node_view(arguments@[i], expression_view(arguments@[i].value))
                    } else {
                        arbitrary()
                    },
            ),
        ),
        Expression::Lt(a, b) => ExpressionView::Lt(
            Box::new(node_view(*a, expression_view(a.value))),
            Box::new(node_view(*b, expression_view(b.value))),
        ),
        Expression::Le(a, b) => ExpressionView::Le(
            Box::new(node_view(*a, expression_view(a.value))),
            Box::new(node_view(*b, expression_view(b.value))),
        ),
        Expression::Eq(a, b) => ExpressionView::Eq(
            Box::new(node_view(*a, expression_view(a.value))),
            Box::new(node_view(*b, expression_view(b.value))),
        ),
        Expression::Ge(a, b) => ExpressionView::Ge(
            Box::new(node_view(*a, expression_view(a.value))),
            Box::new(node_view(*b, expression_view(b.value))),
        ),
        Expression::Gt(a, b) => ExpressionView::Gt(
            Box::new(node_view(*a, expression_view(a.value))),
            Box::new(node_view(*b, expression_view(b.value))),
        ),
        Expression::And(a, b) => ExpressionView::And(
            Box::new(node_view(*a, expression_view(a.value))),
            Box::new(node_view(*b, expression_view(b.value))),
        ),
        Expression::Not(a) => ExpressionView::Not(
            Box::new(node_view(*a, expression_view(a.value))),
        ),
        Expression::InlineArray(items) => ExpressionView::InlineArray(
            Seq::new(
                items@.len(),
                |i: int|
                    if 0 <= i < items@.len() {
                        spread_or_expression_view(items@[i])
                    } else {
                        arbitrary()
                    },
            ),
        ),
        Expression::Select(a, index) => ExpressionView::Select(
            Box::new(node_view(*a, expression_view(a.value))),
            Box::new(range_or_expression_view(*index)),
        ),
        Expression::Or(a, b) => ExpressionView::Or(
            Box::new(node_view(*a, expression_view(a.value))),
            Box::new(node_view(*b, expression_view(b.value))),
        ),
    }
}

/// The view of an element of an inline array.
pub open spec fn spread_or_expression_view(item: SpreadOrExpression) -> SpreadOrExpressionView
    decreases item,
{
    match item {
        SpreadOrExpression::Spread(s) => SpreadOrExpressionView::Spread(
            node_view(
                s,
                SpreadView {
                    expression: node_view(
                        s.value.expression,
                        expression_view(s.value.expression.value),
                    ),
                },
            ),
        ),
        SpreadOrExpression::Expression(e) => SpreadOrExpressionView::Expression(
            node_view(e, expression_view(e.value)),
        ),
    }
}

/// The view of a range or an index.
pub open spec fn range_or_expression_view(index: RangeOrExpression) -> RangeOrExpressionView
    decreases index,
{
    match index {
        RangeOrExpression::Range(r) => RangeOrExpressionView::Range(
            node_view(r, range_view(r.value)),
        ),
        RangeOrExpression::Expression(e) => RangeOrExpressionView::Expression(
            node_view(e, expression_view(e.value)),
        ),
    }
}

/// The view of the left-hand side of an assignment.
pub open spec fn assignee_view(a: Assignee) -> AssigneeView
    decreases a,
{
    match a {
        Assignee::Identifier(name) => AssigneeView::Identifier(name@),
        Assignee::ArrayElement(base, index) => AssigneeView::ArrayElement(
            Box::new(node_view(*base, assignee_view(base.value))),
            Box::new(range_or_expression_view(*index)),
        ),
    }
}

/// The view of a statement.
pub open spec fn statement_view(s: Statement) -> StatementView
    decreases s,
{
    match s {
        Statement::Return(list) => StatementView::Return(
            node_view(list, ExpressionListView { expressions: views(list.value.expressions@) }),
        ),
        Statement::Declaration(v) => StatementView::Declaration(v@),
        Statement::Definition(a, e) => StatementView::Definition(a@, e@),
        Statement::Condition(l, r) => StatementView::Condition(l@, r@),
        Statement::For(v, from, to, body) => StatementView::For(
            v@,
            from@,
            to@,
            Seq::new(
                body@.len(),
                |i: int|
                    if 0 <= i < body@.len() {
                        node_view(body@[i], statement_view(body@[i].value))
                    } else {
                        arbitrary()
                    },
            ),
        ),
        Statement::MultipleDefinition(assignees, e) => StatementView::MultipleDefinition(
            views(assignees@),
            e@,
        ),
    }
}

/// A call has the views of its arguments.
pub proof fn lemma_call_view(name: String, arguments: Vec<ExpressionNode>)
    ensures
        Expression::FunctionCall(name, arguments)@ == ExpressionView::FunctionCall(
            name@,
            views(arguments@),
        ),
{
    assert(Expression::FunctionCall(name, arguments)@->FunctionCall_1 =~= views(arguments@));
}

/// An inline array has the views of its elements.
pub proof fn lemma_inline_array_view(items: Vec<SpreadOrExpression>)
    ensures
        Expression::InlineArray(items)@ == ExpressionView::InlineArray(views(items@)),
{
    assert(Expression::InlineArray(items)@->InlineArray_0 =~= views(items@));
}

/// A loop has the views of the statements of its body.
pub proof fn lemma_for_view(
    v: VariableNode,
    from: FieldValue,
    to: FieldValue,
    body: Vec<StatementNode>,
)
    ensures
        Statement::For(v, from, to, body)@ == StatementView::For(v@, from@, to@, views(body@)),
{
    assert(Statement::For(v, from, to, body)@->For_3 =~= views(body@));
}

impl View for Expression {
    type V = ExpressionView;

    open spec fn view(&self) -> ExpressionView {
        expression_view(*self)
    }
}

impl View for SpreadOrExpression {
    type V = SpreadOrExpressionView;

    open spec fn view(&self) -> SpreadOrExpressionView {
        spread_or_expression_view(*self)
    }
}

impl View for Spread {
    type V = SpreadView;

    open spec fn view(&self) -> SpreadView {
        SpreadView { expression: self.expression@ }
    }
}

impl View for RangeOrExpression {
    type V = RangeOrExpressionView;

    open spec fn view(&self) -> RangeOrExpressionView {
        range_or_expression_view(*self)
    }
}

impl View for Range {
    type V = RangeView;

    open spec fn view(&self) -> RangeView {
        range_view(*self)
    }
}

impl View for Assignee {
    type V = AssigneeView;

    open spec fn view(&self) -> AssigneeView {
        assignee_view(*self)
    }
}

impl View for ExpressionList {
    type V = ExpressionListView;

    open spec fn view(&self) -> ExpressionListView {
        ExpressionListView { expressions: views(self.expressions@) }
    }
}

impl View for Statement {
    type V = StatementView;

    open spec fn view(&self) -> StatementView {
        statement_view(*self)
    }
}

impl View for Function {
    type V = FunctionView;

    open spec fn view(&self) -> FunctionView {
        FunctionView {
            id: self.id@,
            arguments: views(self.arguments@),
            statements: views(self.statements@),
            signature: self.signature@,
        }
    }
}

impl View for Prog {
    type V = ProgView;

    open spec fn view(&self) -> ProgView {
        ProgView {
            functions: views(self.functions@),
            imports: views(self.imports@),
            imported_functions: views(self.imported_functions@),
        }
    }
}

} // verus!
