//! The flat syntax tree: functions after the types are gone. Variables are
//! numbers, and statements are equality constraints, definitions, directives
//! and returns.

use vstd::prelude::*;
use crate::absy::views;
use crate::field::FieldValue;
use crate::types::{Signature, SignatureView};

verus! {

/// A variable of a flat function, known by its number.
#[derive(Clone, Copy, Debug, PartialEq, Eq, Hash, Structural)]
pub struct FlatVariable {
    pub id: usize,
}

impl FlatVariable {
    /// The variable with a number.
    pub fn new(id: usize) -> (r: FlatVariable)
        ensures
            r == (FlatVariable { id }),
    {
        FlatVariable { id }
    }
}

/// An argument of a flat function.
#[derive(Clone, Copy, Debug, PartialEq, Eq, Hash, Structural)]
pub struct FlatParameter {
    pub id: FlatVariable,
    pub private: bool,
}

impl FlatParameter {
    /// A private argument.
    pub fn private(v: FlatVariable) -> (r: FlatParameter)
        ensures
            r == (FlatParameter { id: v, private: true }),
    {
        FlatParameter { id: v, private: true }
    }

    /// A public argument.
    pub fn public(v: FlatVariable) -> (r: FlatParameter)
        ensures
            r == (FlatParameter { id: v, private: false }),
    {
        FlatParameter { id: v, private: false }
    }
}

/// An expression over the variables of a flat function.
#[derive(Debug, PartialEq, Eq)]
pub enum FlatExpression {
    Number(FieldValue),
    Identifier(FlatVariable),
    Add(Box<FlatExpression>, Box<FlatExpression>),
    Sub(Box<FlatExpression>, Box<FlatExpression>),
    Mult(Box<FlatExpression>, Box<FlatExpression>),
}

/// The expressions of a `return`.
#[derive(Debug, PartialEq, Eq)]
pub struct FlatExpressionList {
    pub expressions: Vec<FlatExpression>,
}

/// A helper that computes the outputs of a directive when a witness is
/// made.
#[derive(Clone, Copy, Debug, PartialEq, Eq, Hash, Structural)]
pub enum Helper {
    /// The bits of a field element, most significant first.
    Bits,
}

impl Helper {
    /// The helper that gives the bits of a field element.
    pub fn bits() -> (r: Helper)
        ensures
            r == Helper::Bits,
    {
        Helper::Bits
    }
}

/// A hint for the making of a witness: the helper computes the outputs from
/// the inputs. It constrains nothing.
#[derive(Debug, PartialEq, Eq)]
pub struct DirectiveStatement {
    pub inputs: Vec<FlatExpression>,
    pub outputs: Vec<FlatVariable>,
    pub helper: Helper,
}

/// A statement of a flat function.
#[derive(Debug, PartialEq, Eq)]
pub enum FlatStatement {
    Return(FlatExpressionList),
    Condition(FlatExpression, FlatExpression),
    Definition(FlatVariable, FlatExpression),
    Directive(DirectiveStatement),
}

/// A flat function.
#[derive(Debug, PartialEq, Eq)]
pub struct FlatFunction {
    pub id: String,
    pub arguments: Vec<FlatParameter>,
    pub statements: Vec<FlatStatement>,
    pub signature: Signature,
}

/// A flat program.
#[derive(Debug, PartialEq, Eq)]
pub struct FlatProg {
    pub functions: Vec<FlatFunction>,
}

/// The mathematical value of a flat expression.
pub enum FlatExpressionView {
    Number(nat),
    Identifier(FlatVariable),
    Add(Box<FlatExpressionView>, Box<FlatExpressionView>),
    Sub(Box<FlatExpressionView>, Box<FlatExpressionView>),
    Mult(Box<FlatExpressionView>, Box<FlatExpressionView>),
}

/// The mathematical value of a directive.
pub struct DirectiveStatementView {
    pub inputs: Seq<FlatExpressionView>,
    pub outputs: Seq<FlatVariable>,
    pub helper: Helper,
}

/// The mathematical value of a flat statement.
pub enum FlatStatementView {
    Return(Seq<FlatExpressionView>),
    Condition(FlatExpressionView, FlatExpressionView),
    Definition(FlatVariable, FlatExpressionView),
    Directive(DirectiveStatementView),
}

/// The mathematical value of a flat function.
pub struct FlatFunctionView {
    pub id: Seq<char>,
    pub arguments: Seq<FlatParameter>,
    pub statements: Seq<FlatStatementView>,
    pub signature: SignatureView,
}

/// The mathematical value of a flat program.
pub struct FlatProgView {
    pub functions: Seq<FlatFunctionView>,
}

/// The view of a flat expression.
pub open spec fn flat_expression_view(e: FlatExpression) -> FlatExpressionView
    decreases e,
{
    match e {
        FlatExpression::Number(n) => FlatExpressionView::Number(n@),
        FlatExpression::Identifier(v) => FlatExpressionView::Identifier(v),
        FlatExpression::Add(a, b) => FlatExpressionView::Add(
            Box::new(flat_expression_view(*a)),
            Box::new(flat_expression_view(*b)),
        ),
        FlatExpression::Sub(a, b) => FlatExpressionView::Sub(
            Box::new(flat_expression_view(*a)),
            Box::new(flat_expression_view(*b)),
        ),
        FlatExpression::Mult(a, b) => FlatExpressionView::Mult(
            Box::new(flat_expression_view(*a)),
            Box::new(flat_expression_view(*b)),
        ),
    }
}

impl View for FlatExpression {
    type V = FlatExpressionView;

    open spec fn view(&self) -> FlatExpressionView {
        flat_expression_view(*self)
    }
}

impl View for FlatExpressionList {
    type V = Seq<FlatExpressionView>;

    open spec fn view(&self) -> Seq<FlatExpressionView> {
        views(self.expressions@)
    }
}

impl View for DirectiveStatement {
    type V = DirectiveStatementView;

    open spec fn view(&self) -> DirectiveStatementView {
        DirectiveStatementView {
            inputs: views(self.inputs@),
            outputs: self.outputs@,
            helper: self.helper,
        }
    }
}

impl View for FlatStatement {
    type V = FlatStatementView;

    open spec fn view(&self) -> FlatStatementView {
        match self {
            FlatStatement::Return(list) => FlatStatementView::Return(list@),
            FlatStatement::Condition(l, r) => FlatStatementView::Condition(l@, r@),
            FlatStatement::Definition(v, e) => FlatStatementView::Definition(*v, e@),
            FlatStatement::Directive(d) => FlatStatementView::Directive(d@),
        }
    }
}

impl View for FlatFunction {
    type V = FlatFunctionView;

    open spec fn view(&self) -> FlatFunctionView {
        FlatFunctionView {
            id: self.id@,
            arguments: self.arguments@,
            statements: views(self.statements@),
            signature: self.signature@,
        }
    }
}

impl View for FlatProg {
    type V = FlatProgView;

    open spec fn view(&self) -> FlatProgView {
        FlatProgView { functions: views(self.functions@) }
    }
}

impl From<FlatVariable> for FlatExpression {
    fn from(v: FlatVariable) -> (r: FlatExpression) {
        FlatExpression::Identifier(v)
    }
}

impl vstd::std_specs::convert::FromSpecImpl<FlatVariable> for FlatExpression {
    open spec fn obeys_from_spec() -> bool {
        true
    }

    open spec fn from_spec(v: FlatVariable) -> FlatExpression {
        FlatExpression::Identifier(v)
    }
}

impl DirectiveStatement {
    /// A directive whose inputs are variables.
    pub fn new(outputs: Vec<FlatVariable>, helper: Helper, inputs: Vec<FlatVariable>) -> (r:
        DirectiveStatement)
        ensures
            r@ == (DirectiveStatementView {
                inputs: identifiers(inputs@),
                outputs: outputs@,
                helper,
            }),
    {
        let expressions = identifiers_of(&inputs);
        DirectiveStatement { inputs: expressions, outputs, helper }
    }
}

/// The variables as expressions.
pub open spec fn identifiers(variables: Seq<FlatVariable>) -> Seq<FlatExpressionView> {
    Seq::new(variables.len(), |i: int| FlatExpressionView::Identifier(variables[i]))
}

/// The variables as expressions.
pub fn identifiers_of(variables: &Vec<FlatVariable>) -> (r: Vec<FlatExpression>)
    ensures
        views(r@) == identifiers(variables@),
{
    let mut out: Vec<FlatExpression> = Vec::new();
    let mut i: usize = 0;
    while i < variables.len()
        invariant
            i <= variables.len(),
            out@.len() == i,
            forall|j: int|
                0 <= j < i ==> (#[trigger] out@[j])@ == FlatExpressionView::Identifier(
                    variables@[j],
                ),
        decreases variables.len() - i,
    {
        out.push(FlatExpression::Identifier(variables[i]));
        i += 1;
    }
    proof {
        assert(views(out@) =~= identifiers(variables@));
    }
    out
}

} // verus!
