//! The tests of what the checker asks of a tree before it checks it.

use vstd::prelude::*;
use crate::absy::{
    lemma_for_view, views, Expression, Function, Node, Prog, Statement, StatementNode,
};
use crate::rules::{
    well_formed_function, well_formed_program, well_formed_statement, well_formed_statements,
};

verus! {

/// Whether each of the statements is one that a parser hands over.
pub fn are_well_formed(statements: &Vec<StatementNode>) -> (r: bool)
    ensures
        r == well_formed_statements(views(statements@)),
    decreases statements, 0nat,
{
    let mut i: usize = 0;
    while i < statements.len()
        invariant
            i <= statements.len(),
            forall|j: int|
                0 <= j < i ==> well_formed_statement(#[trigger] views(statements@)[j]),
        decreases statements.len() - i,
    {
        if !statements[i].is_well_formed() {
            proof {
                assert(views(statements@)[i as int] == statements@[i as int]@);
            }
            return false;
        }
        proof {
            assert(views(statements@)[i as int] == statements@[i as int]@);
        }
        i += 1;
    }
    true
}

impl Node<Statement> {
    /// Whether the statement is one that a parser hands over: no assignment
    /// to one left-hand side has a call as its right-hand side, at any
    /// depth.
    pub fn is_well_formed(&self) -> (r: bool)
        ensures
            r == well_formed_statement(self@),
        decreases self, 1nat,
    {
        match &self.value {
            Statement::Definition(_, e) => match &e.value {
                Expression::FunctionCall(_, _) => false,
                _ => true,
            },
            Statement::For(v, from, to, body) => {
                proof {
                    lemma_for_view(*v, *from, *to, *body);
                }
                are_well_formed(body)
            },
            _ => true,
        }
    }
}

impl Function {
    /// Whether the function is one that a parser hands over: it has as many
    /// arguments as its signature has inputs, and its statements are well
    /// formed.
    pub fn is_well_formed(&self) -> (r: bool)
        ensures
            r == well_formed_function(self@),
    {
        self.arguments.len() == self.signature.inputs.len() && are_well_formed(&self.statements)
    }
}

impl Prog {
    /// Whether the program is one that a parser hands over: each of its
    /// functions is.
    pub fn is_well_formed(&self) -> (r: bool)
        ensures
            r == well_formed_program(self@),
    {
        let mut i: usize = 0;
        while i < self.functions.len()
            invariant
                i <= self.functions.len(),
                forall|j: int|
                    0 <= j < i ==> well_formed_function((#[trigger] self@.functions[j]).value),
            decreases self.functions.len() - i,
        {
            proof {
                assert(self@.functions[i as int] == self.functions@[i as int]@);
            }
            if !self.functions[i].value.is_well_formed() {
                return false;
            }
            i += 1;
        }
        true
    }
}

} // verus!
