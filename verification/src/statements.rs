//! The checking of statements.

use vstd::pervasive::unreached;
use vstd::prelude::*;
use vstd::string::StringExecFns;
use crate::absy::{
    lemma_call_view, lemma_for_view, views, Assignee, AssigneeNode, Expression, NodeView,
    Statement, StatementNode, StatementView, Variable, VariableView,
};
use crate::expressions::types_of;
use crate::messages::{
    ambiguous_call, assignee_not_identifier, cannot_assign, cannot_compare,
    duplicate_declaration, function_not_found, not_a_call, return_shape,
};
use crate::position::Position;
use crate::rules::{
    assignee_slot, assignee_slot_results, assignee_slots, checked_block, checked_statement,
    collect, condition_of, defined_variables, definition_of, definition_query,
    lemma_block_keeps_error, lemma_collect_error, lemma_collect_value, multiple_definition_of,
    return_of, well_formed_statement, well_formed_statements, ErrorView,
};
use crate::semantics::{list_result_view, result_view, Checker, Error, FunctionQuery};
use crate::typed_absy::{
    lemma_typed_for_view, TypedAssignee, TypedExpression, TypedExpressionList, TypedStatement,
    TypedStatementView,
};
use crate::types::{copy_types, same_types, types_to_string, Type};

verus! {

/// The views of the names and bound types of left-hand sides.
pub open spec fn slot_views(slots: Seq<(String, Option<Type>)>) -> Seq<(Seq<char>, Option<Type>)> {
    Seq::new(slots.len(), |i: int| (slots[i].0@, slots[i].1))
}

/// Checks a `return` on its checked expressions.
pub fn return_on(es: Vec<TypedExpression>, outputs: &Vec<Type>, pos: (Position, Position)) -> (r:
    Result<TypedStatement, Error>)
    ensures
        result_view(r) == return_of(Ok(views(es@)), outputs@, pos),
{
    let types = types_of(&es);
    if same_types(&types, outputs) {
        Ok(TypedStatement::Return(es))
    } else {
        let expected = types_to_string(outputs);
        let found = types_to_string(&types);
        Err(Error::new(Some(pos), return_shape(expected.as_str(), found.as_str())))
    }
}

/// Checks an assignment of a checked expression to a checked left-hand
/// side.
pub fn definition_on(e: TypedExpression, assignee: TypedAssignee, pos: (Position, Position)) -> (r:
    Result<TypedStatement, Error>)
    ensures
        result_view(r) == definition_of(Ok(e@), Ok(assignee@), pos),
{
    let expression_type = e.get_type();
    let assignee_type = assignee.get_type();
    if assignee_type == expression_type {
        Ok(TypedStatement::Definition(assignee, e))
    } else {
        let expression_text = e.to_string();
        let assignee_text = assignee.to_string();
        Err(
            Error::new(
                Some(pos),
                cannot_assign(
                    expression_text.as_str(),
                    expression_type,
                    assignee_text.as_str(),
                    assignee_type,
                ),
            ),
        )
    }
}

/// Checks the assertion that two checked expressions are equal.
pub fn condition_on(left: TypedExpression, right: TypedExpression, pos: (Position, Position)) -> (r:
    Result<TypedStatement, Error>)
    ensures
        result_view(r) == condition_of(Ok(left@), Ok(right@), pos),
{
    let left_type = left.get_type();
    let right_type = right.get_type();
    if left_type == right_type {
        Ok(TypedStatement::Condition(left, right))
    } else {
        let left_text = left.to_string();
        let right_text = right.to_string();
        Err(
            Error::new(
                Some(pos),
                cannot_compare(left_text.as_str(), left_type, right_text.as_str(), right_type),
            ),
        )
    }
}

impl Checker {
    /// Offers each of the variables to the scope, in order.
    pub fn insert_all(&mut self, vs: &Vec<Variable>)
        requires
            old(self).wf(),
        ensures
            final(self).wf(),
            final(self)@ == old(self)@.insert_all(views(vs@)),
            final(self)@.level == old(self)@.level,
    {
        let ghost all = views(vs@);
        let mut i: usize = 0;
        proof {
            assert(all.take(0) =~= Seq::<VariableView>::empty());
        }
        while i < vs.len()
            invariant
                i <= vs.len(),
                all == views(vs@),
                self.wf(),
                self@ == old(self)@.insert_all(all.take(i as int)),
                self@.level == old(self)@.level,
            decreases vs.len() - i,
        {
            proof {
                assert(all.take(i as int + 1).drop_last() =~= all.take(i as int));
                assert(all.take(i as int + 1).last() == vs@[i as int]@);
            }
            self.insert_scope(vs[i].clone());
            i += 1;
        }
        proof {
            assert(all.take(i as int) =~= all);
        }
    }

    /// The names of the left-hand sides of a definition of several values,
    /// each with the type that it is bound to, if it is bound. Only names
    /// can stand there.
    pub fn assignee_slots(&self, assignees: &Vec<AssigneeNode>, pos: (Position, Position)) -> (r:
        Result<Vec<(String, Option<Type>)>, Error>)
        ensures
            match r {
                Ok(slots) => assignee_slots(self@, views(assignees@), pos) == Ok::<
                    Seq<(Seq<char>, Option<Type>)>,
                    ErrorView,
                >(slot_views(slots@)),
                Err(e) => assignee_slots(self@, views(assignees@), pos) == Err::<
                    Seq<(Seq<char>, Option<Type>)>,
                    ErrorView,
                >(e@),
            },
    {
        let ghost results = assignee_slot_results(self@, views(assignees@), pos);
        let mut slots: Vec<(String, Option<Type>)> = Vec::new();
        let mut i: usize = 0;
        proof {
            assert(results.take(0) =~= Seq::<
                Result<(Seq<char>, Option<Type>), ErrorView>,
            >::empty());
            assert(slot_views(slots@) =~= Seq::<(Seq<char>, Option<Type>)>::empty());
        }
        while i < assignees.len()
            invariant
                i <= assignees.len(),
                results == assignee_slot_results(self@, views(assignees@), pos),
                collect(results.take(i as int)) == Ok::<
                    Seq<(Seq<char>, Option<Type>)>,
                    ErrorView,
                >(slot_views(slots@)),
            decreases assignees.len() - i,
        {
            proof {
                assert(results[i as int] == assignee_slot(self@, assignees@[i as int]@, pos));
            }
            match &assignees[i].value {
                Assignee::Identifier(name) => {
                    let bound = match self.get_scope(name.as_str()) {
                        Some(binding) => Some(binding.id().get_type()),
                        None => None,
                    };
                    let slot = (name.clone(), bound);
                    proof {
                        lemma_collect_value(results, i as int, slot_views(slots@), (name@, bound));
                        assert(slot_views(slots@.push(slot)) =~= slot_views(slots@).push(
                            (name@, bound),
                        ));
                    }
                    slots.push(slot);
                },
                other => {
                    let text = other.to_string();
                    let error = Error::new(Some(pos), assignee_not_identifier(text.as_str()));
                    proof {
                        lemma_collect_error(results, i as int, error@);
                    }
                    return Err(error);
                },
            }
            i += 1;
        }
        proof {
            assert(results.take(i as int) =~= results);
        }
        Ok(slots)
    }

    /// Checks a definition of several values by a call, on the names of the
    /// left-hand sides and the checked arguments.
    pub fn multiple_definition_on(
        &mut self,
        name: &String,
        slots: Vec<(String, Option<Type>)>,
        arguments: Vec<TypedExpression>,
        pos: (Position, Position),
    ) -> (r: Result<TypedStatement, Error>)
        requires
            old(self).wf(),
        ensures
            final(self).wf(),
            final(self)@.level == old(self)@.level,
            (final(self)@, result_view(r)) == multiple_definition_of(
                old(self)@,
                name@,
                Ok(slot_views(slots@)),
                Ok(views(arguments@)),
                pos,
            ),
    {
        let types = types_of(&arguments);
        let mut outputs: Vec<Option<Type>> = Vec::new();
        let mut i: usize = 0;
        while i < slots.len()
            invariant
                i <= slots.len(),
                outputs@.len() == i,
                forall|j: int| 0 <= j < i ==> #[trigger] outputs@[j] == slots@[j].1,
            decreases slots.len() - i,
        {
            outputs.push(slots[i].1);
            i += 1;
        }
        let query = FunctionQuery::new(name.as_str(), &types, &outputs);
        let found = self.find_candidates(&query);
        proof {
            assert(query@.outputs =~= definition_query(
                name@,
                views(arguments@),
                slot_views(slots@),
            ).outputs);
            assert(query@ == definition_query(name@, views(arguments@), slot_views(slots@)));
            assert(views(found@).len() == found@.len());
        }
        if found.len() == 0 {
            let text = query.to_string();
            Err(Error::new(Some(pos), function_not_found(name.as_str(), text.as_str())))
        } else if found.len() == 1 {
            let f = &found[0];
            proof {
                assert(views(found@)[0] == f@);
                assert(query@.matches(found@[0]@));
            }
            let declared = &f.signature().outputs;
            let mut variables: Vec<Variable> = Vec::new();
            let mut k: usize = 0;
            while k < slots.len()
                invariant
                    k <= slots.len(),
                    slots.len() == declared.len(),
                    variables@.len() == k,
                    forall|j: int|
                        0 <= j < k ==> (#[trigger] variables@[j])@ == (VariableView {
                            id: slots@[j].0@,
                            ty: declared@[j],
                        }),
                decreases slots.len() - k,
            {
                variables.push(Variable::new(slots[k].0.clone(), declared[k]));
                k += 1;
            }
            proof {
                assert(views(variables@) =~= defined_variables(slot_views(slots@), declared@));
            }
            self.insert_all(&variables);
            Ok(
                TypedStatement::MultipleDefinition(
                    variables,
                    TypedExpressionList::FunctionCall(
                        f.id().clone(),
                        arguments,
                        copy_types(declared),
                    ),
                ),
            )
        } else {
            let text = types_to_string(&types);
            Err(Error::new(Some(pos), ambiguous_call(name.as_str(), text.as_str())))
        }
    }

    /// Checks a statement: gives its typed form, or the first error met. A
    /// declaration and a definition of several values bind names; a loop
    /// binds its variable for its body only.
    pub fn check_statement(&mut self, stat: &StatementNode, header_return_types: &Vec<Type>) -> (r:
        Result<TypedStatement, Error>)
        requires
            old(self).wf(),
            well_formed_statement(stat@),
        ensures
            final(self).wf(),
            final(self)@.level == old(self)@.level,
            (final(self)@, result_view(r)) == checked_statement(
                old(self)@,
                stat@,
                header_return_types@,
            ),
        decreases stat, 1nat,
    {
        let pos = stat.pos();
        match &stat.value {
            Statement::Return(list) => {
                let es = self.check_expressions(&list.value.expressions)?;
                return_on(es, header_return_types, pos)
            },
            Statement::Declaration(var) => {
                if self.insert_scope(var.value.clone()) {
                    Ok(TypedStatement::Declaration(var.value.clone()))
                } else {
                    Err(Error::new(Some(pos), duplicate_declaration(var.value.id.as_str())))
                }
            },
            Statement::Definition(assignee, expr) => {
                let checked_expr = self.check_expression(expr)?;
                let var = self.check_assignee(assignee)?;
                definition_on(checked_expr, var, pos)
            },
            Statement::Condition(lhs, rhs) => {
                let checked_lhs = self.check_expression(lhs)?;
                let checked_rhs = self.check_expression(rhs)?;
                condition_on(checked_lhs, checked_rhs, pos)
            },
            Statement::For(_, _, _, _) => self.check_for(stat, header_return_types),
            Statement::MultipleDefinition(_, _) => self.check_multiple_definition(stat),
        }
    }

    /// Checks a loop: its variable has to be a field element, and is bound
    /// in a scope of its own, in which the body is checked.
    fn check_for(&mut self, stat: &StatementNode, header_return_types: &Vec<Type>) -> (r: Result<
        TypedStatement,
        Error,
    >)
        requires
            old(self).wf(),
            well_formed_statement(stat@),
            stat.value is For,
        ensures
            final(self).wf(),
            final(self)@.level == old(self)@.level,
            (final(self)@, result_view(r)) == checked_statement(
                old(self)@,
                stat@,
                header_return_types@,
            ),
        decreases stat, 0nat,
    {
        match &stat.value {
            Statement::For(var, from, to, statements) => {
                proof {
                    lemma_for_view(*var, *from, *to, *statements);
                }
                self.check_for_var(var)?;
                self.enter_scope();
                self.insert_scope(var.value.clone());
                let body = self.check_block(statements, header_return_types);
                self.exit_scope();
                match body {
                    Ok(checked_statements) => {
                        proof {
                            lemma_typed_for_view(var.value, *from, *to, checked_statements);
                        }
                        Ok(
                            TypedStatement::For(
                                var.value.clone(),
                                from.clone(),
                                to.clone(),
                                checked_statements,
                            ),
                        )
                    },
                    Err(e) => Err(e),
                }
            },
            _ => unreached(),
        }
    }

    /// Checks a definition of several values: the right-hand side has to be
    /// a call.
    fn check_multiple_definition(&mut self, stat: &StatementNode) -> (r: Result<
        TypedStatement,
        Error,
    >)
        requires
            old(self).wf(),
            stat.value is MultipleDefinition,
        ensures
            final(self).wf(),
            final(self)@.level == old(self)@.level,
            forall|outputs: Seq<Type>|
                (final(self)@, result_view(r)) == #[trigger] checked_statement(
                    old(self)@,
                    stat@,
                    outputs,
                ),
    {
        let pos = stat.pos();
        match &stat.value {
            Statement::MultipleDefinition(assignees, rhs) => match &rhs.value {
                Expression::FunctionCall(name, arguments) => {
                    proof {
                        lemma_call_view(*name, *arguments);
                    }
                    let slots = self.assignee_slots(assignees, pos)?;
                    let typed = self.check_expressions(arguments)?;
                    self.multiple_definition_on(name, slots, typed, pos)
                },
                other => {
                    let text = other.to_string();
                    Err(Error::new(Some(pos), not_a_call(text.as_str())))
                },
            },
            _ => unreached(),
        }
    }

    /// Checks the body of a loop: gives the checked statements, or the error
    /// of the first statement that fails, behind which no statement is
    /// checked.
    pub fn check_block(&mut self, statements: &Vec<StatementNode>, header_return_types: &Vec<Type>)
        -> (r: Result<Vec<TypedStatement>, Error>)
        requires
            old(self).wf(),
            well_formed_statements(views(statements@)),
        ensures
            final(self).wf(),
            final(self)@.level == old(self)@.level,
            (final(self)@, list_result_view(r)) == checked_block(
                old(self)@,
                views(statements@),
                header_return_types@,
            ),
        decreases statements, 0nat,
    {
        let ghost all = views(statements@);
        let ghost outputs = header_return_types@;
        let mut typed: Vec<TypedStatement> = Vec::new();
        let mut i: usize = 0;
        proof {
            assert(all.take(0) =~= Seq::<NodeView<StatementView>>::empty());
            assert(views(typed@) =~= Seq::<TypedStatementView>::empty());
        }
        while i < statements.len()
            invariant
                i <= statements.len(),
                all == views(statements@),
                outputs == header_return_types@,
                well_formed_statements(all),
                self.wf(),
                self@.level == old(self)@.level,
                checked_block(old(self)@, all.take(i as int), outputs) == (
                    self@,
                    Ok::<Seq<TypedStatementView>, ErrorView>(views(typed@)),
                ),
            decreases statements.len() - i,
        {
            proof {
                assert(all.take(i as int + 1).drop_last() =~= all.take(i as int));
                assert(all.take(i as int + 1).last() == statements@[i as int]@);
                assert(well_formed_statement(all[i as int]));
            }
            match self.check_statement(&statements[i], header_return_types) {
                Ok(t) => {
                    proof {
                        assert(views(typed@.push(t)) =~= views(typed@).push(t@));
                    }
                    typed.push(t);
                },
                Err(e) => {
                    proof {
                        lemma_block_keeps_error(old(self)@, all, i as int + 1, outputs);
                    }
                    return Err(e);
                },
            }
            i += 1;
        }
        proof {
            assert(all.take(i as int) =~= all);
        }
        Ok(typed)
    }
}

} // verus!
