//! The checking of functions and of whole programs.

use vstd::prelude::*;
use vstd::string::StringExecFns;
use crate::absy::{
    views, FunctionNode, FunctionView, Import, ImportNode, NodeView, Parameter, ParameterNode,
    Prog, StatementView, Variable,
};
use crate::messages::duplicate_definition;
use crate::rules::{
    argument_values, argument_variables, checked_body, checked_function, checked_functions,
    checked_program, declared, exact_slots, import_values, own_query, well_formed_function,
    well_formed_program, well_formed_statement, well_formed_statements, CheckerView, ErrorView,
    FunctionDeclarationView,
};
use crate::semantics::{errors_result_view, Checker, Error, FunctionDeclaration, FunctionQuery};
use crate::typed_absy::{TypedFunction, TypedFunctionView, TypedProg, TypedStatement,
    TypedStatementView};
use crate::types::Type;

verus! {

/// The variables of the arguments of a function.
pub fn variables_of(arguments: &Vec<ParameterNode>) -> (r: Vec<Variable>)
    ensures
        views(r@) == argument_variables(views(arguments@)),
{
    let mut out: Vec<Variable> = Vec::new();
    let mut i: usize = 0;
    while i < arguments.len()
        invariant
            i <= arguments.len(),
            out@.len() == i,
            forall|j: int| 0 <= j < i ==> (#[trigger] out@[j])@ == arguments@[j]@.value.id,
        decreases arguments.len() - i,
    {
        out.push(arguments[i].value.id.clone());
        i += 1;
    }
    proof {
        assert(views(out@) =~= argument_variables(views(arguments@)));
    }
    out
}

/// The arguments of a function without their places.
pub fn parameters_of(arguments: &Vec<ParameterNode>) -> (r: Vec<Parameter>)
    ensures
        views(r@) == argument_values(views(arguments@)),
{
    let mut out: Vec<Parameter> = Vec::new();
    let mut i: usize = 0;
    while i < arguments.len()
        invariant
            i <= arguments.len(),
            out@.len() == i,
            forall|j: int| 0 <= j < i ==> (#[trigger] out@[j])@ == arguments@[j]@.value,
        decreases arguments.len() - i,
    {
        out.push(arguments[i].value.clone());
        i += 1;
    }
    proof {
        assert(views(out@) =~= argument_values(views(arguments@)));
    }
    out
}

/// The imports of a program without their places.
pub fn imports_of(imports: Vec<ImportNode>) -> (r: Vec<Import>)
    ensures
        views(r@) == import_values(views(imports@)),
{
    let ghost all = imports@;
    let mut out: Vec<Import> = Vec::new();
    for node in it: imports
        invariant
            it.seq() == all,
            out@.len() == it.index(),
            forall|j: int| 0 <= j < it.index() ==> (#[trigger] out@[j])@ == all[j]@.value,
    {
        out.push(node.value);
    }
    proof {
        assert(views(out@) =~= import_values(views(all)));
    }
    out
}

/// The query that asks for every one of the types as an output.
pub fn exact_slots_of(types: &Vec<Type>) -> (r: Vec<Option<Type>>)
    ensures
        r@ == exact_slots(types@),
{
    let mut out: Vec<Option<Type>> = Vec::new();
    let mut i: usize = 0;
    while i < types.len()
        invariant
            i <= types.len(),
            out@.len() == i,
            forall|j: int| 0 <= j < i ==> #[trigger] out@[j] == Some(types@[j]),
        decreases types.len() - i,
    {
        out.push(Some(types[i]));
        i += 1;
    }
    proof {
        assert(out@ =~= exact_slots(types@));
    }
    out
}

impl Checker {
    /// Declares each of the functions, in order.
    pub fn register_all(&mut self, fs: &Vec<FunctionDeclaration>)
        requires
            old(self).wf(),
        ensures
            final(self).wf(),
            final(self)@ == old(self)@.register_all(views(fs@)),
    {
        let ghost all = views(fs@);
        let mut i: usize = 0;
        proof {
            assert(all.take(0) =~= Seq::<FunctionDeclarationView>::empty());
        }
        while i < fs.len()
            invariant
                i <= fs.len(),
                all == views(fs@),
                self.wf(),
                self@ == old(self)@.register_all(all.take(i as int)),
            decreases fs.len() - i,
        {
            proof {
                assert(all.take(i as int + 1).drop_last() =~= all.take(i as int));
                assert(all.take(i as int + 1).last() == fs@[i as int]@);
            }
            self.register(fs[i].clone());
            i += 1;
        }
        proof {
            assert(all.take(i as int) =~= all);
        }
    }

    /// Checks a function: its arguments are bound, and every statement is
    /// checked. Gives the typed function, or all the errors in the order of
    /// the statements, behind the error for a name and signature that are
    /// declared already.
    pub fn check_function(&mut self, funct_node: &FunctionNode) -> (r: Result<
        TypedFunction,
        Vec<Error>,
    >)
        requires
            old(self).wf(),
            well_formed_function(funct_node@.value),
        ensures
            final(self).wf(),
            final(self)@.level == old(self)@.level,
            (final(self)@, errors_result_view(r)) == checked_function(old(self)@, funct_node@),
    {
        let mut errors: Vec<Error> = Vec::new();
        let pos = funct_node.pos();
        let funct = &funct_node.value;
        let ghost outputs = funct.signature.outputs@;

        let slots = exact_slots_of(&funct.signature.outputs);
        let query = FunctionQuery::new(funct.id.as_str(), &funct.signature.inputs, &slots);
        let candidates = self.find_candidates(&query);
        proof {
            assert(query@ == own_query(funct_node@.value));
            assert(views(candidates@).len() == candidates@.len());
            assert(views(errors@) =~= Seq::<ErrorView>::empty());
        }
        if candidates.len() > 0 {
            let signature = funct.signature.to_string();
            let error = Error::new(
                Some(pos),
                duplicate_definition(funct.id.as_str(), signature.as_str()),
            );
            proof {
                assert(views(errors@.push(error)) =~= seq![error@]);
            }
            errors.push(error);
        }
        let ghost duplicates = views(errors@);

        let variables = variables_of(&funct.arguments);
        self.insert_all(&variables);
        let ghost start = self@;

        let ghost all = views(funct.statements@);
        let mut statements_checked: Vec<TypedStatement> = Vec::new();
        let mut i: usize = 0;
        proof {
            assert(all.take(0) =~= Seq::<NodeView<StatementView>>::empty());
            assert(views(statements_checked@) =~= Seq::<TypedStatementView>::empty());
            assert(duplicates + Seq::<ErrorView>::empty() =~= duplicates);
        }
        while i < funct.statements.len()
            invariant
                i <= funct.statements.len(),
                all == views(funct.statements@),
                outputs == funct.signature.outputs@,
                well_formed_statements(all),
                self.wf(),
                self@.level == old(self)@.level,
                checked_body(start, all.take(i as int), outputs).0 == self@,
                checked_body(start, all.take(i as int), outputs).1 == views(statements_checked@),
                views(errors@) == duplicates + checked_body(start, all.take(i as int), outputs).2,
            decreases funct.statements.len() - i,
        {
            proof {
                assert(all.take(i as int + 1).drop_last() =~= all.take(i as int));
                assert(all.take(i as int + 1).last() == funct.statements@[i as int]@);
                assert(well_formed_statement(all[i as int]));
            }
            let ghost before = checked_body(start, all.take(i as int), outputs).2;
            match self.check_statement(&funct.statements[i], &funct.signature.outputs) {
                Ok(statement) => {
                    proof {
                        assert(views(statements_checked@.push(statement)) =~= views(
                            statements_checked@,
                        ).push(statement@));
                    }
                    statements_checked.push(statement);
                },
                Err(e) => {
                    proof {
                        assert(views(errors@.push(e)) =~= views(errors@).push(e@));
                        assert((duplicates + before).push(e@) =~= duplicates + before.push(e@));
                    }
                    errors.push(e);
                },
            }
            i += 1;
        }
        proof {
            assert(all.take(i as int) =~= all);
        }
        if errors.len() > 0 {
            return Err(errors);
        }
        Ok(
            TypedFunction {
                id: funct.id.clone(),
                arguments: parameters_of(&funct.arguments),
                statements: statements_checked,
                signature: funct.signature.clone(),
            },
        )
    }

    /// Checks a program: the imported functions are declared, each function
    /// is checked in a scope of its own and then declared, and there has to
    /// be exactly one function `main`. Gives the typed program, or all the
    /// errors in the order of the functions.
    pub fn check_program(&mut self, prog: Prog) -> (r: Result<TypedProg, Vec<Error>>)
        requires
            old(self).wf(),
            well_formed_program(prog@),
        ensures
            final(self).wf(),
            (final(self)@, errors_result_view(r)) == checked_program(old(self)@, prog@),
    {
        let ghost program = prog@;
        let Prog { functions, imports, imported_functions } = prog;
        self.register_all(&imported_functions);
        let ghost start = self@;

        let ghost all = views(functions@);
        let mut errors: Vec<Error> = Vec::new();
        let mut checked: Vec<TypedFunction> = Vec::new();
        let mut i: usize = 0;
        proof {
            assert(all.take(0) =~= Seq::<NodeView<FunctionView>>::empty());
            assert(views(checked@) =~= Seq::<TypedFunctionView>::empty());
            assert(views(errors@) =~= Seq::<ErrorView>::empty());
        }
        while i < functions.len()
            invariant
                i <= functions.len(),
                all == views(functions@),
                all == program.functions,
                well_formed_program(program),
                self.wf(),
                checked_functions(start, all.take(i as int)) == (
                    self@,
                    views(checked@),
                    views(errors@),
                ),
            decreases functions.len() - i,
        {
            proof {
                assert(all.take(i as int + 1).drop_last() =~= all.take(i as int));
                assert(all.take(i as int + 1).last() == functions@[i as int]@);
                assert(well_formed_function(program.functions[i as int].value));
            }
            let func = &functions[i];
            self.enter_scope();
            let dec = FunctionDeclaration::new(
                func.value.id.clone(),
                func.value.signature.clone(),
            );
            match self.check_function(func) {
                Ok(checked_function) => {
                    proof {
                        assert(views(checked@.push(checked_function)) =~= views(checked@).push(
                            checked_function@,
                        ));
                    }
                    checked.push(checked_function);
                },
                Err(es) => {
                    let mut es = es;
                    proof {
                        assert(views(errors@ + es@) =~= views(errors@) + views(es@));
                    }
                    errors.append(&mut es);
                },
            }
            self.register(dec);
            self.exit_scope();
            i += 1;
        }
        proof {
            assert(all.take(i as int) =~= all);
        }
        let ghost before = views(errors@);
        match self.check_single_main() {
            Ok(_) => {
                proof {
                    assert(before + Seq::<ErrorView>::empty() =~= before);
                }
            },
            Err(e) => {
                proof {
                    assert(views(errors@.push(e)) =~= before + seq![e@]);
                }
                errors.push(e);
            },
        }
        if errors.len() > 0 {
            return Err(errors);
        }
        Ok(TypedProg { functions: checked, imports: imports_of(imports), imported_functions })
    }

    /// Checks a program with a new checker.
    pub fn check(prog: Prog) -> (r: Result<TypedProg, Vec<Error>>)
        requires
            well_formed_program(prog@),
        ensures
            errors_result_view(r) == checked_program(CheckerView::empty(), prog@).1,
    {
        let mut checker = Checker::new();
        checker.check_program(prog)
    }
}

} // verus!
