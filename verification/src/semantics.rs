//! The semantic checker: scopes, the registry of functions, the resolution of
//! calls, and the walk that turns an untyped tree into a typed one.

use vstd::prelude::*;
use vstd::string::StringExecFns;
use crate::absy::{views, Variable, VariableNode};
use crate::laws::{levels_bounded, names_distinct};
use crate::messages::{loop_variable_type, many_mains, no_main};
use crate::position::Position;
use crate::rules::{
    answers, below, candidates, checked_for_var, checked_single_main, lookup, main_count,
    slot_text, slot_texts, CheckerView, ErrorView, FunctionDeclarationView, FunctionQueryView,
    ScopedVariableView,
};
use crate::text::{append_joined, string_views};
use crate::types::{copy_types, same_types, types_to_string, Signature, Type};

verus! {

/// What is wrong with a program, and where.
#[derive(Debug, PartialEq, Eq)]
pub struct Error {
    pos: Option<(Position, Position)>,
    message: String,
}

impl View for Error {
    type V = ErrorView;

    closed spec fn view(&self) -> ErrorView {
        ErrorView { pos: self.pos, message: self.message@ }
    }
}

impl Error {
    /// An error that says something, at a place or at none.
    pub fn new(pos: Option<(Position, Position)>, message: String) -> (r: Error)
        ensures
            r@ == (ErrorView { pos, message: message@ }),
    {
        Error { pos, message }
    }

    /// The places where the offending node starts and ends, if it has any.
    pub fn pos(&self) -> (r: Option<(Position, Position)>)
        ensures
            r == self@.pos,
    {
        self.pos
    }

    /// What the error says.
    pub fn message(&self) -> (r: &String)
        ensures
            r@ == self@.message,
    {
        &self.message
    }

    /// Renders the error: where it starts, and on a new line what it says.
    pub fn to_string(&self) -> (r: String)
        ensures
            r@ == self@.text(),
    {
        let mut out = match self.pos {
            Some(p) => p.0.to_string(),
            None => String::from_str("?"),
        };
        out.append("\n\t");
        out.append(self.message.as_str());
        out
    }
}

/// The view of a result: the view of the value, or the view of the error.
pub open spec fn result_view<T: View>(r: Result<T, Error>) -> Result<T::V, ErrorView> {
    match r {
        Ok(t) => Ok(t@),
        Err(e) => Err(e@),
    }
}

/// The view of a result without a value.
pub open spec fn unit_result_view(r: Result<(), Error>) -> Result<(), ErrorView> {
    match r {
        Ok(_) => Ok(()),
        Err(e) => Err(e@),
    }
}

/// The view of a result that is a list.
pub open spec fn list_result_view<T: View>(r: Result<Vec<T>, Error>) -> Result<
    Seq<T::V>,
    ErrorView,
> {
    match r {
        Ok(ts) => Ok(views(ts@)),
        Err(e) => Err(e@),
    }
}

/// The view of a result with a list of errors.
pub open spec fn errors_result_view<T: View>(r: Result<T, Vec<Error>>) -> Result<
    T::V,
    Seq<ErrorView>,
> {
    match r {
        Ok(t) => Ok(t@),
        Err(es) => Err(views(es@)),
    }
}

/// A function that can be called: its name and its signature.
#[derive(Debug, PartialEq, Eq, Hash)]
pub struct FunctionDeclaration {
    id: String,
    signature: Signature,
}

impl View for FunctionDeclaration {
    type V = FunctionDeclarationView;

    closed spec fn view(&self) -> FunctionDeclarationView {
        FunctionDeclarationView { id: self.id@, signature: self.signature@ }
    }
}

impl Clone for FunctionDeclaration {
    fn clone(&self) -> (r: FunctionDeclaration)
        ensures
            r@ == self@,
    {
        FunctionDeclaration { id: self.id.clone(), signature: self.signature.clone() }
    }
}

impl FunctionDeclaration {
    /// The declaration of a function with a name and a signature.
    pub fn new(id: String, signature: Signature) -> (r: FunctionDeclaration)
        ensures
            r@ == (FunctionDeclarationView { id: id@, signature: signature@ }),
    {
        FunctionDeclaration { id, signature }
    }

    /// The name of the function.
    pub fn id(&self) -> (r: &String)
        ensures
            r@ == self@.id,
    {
        &self.id
    }

    /// The signature of the function.
    pub fn signature(&self) -> (r: &Signature)
        ensures
            r@ == self@.signature,
    {
        &self.signature
    }

    /// Whether two declarations have the same name and the same signature.
    pub fn same(&self, other: &FunctionDeclaration) -> (r: bool)
        ensures
            r == (self@ == other@),
    {
        self.id == other.id && self.signature.same(&other.signature)
    }
}

/// A description of a call, by which a declaration is looked for.
#[derive(Debug, PartialEq, Eq)]
pub struct FunctionQuery {
    id: String,
    inputs: Vec<Type>,
    outputs: Vec<Option<Type>>,
}

impl View for FunctionQuery {
    type V = FunctionQueryView;

    closed spec fn view(&self) -> FunctionQueryView {
        FunctionQueryView { id: self.id@, inputs: self.inputs@, outputs: self.outputs@ }
    }
}

impl FunctionQuery {
    /// The query for a function of a name that takes the inputs and that
    /// gives, at each place, the output that is asked for; where none is
    /// asked for, any will do.
    pub fn new(id: &str, inputs: &Vec<Type>, outputs: &Vec<Option<Type>>) -> (r: FunctionQuery)
        ensures
            r@ == (FunctionQueryView { id: id@, inputs: inputs@, outputs: outputs@ }),
    {
        let mut slots: Vec<Option<Type>> = Vec::new();
        let mut i: usize = 0;
        while i < outputs.len()
            invariant
                i <= outputs.len(),
                slots@ == outputs@.take(i as int),
            decreases outputs.len() - i,
        {
            slots.push(outputs[i]);
            i += 1;
        }
        proof {
            assert(outputs@.take(i as int) =~= outputs@);
        }
        FunctionQuery { id: String::from_str(id), inputs: copy_types(inputs), outputs: slots }
    }

    /// Renders the query: `(inputs) -> (outputs)`, with `_` for an output of
    /// any type.
    pub fn to_string(&self) -> (r: String)
        ensures
            r@ == self@.text(),
    {
        let mut parts: Vec<String> = Vec::new();
        let mut i: usize = 0;
        while i < self.outputs.len()
            invariant
                i <= self.outputs.len(),
                parts@.len() == i,
                forall|j: int| 0 <= j < i ==> (#[trigger] parts@[j])@ == slot_text(self.outputs@[j]),
            decreases self.outputs.len() - i,
        {
            let part = match &self.outputs[i] {
                Some(t) => t.to_string(),
                None => String::from_str("_"),
            };
            parts.push(part);
            i += 1;
        }
        proof {
            assert(string_views(parts@) =~= slot_texts(self.outputs@));
        }
        let mut out = String::from_str("(");
        let inputs = types_to_string(&self.inputs);
        out.append(inputs.as_str());
        out.append(") -> (");
        append_joined(&mut out, &parts, ", ");
        out.append(")");
        out
    }

    /// Whether a declaration answers the query.
    pub fn match_func(&self, func: &FunctionDeclaration) -> (r: bool)
        ensures
            r == self@.matches(func@),
    {
        if !(self.id == func.id) {
            return false;
        }
        if !same_types(&self.inputs, &func.signature.inputs) {
            return false;
        }
        if self.outputs.len() != func.signature.outputs.len() {
            return false;
        }
        let mut i: usize = 0;
        while i < self.outputs.len()
            invariant
                i <= self.outputs.len(),
                self.outputs.len() == func.signature.outputs.len(),
                forall|j: int|
                    0 <= j < i ==> (#[trigger] self.outputs@[j] matches Some(t) ==> t
                        == func.signature.outputs@[j]),
            decreases self.outputs.len() - i,
        {
            match &self.outputs[i] {
                Some(t) => {
                    if *t != func.signature.outputs[i] {
                        return false;
                    }
                },
                None => {},
            }
            i += 1;
        }
        true
    }

    /// The declarations that answer the query, in the order of `funcs`.
    pub fn match_funcs(&self, funcs: &Vec<FunctionDeclaration>) -> (r: Vec<FunctionDeclaration>)
        ensures
            views(r@) == candidates(self@, views(funcs@)),
            forall|j: int| 0 <= j < r@.len() ==> self@.matches((#[trigger] r@[j])@),
    {
        let ghost all = views(funcs@);
        let mut found: Vec<FunctionDeclaration> = Vec::new();
        let mut i: usize = 0;
        proof {
            reveal(Seq::filter);
            assert(all.take(0) =~= Seq::<FunctionDeclarationView>::empty());
            assert(views(found@) =~= candidates(self@, all.take(0)));
        }
        while i < funcs.len()
            invariant
                i <= funcs.len(),
                all == views(funcs@),
                views(found@) == candidates(self@, all.take(i as int)),
                forall|j: int| 0 <= j < found@.len() ==> self@.matches((#[trigger] found@[j])@),
            decreases funcs.len() - i,
        {
            proof {
                reveal(Seq::filter);
                assert(all.take(i as int + 1).drop_last() =~= all.take(i as int));
                assert(all.take(i as int + 1).last() == funcs@[i as int]@);
            }
            if self.match_func(&funcs[i]) {
                let f = funcs[i].clone();
                proof {
                    assert(views(found@.push(f)) =~= views(found@).push(f@));
                }
                found.push(f);
            }
            i += 1;
        }
        proof {
            assert(all.take(i as int) =~= all);
        }
        found
    }
}

/// A binding: a variable, and the level of the scope that declared it. Two
/// bindings are equal if they bind the same name.
#[derive(Debug)]
pub struct ScopedVariable {
    id: Variable,
    level: usize,
}

impl PartialEq for ScopedVariable {
    fn eq(&self, other: &ScopedVariable) -> (r: bool) {
        self.id.id == other.id.id
    }
}

impl vstd::std_specs::cmp::PartialEqSpecImpl for ScopedVariable {
    open spec fn obeys_eq_spec() -> bool {
        true
    }

    open spec fn eq_spec(&self, other: &ScopedVariable) -> bool {
        self@.id.id == other@.id.id
    }
}

impl Eq for ScopedVariable {

}

impl Clone for ScopedVariable {
    fn clone(&self) -> (r: ScopedVariable)
        ensures
            r@ == self@,
    {
        ScopedVariable { id: self.id.clone(), level: self.level }
    }
}

impl View for ScopedVariable {
    type V = ScopedVariableView;

    closed spec fn view(&self) -> ScopedVariableView {
        ScopedVariableView { id: self.id@, level: self.level as nat }
    }
}

impl ScopedVariable {
    /// The variable that is bound.
    pub fn id(&self) -> (r: &Variable)
        ensures
            r@ == self@.id,
    {
        &self.id
    }

    /// The level of the scope that declared the variable.
    pub fn level(&self) -> (r: usize)
        ensures
            r as nat == self@.level,
    {
        self.level
    }
}

/// Where no binding has a name, looking the name up finds nothing, and the
/// other way round.
pub proof fn lemma_lookup_none(scope: Seq<ScopedVariableView>, name: Seq<char>)
    ensures
        lookup(scope, name) is None <==> forall|j: int|
            0 <= j < scope.len() ==> (#[trigger] scope[j]).id.id != name,
    decreases scope.len(),
{
    if scope.len() > 0 {
        lemma_lookup_none(scope.drop_first(), name);
        if scope[0].id.id != name {
            if lookup(scope, name) is None {
                assert forall|j: int| 0 <= j < scope.len() implies (#[trigger] scope[j]).id.id
                    != name by {
                    if j > 0 {
                        assert(scope[j] == scope.drop_first()[j - 1]);
                    }
                }
            } else {
                let rest = scope.drop_first();
                let j = choose|j: int| 0 <= j < rest.len() && (#[trigger] rest[j]).id.id == name;
                assert(scope[j + 1] == rest[j]);
            }
        }
    }
}

/// Where the bindings below a level are exactly the first `m`, leaving the
/// scope of that level keeps exactly those.
pub proof fn lemma_exit_keeps_prefix(scope: Seq<ScopedVariableView>, m: int, level: nat)
    requires
        0 <= m <= scope.len(),
        forall|j: int| 0 <= j < m ==> (#[trigger] scope[j]).level < level,
        forall|j: int| m <= j < scope.len() ==> (#[trigger] scope[j]).level >= level,
    ensures
        scope.filter(below(level)) == scope.take(m),
    decreases scope.len(),
{
    reveal(Seq::filter);
    if scope.len() == 0 {
        assert(scope.take(m) =~= scope);
    } else {
        let rest = scope.drop_last();
        if m == scope.len() {
            lemma_exit_keeps_prefix(rest, m - 1, level);
            assert(rest.take(m - 1) =~= rest);
            assert(rest.push(scope.last()) =~= scope);
            assert(scope.take(m) =~= scope);
        } else {
            lemma_exit_keeps_prefix(rest, m, level);
            assert(rest.take(m) =~= scope.take(m));
        }
    }
}

/// The state of the checker: the bindings in scope, the declared functions,
/// and the scopes that were entered and not left.
pub struct Checker {
    scope: Vec<ScopedVariable>,
    functions: Vec<FunctionDeclaration>,
    marks: Vec<usize>,
}

impl View for Checker {
    type V = CheckerView;

    closed spec fn view(&self) -> CheckerView {
        CheckerView {
            scope: views(self.scope@),
            functions: views(self.functions@),
            level: self.marks@.len(),
        }
    }
}

impl Checker {
    /// The invariant of the checker. For each scope that was entered and not
    /// left, the checker keeps the number of bindings that were there when
    /// it was entered: the bindings from there on are those of that level or
    /// above. No name is bound twice and no function is declared twice.
    pub closed spec fn wf(&self) -> bool {
        &&& forall|j: int, k: int|
            #![trigger self.scope@[j], self.marks@[k]]
            0 <= j < self.scope@.len() && 0 <= k < self.marks@.len() ==> (self.marks@[k] <= j
                <==> k < self.scope@[j].level)
        &&& forall|j: int|
            0 <= j < self.scope@.len() ==> (#[trigger] self.scope@[j]).level <= self.marks@.len()
        &&& forall|k: int|
            0 <= k < self.marks@.len() ==> #[trigger] self.marks@[k] <= self.scope@.len()
        &&& forall|i: int, j: int|
            0 <= i < j < self.scope@.len() ==> (#[trigger] self.scope@[i]).id.id@ != (
            #[trigger] self.scope@[j]).id.id@
        &&& forall|i: int, j: int|
            0 <= i < j < self.functions@.len() ==> (#[trigger] self.functions@[i])@ != (
            #[trigger] self.functions@[j])@
    }

    /// What the invariant says of the view: no binding was made above the
    /// current level, no name is bound twice, and no function is declared
    /// twice.
    pub proof fn law_invariant_bounds_view(&self)
        requires
            self.wf(),
        ensures
            levels_bounded(self@),
            names_distinct(self@.scope),
            self@.functions.no_duplicates(),
    {
        assert forall|j: int| 0 <= j < self@.scope.len() implies (#[trigger] self@.scope[j]).level
            <= self@.level by {
            assert(self.scope@[j].level <= self.marks@.len());
        }
        assert forall|i: int, j: int| 0 <= i < j < self@.scope.len() implies (
        #[trigger] self@.scope[i]).id.id != (#[trigger] self@.scope[j]).id.id by {
            assert(self.scope@[i].id.id@ != self.scope@[j].id.id@);
        }
        assert forall|i: int, j: int|
            0 <= i < self@.functions.len() && 0 <= j < self@.functions.len() && i
                != j implies self@.functions[i] != self@.functions[j] by {
            if i < j {
                assert(self.functions@[i]@ != self.functions@[j]@);
            } else {
                assert(self.functions@[j]@ != self.functions@[i]@);
            }
        }
    }

    /// A checker with no binding, no function and level zero.
    pub fn new() -> (r: Checker)
        ensures
            r.wf(),
            r@ == CheckerView::empty(),
    {
        let r = Checker { scope: Vec::new(), functions: Vec::new(), marks: Vec::new() };
        proof {
            assert(views(r.scope@) =~= Seq::<ScopedVariableView>::empty());
            assert(views(r.functions@) =~= Seq::<FunctionDeclarationView>::empty());
        }
        r
    }

    /// The level of the current scope.
    pub fn level(&self) -> (r: usize)
        ensures
            r as nat == self@.level,
    {
        self.marks.len()
    }

    /// The bindings in scope, in the order in which they were made.
    pub fn scope(&self) -> (r: &Vec<ScopedVariable>)
        ensures
            views(r@) == self@.scope,
    {
        &self.scope
    }

    /// The declared functions, in the order in which they were declared.
    pub fn functions(&self) -> (r: &Vec<FunctionDeclaration>)
        ensures
            views(r@) == self@.functions,
    {
        &self.functions
    }

    /// The binding of a name, if it is bound.
    pub fn get_scope(&self, variable_name: &str) -> (r: Option<&ScopedVariable>)
        ensures
            match r {
                Some(binding) => lookup(self@.scope, variable_name@) == Some(binding@),
                None => lookup(self@.scope, variable_name@) is None,
            },
    {
        let ghost all = views(self.scope@);
        let wanted = String::from_str(variable_name);
        let mut i: usize = 0;
        proof {
            assert(all.skip(0) =~= all);
        }
        while i < self.scope.len()
            invariant
                i <= self.scope.len(),
                all == views(self.scope@),
                wanted@ == variable_name@,
                lookup(all, variable_name@) == lookup(all.skip(i as int), variable_name@),
            decreases self.scope.len() - i,
        {
            proof {
                assert(all.skip(i as int).drop_first() =~= all.skip(i as int + 1));
                assert(all.skip(i as int)[0] == self.scope@[i as int]@);
            }
            if self.scope[i].id.id == wanted {
                return Some(&self.scope[i]);
            }
            i += 1;
        }
        None
    }

    /// Offers a variable to the scope. It is bound at the current level and
    /// the answer is `true`, unless its name is bound already: then nothing
    /// changes and the answer is `false`.
    pub fn insert_scope(&mut self, v: Variable) -> (r: bool)
        requires
            old(self).wf(),
        ensures
            final(self).wf(),
            final(self)@ == old(self)@.insert(v@),
            r == (lookup(old(self)@.scope, v@.id) is None),
    {
        match self.get_scope(v.id.as_str()) {
            Some(_) => {
                return false;
            },
            None => {},
        }
        proof {
            lemma_lookup_none(self@.scope, v@.id);
            assert forall|j: int| 0 <= j < self.scope@.len() implies (
            #[trigger] self.scope@[j]).id.id@ != v.id@ by {
                assert(self@.scope[j].id.id != v@.id);
            }
        }
        let level = self.marks.len();
        let binding = ScopedVariable { id: v, level };
        proof {
            assert(views(self.scope@.push(binding)) =~= views(self.scope@).push(binding@));
        }
        self.scope.push(binding);
        true
    }

    /// The declarations that answer a query.
    pub fn find_candidates(&self, query: &FunctionQuery) -> (r: Vec<FunctionDeclaration>)
        ensures
            views(r@) == candidates(query@, self@.functions),
            forall|j: int| 0 <= j < r@.len() ==> query@.matches((#[trigger] r@[j])@),
    {
        query.match_funcs(&self.functions)
    }

    /// Enters a scope: the level goes up by one.
    pub fn enter_scope(&mut self)
        requires
            old(self).wf(),
        ensures
            final(self).wf(),
            final(self)@ == old(self)@.enter(),
    {
        let mark = self.scope.len();
        self.marks.push(mark);
    }

    /// Leaves the current scope: its bindings are dropped and the level goes
    /// down by one.
    pub fn exit_scope(&mut self)
        requires
            old(self).wf(),
            old(self)@.level > 0,
        ensures
            final(self).wf(),
            final(self)@ == old(self)@.exit(),
    {
        let ghost before = self@;
        let ghost top = self.marks@.len() - 1;
        match self.marks.pop() {
            Some(mark) => {
                proof {
                    assert forall|j: int| 0 <= j < mark implies (#[trigger] before.scope[j]).level
                        < before.level by {
                        assert(self.scope@[j].level <= old(self).marks@.len());
                        assert(old(self).marks@[top] <= j <==> top < self.scope@[j].level);
                    }
                    assert forall|j: int| mark <= j < before.scope.len() implies (
                    #[trigger] before.scope[j]).level >= before.level by {
                        assert(old(self).marks@[top] <= j <==> top < self.scope@[j].level);
                    }
                    lemma_exit_keeps_prefix(before.scope, mark as int, before.level);
                    assert(views(self.scope@.take(mark as int)) =~= before.scope.take(mark as int));
                }
                self.scope.truncate(mark);
                proof {
                    assert forall|j: int, k: int|
                        #![trigger self.scope@[j], self.marks@[k]]
                        0 <= j < self.scope@.len() && 0 <= k < self.marks@.len() implies (
                    self.marks@[k] <= j <==> k < self.scope@[j].level) by {
                        assert(old(self).marks@[k] <= j <==> k < old(self).scope@[j].level);
                    }
                    assert forall|j: int| 0 <= j < self.scope@.len() implies (
                    #[trigger] self.scope@[j]).level <= self.marks@.len() by {
                        assert(before.scope[j].level < before.level);
                    }
                    assert forall|k: int| 0 <= k < self.marks@.len() implies #[trigger] self.marks@[k]
                        <= self.scope@.len() by {
                        if mark < old(self).scope@.len() {
                            let at = old(self).scope@[mark as int];
                            assert(old(self).marks@[top] <= mark <==> top < at.level);
                            assert(old(self).marks@[k] <= mark <==> k < at.level);
                        } else {
                            assert(old(self).marks@[k] <= old(self).scope@.len());
                        }
                    }
                }
            },
            None => {},
        }
    }

    /// Declares a function, unless an equal declaration is there already.
    pub fn register(&mut self, f: FunctionDeclaration)
        requires
            old(self).wf(),
        ensures
            final(self).wf(),
            final(self)@ == old(self)@.register(f@),
    {
        let mut i: usize = 0;
        while i < self.functions.len()
            invariant
                i <= self.functions.len(),
                *self == *old(self),
                self.wf(),
                forall|j: int| 0 <= j < i ==> (#[trigger] self.functions@[j])@ != f@,
            decreases self.functions.len() - i,
        {
            if self.functions[i].same(&f) {
                proof {
                    assert(self@.functions[i as int] == f@);
                }
                return ;
            }
            i += 1;
        }
        proof {
            assert(!self@.functions.contains(f@)) by {
                if self@.functions.contains(f@) {
                    let j = choose|j: int|
                        0 <= j < self@.functions.len() && self@.functions[j] == f@;
                    assert(self.functions@[j]@ == f@);
                }
            }
            assert(views(self.functions@.push(f)) =~= views(self.functions@).push(f@));
        }
        self.functions.push(f);
    }

    /// Checks that exactly one function `main` is declared.
    pub fn check_single_main(&mut self) -> (r: Result<(), Error>)
        ensures
            *final(self) == *old(self),
            unit_result_view(r) == checked_single_main(old(self)@.functions),
    {
        let ghost all = views(self.functions@);
        let main = String::from_str("main");
        let mut count: usize = 0;
        let mut i: usize = 0;
        proof {
            reveal(Seq::filter);
            assert(all.take(0) =~= Seq::<FunctionDeclarationView>::empty());
        }
        while i < self.functions.len()
            invariant
                i <= self.functions.len(),
                *self == *old(self),
                all == views(self.functions@),
                main@ == "main"@,
                count <= i,
                count == main_count(all.take(i as int)),
            decreases self.functions.len() - i,
        {
            proof {
                reveal(Seq::filter);
                assert(all.take(i as int + 1).drop_last() =~= all.take(i as int));
                assert(all.take(i as int + 1).last() == self.functions@[i as int]@);
            }
            if self.functions[i].id == main {
                count += 1;
            }
            i += 1;
        }
        proof {
            assert(all.take(i as int) =~= all);
        }
        if count == 1 {
            Ok(())
        } else if count == 0 {
            Err(Error { pos: None, message: no_main() })
        } else {
            Err(Error { pos: None, message: many_mains(count) })
        }
    }

    /// Checks that the variable of a loop is a field element.
    pub fn check_for_var(&self, var: &VariableNode) -> (r: Result<(), Error>)
        ensures
            unit_result_view(r) == checked_for_var(var@),
    {
        match var.value.get_type() {
            Type::FieldElement => Ok(()),
            t => Err(Error { pos: Some(var.pos()), message: loop_variable_type(t) }),
        }
    }
}

} // verus!
