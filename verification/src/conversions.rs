//! The flat functions of the conversions that the language cannot express
//! itself: the decomposition of a field element into bits, and the reading
//! of a boolean as a field element.

use vstd::arithmetic::power2::{lemma2_to64, lemma_pow2_unfold, pow2};
use vstd::prelude::*;
use vstd::string::StringExecFns;
use crate::absy::views;
use crate::field::FieldValue;
use crate::flat_absy::{
    identifiers, identifiers_of, DirectiveStatement, DirectiveStatementView, FlatExpression,
    FlatExpressionList, FlatExpressionView, FlatFunction, FlatFunctionView, FlatParameter,
    FlatProg, FlatProgView, FlatStatement, FlatStatementView, FlatVariable, Helper,
};
use crate::text::{dec_text, usize_to_string};
use crate::types::{Signature, SignatureView, Type};

verus! {

/// The names of the variables of a flat function that is being made, each
/// with its variable.
pub struct Layout {
    entries: Vec<(String, FlatVariable)>,
}

/// The map that a list of names with variables stands for: a later entry
/// for a name takes the place of an earlier one.
pub open spec fn entries_map(entries: Seq<(String, FlatVariable)>) -> Map<Seq<char>, FlatVariable>
    decreases entries.len(),
{
    if entries.len() == 0 {
        Map::empty()
    } else {
        entries_map(entries.drop_last()).insert(entries.last().0@, entries.last().1)
    }
}

impl View for Layout {
    type V = Map<Seq<char>, FlatVariable>;

    closed spec fn view(&self) -> Map<Seq<char>, FlatVariable> {
        entries_map(self.entries@)
    }
}

impl Layout {
    /// The layout without names.
    pub fn new() -> (r: Layout)
        ensures
            r@ == Map::<Seq<char>, FlatVariable>::empty(),
    {
        Layout { entries: Vec::new() }
    }

    /// Gives a name a variable; a variable that the name had is forgotten.
    pub fn insert(&mut self, name: String, variable: FlatVariable)
        ensures
            final(self)@ == old(self)@.insert(name@, variable),
    {
        proof {
            assert(self.entries@.push((name, variable)).drop_last() =~= self.entries@);
        }
        self.entries.push((name, variable));
    }
}

/// Takes the next free variable for a name: the variable with the number
/// `index`, which then goes up by one.
pub fn use_variable(layout: &mut Layout, name: String, index: &mut usize) -> (r: FlatVariable)
    requires
        *old(index) < usize::MAX,
    ensures
        r == (FlatVariable { id: *old(index) }),
        *final(index) == *old(index) + 1,
        final(layout)@ == old(layout)@.insert(name@, r),
{
    let var = FlatVariable::new(*index);
    layout.insert(name, var);
    *index = *index + 1;
    var
}

/// The variable with a number.
pub open spec fn variable(id: nat) -> FlatVariable {
    FlatVariable { id: id as usize }
}

/// The outputs of the decomposition into `n` bits: the variables from one to
/// `n`.
pub open spec fn bit_variables(n: nat) -> Seq<FlatVariable> {
    Seq::new(n, |i: int| variable((i + 1) as nat))
}

/// The constraint that the variable with the number `id` is zero or one: it
/// is equal to its square.
pub open spec fn bit_constraint(id: nat) -> FlatStatementView {
    FlatStatementView::Condition(
        FlatExpressionView::Identifier(variable(id)),
        FlatExpressionView::Mult(
            Box::new(FlatExpressionView::Identifier(variable(id))),
            Box::new(FlatExpressionView::Identifier(variable(id))),
        ),
    )
}

/// The constraints that each of the `n` bits is zero or one, the last
/// variable first.
pub open spec fn bit_constraints(n: nat) -> Seq<FlatStatementView> {
    Seq::new(n, |k: int| bit_constraint((n - k) as nat))
}

/// The sum of the first `k` terms of the reconstruction from `n` bits, as a
/// sum that is nested to the left and starts with zero: the term `i` is the
/// variable with the number `n - i`, times two to the power `i`.
pub open spec fn bit_sum(n: nat, k: nat) -> FlatExpressionView
    decreases k,
{
    if k == 0 {
        FlatExpressionView::Number(0)
    } else {
        FlatExpressionView::Add(
            Box::new(bit_sum(n, (k - 1) as nat)),
            Box::new(
                FlatExpressionView::Mult(
                    Box::new(FlatExpressionView::Identifier(variable((n - (k - 1)) as nat))),
                    Box::new(FlatExpressionView::Number(pow2((k - 1) as nat))),
                ),
            ),
        )
    }
}

/// The constraint that the `n` bits make up the input: the sum of all the
/// terms is equal to the input times one.
pub open spec fn reconstruction(n: nat) -> FlatStatementView {
    FlatStatementView::Condition(
        bit_sum(n, n),
        FlatExpressionView::Mult(
            Box::new(FlatExpressionView::Identifier(variable(0))),
            Box::new(FlatExpressionView::Number(1)),
        ),
    )
}

/// The directive that asks for the `n` bits of the input.
pub open spec fn bits_directive(n: nat) -> FlatStatementView {
    FlatStatementView::Directive(
        DirectiveStatementView {
            inputs: seq![FlatExpressionView::Identifier(variable(0))],
            outputs: bit_variables(n),
            helper: Helper::Bits,
        },
    )
}

/// The statements of the decomposition into `n` bits: the directive, the
/// constraints on the bits, the reconstruction, and the return of the bits.
pub open spec fn split_statements(n: nat) -> Seq<FlatStatementView> {
    seq![bits_directive(n)] + bit_constraints(n) + seq![
        reconstruction(n),
        FlatStatementView::Return(identifiers(bit_variables(n))),
    ]
}

/// The function that decomposes a field element into `n` bits.
pub open spec fn split_function(n: nat) -> FlatFunctionView {
    FlatFunctionView {
        id: "main"@,
        arguments: seq![FlatParameter { id: variable(0), private: true }],
        statements: split_statements(n),
        signature: SignatureView {
            inputs: seq![Type::FieldElement],
            outputs: seq![Type::FieldElementArray(n as usize)],
        },
    }
}

/// The program that decomposes a field element into `n` bits.
pub open spec fn split_program(n: nat) -> FlatProgView {
    FlatProgView { functions: seq![split_function(n)] }
}

/// The decomposition into `n` bits has the directive, a constraint for each
/// bit, the reconstruction and the return.
pub proof fn law_split_length(n: nat)
    ensures
        split_statements(n).len() == n + 3,
{
}

/// The reconstruction stands once in the decomposition: behind the
/// constraints on the bits, and nowhere else.
pub proof fn law_split_reconstructs_once(n: nat, i: int)
    requires
        0 <= i < n + 3,
    ensures
        split_statements(n)[i] == reconstruction(n) <==> i == n + 1,
{
    if 1 <= i <= n {
        assert(split_statements(n)[i] == bit_constraint((n - (i - 1)) as nat));
    }
}

/// The decomposition constrains each of the bits to be zero or one: the
/// constraint for the variable `id` stands at the place `n - id + 1`.
pub proof fn law_split_constrains_every_bit(n: nat, id: nat)
    requires
        1 <= id <= n,
    ensures
        split_statements(n)[n - id + 1] == bit_constraint(id),
{
}

/// The decomposition ends with the return of all the bits: the variables
/// from one to `n`, in order.
pub proof fn law_split_returns_every_bit(n: nat)
    ensures
        split_statements(n).last() == FlatStatementView::Return(identifiers(bit_variables(n))),
        identifiers(bit_variables(n)).len() == n,
        forall|k: int|
            0 <= k < n ==> #[trigger] identifiers(bit_variables(n))[k]
                == FlatExpressionView::Identifier(variable((k + 1) as nat)),
{
}

/// The text of the name of an output: the letter `o` and its number.
pub open spec fn output_name(index: nat) -> Seq<char> {
    "o"@ + dec_text(index)
}

/// The name of an output.
pub fn output_name_of(index: usize) -> (r: String)
    ensures
        r@ == output_name(index as nat),
{
    let mut out = String::from_str("o");
    let number = usize_to_string(index);
    out.append(number.as_str());
    out
}

/// The text of the name of an input: the letter `i` and its number.
pub open spec fn input_name(index: nat) -> Seq<char> {
    "i"@ + dec_text(index)
}

/// The name of an input.
pub fn input_name_of(index: usize) -> (r: String)
    ensures
        r@ == input_name(index as nat),
{
    let mut out = String::from_str("i");
    let number = usize_to_string(index);
    out.append(number.as_str());
    out
}

/// The program that decomposes a field element into `nbits` bits, where
/// `nbits` is the number of bits that the order of the field takes. Its one
/// function `main` takes the input as the variable zero and gives the bits
/// as the variables from one to `nbits`.
pub fn split(nbits: usize) -> (r: FlatProg)
    requires
        nbits < usize::MAX,
    ensures
        r@ == split_program(nbits as nat),
{
    let ghost n = nbits as nat;
    let mut counter: usize = 0;
    let mut layout = Layout::new();

    let mut arguments: Vec<FlatParameter> = Vec::new();
    arguments.push(FlatParameter { id: FlatVariable::new(0), private: true });

    let mut directive_inputs: Vec<FlatExpression> = Vec::new();
    directive_inputs.push(
        FlatExpression::Identifier(use_variable(&mut layout, input_name_of(0), &mut counter)),
    );

    let mut directive_outputs: Vec<FlatVariable> = Vec::new();
    let mut index: usize = 0;
    while index < nbits
        invariant
            index <= nbits,
            nbits < usize::MAX,
            counter == index + 1,
            directive_outputs@.len() == index,
            forall|j: int|
                0 <= j < index ==> #[trigger] directive_outputs@[j] == variable((j + 1) as nat),
        decreases nbits - index,
    {
        directive_outputs.push(use_variable(&mut layout, output_name_of(index), &mut counter));
        index += 1;
    }
    proof {
        assert(directive_outputs@ =~= bit_variables(n));
    }

    let mut signature_inputs: Vec<Type> = Vec::new();
    signature_inputs.push(Type::FieldElement);
    let mut signature_outputs: Vec<Type> = Vec::new();
    signature_outputs.push(Type::FieldElementArray(nbits));
    let signature = Signature { inputs: signature_inputs, outputs: signature_outputs };

    let outputs = identifiers_of(&directive_outputs);

    let mut statements: Vec<FlatStatement> = Vec::new();
    let directive = FlatStatement::Directive(
        DirectiveStatement {
            inputs: directive_inputs,
            outputs: directive_outputs,
            helper: Helper::bits(),
        },
    );
    proof {
        assert(views(directive_inputs@) =~= seq![FlatExpressionView::Identifier(variable(0))]);
        assert(directive@ == bits_directive(n));
        assert(views(statements@.push(directive)) =~= seq![bits_directive(n)]);
    }
    statements.push(directive);

    let mut index: usize = 0;
    while index < nbits
        invariant
            index <= nbits,
            n == nbits as nat,
            statements@.len() == index + 1,
            views(statements@) == seq![bits_directive(n)] + bit_constraints(n).take(index as int),
        decreases nbits - index,
    {
        let bit = FlatVariable::new(nbits - index);
        let constraint = FlatStatement::Condition(
            FlatExpression::Identifier(bit),
            FlatExpression::Mult(
                Box::new(FlatExpression::Identifier(bit)),
                Box::new(FlatExpression::Identifier(bit)),
            ),
        );
        proof {
            assert(constraint@ == bit_constraint((n - index) as nat));
            let before = views(statements@);
            let after = views(statements@.push(constraint));
            let wanted = seq![bits_directive(n)] + bit_constraints(n).take(index as int + 1);
            assert forall|j: int| 0 <= j < after.len() implies after[j] == wanted[j] by {
                if j < before.len() {
                    assert(after[j] == before[j]);
                }
            }
            assert(after =~= wanted);
        }
        statements.push(constraint);
        index += 1;
    }
    proof {
        assert(bit_constraints(n).take(index as int) =~= bit_constraints(n));
    }

    let mut lhs_sum = FlatExpression::Number(FieldValue::zero());
    let mut power = FieldValue::one();
    let mut i: usize = 0;
    proof {
        lemma2_to64();
    }
    while i < nbits
        invariant
            i <= nbits,
            n == nbits as nat,
            lhs_sum@ == bit_sum(n, i as nat),
            power@ == pow2(i as nat),
        decreases nbits - i,
    {
        let bit = FlatExpression::Identifier(FlatVariable::new(nbits - i));
        let weight = FlatExpression::Number(power.clone());
        proof {
            assert(bit@ == FlatExpressionView::Identifier(variable((n - i) as nat)));
            assert(weight@ == FlatExpressionView::Number(pow2(i as nat)));
        }
        let term = FlatExpression::Mult(Box::new(bit), Box::new(weight));
        proof {
            assert(term@ == FlatExpressionView::Mult(Box::new(bit@), Box::new(weight@)));
            lemma_pow2_unfold((i + 1) as nat);
        }
        power = power.double();
        lhs_sum = FlatExpression::Add(Box::new(lhs_sum), Box::new(term));
        i += 1;
    }

    let input = FlatExpression::Identifier(FlatVariable::new(0));
    let one = FlatExpression::Number(FieldValue::one());
    proof {
        assert(input@ == FlatExpressionView::Identifier(variable(0)));
        assert(one@ == FlatExpressionView::Number(1));
    }
    let rhs = FlatExpression::Mult(Box::new(input), Box::new(one));
    proof {
        assert(rhs@ == FlatExpressionView::Mult(Box::new(input@), Box::new(one@)));
    }
    let check = FlatStatement::Condition(lhs_sum, rhs);
    let last = FlatStatement::Return(FlatExpressionList { expressions: outputs });
    proof {
        assert(check@ == reconstruction(n));
        assert(last@ == FlatStatementView::Return(identifiers(bit_variables(n))));
        assert(views(statements@.push(check).push(last)) =~= split_statements(n));
    }
    statements.push(check);
    statements.push(last);

    let function = FlatFunction { id: String::from_str("main"), arguments, statements, signature };
    let mut functions: Vec<FlatFunction> = Vec::new();
    proof {
        assert(function@.arguments =~= split_function(n).arguments);
        assert(function@.signature.inputs =~= split_function(n).signature.inputs);
        assert(function@.signature.outputs =~= split_function(n).signature.outputs);
        assert(function@ == split_function(n));
        assert(views(functions@.push(function)) =~= seq![split_function(n)]);
    }
    functions.push(function);
    FlatProg { functions }
}

/// The arguments of a conversion from a type: one private variable for each
/// field element that a value of the type takes, from zero on.
pub open spec fn cast_arguments(from: Type) -> Seq<FlatParameter> {
    Seq::new(from.primitive_count(), |i: int| FlatParameter { id: variable(i as nat), private: true })
}

/// The definitions of a conversion: each output, which are the variables
/// behind the inputs, is defined as the input at the same place.
pub open spec fn cast_bindings(from: Type, to: Type) -> Seq<FlatStatementView> {
    Seq::new(
        if to.primitive_count() <= from.primitive_count() {
            to.primitive_count()
        } else {
            from.primitive_count()
        },
        |k: int|
            FlatStatementView::Definition(
                variable((from.primitive_count() + k) as nat),
                FlatExpressionView::Identifier(variable(k as nat)),
            ),
    )
}

/// The outputs of a conversion: the variables behind the inputs.
pub open spec fn cast_outputs(from: Type, to: Type) -> Seq<FlatVariable> {
    Seq::new(to.primitive_count(), |k: int| variable((from.primitive_count() + k) as nat))
}

/// The text of the name of a conversion.
pub open spec fn cast_name(from: Type, to: Type) -> Seq<char> {
    "_"@ + from.text() + "_to_"@ + to.text()
}

/// The function that converts a value of one type into a value of another.
pub open spec fn cast_function(from: Type, to: Type) -> FlatFunctionView {
    FlatFunctionView {
        id: cast_name(from, to),
        arguments: cast_arguments(from),
        statements: cast_bindings(from, to) + seq![
            FlatStatementView::Return(identifiers(cast_outputs(from, to))),
        ],
        signature: SignatureView { inputs: seq![from], outputs: seq![to] },
    }
}

/// The function that reads a boolean as a field element: its output is
/// defined as its input. No other conversion is there.
pub fn cast(from: &Type, to: &Type) -> (r: FlatFunction)
    requires
        *from == Type::Boolean,
        *to == Type::FieldElement,
    ensures
        r@ == cast_function(*from, *to),
{
    let mut counter: usize = 0;
    let mut layout = Layout::new();
    let from_count = from.get_primitive_count();
    let to_count = to.get_primitive_count();

    let mut arguments: Vec<FlatParameter> = Vec::new();
    let mut index: usize = 0;
    while index < from_count
        invariant
            index <= from_count,
            arguments@.len() == index,
            forall|j: int|
                0 <= j < index ==> #[trigger] arguments@[j] == (FlatParameter {
                    id: variable(j as nat),
                    private: true,
                }),
        decreases from_count - index,
    {
        arguments.push(FlatParameter { id: FlatVariable::new(index), private: true });
        index += 1;
    }

    let mut binding_inputs: Vec<FlatVariable> = Vec::new();
    let mut index: usize = 0;
    while index < from_count
        invariant
            index <= from_count,
            from_count == 1,
            counter == index,
            binding_inputs@.len() == index,
            forall|j: int| 0 <= j < index ==> #[trigger] binding_inputs@[j] == variable(j as nat),
        decreases from_count - index,
    {
        binding_inputs.push(use_variable(&mut layout, input_name_of(index), &mut counter));
        index += 1;
    }

    let mut binding_outputs: Vec<FlatVariable> = Vec::new();
    let mut index: usize = 0;
    while index < to_count
        invariant
            index <= to_count,
            to_count == 1,
            from_count == 1,
            counter == from_count + index,
            binding_outputs@.len() == index,
            forall|j: int|
                0 <= j < index ==> #[trigger] binding_outputs@[j] == variable(
                    (from_count + j) as nat,
                ),
        decreases to_count - index,
    {
        binding_outputs.push(use_variable(&mut layout, output_name_of(index), &mut counter));
        index += 1;
    }
    proof {
        assert(binding_outputs@ =~= cast_outputs(*from, *to));
    }

    let outputs = identifiers_of(&binding_outputs);

    let mut statements: Vec<FlatStatement> = Vec::new();
    let mut index: usize = 0;
    while index < binding_outputs.len() && index < binding_inputs.len()
        invariant
            index <= binding_outputs.len(),
            index <= binding_inputs.len(),
            binding_outputs@ == cast_outputs(*from, *to),
            binding_inputs@.len() == from_count,
            from_count == from.primitive_count(),
            to_count == to.primitive_count(),
            forall|j: int|
                0 <= j < binding_inputs@.len() ==> #[trigger] binding_inputs@[j] == variable(
                    j as nat,
                ),
            statements@.len() == index,
            forall|j: int|
                0 <= j < index ==> (#[trigger] statements@[j])@ == cast_bindings(*from, *to)[j],
        decreases binding_outputs.len() - index,
    {
        statements.push(
            FlatStatement::Definition(
                binding_outputs[index],
                FlatExpression::Identifier(binding_inputs[index]),
            ),
        );
        index += 1;
    }
    let last = FlatStatement::Return(FlatExpressionList { expressions: outputs });
    proof {
        assert(views(statements@.push(last)) =~= cast_function(*from, *to).statements);
    }
    statements.push(last);

    let mut signature_inputs: Vec<Type> = Vec::new();
    signature_inputs.push(*from);
    let mut signature_outputs: Vec<Type> = Vec::new();
    signature_outputs.push(*to);
    let signature = Signature { inputs: signature_inputs, outputs: signature_outputs };

    let mut id = String::from_str("_");
    let from_text = from.to_string();
    id.append(from_text.as_str());
    id.append("_to_");
    let to_text = to.to_string();
    id.append(to_text.as_str());

    let function = FlatFunction { id, arguments, statements, signature };
    proof {
        assert(function@.arguments =~= cast_arguments(*from));
        assert(function@.signature.inputs =~= seq![*from]);
        assert(function@.signature.outputs =~= seq![*to]);
    }
    function
}

} // verus!
