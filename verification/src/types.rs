//! The types of the language and the signatures of its functions.

use vstd::prelude::*;
use vstd::string::StringExecFns;
use crate::text::{append_joined, dec_text, join, string_views, usize_to_string};

verus! {

/// A type of the language: a field element, a boolean, or an array of field
/// elements of a fixed length.
#[derive(Clone, Copy, Debug, PartialEq, Eq, Hash, Structural)]
pub enum Type {
    FieldElement,
    Boolean,
    FieldElementArray(usize),
}

impl Type {
    /// The number of field elements that a value of the type takes.
    pub open spec fn primitive_count(self) -> nat {
        match self {
            Type::FieldElement => 1,
            Type::Boolean => 1,
            Type::FieldElementArray(size) => size as nat,
        }
    }

    /// The text of the type: `field`, `bool`, or `field[n]`.
    pub open spec fn text(self) -> Seq<char> {
        match self {
            Type::FieldElement => "field"@,
            Type::Boolean => "bool"@,
            Type::FieldElementArray(size) => "field["@ + dec_text(size as nat) + "]"@,
        }
    }

    /// The number of field elements that a value of the type takes.
    pub fn get_primitive_count(&self) -> (r: usize)
        ensures
            r as nat == self.primitive_count(),
    {
        match self {
            Type::FieldElement => 1,
            Type::Boolean => 1,
            Type::FieldElementArray(size) => *size,
        }
    }

    /// Renders the type.
    pub fn to_string(&self) -> (r: String)
        ensures
            r@ == self.text(),
    {
        match self {
            Type::FieldElement => String::from_str("field"),
            Type::Boolean => String::from_str("bool"),
            Type::FieldElementArray(size) => {
                let mut out = String::from_str("field[");
                let n = usize_to_string(*size);
                out.append(n.as_str());
                out.append("]");
                out
            },
        }
    }
}

/// The texts of a sequence of types.
pub open spec fn type_texts(types: Seq<Type>) -> Seq<Seq<char>> {
    Seq::new(types.len(), |i: int| types[i].text())
}

/// The texts of a sequence of types, separated by a comma and a space.
pub open spec fn types_text(types: Seq<Type>) -> Seq<char> {
    join(type_texts(types), ", "@)
}

/// Renders a list of types, separated by a comma and a space.
pub fn types_to_string(types: &Vec<Type>) -> (r: String)
    ensures
        r@ == types_text(types@),
{
    let mut parts: Vec<String> = Vec::new();
    let mut i: usize = 0;
    while i < types.len()
        invariant
            i <= types.len(),
            parts@.len() == i,
            string_views(parts@) == type_texts(types@.take(i as int)),
        decreases types.len() - i,
    {
        let part = types[i].to_string();
        proof {
            let next = string_views(parts@.push(part));
            assert forall|j: int| 0 <= j < next.len() implies next[j] == type_texts(
                types@.take(i as int + 1),
            )[j] by {
                if j < i {
                    assert(string_views(parts@)[j] == type_texts(types@.take(i as int))[j]);
                }
            }
            assert(next =~= type_texts(types@.take(i as int + 1)));
        }
        parts.push(part);
        i += 1;
    }
    proof {
        assert(types@.take(i as int) =~= types@);
    }
    let mut out = String::new();
    append_joined(&mut out, &parts, ", ");
    out
}

/// A copy of a list of types.
pub fn copy_types(types: &Vec<Type>) -> (r: Vec<Type>)
    ensures
        r@ == types@,
{
    let mut out: Vec<Type> = Vec::new();
    let mut i: usize = 0;
    while i < types.len()
        invariant
            i <= types.len(),
            out@ == types@.take(i as int),
        decreases types.len() - i,
    {
        out.push(types[i]);
        i += 1;
    }
    proof {
        assert(types@.take(i as int) =~= types@);
    }
    out
}

/// Whether two lists of types are equal, element by element.
pub fn same_types(a: &Vec<Type>, b: &Vec<Type>) -> (r: bool)
    ensures
        r == (a@ == b@),
{
    if a.len() != b.len() {
        return false;
    }
    let mut i: usize = 0;
    while i < a.len()
        invariant
            i <= a.len(),
            a.len() == b.len(),
            a@.take(i as int) == b@.take(i as int),
        decreases a.len() - i,
    {
        if a[i] != b[i] {
            return false;
        }
        proof {
            assert(a@.take(i as int + 1) =~= a@.take(i as int).push(a@[i as int]));
            assert(b@.take(i as int + 1) =~= b@.take(i as int).push(b@[i as int]));
        }
        i += 1;
    }
    proof {
        assert(a@.take(i as int) =~= a@);
        assert(b@.take(i as int) =~= b@);
    }
    true
}

/// The input types and the output types of a function.
#[derive(Debug, PartialEq, Eq, Hash)]
pub struct Signature {
    pub inputs: Vec<Type>,
    pub outputs: Vec<Type>,
}

/// The mathematical value of a signature.
pub struct SignatureView {
    pub inputs: Seq<Type>,
    pub outputs: Seq<Type>,
}

impl SignatureView {
    /// The text of a signature: `(inputs) -> (outputs)`.
    pub open spec fn text(self) -> Seq<char> {
        "("@ + types_text(self.inputs) + ") -> ("@ + types_text(self.outputs) + ")"@
    }
}

impl View for Signature {
    type V = SignatureView;

    open spec fn view(&self) -> SignatureView {
        SignatureView { inputs: self.inputs@, outputs: self.outputs@ }
    }
}

impl Signature {
    /// The signature without inputs and outputs.
    pub fn new() -> (r: Signature)
        ensures
            r@ == (SignatureView { inputs: Seq::empty(), outputs: Seq::empty() }),
    {
        Signature { inputs: Vec::new(), outputs: Vec::new() }
    }

    /// The same signature with other inputs.
    pub fn inputs(self, inputs: Vec<Type>) -> (r: Signature)
        ensures
            r@ == (SignatureView { inputs: inputs@, outputs: self@.outputs }),
    {
        Signature { inputs, outputs: self.outputs }
    }

    /// The same signature with other outputs.
    pub fn outputs(self, outputs: Vec<Type>) -> (r: Signature)
        ensures
            r@ == (SignatureView { inputs: self@.inputs, outputs: outputs@ }),
    {
        Signature { inputs: self.inputs, outputs }
    }

    /// Whether two signatures have equal inputs and equal outputs.
    pub fn same(&self, other: &Signature) -> (r: bool)
        ensures
            r == (self@ == other@),
    {
        same_types(&self.inputs, &other.inputs) && same_types(&self.outputs, &other.outputs)
    }

    /// Renders the signature.
    pub fn to_string(&self) -> (r: String)
        ensures
            r@ == self@.text(),
    {
        let mut out = String::from_str("(");
        let inputs = types_to_string(&self.inputs);
        out.append(inputs.as_str());
        out.append(") -> (");
        let outputs = types_to_string(&self.outputs);
        out.append(outputs.as_str());
        out.append(")");
        out
    }
}

impl Clone for Signature {
    fn clone(&self) -> (r: Signature)
        ensures
            r@ == self@,
    {
        Signature { inputs: copy_types(&self.inputs), outputs: copy_types(&self.outputs) }
    }
}

} // verus!
