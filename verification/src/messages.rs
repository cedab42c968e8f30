//! The texts of the checker's error messages.
//!
//! Each message has a specification function that says what its text is, and
//! an executable function that builds that text.

use vstd::prelude::*;
use vstd::string::StringExecFns;
use crate::text::{dec_text, usize_to_string};
use crate::types::Type;

verus! {

/// The text of the message for an identifier that no binding in scope
/// declares.
pub open spec fn undefined_identifier_text(name: Seq<char>) -> Seq<char> {
    "Identifier \""@ + name + "\" is undefined"@
}

/// Builds the message for an identifier that no binding in scope declares.
pub fn undefined_identifier(name: &str) -> (r: String)
    ensures
        r@ == undefined_identifier_text(name@),
{
    let mut out = String::from_str("Identifier \"");
    out.append(name);
    out.append("\" is undefined");
    out
}

/// The text of the message for an arithmetic operation on operands that are
/// not both field elements.
pub open spec fn expected_field_elements_text(left: Type, right: Type) -> Seq<char> {
    "Expected only field elements, found "@ + left.text() + ", "@ + right.text()
}

/// Builds the message for an arithmetic operation on operands that are not
/// both field elements.
pub fn expected_field_elements(left: Type, right: Type) -> (r: String)
    ensures
        r@ == expected_field_elements_text(left, right),
{
    let mut out = String::from_str("Expected only field elements, found ");
    let piece_0 = left.to_string();
    out.append(piece_0.as_str());
    out.append(", ");
    let piece_1 = right.to_string();
    out.append(piece_1.as_str());
    out
}

/// The text of the message for a conditional whose condition is not a boolean.
pub open spec fn condition_not_boolean_text(found: Type) -> Seq<char> {
    "{condition} after `if` should be a boolean, found "@ + found.text()
}

/// Builds the message for a conditional whose condition is not a boolean.
pub fn condition_not_boolean(found: Type) -> (r: String)
    ensures
        r@ == condition_not_boolean_text(found),
{
    let mut out = String::from_str("{condition} after `if` should be a boolean, found ");
    let piece_0 = found.to_string();
    out.append(piece_0.as_str());
    out
}

/// The text of the message for a conditional whose branches have different
/// types.
pub open spec fn branches_differ_text(consequence: Type, alternative: Type) -> Seq<char> {
    "{consequence} and {alternative} in `if/else` expression should have the same type, found "@
        + consequence.text()
        + ", "@
        + alternative.text()
}

/// Builds the message for a conditional whose branches have different types.
pub fn branches_differ(consequence: Type, alternative: Type) -> (r: String)
    ensures
        r@ == branches_differ_text(consequence, alternative),
{
    let mut out = String::from_str(
        "{consequence} and {alternative} in `if/else` expression should have the same type, found ",
    );
    let piece_0 = consequence.to_string();
    out.append(piece_0.as_str());
    out.append(", ");
    let piece_1 = alternative.to_string();
    out.append(piece_1.as_str());
    out
}

/// The text of the message for a call in an expression to a function that
/// returns several values.
pub open spec fn multiple_returns_text(name: Seq<char>, count: nat) -> Seq<char> {
    name + " returns "@ + dec_text(count) + " values but is called outside of a definition"@
}

/// Builds the message for a call in an expression to a function that returns
/// several values.
pub fn multiple_returns(name: &str, count: usize) -> (r: String)
    ensures
        r@ == multiple_returns_text(name@, count as nat),
{
    let mut out = String::from_str(name);
    out.append(" returns ");
    let piece_0 = usize_to_string(count);
    out.append(piece_0.as_str());
    out.append(" values but is called outside of a definition");
    out
}

/// The text of the message for a call that no declared function matches.
pub open spec fn function_not_found_text(name: Seq<char>, query: Seq<char>) -> Seq<char> {
    "Function definition for function "@ + name + " with signature "@ + query + " not found."@
}

/// Builds the message for a call that no declared function matches.
pub fn function_not_found(name: &str, query: &str) -> (r: String)
    ensures
        r@ == function_not_found_text(name@, query@),
{
    let mut out = String::from_str("Function definition for function ");
    out.append(name);
    out.append(" with signature ");
    out.append(query);
    out.append(" not found.");
    out
}

/// The text of the message for a call that several declared functions match.
pub open spec fn ambiguous_call_text(name: Seq<char>, arguments: Seq<char>) -> Seq<char> {
    "Function call for function "@ + name + " with arguments ["@ + arguments + "] is ambiguous."@
}

/// Builds the message for a call that several declared functions match.
pub fn ambiguous_call(name: &str, arguments: &str) -> (r: String)
    ensures
        r@ == ambiguous_call_text(name@, arguments@),
{
    let mut out = String::from_str("Function call for function ");
    out.append(name);
    out.append(" with arguments [");
    out.append(arguments);
    out.append("] is ambiguous.");
    out
}

/// The text of the message for a comparison of operands that cannot be
/// compared.
pub open spec fn cannot_compare_text(left: Seq<char>, left_type: Type, right: Seq<char>, right_type: Type) -> Seq<char> {
    "Cannot compare "@
        + left
        + " of type "@
        + left_type.text()
        + " to "@
        + right
        + " of type "@
        + right_type.text()
}

/// Builds the message for a comparison of operands that cannot be compared.
pub fn cannot_compare(left: &str, left_type: Type, right: &str, right_type: Type) -> (r: String)
    ensures
        r@ == cannot_compare_text(left@, left_type, right@, right_type),
{
    let mut out = String::from_str("Cannot compare ");
    out.append(left);
    out.append(" of type ");
    let piece_0 = left_type.to_string();
    out.append(piece_0.as_str());
    out.append(" to ");
    out.append(right);
    out.append(" of type ");
    let piece_1 = right_type.to_string();
    out.append(piece_1.as_str());
    out
}

/// The text of the message for a selection from what is not an array, or by
/// what is not a field element.
pub open spec fn cannot_access_text(index: Seq<char>, found: Type) -> Seq<char> {
    "Cannot access element "@ + index + " on expression of type "@ + found.text()
}

/// Builds the message for a selection from what is not an array, or by what
/// is not a field element.
pub fn cannot_access(index: &str, found: Type) -> (r: String)
    ensures
        r@ == cannot_access_text(index@, found),
{
    let mut out = String::from_str("Cannot access element ");
    out.append(index);
    out.append(" on expression of type ");
    let piece_0 = found.to_string();
    out.append(piece_0.as_str());
    out
}

/// The text of the message for a range that starts behind the end of the
/// array.
pub open spec fn lower_bound_out_text(from: Seq<char>, size: nat) -> Seq<char> {
    "Lower range bound "@ + from + " is out of array bounds [0, "@ + dec_text(size) + "]"@
}

/// Builds the message for a range that starts behind the end of the array.
pub fn lower_bound_out(from: &str, size: usize) -> (r: String)
    ensures
        r@ == lower_bound_out_text(from@, size as nat),
{
    let mut out = String::from_str("Lower range bound ");
    out.append(from);
    out.append(" is out of array bounds [0, ");
    let piece_0 = usize_to_string(size);
    out.append(piece_0.as_str());
    out.append("]");
    out
}

/// The text of the message for a range that ends behind the end of the array.
pub open spec fn higher_bound_out_text(to: Seq<char>, size: nat) -> Seq<char> {
    "Higher range bound "@ + to + " is out of array bounds [0, "@ + dec_text(size) + "]"@
}

/// Builds the message for a range that ends behind the end of the array.
pub fn higher_bound_out(to: &str, size: usize) -> (r: String)
    ensures
        r@ == higher_bound_out_text(to@, size as nat),
{
    let mut out = String::from_str("Higher range bound ");
    out.append(to);
    out.append(" is out of array bounds [0, ");
    let piece_0 = usize_to_string(size);
    out.append(piece_0.as_str());
    out.append("]");
    out
}

/// The text of the message for a range that ends before it starts.
pub open spec fn bounds_reversed_text(from: Seq<char>, to: Seq<char>) -> Seq<char> {
    "Lower range bound "@ + from + " is larger than higher range bound "@ + to
}

/// Builds the message for a range that ends before it starts.
pub fn bounds_reversed(from: &str, to: &str) -> (r: String)
    ensures
        r@ == bounds_reversed_text(from@, to@),
{
    let mut out = String::from_str("Lower range bound ");
    out.append(from);
    out.append(" is larger than higher range bound ");
    out.append(to);
    out
}

/// The text of the message for an element of an inline array that is not a
/// field element.
pub open spec fn element_type_text(element: Seq<char>, expected: Type, found: Type) -> Seq<char> {
    "Expected "@ + element + " to have type "@ + expected.text() + ", but type is "@ + found.text()
}

/// Builds the message for an element of an inline array that is not a field
/// element.
pub fn element_type(element: &str, expected: Type, found: Type) -> (r: String)
    ensures
        r@ == element_type_text(element@, expected, found),
{
    let mut out = String::from_str("Expected ");
    out.append(element);
    out.append(" to have type ");
    let piece_0 = expected.to_string();
    out.append(piece_0.as_str());
    out.append(", but type is ");
    let piece_1 = found.to_string();
    out.append(piece_1.as_str());
    out
}

/// The text of the message for an inline array whose first element is not a
/// field element.
pub open spec fn unsupported_array_text(found: Type) -> Seq<char> {
    "Only arrays of "@ + Type::FieldElement.text() + " are supported, found "@ + found.text()
}

/// Builds the message for an inline array whose first element is not a field
/// element.
pub fn unsupported_array(found: Type) -> (r: String)
    ensures
        r@ == unsupported_array_text(found),
{
    let mut out = String::from_str("Only arrays of ");
    let piece_0 = Type::FieldElement.to_string();
    out.append(piece_0.as_str());
    out.append(" are supported, found ");
    let piece_1 = found.to_string();
    out.append(piece_1.as_str());
    out
}

/// The text of the message for an inline array without elements.
pub open spec fn empty_array_text() -> Seq<char> {
    "Inline arrays must have at least one element"@
}

/// Builds the message for an inline array without elements.
pub fn empty_array() -> (r: String)
    ensures
        r@ == empty_array_text(),
{
    let mut out = String::from_str("Inline arrays must have at least one element");
    out
}

/// The text of the message for a conjunction of operands that are not both
/// booleans.
pub open spec fn boolean_operands_text(left: Type, right: Type) -> Seq<char> {
    "cannot apply boolean operators to "@ + left.text() + " and "@ + right.text()
}

/// Builds the message for a conjunction of operands that are not both
/// booleans.
pub fn boolean_operands(left: Type, right: Type) -> (r: String)
    ensures
        r@ == boolean_operands_text(left, right),
{
    let mut out = String::from_str("cannot apply boolean operators to ");
    let piece_0 = left.to_string();
    out.append(piece_0.as_str());
    out.append(" and ");
    let piece_1 = right.to_string();
    out.append(piece_1.as_str());
    out
}

/// The text of the message for a disjunction of operands that are not both
/// booleans.
pub open spec fn cannot_compare_types_text(left: Type, right: Type) -> Seq<char> {
    "cannot compare "@ + left.text() + " to "@ + right.text()
}

/// Builds the message for a disjunction of operands that are not both
/// booleans.
pub fn cannot_compare_types(left: Type, right: Type) -> (r: String)
    ensures
        r@ == cannot_compare_types_text(left, right),
{
    let mut out = String::from_str("cannot compare ");
    let piece_0 = left.to_string();
    out.append(piece_0.as_str());
    out.append(" to ");
    let piece_1 = right.to_string();
    out.append(piece_1.as_str());
    out
}

/// The text of the message for a negation of what is not a boolean.
pub open spec fn cannot_negate_text(found: Type) -> Seq<char> {
    "cannot negate "@ + found.text()
}

/// Builds the message for a negation of what is not a boolean.
pub fn cannot_negate(found: Type) -> (r: String)
    ensures
        r@ == cannot_negate_text(found),
{
    let mut out = String::from_str("cannot negate ");
    let piece_0 = found.to_string();
    out.append(piece_0.as_str());
    out
}

/// The text of the message for a spread of what is not an array.
pub open spec fn spread_not_array_text(found: Type) -> Seq<char> {
    "Expected spread operator to apply on field element array, found "@ + found.text()
}

/// Builds the message for a spread of what is not an array.
pub fn spread_not_array(found: Type) -> (r: String)
    ensures
        r@ == spread_not_array_text(found),
{
    let mut out = String::from_str(
        "Expected spread operator to apply on field element array, found ",
    );
    let piece_0 = found.to_string();
    out.append(piece_0.as_str());
    out
}

/// The text of the message for an assignment to a name that no binding in
/// scope declares.
pub open spec fn undeclared_variable_text(name: Seq<char>) -> Seq<char> {
    "Undeclared variable: \""@ + name + "\""@
}

/// Builds the message for an assignment to a name that no binding in scope
/// declares.
pub fn undeclared_variable(name: &str) -> (r: String)
    ensures
        r@ == undeclared_variable_text(name@),
{
    let mut out = String::from_str("Undeclared variable: \"");
    out.append(name);
    out.append("\"");
    out
}

/// The text of the message for an assignment to a range of an array.
pub open spec fn slice_assignment_text(range: Seq<char>) -> Seq<char> {
    "Using slices in assignments is not supported yet, found "@ + range
}

/// Builds the message for an assignment to a range of an array.
pub fn slice_assignment(range: &str) -> (r: String)
    ensures
        r@ == slice_assignment_text(range@),
{
    let mut out = String::from_str("Using slices in assignments is not supported yet, found ");
    out.append(range);
    out
}

/// The text of the message for an assignment to an element of an array by an
/// index that is not a field element.
pub open spec fn index_type_text(array: Seq<char>, found: Type) -> Seq<char> {
    "Expected array "@ + array + " index to have type field, found "@ + found.text()
}

/// Builds the message for an assignment to an element of an array by an index
/// that is not a field element.
pub fn index_type(array: &str, found: Type) -> (r: String)
    ensures
        r@ == index_type_text(array@, found),
{
    let mut out = String::from_str("Expected array ");
    out.append(array);
    out.append(" index to have type field, found ");
    let piece_0 = found.to_string();
    out.append(piece_0.as_str());
    out
}

/// The text of the message for a `return` whose types are not those of the
/// signature.
pub open spec fn return_shape_text(expected: Seq<char>, found: Seq<char>) -> Seq<char> {
    "Expected ("@ + expected + ") in return statement, found ("@ + found + ")"@
}

/// Builds the message for a `return` whose types are not those of the
/// signature.
pub fn return_shape(expected: &str, found: &str) -> (r: String)
    ensures
        r@ == return_shape_text(expected@, found@),
{
    let mut out = String::from_str("Expected (");
    out.append(expected);
    out.append(") in return statement, found (");
    out.append(found);
    out.append(")");
    out
}

/// The text of the message for a declaration of a name that is in scope
/// already.
pub open spec fn duplicate_declaration_text(name: Seq<char>) -> Seq<char> {
    "Duplicate declaration for variable named "@ + name
}

/// Builds the message for a declaration of a name that is in scope already.
pub fn duplicate_declaration(name: &str) -> (r: String)
    ensures
        r@ == duplicate_declaration_text(name@),
{
    let mut out = String::from_str("Duplicate declaration for variable named ");
    out.append(name);
    out
}

/// The text of the message for an assignment of an expression of another type
/// than what is assigned to.
pub open spec fn cannot_assign_text(expression: Seq<char>, expression_type: Type, assignee: Seq<char>, assignee_type: Type) -> Seq<char> {
    "Expression "@
        + expression
        + " of type "@
        + expression_type.text()
        + " cannot be assigned to "@
        + assignee
        + " of type "@
        + assignee_type.text()
}

/// Builds the message for an assignment of an expression of another type than
/// what is assigned to.
pub fn cannot_assign(expression: &str, expression_type: Type, assignee: &str, assignee_type: Type) -> (r: String)
    ensures
        r@ == cannot_assign_text(expression@, expression_type, assignee@, assignee_type),
{
    let mut out = String::from_str("Expression ");
    out.append(expression);
    out.append(" of type ");
    let piece_0 = expression_type.to_string();
    out.append(piece_0.as_str());
    out.append(" cannot be assigned to ");
    out.append(assignee);
    out.append(" of type ");
    let piece_1 = assignee_type.to_string();
    out.append(piece_1.as_str());
    out
}

/// The text of the message for a loop whose variable is not a field element.
pub open spec fn loop_variable_type_text(found: Type) -> Seq<char> {
    "Variable in for loop cannot have type "@ + found.text()
}

/// Builds the message for a loop whose variable is not a field element.
pub fn loop_variable_type(found: Type) -> (r: String)
    ensures
        r@ == loop_variable_type_text(found),
{
    let mut out = String::from_str("Variable in for loop cannot have type ");
    let piece_0 = found.to_string();
    out.append(piece_0.as_str());
    out
}

/// The text of the message for a definition of several values whose left-hand
/// side holds more than names.
pub open spec fn assignee_not_identifier_text(assignee: Seq<char>) -> Seq<char> {
    "Left hand side of function return assignment must be a list of identifiers, found "@ + assignee
}

/// Builds the message for a definition of several values whose left-hand side
/// holds more than names.
pub fn assignee_not_identifier(assignee: &str) -> (r: String)
    ensures
        r@ == assignee_not_identifier_text(assignee@),
{
    let mut out = String::from_str(
        "Left hand side of function return assignment must be a list of identifiers, found ",
    );
    out.append(assignee);
    out
}

/// The text of the message for a definition of several values whose right-
/// hand side is not a call.
pub open spec fn not_a_call_text(expression: Seq<char>) -> Seq<char> {
    expression + " should be a FunctionCall"@
}

/// Builds the message for a definition of several values whose right-hand
/// side is not a call.
pub fn not_a_call(expression: &str) -> (r: String)
    ensures
        r@ == not_a_call_text(expression@),
{
    let mut out = String::from_str(expression);
    out.append(" should be a FunctionCall");
    out
}

/// The text of the message for a function whose name and signature are
/// declared already.
pub open spec fn duplicate_definition_text(name: Seq<char>, signature: Seq<char>) -> Seq<char> {
    "Duplicate definition for function "@ + name + " with signature "@ + signature
}

/// Builds the message for a function whose name and signature are declared
/// already.
pub fn duplicate_definition(name: &str, signature: &str) -> (r: String)
    ensures
        r@ == duplicate_definition_text(name@, signature@),
{
    let mut out = String::from_str("Duplicate definition for function ");
    out.append(name);
    out.append(" with signature ");
    out.append(signature);
    out
}

/// The text of the message for a program without a function `main`.
pub open spec fn no_main_text() -> Seq<char> {
    "No main function found"@
}

/// Builds the message for a program without a function `main`.
pub fn no_main() -> (r: String)
    ensures
        r@ == no_main_text(),
{
    let mut out = String::from_str("No main function found");
    out
}

/// The text of the message for a program with several functions `main`.
pub open spec fn many_mains_text(count: nat) -> Seq<char> {
    "Only one main function allowed, found "@ + dec_text(count)
}

/// Builds the message for a program with several functions `main`.
pub fn many_mains(count: usize) -> (r: String)
    ensures
        r@ == many_mains_text(count as nat),
{
    let mut out = String::from_str("Only one main function allowed, found ");
    let piece_0 = usize_to_string(count);
    out.append(piece_0.as_str());
    out
}

} // verus!
