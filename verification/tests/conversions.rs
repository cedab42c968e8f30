use zokrates_core::conversions::{cast, split, use_variable, Layout};
use zokrates_core::field::FieldValue;
use zokrates_core::flat_absy::{
    DirectiveStatement, FlatExpression, FlatExpressionList, FlatParameter, FlatStatement,
    FlatVariable, Helper,
};
use zokrates_core::types::Type;

#[test]
fn bool_to_field() {
    let b2f = cast(&Type::Boolean, &Type::FieldElement);
    assert_eq!(b2f.id, String::from("_bool_to_field"));
    assert_eq!(
        b2f.arguments,
        vec![FlatParameter::private(FlatVariable::new(0))]
    );
    assert_eq!(b2f.statements.len(), 2); // 1 definition, 1 return
    assert_eq!(
        b2f.statements[0],
        FlatStatement::Definition(FlatVariable::new(1), FlatVariable::new(0).into())
    );
    assert_eq!(
        b2f.statements[1],
        FlatStatement::Return(FlatExpressionList {
            expressions: vec![FlatExpression::Identifier(FlatVariable::new(1))]
        })
    );
    assert_eq!(b2f.signature.outputs.len(), 1);
}

#[test]
fn split254() {
    let unpack = split(254);
    let unpack = &unpack.functions[0];

    assert_eq!(unpack.id, String::from("main"));
    assert_eq!(
        unpack.arguments,
        vec![FlatParameter::private(FlatVariable::new(0))]
    );
    assert_eq!(unpack.statements.len(), 254 + 1 + 1 + 1); // 254 bit checks, 1 directive, 1 sum check, 1 return
    assert_eq!(
        unpack.statements[0],
        FlatStatement::Directive(DirectiveStatement::new(
            (0..254).map(|i| FlatVariable::new(i + 1)).collect(),
            Helper::bits(),
            vec![FlatVariable::new(0)]
        ))
    );
    assert_eq!(
        *unpack.statements.last().unwrap(),
        FlatStatement::Return(FlatExpressionList {
            expressions: (0..254)
                .map(|i| FlatExpression::Identifier(FlatVariable::new(i + 1)))
                .collect()
        })
    );
}

fn power_of_two(exponent: usize) -> FieldValue {
    let mut power = FieldValue::one();
    for _ in 0..exponent {
        power = power.double();
    }
    power
}

fn bit_sum(n: usize, terms: usize) -> FlatExpression {
    let mut sum = FlatExpression::Number(FieldValue::zero());
    for i in 0..terms {
        sum = FlatExpression::Add(
            Box::new(sum),
            Box::new(FlatExpression::Mult(
                Box::new(FlatExpression::Identifier(FlatVariable::new(n - i))),
                Box::new(FlatExpression::Number(power_of_two(i))),
            )),
        );
    }
    sum
}

#[test]
fn split_into_two_bits() {
    let program = split(2);
    assert_eq!(program.functions.len(), 1);
    let function = &program.functions[0];
    let variable = |id: usize| FlatExpression::Identifier(FlatVariable::new(id));
    let number = |n: usize| FlatExpression::Number(FieldValue::from_usize(n));
    let bit = |id: usize| {
        FlatStatement::Condition(
            variable(id),
            FlatExpression::Mult(Box::new(variable(id)), Box::new(variable(id))),
        )
    };
    assert_eq!(
        function.statements,
        vec![
            FlatStatement::Directive(DirectiveStatement {
                inputs: vec![variable(0)],
                outputs: vec![FlatVariable::new(1), FlatVariable::new(2)],
                helper: Helper::Bits,
            }),
            bit(2),
            bit(1),
            FlatStatement::Condition(
                FlatExpression::Add(
                    Box::new(FlatExpression::Add(
                        Box::new(number(0)),
                        Box::new(FlatExpression::Mult(Box::new(variable(2)), Box::new(number(1))))
                    )),
                    Box::new(FlatExpression::Mult(Box::new(variable(1)), Box::new(number(2))))
                ),
                FlatExpression::Mult(Box::new(variable(0)), Box::new(number(1)))
            ),
            FlatStatement::Return(FlatExpressionList { expressions: vec![variable(1), variable(2)] }),
        ]
    );
    assert_eq!(function.signature.inputs, vec![Type::FieldElement]);
    assert_eq!(function.signature.outputs, vec![Type::FieldElementArray(2)]);
}

#[test]
fn split_constrains_every_bit_and_their_sum() {
    let program = split(254);
    let statements = &program.functions[0].statements;
    for k in 0..254 {
        let bit = FlatExpression::Identifier(FlatVariable::new(254 - k));
        assert_eq!(
            statements[1 + k],
            FlatStatement::Condition(
                FlatExpression::Identifier(FlatVariable::new(254 - k)),
                FlatExpression::Mult(
                    Box::new(FlatExpression::Identifier(FlatVariable::new(254 - k))),
                    Box::new(bit)
                )
            )
        );
    }
    let reconstruction = FlatStatement::Condition(
        bit_sum(254, 254),
        FlatExpression::Mult(
            Box::new(FlatExpression::Identifier(FlatVariable::new(0))),
            Box::new(FlatExpression::Number(FieldValue::one())),
        ),
    );
    assert_eq!(statements[255], reconstruction);
    assert_eq!(statements.iter().filter(|s| **s == reconstruction).count(), 1);
    match &statements[256] {
        FlatStatement::Return(list) => assert_eq!(list.expressions.len(), 254),
        other => panic!("expected a return, found {:?}", other),
    }
}

#[test]
fn split_into_no_bits() {
    let program = split(0);
    assert_eq!(
        program.functions[0].statements,
        vec![
            FlatStatement::Directive(DirectiveStatement::new(
                vec![],
                Helper::bits(),
                vec![FlatVariable::new(0)]
            )),
            FlatStatement::Condition(
                FlatExpression::Number(FieldValue::zero()),
                FlatExpression::Mult(
                    Box::new(FlatExpression::Identifier(FlatVariable::new(0))),
                    Box::new(FlatExpression::Number(FieldValue::one()))
                )
            ),
            FlatStatement::Return(FlatExpressionList { expressions: vec![] }),
        ]
    );
}

#[test]
fn cast_has_the_signature_of_the_conversion() {
    let function = cast(&Type::Boolean, &Type::FieldElement);
    assert_eq!(function.signature.inputs, vec![Type::Boolean]);
    assert_eq!(function.signature.outputs, vec![Type::FieldElement]);
}

#[test]
fn variables_are_taken_in_order() {
    let mut layout = Layout::new();
    let mut index = 0;
    assert_eq!(use_variable(&mut layout, String::from("i0"), &mut index), FlatVariable::new(0));
    assert_eq!(use_variable(&mut layout, String::from("o0"), &mut index), FlatVariable::new(1));
    assert_eq!(use_variable(&mut layout, String::from("i0"), &mut index), FlatVariable::new(2));
    assert_eq!(index, 3);
    assert_eq!(FlatParameter::public(FlatVariable::new(2)).private, false);
}
