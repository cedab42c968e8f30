use zokrates_core::absy::{
    Assignee, Expression, ExpressionNode, Node, Range, RangeOrExpression, Spread,
    SpreadOrExpression, Variable,
};
use zokrates_core::field::FieldValue;
use zokrates_core::position::Position;
use zokrates_core::text::{
    append_joined, digit_of, digit_str, digits_to_string, numeral_to_digits, usize_digits,
    usize_to_string,
};
use zokrates_core::typed_absy::{
    BooleanExpression, FieldElementArrayExpression, FieldElementExpression, TypedAssignee,
    TypedExpression,
};
use zokrates_core::types::{copy_types, same_types, types_to_string, Signature, Type};

fn node<T>(value: T) -> Node<T> {
    Node::new(Position::new(1, 1), Position::new(1, 2), value)
}

fn id(name: &str) -> ExpressionNode {
    node(Expression::Identifier(String::from(name)))
}

fn constant(n: usize) -> ExpressionNode {
    node(Expression::FieldConstant(FieldValue::from_usize(n)))
}

fn field(n: usize) -> FieldElementExpression {
    FieldElementExpression::Number(FieldValue::from_usize(n))
}

#[test]
fn machine_integers_are_written_in_decimal() {
    assert_eq!(usize_to_string(0), "0");
    assert_eq!(usize_to_string(7), "7");
    assert_eq!(usize_to_string(10), "10");
    assert_eq!(usize_to_string(1234567890), "1234567890");
    assert_eq!(usize_to_string(usize::MAX), usize::MAX.to_string());
    assert_eq!(usize_digits(0), vec![0]);
    assert_eq!(usize_digits(9), vec![9]);
    assert_eq!(usize_digits(4096), vec![4, 0, 9, 6]);
    assert_eq!(digits_to_string(&vec![0, 1, 2, 3, 4, 5, 6, 7, 8, 9]), "0123456789");
    assert_eq!(digits_to_string(&vec![]), "");
    assert_eq!(digit_str(0), "0");
    assert_eq!(digit_str(9), "9");
}

#[test]
fn pieces_are_joined() {
    let mut out = String::from("[");
    append_joined(&mut out, &vec![], ", ");
    assert_eq!(out, "[");
    append_joined(&mut out, &vec![String::from("a")], ", ");
    assert_eq!(out, "[a");
    append_joined(&mut out, &vec![String::from("b"), String::new(), String::from("c")], "; ");
    assert_eq!(out, "[ab; ; c");
}

#[test]
fn field_values_hold_large_numbers() {
    assert_eq!(FieldValue::zero(), FieldValue::from_usize(0));
    assert_eq!(FieldValue::one(), FieldValue::from_usize(1));
    assert_eq!(FieldValue::zero().double(), FieldValue::zero());
    assert_eq!(FieldValue::from_usize(5).double(), FieldValue::from_usize(10));
    assert_eq!(FieldValue::from_usize(499).double(), FieldValue::from_usize(998));
    assert_eq!(FieldValue::from_usize(500).double(), FieldValue::from_usize(1000));
    let mut power = FieldValue::one();
    for _ in 0..253 {
        power = power.double();
    }
    assert_eq!(
        power.to_dec_string(),
        "14474011154664524427946373126085988481658748083205070504932198000989141204992"
    );
    assert_eq!(power.to_usize(), None);
    assert_eq!(power.clone(), power);
}

#[test]
fn field_values_are_read_from_decimal_numerals() {
    assert_eq!(FieldValue::from_dec_str("0"), Some(FieldValue::zero()));
    assert_eq!(FieldValue::from_dec_str("000"), Some(FieldValue::zero()));
    assert_eq!(FieldValue::from_dec_str("42"), Some(FieldValue::from_usize(42)));
    assert_eq!(FieldValue::from_dec_str("0042"), Some(FieldValue::from_usize(42)));
    assert_eq!(FieldValue::from_dec_str("1000"), Some(FieldValue::from_usize(1000)));
    assert_eq!(FieldValue::from_dec_str(""), None);
    assert_eq!(FieldValue::from_dec_str("4 2"), None);
    assert_eq!(FieldValue::from_dec_str("-1"), None);
    assert_eq!(FieldValue::from_dec_str("12a"), None);
    let order = "21888242871839275222246405745257275088548364400416034343698204186575808495617";
    let value = FieldValue::from_dec_str(order).unwrap();
    assert_eq!(value.to_dec_string(), order);
    assert_eq!(value.to_usize(), None);
    assert_eq!(numeral_to_digits("907"), Some(vec![9, 0, 7]));
    assert_eq!(digit_of('7'), Some(7));
    assert_eq!(digit_of('x'), None);
}

#[test]
fn field_values_are_read_as_machine_integers() {
    assert_eq!(FieldValue::from_usize(0).to_usize(), Some(0));
    assert_eq!(FieldValue::from_usize(42).to_usize(), Some(42));
    assert_eq!(FieldValue::from_usize(usize::MAX).to_usize(), Some(usize::MAX));
    assert_eq!(FieldValue::from_usize(usize::MAX).double().to_usize(), None);
    assert_eq!(FieldValue::from_usize(usize::MAX / 2).double().to_usize(), Some(usize::MAX - 1));
    assert_eq!(FieldValue::from_usize(42).to_dec_string(), "42");
    assert_eq!(FieldValue::from_usize(0).to_dec_string(), "0");
}

#[test]
fn types_are_rendered() {
    assert_eq!(Type::FieldElement.to_string(), "field");
    assert_eq!(Type::Boolean.to_string(), "bool");
    assert_eq!(Type::FieldElementArray(42).to_string(), "field[42]");
    assert_eq!(Type::FieldElementArray(0).to_string(), "field[0]");
    assert_eq!(types_to_string(&vec![]), "");
    assert_eq!(types_to_string(&vec![Type::Boolean]), "bool");
    assert_eq!(
        types_to_string(&vec![Type::Boolean, Type::FieldElementArray(3), Type::FieldElement]),
        "bool, field[3], field"
    );
}

#[test]
fn types_have_a_primitive_count() {
    assert_eq!(Type::FieldElement.get_primitive_count(), 1);
    assert_eq!(Type::Boolean.get_primitive_count(), 1);
    assert_eq!(Type::FieldElementArray(42).get_primitive_count(), 42);
}

#[test]
fn signatures_are_compared_and_rendered() {
    let signature = Signature::new()
        .inputs(vec![Type::FieldElement, Type::Boolean])
        .outputs(vec![Type::FieldElementArray(2)]);
    assert_eq!(signature.to_string(), "(field, bool) -> (field[2])");
    assert_eq!(Signature::new().to_string(), "() -> ()");
    assert!(signature.same(&signature.clone()));
    assert!(!signature.same(&Signature::new()));
    assert!(!signature.same(
        &Signature::new()
            .inputs(vec![Type::FieldElement, Type::Boolean])
            .outputs(vec![Type::FieldElementArray(3)])
    ));
    assert!(!signature.same(
        &Signature::new().inputs(vec![Type::FieldElement]).outputs(vec![Type::FieldElementArray(2)])
    ));
    assert!(same_types(&vec![], &vec![]));
    assert!(!same_types(&vec![Type::Boolean], &vec![]));
    assert_eq!(copy_types(&vec![Type::Boolean, Type::FieldElement]), vec![
        Type::Boolean,
        Type::FieldElement
    ]);
}

#[test]
fn positions_are_rendered() {
    assert_eq!(Position::new(12, 345).to_string(), "12:345");
    assert_eq!(Position::new(0, 0).to_string(), "0:0");
}

#[test]
fn typed_expressions_are_rendered() {
    let a = || FieldElementExpression::Identifier(String::from("a"));
    let b = || BooleanExpression::Identifier(String::from("b"));
    let array = || FieldElementArrayExpression::Value(2, vec![field(1), a()]);
    let arguments = || {
        vec![
            TypedExpression::FieldElement(a()),
            TypedExpression::Boolean(b()),
            TypedExpression::FieldElementArray(array()),
        ]
    };
    assert_eq!(field(17).to_string(), "17");
    assert_eq!(FieldElementExpression::Add(Box::new(a()), Box::new(field(1))).to_string(), "(a + 1)");
    assert_eq!(FieldElementExpression::Sub(Box::new(a()), Box::new(field(1))).to_string(), "(a - 1)");
    assert_eq!(FieldElementExpression::Mult(Box::new(a()), Box::new(field(1))).to_string(), "(a * 1)");
    assert_eq!(FieldElementExpression::Div(Box::new(a()), Box::new(field(1))).to_string(), "(a / 1)");
    assert_eq!(FieldElementExpression::Pow(Box::new(a()), Box::new(field(2))).to_string(), "a**2");
    assert_eq!(
        FieldElementExpression::IfElse(Box::new(b()), Box::new(a()), Box::new(field(0))).to_string(),
        "if b then a else 0 fi"
    );
    assert_eq!(
        FieldElementExpression::FunctionCall(String::from("f"), arguments()).to_string(),
        "f(a, b, [1, a])"
    );
    assert_eq!(
        FieldElementExpression::FunctionCall(String::from("f"), vec![]).to_string(),
        "f()"
    );
    assert_eq!(
        FieldElementExpression::Select(Box::new(array()), Box::new(field(1))).to_string(),
        "[1, a][1]"
    );
    assert_eq!(BooleanExpression::Value(true).to_string(), "true");
    assert_eq!(BooleanExpression::Value(false).to_string(), "false");
    assert_eq!(BooleanExpression::Lt(Box::new(a()), Box::new(field(1))).to_string(), "a < 1");
    assert_eq!(BooleanExpression::Le(Box::new(a()), Box::new(field(1))).to_string(), "a <= 1");
    assert_eq!(BooleanExpression::Eq(Box::new(a()), Box::new(field(1))).to_string(), "a == 1");
    assert_eq!(BooleanExpression::Ge(Box::new(a()), Box::new(field(1))).to_string(), "a >= 1");
    assert_eq!(BooleanExpression::Gt(Box::new(a()), Box::new(field(1))).to_string(), "a > 1");
    assert_eq!(
        BooleanExpression::Or(
            Box::new(b()),
            Box::new(BooleanExpression::And(
                Box::new(b()),
                Box::new(BooleanExpression::Not(Box::new(b())))
            ))
        )
        .to_string(),
        "b || b && !b"
    );
    assert_eq!(
        BooleanExpression::IfElse(Box::new(b()), Box::new(b()), Box::new(b())).to_string(),
        "if b then b else b fi"
    );
    assert_eq!(
        BooleanExpression::FunctionCall(String::from("g"), arguments()).to_string(),
        "g(a, b, [1, a])"
    );
    assert_eq!(
        FieldElementArrayExpression::Identifier(3, String::from("c")).to_string(),
        "c"
    );
    assert_eq!(FieldElementArrayExpression::Value(0, vec![]).to_string(), "[]");
    assert_eq!(
        FieldElementArrayExpression::FunctionCall(2, String::from("h"), arguments()).to_string(),
        "h(a, b, [1, a])"
    );
    assert_eq!(
        FieldElementArrayExpression::IfElse(Box::new(b()), Box::new(array()), Box::new(array()))
            .to_string(),
        "if b then [1, a] else [1, a] fi"
    );
    assert_eq!(TypedExpression::FieldElementArray(array()).to_string(), "[1, a]");
    assert_eq!(
        TypedAssignee::ArrayElement(
            Box::new(TypedAssignee::Identifier(Variable::field_array(String::from("c"), 3))),
            Box::new(a())
        )
        .to_string(),
        "c[a]"
    );
}

#[test]
fn typed_expressions_are_copied() {
    let array = FieldElementArrayExpression::IfElse(
        Box::new(BooleanExpression::FunctionCall(
            String::from("g"),
            vec![TypedExpression::FieldElement(field(3))],
        )),
        Box::new(FieldElementArrayExpression::Value(1, vec![field(1)])),
        Box::new(FieldElementArrayExpression::FunctionCall(1, String::from("h"), vec![])),
    );
    assert_eq!(array.clone(), array);
    assert_eq!(array.size(), 1);
    let select = TypedExpression::FieldElement(FieldElementExpression::Select(
        Box::new(array),
        Box::new(field(0)),
    ));
    assert_eq!(select.clone(), select);
    assert_eq!(select.get_type(), Type::FieldElement);
}

#[test]
fn untyped_expressions_are_rendered() {
    let binary = |make: fn(Box<ExpressionNode>, Box<ExpressionNode>) -> Expression| {
        make(Box::new(id("a")), Box::new(constant(1))).to_string()
    };
    assert_eq!(binary(Expression::Add), "(a + 1)");
    assert_eq!(binary(Expression::Sub), "(a - 1)");
    assert_eq!(binary(Expression::Mult), "(a * 1)");
    assert_eq!(binary(Expression::Div), "(a / 1)");
    assert_eq!(binary(Expression::Pow), "a**1");
    assert_eq!(binary(Expression::Lt), "a < 1");
    assert_eq!(binary(Expression::Le), "a <= 1");
    assert_eq!(binary(Expression::Eq), "a == 1");
    assert_eq!(binary(Expression::Ge), "a >= 1");
    assert_eq!(binary(Expression::Gt), "a > 1");
    assert_eq!(binary(Expression::And), "a && 1");
    assert_eq!(binary(Expression::Or), "a || 1");
    assert_eq!(Expression::Not(Box::new(id("a"))).to_string(), "!a");
    assert_eq!(Expression::BooleanConstant(true).to_string(), "true");
    assert_eq!(Expression::BooleanConstant(false).to_string(), "false");
    assert_eq!(
        Expression::IfElse(Box::new(id("c")), Box::new(id("a")), Box::new(constant(0))).to_string(),
        "if c then a else 0 fi"
    );
    assert_eq!(
        Expression::FunctionCall(String::from("f"), vec![id("a"), constant(2)]).to_string(),
        "f(a, 2)"
    );
    let range = |from: Option<usize>, to: Option<usize>| Range {
        from: from.map(FieldValue::from_usize),
        to: to.map(FieldValue::from_usize),
    };
    assert_eq!(range(None, None).to_string(), "..");
    assert_eq!(range(Some(1), None).to_string(), "1..");
    assert_eq!(range(None, Some(2)).to_string(), "..2");
    assert_eq!(range(Some(1), Some(2)).to_string(), "1..2");
    let array = Expression::InlineArray(vec![
        SpreadOrExpression::Expression(constant(1)),
        SpreadOrExpression::Spread(node(Spread { expression: id("a") })),
    ]);
    assert_eq!(array.to_string(), "[1, ...a]");
    assert_eq!(
        Expression::Select(
            Box::new(node(array)),
            Box::new(RangeOrExpression::Range(node(range(Some(0), Some(1)))))
        )
        .to_string(),
        "[1, ...a][0..1]"
    );
    assert_eq!(
        Assignee::ArrayElement(
            Box::new(node(Assignee::ArrayElement(
                Box::new(node(Assignee::Identifier(String::from("a")))),
                Box::new(RangeOrExpression::Expression(id("i")))
            ))),
            Box::new(RangeOrExpression::Range(node(range(None, Some(3)))))
        )
        .to_string(),
        "a[i][..3]"
    );
}
