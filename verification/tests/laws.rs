use zokrates_core::absy::{
    Assignee, Expression, ExpressionList, ExpressionNode, Function, FunctionNode, Node, Parameter,
    Prog, SpreadOrExpression, Statement, StatementNode, Variable,
};
use zokrates_core::conversions::split;
use zokrates_core::field::FieldValue;
use zokrates_core::flat_absy::{FlatExpression, FlatStatement, FlatVariable};
use zokrates_core::position::Position;
use zokrates_core::semantics::{Checker, FunctionDeclaration, FunctionQuery};
use zokrates_core::typed_absy::{TypedExpression, TypedStatement};
use zokrates_core::types::{Signature, Type};

fn node<T>(line: usize, value: T) -> Node<T> {
    Node::new(Position::new(line, 1), Position::new(line, 9), value)
}

fn name(id: &str) -> String {
    String::from(id)
}

fn identifier(id: &str) -> ExpressionNode {
    node(1, Expression::Identifier(name(id)))
}

fn number(n: usize) -> ExpressionNode {
    node(1, Expression::FieldConstant(FieldValue::from_usize(n)))
}

fn return_statement(expressions: Vec<ExpressionNode>) -> StatementNode {
    node(1, Statement::Return(node(1, ExpressionList { expressions })))
}

fn declaration(v: Variable) -> StatementNode {
    node(1, Statement::Declaration(node(1, v)))
}

fn definition(id: &str, e: ExpressionNode) -> StatementNode {
    node(1, Statement::Definition(node(1, Assignee::Identifier(name(id))), e))
}

fn for_loop(id: &str, body: Vec<StatementNode>) -> StatementNode {
    node(
        1,
        Statement::For(
            node(1, Variable::field_element(name(id))),
            FieldValue::from_usize(0),
            FieldValue::from_usize(3),
            body,
        ),
    )
}

fn function(id: &str, inputs: Vec<Variable>, body: Vec<StatementNode>, outputs: Vec<Type>) -> FunctionNode {
    let types = inputs.iter().map(|v| v.ty).collect();
    node(
        1,
        Function {
            id: name(id),
            arguments: inputs
                .into_iter()
                .map(|v| node(1, Parameter { id: v, private: true }))
                .collect(),
            statements: body,
            signature: Signature::new().inputs(types).outputs(outputs),
        },
    )
}

fn bindings(checker: &Checker) -> Vec<(String, Type, usize)> {
    checker.scope().iter().map(|b| (b.id().id.clone(), b.id().ty, b.level())).collect()
}

#[test]
fn the_type_of_a_checked_expression_tells_its_variant() {
    let mut checker = Checker::new();
    assert!(checker.insert_scope(Variable::field_element(name("f"))));
    assert!(checker.insert_scope(Variable::boolean(name("b"))));
    assert!(checker.insert_scope(Variable::field_array(name("a"), 4)));
    let expressions = vec![
        identifier("f"),
        identifier("b"),
        identifier("a"),
        node(1, Expression::Add(Box::new(identifier("f")), Box::new(number(1)))),
        node(1, Expression::Lt(Box::new(identifier("f")), Box::new(number(1)))),
        node(1, Expression::Not(Box::new(identifier("b")))),
        node(
            1,
            Expression::InlineArray(vec![
                SpreadOrExpression::Expression(number(1)),
                SpreadOrExpression::Expression(identifier("f")),
            ]),
        ),
        node(
            1,
            Expression::IfElse(
                Box::new(identifier("b")),
                Box::new(identifier("a")),
                Box::new(identifier("a")),
            ),
        ),
    ];
    for e in &expressions {
        let checked = checker.check_expression(e).unwrap();
        match &checked {
            TypedExpression::Boolean(_) => assert_eq!(checked.get_type(), Type::Boolean),
            TypedExpression::FieldElement(_) => assert_eq!(checked.get_type(), Type::FieldElement),
            TypedExpression::FieldElementArray(a) => {
                assert_eq!(checked.get_type(), Type::FieldElementArray(a.size()))
            }
        }
    }
    assert_eq!(
        checker.check_expression(&expressions[6]).unwrap().get_type(),
        Type::FieldElementArray(2)
    );
    assert_eq!(
        checker.check_expression(&expressions[7]).unwrap().get_type(),
        Type::FieldElementArray(4)
    );
}

#[test]
fn an_expression_that_mentions_an_unbound_name_is_refused() {
    let mut checker = Checker::new();
    assert!(checker.insert_scope(Variable::field_element(name("f"))));
    checker.register(FunctionDeclaration::new(
        name("g"),
        Signature::new().inputs(vec![Type::FieldElement]).outputs(vec![Type::FieldElement]),
    ));
    let deep = node(
        1,
        Expression::Mult(
            Box::new(identifier("f")),
            Box::new(node(
                1,
                Expression::FunctionCall(
                    name("g"),
                    vec![node(1, Expression::Sub(Box::new(number(2)), Box::new(identifier("x"))))],
                ),
            )),
        ),
    );
    let error = checker.check_expression(&deep).unwrap_err();
    assert_eq!(error.message(), "Identifier \"x\" is undefined");
    assert!(checker.insert_scope(Variable::field_element(name("x"))));
    assert!(checker.check_expression(&deep).is_ok());
}

#[test]
fn a_checked_program_declares_one_main() {
    let helper = function("helper", vec![], vec![return_statement(vec![number(1)])], vec![
        Type::FieldElement,
    ]);
    let main = function("main", vec![], vec![return_statement(vec![number(2)])], vec![
        Type::FieldElement,
    ]);
    let mut checker = Checker::new();
    let checked = checker
        .check_program(Prog { functions: vec![helper, main], imports: vec![], imported_functions: vec![] })
        .unwrap();
    assert_eq!(checked.functions.len(), 2);
    assert_eq!(checker.functions().iter().filter(|f| f.id() == "main").count(), 1);
    assert_eq!(checker.functions().len(), 2);
    assert_eq!(checker.level(), 0);
    assert!(checker.scope().is_empty());
}

#[test]
fn checked_statements_keep_number_and_order() {
    let f = function(
        "f",
        vec![Variable::field_element(name("x"))],
        vec![
            declaration(Variable::field_element(name("a"))),
            definition("a", identifier("x")),
            for_loop("i", vec![definition("a", identifier("i"))]),
            return_statement(vec![identifier("a")]),
        ],
        vec![Type::FieldElement],
    );
    let mut checker = Checker::new();
    let checked = checker.check_function(&f).unwrap();
    assert_eq!(checked.statements.len(), f.value.statements.len());
    assert!(matches!(checked.statements[0], TypedStatement::Declaration(_)));
    assert!(matches!(checked.statements[1], TypedStatement::Definition(_, _)));
    assert!(matches!(checked.statements[2], TypedStatement::For(_, _, _, _)));
    assert!(matches!(checked.statements[3], TypedStatement::Return(_)));
}

#[test]
fn a_loop_leaves_no_binding() {
    let mut checker = Checker::new();
    assert!(checker.insert_scope(Variable::field_element(name("a"))));
    checker.enter_scope();
    assert!(checker.insert_scope(Variable::boolean(name("b"))));
    let before = bindings(&checker);
    assert_eq!(before, vec![(name("a"), Type::FieldElement, 0), (name("b"), Type::Boolean, 1)]);
    let accepted = for_loop(
        "i",
        vec![
            declaration(Variable::field_element(name("c"))),
            for_loop("j", vec![declaration(Variable::field_element(name("d")))]),
        ],
    );
    assert!(checker.check_statement(&accepted, &vec![]).is_ok());
    assert_eq!(bindings(&checker), before);
    assert_eq!(checker.level(), 1);
    let refused = for_loop(
        "i",
        vec![
            declaration(Variable::field_element(name("c"))),
            for_loop("j", vec![definition("missing", number(1))]),
        ],
    );
    assert!(checker.check_statement(&refused, &vec![]).is_err());
    assert_eq!(bindings(&checker), before);
    assert_eq!(checker.level(), 1);
}

#[test]
fn to_leave_a_scope_drops_what_was_bound_in_it() {
    let mut checker = Checker::new();
    assert!(checker.insert_scope(Variable::field_element(name("a"))));
    let before = bindings(&checker);
    checker.enter_scope();
    checker.exit_scope();
    assert_eq!(bindings(&checker), before);
    checker.enter_scope();
    assert!(checker.insert_scope(Variable::field_element(name("b"))));
    checker.enter_scope();
    assert!(checker.insert_scope(Variable::field_element(name("c"))));
    assert_eq!(checker.level(), 2);
    checker.exit_scope();
    checker.exit_scope();
    assert_eq!(bindings(&checker), before);
    assert_eq!(checker.level(), 0);
}

#[test]
fn bindings_are_equal_by_name() {
    let mut checker = Checker::new();
    assert!(checker.insert_scope(Variable::field_element(name("a"))));
    let outer = checker.get_scope("a").unwrap().clone();
    let mut other = Checker::new();
    other.enter_scope();
    assert!(other.insert_scope(Variable::boolean(name("a"))));
    assert!(other.insert_scope(Variable::boolean(name("b"))));
    assert_eq!(&outer, other.get_scope("a").unwrap());
    assert_ne!(&outer, other.get_scope("b").unwrap());
    assert_eq!(outer.level(), 0);
    assert_eq!(other.get_scope("a").unwrap().level(), 1);
}

#[test]
fn the_query_of_a_signature_matches_that_signature_only() {
    let exact = |outputs: &Vec<Type>| {
        FunctionQuery::new("f", &vec![], &outputs.iter().map(|t| Some(*t)).collect())
    };
    let declare = |outputs: &Vec<Type>| {
        FunctionDeclaration::new(name("f"), Signature::new().outputs(outputs.clone()))
    };
    let shapes = vec![
        vec![],
        vec![Type::FieldElement],
        vec![Type::Boolean],
        vec![Type::FieldElement, Type::Boolean],
        vec![Type::FieldElementArray(2)],
        vec![Type::FieldElementArray(3)],
    ];
    for asked in &shapes {
        for declared in &shapes {
            assert_eq!(exact(asked).match_func(&declare(declared)), asked == declared);
        }
    }
}

#[test]
fn the_decomposition_constrains_each_bit_once_and_reconstructs_once() {
    for n in [0usize, 1, 2, 7, 64] {
        let program = split(n);
        let statements = &program.functions[0].statements;
        assert_eq!(statements.len(), n + 3);
        let is_reconstruction = |s: &FlatStatement| match s {
            FlatStatement::Condition(_, FlatExpression::Mult(_, weight)) => {
                matches!(**weight, FlatExpression::Number(_))
            }
            _ => false,
        };
        for (i, s) in statements.iter().enumerate() {
            assert_eq!(is_reconstruction(s), i == n + 1);
        }
        for id in 1..=n {
            let bit = || FlatExpression::Identifier(FlatVariable::new(id));
            assert_eq!(
                statements[n - id + 1],
                FlatStatement::Condition(
                    bit(),
                    FlatExpression::Mult(Box::new(bit()), Box::new(bit()))
                )
            );
        }
        match &statements[n + 2] {
            FlatStatement::Return(list) => {
                assert_eq!(list.expressions.len(), n);
                for (k, e) in list.expressions.iter().enumerate() {
                    assert_eq!(*e, FlatExpression::Identifier(FlatVariable::new(k + 1)));
                }
            }
            other => panic!("expected a return, found {:?}", other),
        }
    }
}
