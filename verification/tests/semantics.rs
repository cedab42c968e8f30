use zokrates_core::absy::{
    Assignee, Expression, ExpressionList, ExpressionNode, Function, FunctionNode, Import, Node,
    Parameter, Prog, Range, RangeOrExpression, Spread, SpreadOrExpression, Statement,
    StatementNode, Variable,
};
use zokrates_core::field::FieldValue;
use zokrates_core::position::Position;
use zokrates_core::semantics::{Checker, Error, FunctionDeclaration, FunctionQuery};
use zokrates_core::typed_absy::{
    BooleanExpression, FieldElementArrayExpression, FieldElementExpression, TypedAssignee,
    TypedExpression, TypedExpressionList, TypedFunction, TypedProg, TypedStatement,
};
use zokrates_core::types::{Signature, Type};

fn at(line: usize) -> (Position, Position) {
    (Position::new(line, 1), Position::new(line, 9))
}

fn node<T>(line: usize, value: T) -> Node<T> {
    Node::new(Position::new(line, 1), Position::new(line, 9), value)
}

fn name(id: &str) -> String {
    String::from(id)
}

fn identifier(line: usize, id: &str) -> ExpressionNode {
    node(line, Expression::Identifier(name(id)))
}

fn number(line: usize, n: usize) -> ExpressionNode {
    node(line, Expression::FieldConstant(FieldValue::from_usize(n)))
}

fn boolean(line: usize, b: bool) -> ExpressionNode {
    node(line, Expression::BooleanConstant(b))
}

fn call(line: usize, id: &str, arguments: Vec<ExpressionNode>) -> ExpressionNode {
    node(line, Expression::FunctionCall(name(id), arguments))
}

fn returning(line: usize, expressions: Vec<ExpressionNode>) -> StatementNode {
    node(line, Statement::Return(node(line, ExpressionList { expressions })))
}

fn declares(line: usize, v: Variable) -> StatementNode {
    node(line, Statement::Declaration(node(line, v)))
}

fn defines(line: usize, id: &str, e: ExpressionNode) -> StatementNode {
    node(line, Statement::Definition(node(line, Assignee::Identifier(name(id))), e))
}

fn signature(inputs: Vec<Type>, outputs: Vec<Type>) -> Signature {
    Signature::new().inputs(inputs).outputs(outputs)
}

fn function(
    line: usize,
    id: &str,
    arguments: Vec<Variable>,
    statements: Vec<StatementNode>,
    outputs: Vec<Type>,
) -> FunctionNode {
    let inputs = arguments.iter().map(|v| v.ty).collect();
    node(
        line,
        Function {
            id: name(id),
            arguments: arguments
                .into_iter()
                .map(|v| node(line, Parameter { id: v, private: false }))
                .collect(),
            statements,
            signature: signature(inputs, outputs),
        },
    )
}

fn program(functions: Vec<FunctionNode>) -> Prog {
    Prog { functions, imports: vec![], imported_functions: vec![] }
}

fn foo_returning_two_fields() -> FunctionDeclaration {
    FunctionDeclaration::new(
        name("foo"),
        signature(vec![], vec![Type::FieldElement, Type::FieldElement]),
    )
}

fn error(line: usize, message: &str) -> Error {
    Error::new(Some(at(line)), name(message))
}

fn field_number(n: usize) -> FieldElementExpression {
    FieldElementExpression::Number(FieldValue::from_usize(n))
}

fn array_of(values: Vec<usize>) -> ExpressionNode {
    node(
        7,
        Expression::InlineArray(
            values.into_iter().map(|n| SpreadOrExpression::Expression(number(7, n))).collect(),
        ),
    )
}

fn typed_array_of(values: Vec<usize>) -> FieldElementArrayExpression {
    FieldElementArrayExpression::Value(
        values.len(),
        values.into_iter().map(field_number).collect(),
    )
}

fn range(from: Option<usize>, to: Option<usize>) -> Box<RangeOrExpression> {
    Box::new(RangeOrExpression::Range(node(
        8,
        Range { from: from.map(FieldValue::from_usize), to: to.map(FieldValue::from_usize) },
    )))
}

fn checker_with(variables: Vec<Variable>) -> Checker {
    let mut checker = Checker::new();
    for v in variables {
        assert!(checker.insert_scope(v));
    }
    checker
}

#[test]
fn undefined_variable_in_statement() {
    // a = b, where b is undefined
    let statement = defines(1, "a", identifier(2, "b"));
    let mut checker = Checker::new();
    assert_eq!(
        checker.check_statement(&statement, &vec![]),
        Err(error(2, "Identifier \"b\" is undefined"))
    );
}

#[test]
fn defined_variable_in_statement() {
    // a = b, where both are declared
    let statement = defines(1, "a", identifier(2, "b"));
    let mut checker = checker_with(vec![
        Variable::field_element(name("a")),
        Variable::field_element(name("b")),
    ]);
    assert_eq!(
        checker.check_statement(&statement, &vec![]),
        Ok(TypedStatement::Definition(
            TypedAssignee::Identifier(Variable::field_element(name("a"))),
            TypedExpression::FieldElement(FieldElementExpression::Identifier(name("b")))
        ))
    );
}

#[test]
fn undefined_variable() {
    // def foo():
    //   return a
    let foo = function(1, "foo", vec![], vec![returning(2, vec![identifier(3, "a")])], vec![
        Type::FieldElement,
    ]);
    let mut checker = Checker::new();
    assert_eq!(
        checker.check_function(&foo),
        Err(vec![error(3, "Identifier \"a\" is undefined")])
    );
}

#[test]
fn declared_in_other_function() {
    // def foo():
    //   field a
    //   a = 1
    // def bar():
    //   return a
    let foo = function(
        1,
        "foo",
        vec![],
        vec![declares(2, Variable::field_element(name("a"))), defines(3, "a", number(3, 1))],
        vec![Type::FieldElement],
    );
    let bar = function(4, "bar", vec![], vec![returning(5, vec![identifier(5, "a")])], vec![
        Type::FieldElement,
    ]);
    assert_eq!(
        Checker::check(program(vec![foo, bar])),
        Err(vec![
            error(5, "Identifier \"a\" is undefined"),
            Error::new(None, name("No main function found")),
        ])
    );
}

#[test]
fn declared_in_two_scopes() {
    // def foo():
    //   field a
    //   a = 1
    // def bar():
    //   field a
    //   a = 2
    //   return a
    // def main():
    //   return 1
    let foo = function(
        1,
        "foo",
        vec![],
        vec![declares(2, Variable::field_element(name("a"))), defines(3, "a", number(3, 1))],
        vec![Type::FieldElement],
    );
    let bar = function(
        4,
        "bar",
        vec![],
        vec![
            declares(5, Variable::field_element(name("a"))),
            defines(6, "a", number(6, 2)),
            returning(7, vec![identifier(7, "a")]),
        ],
        vec![Type::FieldElement],
    );
    let main = function(8, "main", vec![], vec![returning(9, vec![number(9, 1)])], vec![
        Type::FieldElement,
    ]);
    assert!(Checker::check(program(vec![foo, bar, main])).is_ok());
}

#[test]
fn for_index_after_end() {
    // def foo():
    //   for field i in 0..10 do
    //   endfor
    //   return i
    let foo = function(
        1,
        "foo",
        vec![],
        vec![
            node(
                2,
                Statement::For(
                    node(2, Variable::field_element(name("i"))),
                    FieldValue::from_usize(0),
                    FieldValue::from_usize(10),
                    vec![],
                ),
            ),
            returning(4, vec![identifier(4, "i")]),
        ],
        vec![Type::FieldElement],
    );
    let mut checker = Checker::new();
    assert_eq!(
        checker.check_function(&foo),
        Err(vec![error(4, "Identifier \"i\" is undefined")])
    );
}

#[test]
fn for_index_in_for() {
    // def foo():
    //   for field i in 0..10 do
    //     field a
    //     a = i
    //   endfor
    let foo = function(
        1,
        "foo",
        vec![],
        vec![node(
            2,
            Statement::For(
                node(2, Variable::field_element(name("i"))),
                FieldValue::from_usize(0),
                FieldValue::from_usize(10),
                vec![
                    declares(3, Variable::field_element(name("a"))),
                    defines(4, "a", identifier(4, "i")),
                ],
            ),
        )],
        vec![Type::FieldElement],
    );
    let foo_checked = TypedFunction {
        id: name("foo"),
        arguments: vec![],
        statements: vec![TypedStatement::For(
            Variable::field_element(name("i")),
            FieldValue::from_usize(0),
            FieldValue::from_usize(10),
            vec![
                TypedStatement::Declaration(Variable::field_element(name("a"))),
                TypedStatement::Definition(
                    TypedAssignee::Identifier(Variable::field_element(name("a"))),
                    TypedExpression::FieldElement(FieldElementExpression::Identifier(name("i"))),
                ),
            ],
        )],
        signature: signature(vec![], vec![Type::FieldElement]),
    };
    let mut checker = Checker::new();
    assert_eq!(checker.check_function(&foo), Ok(foo_checked));
}

#[test]
fn for_scope_is_left_after_a_failing_body() {
    // for field i in 0..10 do
    //   a = i        (a is not declared)
    // endfor
    // field i
    let failing = node(
        1,
        Statement::For(
            node(1, Variable::field_element(name("i"))),
            FieldValue::from_usize(0),
            FieldValue::from_usize(10),
            vec![defines(2, "a", identifier(2, "i"))],
        ),
    );
    let mut checker = Checker::new();
    assert_eq!(
        checker.check_statement(&failing, &vec![]),
        Err(error(2, "Undeclared variable: \"a\""))
    );
    assert!(checker.get_scope("i").is_none());
    assert_eq!(
        checker.check_statement(&declares(4, Variable::field_element(name("i"))), &vec![]),
        Ok(TypedStatement::Declaration(Variable::field_element(name("i"))))
    );
}

#[test]
fn for_variable_must_be_a_field_element() {
    let statement = node(
        1,
        Statement::For(
            node(2, Variable::boolean(name("i"))),
            FieldValue::from_usize(0),
            FieldValue::from_usize(10),
            vec![],
        ),
    );
    let mut checker = Checker::new();
    assert_eq!(
        checker.check_statement(&statement, &vec![]),
        Err(error(2, "Variable in for loop cannot have type bool"))
    );
    assert_eq!(
        checker.check_for_var(&node(3, Variable::field_array(name("i"), 4))),
        Err(error(3, "Variable in for loop cannot have type field[4]"))
    );
    assert_eq!(checker.check_for_var(&node(3, Variable::field_element(name("i")))), Ok(()));
}

#[test]
fn arity_mismatch() {
    // def foo():
    //   return 1, 2
    // def bar():
    //   field a = foo()
    let bar = function(
        1,
        "bar",
        vec![],
        vec![
            declares(2, Variable::field_element(name("a"))),
            node(
                3,
                Statement::MultipleDefinition(
                    vec![node(3, Assignee::Identifier(name("a")))],
                    call(3, "foo", vec![]),
                ),
            ),
        ],
        vec![Type::FieldElement],
    );
    let mut checker = Checker::new();
    checker.register(foo_returning_two_fields());
    assert_eq!(
        checker.check_function(&bar),
        Err(vec![error(
            3,
            "Function definition for function foo with signature () -> (field) not found."
        )])
    );
}

#[test]
fn multi_return_outside_multidef() {
    // def foo():
    //   return 1, 2
    // def bar():
    //   2 == foo()
    let bar = function(
        1,
        "bar",
        vec![],
        vec![node(2, Statement::Condition(number(2, 2), call(3, "foo", vec![])))],
        vec![Type::FieldElement],
    );
    let mut checker = Checker::new();
    checker.register(foo_returning_two_fields());
    assert_eq!(
        checker.check_function(&bar),
        Err(vec![error(
            3,
            "Function definition for function foo with signature () -> (_) not found."
        )])
    );
}

#[test]
fn function_undefined_in_multidef() {
    // def bar():
    //   field a = foo()
    let bar = function(
        1,
        "bar",
        vec![],
        vec![
            declares(2, Variable::field_element(name("a"))),
            node(
                3,
                Statement::MultipleDefinition(
                    vec![node(3, Assignee::Identifier(name("a")))],
                    call(3, "foo", vec![]),
                ),
            ),
        ],
        vec![Type::FieldElement],
    );
    let mut checker = Checker::new();
    assert_eq!(
        checker.check_function(&bar),
        Err(vec![error(
            3,
            "Function definition for function foo with signature () -> (field) not found."
        )])
    );
}

#[test]
fn undefined_variable_in_multireturn_call() {
    // def foo(x):
    //   return 1, 2
    // def main():
    //   field a
    //   field b
    //   a, b = foo(x)
    //   return 1
    let foo = function(
        1,
        "foo",
        vec![Variable::field_element(name("x"))],
        vec![returning(2, vec![number(2, 1), number(2, 2)])],
        vec![Type::FieldElement, Type::FieldElement],
    );
    let main = function(
        3,
        "main",
        vec![],
        vec![
            declares(4, Variable::field_element(name("a"))),
            declares(5, Variable::field_element(name("b"))),
            node(
                6,
                Statement::MultipleDefinition(
                    vec![
                        node(6, Assignee::Identifier(name("a"))),
                        node(6, Assignee::Identifier(name("b"))),
                    ],
                    call(6, "foo", vec![identifier(7, "x")]),
                ),
            ),
            returning(8, vec![number(8, 1)]),
        ],
        vec![Type::FieldElement],
    );
    assert_eq!(
        Checker::check(program(vec![foo, main])),
        Err(vec![error(7, "Identifier \"x\" is undefined")])
    );
}

#[test]
fn function_undefined() {
    // def bar():
    //   1 == foo()
    let bar = function(
        1,
        "bar",
        vec![],
        vec![node(2, Statement::Condition(number(2, 1), call(3, "foo", vec![])))],
        vec![Type::FieldElement],
    );
    let mut checker = Checker::new();
    assert_eq!(
        checker.check_function(&bar),
        Err(vec![error(
            3,
            "Function definition for function foo with signature () -> (_) not found."
        )])
    );
}

#[test]
fn return_undefined() {
    // def bar():
    //   return a, b
    let bar = function(
        1,
        "bar",
        vec![],
        vec![returning(2, vec![identifier(3, "a"), identifier(4, "b")])],
        vec![Type::FieldElement, Type::FieldElement],
    );
    let mut checker = Checker::new();
    assert_eq!(
        checker.check_function(&bar),
        Err(vec![error(3, "Identifier \"a\" is undefined")])
    );
}

#[test]
fn multi_def() {
    // def foo():
    //   return 1, 2
    // def bar():
    //   a, b = foo()
    //   return a + b
    let bar = function(
        1,
        "bar",
        vec![],
        vec![
            node(
                2,
                Statement::MultipleDefinition(
                    vec![
                        node(2, Assignee::Identifier(name("a"))),
                        node(2, Assignee::Identifier(name("b"))),
                    ],
                    call(2, "foo", vec![]),
                ),
            ),
            returning(
                3,
                vec![node(
                    3,
                    Expression::Add(Box::new(identifier(3, "a")), Box::new(identifier(3, "b"))),
                )],
            ),
        ],
        vec![Type::FieldElement],
    );
    let bar_checked = TypedFunction {
        id: name("bar"),
        arguments: vec![],
        statements: vec![
            TypedStatement::MultipleDefinition(
                vec![Variable::field_element(name("a")), Variable::field_element(name("b"))],
                TypedExpressionList::FunctionCall(
                    name("foo"),
                    vec![],
                    vec![Type::FieldElement, Type::FieldElement],
                ),
            ),
            TypedStatement::Return(vec![TypedExpression::FieldElement(
                FieldElementExpression::Add(
                    Box::new(FieldElementExpression::Identifier(name("a"))),
                    Box::new(FieldElementExpression::Identifier(name("b"))),
                ),
            )]),
        ],
        signature: signature(vec![], vec![Type::FieldElement]),
    };
    let mut checker = Checker::new();
    checker.register(foo_returning_two_fields());
    assert_eq!(checker.check_function(&bar), Ok(bar_checked));
}

#[test]
fn multi_def_with_declared_names() {
    // field a
    // bool b
    // a, b = foo(), where foo returns a field element and a boolean
    let mut checker = checker_with(vec![
        Variable::field_element(name("a")),
        Variable::boolean(name("b")),
    ]);
    checker.register(FunctionDeclaration::new(
        name("foo"),
        signature(vec![], vec![Type::FieldElement, Type::FieldElement]),
    ));
    checker.register(FunctionDeclaration::new(
        name("foo"),
        signature(vec![], vec![Type::FieldElement, Type::Boolean]),
    ));
    let statement = node(
        1,
        Statement::MultipleDefinition(
            vec![
                node(1, Assignee::Identifier(name("a"))),
                node(1, Assignee::Identifier(name("b"))),
            ],
            call(1, "foo", vec![]),
        ),
    );
    assert_eq!(
        checker.check_statement(&statement, &vec![]),
        Ok(TypedStatement::MultipleDefinition(
            vec![Variable::field_element(name("a")), Variable::boolean(name("b"))],
            TypedExpressionList::FunctionCall(
                name("foo"),
                vec![],
                vec![Type::FieldElement, Type::Boolean]
            ),
        ))
    );
}

#[test]
fn multi_def_is_ambiguous_without_declared_names() {
    let mut checker = Checker::new();
    checker.register(FunctionDeclaration::new(
        name("foo"),
        signature(vec![Type::FieldElement], vec![Type::FieldElement]),
    ));
    checker.register(FunctionDeclaration::new(
        name("foo"),
        signature(vec![Type::FieldElement], vec![Type::Boolean]),
    ));
    let statement = node(
        1,
        Statement::MultipleDefinition(
            vec![node(1, Assignee::Identifier(name("a")))],
            call(1, "foo", vec![number(1, 3)]),
        ),
    );
    assert_eq!(
        checker.check_statement(&statement, &vec![]),
        Err(error(1, "Function call for function foo with arguments [field] is ambiguous."))
    );
    assert!(checker.get_scope("a").is_none());
    assert_eq!(
        checker.check_expression(&call(2, "foo", vec![number(2, 3)])),
        Err(error(2, "Function call for function foo with arguments [field] is ambiguous."))
    );
}

#[test]
fn multi_def_needs_names_and_a_call() {
    let mut checker = checker_with(vec![Variable::field_array(name("a"), 2)]);
    let indexed = node(
        1,
        Statement::MultipleDefinition(
            vec![node(
                1,
                Assignee::ArrayElement(
                    Box::new(node(1, Assignee::Identifier(name("a")))),
                    Box::new(RangeOrExpression::Expression(number(1, 0))),
                ),
            )],
            call(1, "foo", vec![]),
        ),
    );
    assert_eq!(
        checker.check_statement(&indexed, &vec![]),
        Err(error(
            1,
            "Left hand side of function return assignment must be a list of identifiers, found a[0]"
        ))
    );
    let not_a_call = node(
        2,
        Statement::MultipleDefinition(
            vec![node(2, Assignee::Identifier(name("b")))],
            node(2, Expression::Add(Box::new(number(2, 1)), Box::new(identifier(2, "x")))),
        ),
    );
    assert_eq!(
        checker.check_statement(&not_a_call, &vec![]),
        Err(error(2, "(1 + x) should be a FunctionCall"))
    );
}

#[test]
fn duplicate_function_declaration() {
    // def foo(a, b):
    //   return 1
    // def foo(c, d):
    //   return 2
    let foo2 = function(
        1,
        "foo",
        vec![Variable::field_element(name("c")), Variable::field_element(name("d"))],
        vec![returning(2, vec![number(2, 2)])],
        vec![Type::FieldElement],
    );
    let mut checker = Checker::new();
    checker.register(FunctionDeclaration::new(
        name("foo"),
        signature(vec![Type::FieldElement, Type::FieldElement], vec![Type::FieldElement]),
    ));
    assert_eq!(
        checker.check_function(&foo2),
        Err(vec![error(
            1,
            "Duplicate definition for function foo with signature (field, field) -> (field)"
        )])
    );
}

#[test]
fn duplicate_function_in_program() {
    let first = function(1, "main", vec![], vec![returning(2, vec![number(2, 1)])], vec![
        Type::FieldElement,
    ]);
    let second = function(3, "main", vec![], vec![returning(4, vec![number(4, 2)])], vec![
        Type::FieldElement,
    ]);
    assert_eq!(
        Checker::check(program(vec![first, second])),
        Err(vec![error(3, "Duplicate definition for function main with signature () -> (field)")])
    );
}

#[test]
fn duplicate_main_function() {
    // def main(a):
    //   return 1
    // def main():
    //   return 1
    let main1 = function(
        1,
        "main",
        vec![Variable::field_element(name("a"))],
        vec![returning(2, vec![number(2, 1)])],
        vec![Type::FieldElement],
    );
    let main2 = function(3, "main", vec![], vec![returning(4, vec![number(4, 1)])], vec![
        Type::FieldElement,
    ]);
    assert_eq!(
        Checker::check(program(vec![main1, main2])),
        Err(vec![Error::new(None, name("Only one main function allowed, found 2"))])
    );
}

#[test]
fn single_main_is_counted() {
    let mut checker = Checker::new();
    assert_eq!(
        checker.check_single_main(),
        Err(Error::new(None, name("No main function found")))
    );
    checker.register(FunctionDeclaration::new(name("main"), signature(vec![], vec![])));
    checker.register(FunctionDeclaration::new(name("other"), signature(vec![], vec![])));
    assert_eq!(checker.check_single_main(), Ok(()));
    checker.register(FunctionDeclaration::new(name("main"), signature(vec![], vec![])));
    assert_eq!(checker.check_single_main(), Ok(()));
    checker.register(FunctionDeclaration::new(
        name("main"),
        signature(vec![Type::Boolean], vec![]),
    ));
    checker.register(FunctionDeclaration::new(
        name("main"),
        signature(vec![], vec![Type::Boolean]),
    ));
    assert_eq!(
        checker.check_single_main(),
        Err(Error::new(None, name("Only one main function allowed, found 3")))
    );
}

#[test]
fn program_is_checked() {
    // import "lib" as l
    // def double(field x) -> (field):
    //   return x + x
    // def main(field a) -> (field):
    //   field b = double(a)   (written as a definition of several values)
    //   return b * twice(b)
    let double = function(
        1,
        "double",
        vec![Variable::field_element(name("x"))],
        vec![returning(
            2,
            vec![node(
                2,
                Expression::Add(Box::new(identifier(2, "x")), Box::new(identifier(2, "x"))),
            )],
        )],
        vec![Type::FieldElement],
    );
    let main = function(
        3,
        "main",
        vec![Variable::field_element(name("a"))],
        vec![
            node(
                4,
                Statement::MultipleDefinition(
                    vec![node(4, Assignee::Identifier(name("b")))],
                    call(4, "double", vec![identifier(4, "a")]),
                ),
            ),
            returning(
                5,
                vec![node(
                    5,
                    Expression::Mult(
                        Box::new(identifier(5, "b")),
                        Box::new(call(5, "twice", vec![identifier(5, "b")])),
                    ),
                )],
            ),
        ],
        vec![Type::FieldElement],
    );
    let twice = FunctionDeclaration::new(
        name("twice"),
        signature(vec![Type::FieldElement], vec![Type::FieldElement]),
    );
    let import = Import { source: name("lib"), alias: Some(name("l")) };
    let prog = Prog {
        functions: vec![double, main],
        imports: vec![node(0, import.clone())],
        imported_functions: vec![twice.clone()],
    };
    let checked = TypedProg {
        functions: vec![
            TypedFunction {
                id: name("double"),
                arguments: vec![Parameter {
                    id: Variable::field_element(name("x")),
                    private: false,
                }],
                statements: vec![TypedStatement::Return(vec![TypedExpression::FieldElement(
                    FieldElementExpression::Add(
                        Box::new(FieldElementExpression::Identifier(name("x"))),
                        Box::new(FieldElementExpression::Identifier(name("x"))),
                    ),
                )])],
                signature: signature(vec![Type::FieldElement], vec![Type::FieldElement]),
            },
            TypedFunction {
                id: name("main"),
                arguments: vec![Parameter {
                    id: Variable::field_element(name("a")),
                    private: false,
                }],
                statements: vec![
                    TypedStatement::MultipleDefinition(
                        vec![Variable::field_element(name("b"))],
                        TypedExpressionList::FunctionCall(
                            name("double"),
                            vec![TypedExpression::FieldElement(
                                FieldElementExpression::Identifier(name("a")),
                            )],
                            vec![Type::FieldElement],
                        ),
                    ),
                    TypedStatement::Return(vec![TypedExpression::FieldElement(
                        FieldElementExpression::Mult(
                            Box::new(FieldElementExpression::Identifier(name("b"))),
                            Box::new(FieldElementExpression::FunctionCall(
                                name("twice"),
                                vec![TypedExpression::FieldElement(
                                    FieldElementExpression::Identifier(name("b")),
                                )],
                            )),
                        ),
                    )]),
                ],
                signature: signature(vec![Type::FieldElement], vec![Type::FieldElement]),
            },
        ],
        imports: vec![import],
        imported_functions: vec![twice],
    };
    assert_eq!(Checker::check(prog), Ok(checked));
}

#[test]
fn a_function_cannot_call_itself() {
    // def main() -> (field):
    //   return main()
    let main = function(1, "main", vec![], vec![returning(2, vec![call(3, "main", vec![])])], vec![
        Type::FieldElement,
    ]);
    assert_eq!(
        Checker::check(program(vec![main])),
        Err(vec![error(
            3,
            "Function definition for function main with signature () -> (_) not found."
        )])
    );
}

#[test]
fn errors_of_a_function_are_gathered_in_order() {
    // def main() -> (field):
    //   field a
    //   field a
    //   a = true
    //   return a, a
    let main = function(
        1,
        "main",
        vec![],
        vec![
            declares(2, Variable::field_element(name("a"))),
            declares(3, Variable::field_element(name("a"))),
            defines(4, "a", boolean(4, true)),
            returning(5, vec![identifier(5, "a"), identifier(5, "a")]),
        ],
        vec![Type::FieldElement],
    );
    let mut checker = Checker::new();
    assert_eq!(
        checker.check_function(&main),
        Err(vec![
            error(3, "Duplicate declaration for variable named a"),
            error(4, "Expression true of type bool cannot be assigned to a of type field"),
            error(5, "Expected (field) in return statement, found (field, field)"),
        ])
    );
}

#[test]
fn shadowing_with_same_type() {
    //   field a
    //   field a
    let mut checker = Checker::new();
    assert_eq!(
        checker.check_statement(&declares(1, Variable::field_element(name("a"))), &vec![]),
        Ok(TypedStatement::Declaration(Variable::field_element(name("a"))))
    );
    assert_eq!(
        checker.check_statement(&declares(2, Variable::field_element(name("a"))), &vec![]),
        Err(error(2, "Duplicate declaration for variable named a"))
    );
}

#[test]
fn shadowing_with_different_type() {
    //   field a
    //   bool a
    let mut checker = Checker::new();
    assert!(checker
        .check_statement(&declares(1, Variable::field_element(name("a"))), &vec![])
        .is_ok());
    assert_eq!(
        checker.check_statement(&declares(2, Variable::boolean(name("a"))), &vec![]),
        Err(error(2, "Duplicate declaration for variable named a"))
    );
}

#[test]
fn shadowing_in_a_nested_scope() {
    //   field a
    //   for field i in 0..2 do
    //     bool a
    //   endfor
    let mut checker = checker_with(vec![Variable::field_element(name("a"))]);
    let statement = node(
        1,
        Statement::For(
            node(1, Variable::field_element(name("i"))),
            FieldValue::from_usize(0),
            FieldValue::from_usize(2),
            vec![declares(2, Variable::boolean(name("a")))],
        ),
    );
    assert_eq!(
        checker.check_statement(&statement, &vec![]),
        Err(error(2, "Duplicate declaration for variable named a"))
    );
}

#[test]
fn assignee_identifier() {
    // a = 42
    let a = node(1, Assignee::Identifier(name("a")));
    let checker = checker_with(vec![Variable::field_element(name("a"))]);
    assert_eq!(
        checker.check_assignee(&a),
        Ok(TypedAssignee::Identifier(Variable::field_element(name("a"))))
    );
    assert_eq!(
        Checker::new().check_assignee(&a),
        Err(error(1, "Undeclared variable: \"a\""))
    );
}

#[test]
fn assignee_array_element() {
    // field[33] a
    // a[2] = 42
    let a = node(
        1,
        Assignee::ArrayElement(
            Box::new(node(2, Assignee::Identifier(name("a")))),
            Box::new(RangeOrExpression::Expression(number(3, 2))),
        ),
    );
    let checker = checker_with(vec![Variable::field_array(name("a"), 33)]);
    assert_eq!(
        checker.check_assignee(&a),
        Ok(TypedAssignee::ArrayElement(
            Box::new(TypedAssignee::Identifier(Variable::field_array(name("a"), 33))),
            Box::new(field_number(2))
        ))
    );
}

#[test]
fn assignee_index_has_to_be_a_field_element() {
    let checker = checker_with(vec![Variable::field_array(name("a"), 33)]);
    let by_boolean = node(
        1,
        Assignee::ArrayElement(
            Box::new(node(2, Assignee::Identifier(name("a")))),
            Box::new(RangeOrExpression::Expression(boolean(3, true))),
        ),
    );
    assert_eq!(
        checker.check_assignee(&by_boolean),
        Err(error(1, "Expected array a index to have type field, found bool"))
    );
    let by_range = node(
        1,
        Assignee::ArrayElement(Box::new(node(2, Assignee::Identifier(name("a")))), range(Some(1), None)),
    );
    assert_eq!(
        checker.check_assignee(&by_range),
        Err(error(1, "Using slices in assignments is not supported yet, found 1.."))
    );
}

#[test]
fn identifiers_take_the_variant_of_their_type() {
    let checker = checker_with(vec![
        Variable::field_element(name("f")),
        Variable::boolean(name("b")),
        Variable::field_array(name("a"), 3),
    ]);
    assert_eq!(
        checker.check_expression(&identifier(1, "f")),
        Ok(TypedExpression::FieldElement(FieldElementExpression::Identifier(name("f"))))
    );
    assert_eq!(
        checker.check_expression(&identifier(1, "b")),
        Ok(TypedExpression::Boolean(BooleanExpression::Identifier(name("b"))))
    );
    let a = checker.check_expression(&identifier(1, "a")).unwrap();
    assert_eq!(
        a,
        TypedExpression::FieldElementArray(FieldElementArrayExpression::Identifier(3, name("a")))
    );
    assert_eq!(a.get_type(), Type::FieldElementArray(3));
}

#[test]
fn arithmetic_takes_field_elements() {
    let checker = Checker::new();
    let sum = node(1, Expression::Sub(Box::new(number(1, 5)), Box::new(number(1, 3))));
    assert_eq!(
        checker.check_expression(&sum),
        Ok(TypedExpression::FieldElement(FieldElementExpression::Sub(
            Box::new(field_number(5)),
            Box::new(field_number(3))
        )))
    );
    let power = node(2, Expression::Pow(Box::new(number(2, 5)), Box::new(boolean(2, false))));
    assert_eq!(
        checker.check_expression(&power),
        Err(error(2, "Expected only field elements, found field, bool"))
    );
    let nested = node(
        3,
        Expression::Div(
            Box::new(node(4, Expression::Mult(Box::new(boolean(4, true)), Box::new(number(4, 1))))),
            Box::new(identifier(5, "missing")),
        ),
    );
    assert_eq!(
        checker.check_expression(&nested),
        Err(error(4, "Expected only field elements, found bool, field"))
    );
}

#[test]
fn comparisons_take_field_elements() {
    let checker = Checker::new();
    let less = node(1, Expression::Lt(Box::new(number(1, 5)), Box::new(number(1, 3))));
    assert_eq!(
        checker.check_expression(&less),
        Ok(TypedExpression::Boolean(BooleanExpression::Lt(
            Box::new(field_number(5)),
            Box::new(field_number(3))
        )))
    );
    let equal = node(
        2,
        Expression::Eq(
            Box::new(node(2, Expression::Add(Box::new(number(2, 1)), Box::new(number(2, 2))))),
            Box::new(boolean(2, true)),
        ),
    );
    assert_eq!(
        checker.check_expression(&equal),
        Err(error(2, "Cannot compare (1 + 2) of type field to true of type bool"))
    );
}

#[test]
fn boolean_operators_take_booleans() {
    let checker = Checker::new();
    let and = node(1, Expression::And(Box::new(boolean(1, true)), Box::new(number(1, 3))));
    assert_eq!(
        checker.check_expression(&and),
        Err(error(1, "cannot apply boolean operators to bool and field"))
    );
    let or = node(2, Expression::Or(Box::new(number(2, 3)), Box::new(boolean(2, true))));
    assert_eq!(checker.check_expression(&or), Err(error(2, "cannot compare field to bool")));
    let not = node(3, Expression::Not(Box::new(number(3, 3))));
    assert_eq!(checker.check_expression(&not), Err(error(3, "cannot negate field")));
    let all = node(
        4,
        Expression::Not(Box::new(node(
            4,
            Expression::Or(
                Box::new(boolean(4, true)),
                Box::new(node(
                    4,
                    Expression::And(Box::new(boolean(4, false)), Box::new(boolean(4, true))),
                )),
            ),
        ))),
    );
    assert_eq!(
        checker.check_expression(&all),
        Ok(TypedExpression::Boolean(BooleanExpression::Not(Box::new(BooleanExpression::Or(
            Box::new(BooleanExpression::Value(true)),
            Box::new(BooleanExpression::And(
                Box::new(BooleanExpression::Value(false)),
                Box::new(BooleanExpression::Value(true))
            ))
        )))))
    );
}

#[test]
fn conditionals_mirror_the_type_of_their_branches() {
    let checker = checker_with(vec![
        Variable::field_array(name("a"), 2),
        Variable::field_array(name("b"), 2),
        Variable::field_array(name("c"), 3),
    ]);
    let if_else = |line: usize, c: ExpressionNode, x: ExpressionNode, y: ExpressionNode| {
        node(line, Expression::IfElse(Box::new(c), Box::new(x), Box::new(y)))
    };
    assert_eq!(
        checker.check_expression(&if_else(1, boolean(1, true), number(1, 1), number(1, 2))),
        Ok(TypedExpression::FieldElement(FieldElementExpression::IfElse(
            Box::new(BooleanExpression::Value(true)),
            Box::new(field_number(1)),
            Box::new(field_number(2))
        )))
    );
    let arrays = checker
        .check_expression(&if_else(2, boolean(2, true), identifier(2, "a"), identifier(2, "b")))
        .unwrap();
    assert_eq!(
        arrays,
        TypedExpression::FieldElementArray(FieldElementArrayExpression::IfElse(
            Box::new(BooleanExpression::Value(true)),
            Box::new(FieldElementArrayExpression::Identifier(2, name("a"))),
            Box::new(FieldElementArrayExpression::Identifier(2, name("b")))
        ))
    );
    assert_eq!(arrays.get_type(), Type::FieldElementArray(2));
    assert_eq!(
        checker.check_expression(&if_else(3, boolean(3, true), boolean(3, false), boolean(3, true))),
        Ok(TypedExpression::Boolean(BooleanExpression::IfElse(
            Box::new(BooleanExpression::Value(true)),
            Box::new(BooleanExpression::Value(false)),
            Box::new(BooleanExpression::Value(true))
        )))
    );
    assert_eq!(
        checker.check_expression(&if_else(4, boolean(4, true), identifier(4, "a"), identifier(4, "c"))),
        Err(error(
            4,
            "{consequence} and {alternative} in `if/else` expression should have the same type, found field[2], field[3]"
        ))
    );
    assert_eq!(
        checker.check_expression(&if_else(5, number(5, 1), number(5, 1), number(5, 2))),
        Err(error(5, "{condition} after `if` should be a boolean, found field"))
    );
}

#[test]
fn calls_take_the_variant_of_their_output() {
    let mut checker = Checker::new();
    checker.register(FunctionDeclaration::new(
        name("f"),
        signature(vec![Type::FieldElement], vec![Type::FieldElement]),
    ));
    checker.register(FunctionDeclaration::new(
        name("b"),
        signature(vec![], vec![Type::Boolean]),
    ));
    checker.register(FunctionDeclaration::new(
        name("a"),
        signature(vec![Type::Boolean], vec![Type::FieldElementArray(5)]),
    ));
    assert_eq!(
        checker.check_expression(&call(1, "f", vec![number(1, 7)])),
        Ok(TypedExpression::FieldElement(FieldElementExpression::FunctionCall(
            name("f"),
            vec![TypedExpression::FieldElement(field_number(7))]
        )))
    );
    assert_eq!(
        checker.check_expression(&call(1, "b", vec![])),
        Ok(TypedExpression::Boolean(BooleanExpression::FunctionCall(name("b"), vec![])))
    );
    assert_eq!(
        checker.check_expression(&call(1, "a", vec![call(1, "b", vec![])])),
        Ok(TypedExpression::FieldElementArray(FieldElementArrayExpression::FunctionCall(
            5,
            name("a"),
            vec![TypedExpression::Boolean(BooleanExpression::FunctionCall(name("b"), vec![]))]
        )))
    );
    assert_eq!(
        checker.check_expression(&call(2, "f", vec![boolean(2, true), number(2, 1)])),
        Err(error(
            2,
            "Function definition for function f with signature (bool, field) -> (_) not found."
        ))
    );
}

#[test]
fn inline_array() {
    // [1, 2, 3][1..3]
    let checker = Checker::new();
    let selection =
        node(1, Expression::Select(Box::new(array_of(vec![1, 2, 3])), range(Some(1), Some(3))));
    let checked = checker.check_expression(&selection).unwrap();
    assert_eq!(
        checked,
        TypedExpression::FieldElementArray(FieldElementArrayExpression::Value(
            2,
            vec![
                FieldElementExpression::Select(
                    Box::new(typed_array_of(vec![1, 2, 3])),
                    Box::new(field_number(1))
                ),
                FieldElementExpression::Select(
                    Box::new(typed_array_of(vec![1, 2, 3])),
                    Box::new(field_number(2))
                ),
            ]
        ))
    );
    assert_eq!(checked.get_type(), Type::FieldElementArray(2));
}

#[test]
fn ranges_default_to_the_whole_array() {
    let checker = checker_with(vec![Variable::field_array(name("a"), 2)]);
    let select = |r: Box<RangeOrExpression>| {
        checker.check_expression(&node(1, Expression::Select(Box::new(identifier(1, "a")), r)))
    };
    let a = || Box::new(FieldElementArrayExpression::Identifier(2, name("a")));
    let whole = TypedExpression::FieldElementArray(FieldElementArrayExpression::Value(
        2,
        vec![
            FieldElementExpression::Select(a(), Box::new(field_number(0))),
            FieldElementExpression::Select(a(), Box::new(field_number(1))),
        ],
    ));
    assert_eq!(select(range(None, None)), Ok(whole));
    assert_eq!(
        select(range(Some(1), None)),
        Ok(TypedExpression::FieldElementArray(FieldElementArrayExpression::Value(
            1,
            vec![FieldElementExpression::Select(a(), Box::new(field_number(1)))]
        )))
    );
    assert_eq!(
        select(range(Some(2), Some(2))),
        Ok(TypedExpression::FieldElementArray(FieldElementArrayExpression::Value(0, vec![])))
    );
}

#[test]
fn ranges_have_to_lie_in_the_array() {
    let checker = checker_with(vec![Variable::field_array(name("a"), 2)]);
    let select = |r: Box<RangeOrExpression>| {
        checker.check_expression(&node(1, Expression::Select(Box::new(identifier(1, "a")), r)))
    };
    assert_eq!(
        select(range(Some(3), Some(4))),
        Err(error(1, "Lower range bound 3 is out of array bounds [0, 2]"))
    );
    assert_eq!(
        select(range(Some(1), Some(3))),
        Err(error(1, "Higher range bound 3 is out of array bounds [0, 2]"))
    );
    assert_eq!(
        select(range(Some(2), Some(1))),
        Err(error(1, "Lower range bound 2 is larger than higher range bound 1"))
    );
    let huge = FieldValue::from_usize(usize::MAX).double();
    let text = huge.to_dec_string();
    let beyond = Box::new(RangeOrExpression::Range(node(
        8,
        Range { from: None, to: Some(huge) },
    )));
    assert_eq!(
        select(beyond),
        Err(Error::new(
            Some(at(1)),
            format!("Higher range bound {} is out of array bounds [0, 2]", text)
        ))
    );
}

#[test]
fn selections_take_an_array_and_a_field_element() {
    let checker = checker_with(vec![
        Variable::field_array(name("a"), 2),
        Variable::field_element(name("f")),
    ]);
    let select = |base: &str, index: Box<RangeOrExpression>| {
        checker.check_expression(&node(1, Expression::Select(Box::new(identifier(1, base)), index)))
    };
    assert_eq!(
        select("a", Box::new(RangeOrExpression::Expression(identifier(1, "f")))),
        Ok(TypedExpression::FieldElement(FieldElementExpression::Select(
            Box::new(FieldElementArrayExpression::Identifier(2, name("a"))),
            Box::new(FieldElementExpression::Identifier(name("f")))
        )))
    );
    assert_eq!(
        select("f", Box::new(RangeOrExpression::Expression(number(1, 0)))),
        Err(error(1, "Cannot access element 0 on expression of type field"))
    );
    assert_eq!(
        select("a", Box::new(RangeOrExpression::Expression(boolean(1, true)))),
        Err(error(1, "Cannot access element true on expression of type field[2]"))
    );
    assert_eq!(
        select("f", range(Some(0), Some(1))),
        Err(error(1, "Cannot access element 0..1 on expression of type field"))
    );
    assert_eq!(
        select("f", Box::new(RangeOrExpression::Expression(identifier(2, "missing")))),
        Err(error(2, "Identifier \"missing\" is undefined"))
    );
}

#[test]
fn inline_arrays_hold_field_elements() {
    let checker = checker_with(vec![Variable::field_array(name("a"), 2)]);
    let inline = |items: Vec<SpreadOrExpression>| {
        checker.check_expression(&node(1, Expression::InlineArray(items)))
    };
    assert_eq!(
        inline(vec![
            SpreadOrExpression::Expression(number(1, 1)),
            SpreadOrExpression::Expression(boolean(1, true)),
        ]),
        Err(error(1, "Expected true to have type field, but type is bool"))
    );
    assert_eq!(
        inline(vec![
            SpreadOrExpression::Expression(boolean(1, true)),
            SpreadOrExpression::Expression(number(1, 1)),
        ]),
        Err(error(1, "Only arrays of field are supported, found bool"))
    );
    assert_eq!(
        inline(vec![SpreadOrExpression::Expression(identifier(1, "a"))]),
        Err(error(1, "Only arrays of field are supported, found field[2]"))
    );
    assert_eq!(inline(vec![]), Err(error(1, "Inline arrays must have at least one element")));
}

#[test]
fn spreads_stand_for_every_element() {
    let checker = checker_with(vec![
        Variable::field_array(name("a"), 2),
        Variable::field_element(name("f")),
    ]);
    let spread = |line: usize, id: &str| {
        SpreadOrExpression::Spread(node(line, Spread { expression: identifier(line + 1, id) }))
    };
    let a = || Box::new(FieldElementArrayExpression::Identifier(2, name("a")));
    assert_eq!(
        checker.check_expression(&node(
            1,
            Expression::InlineArray(vec![
                SpreadOrExpression::Expression(number(1, 9)),
                spread(2, "a"),
            ])
        )),
        Ok(TypedExpression::FieldElementArray(FieldElementArrayExpression::Value(
            3,
            vec![
                field_number(9),
                FieldElementExpression::Select(a(), Box::new(field_number(0))),
                FieldElementExpression::Select(a(), Box::new(field_number(1))),
            ]
        )))
    );
    assert_eq!(
        checker.check_spread_or_expression(&spread(2, "f")),
        Err(error(2, "Expected spread operator to apply on field element array, found field"))
    );
    assert_eq!(
        checker.check_spread_or_expression(&spread(2, "a")),
        Ok(vec![
            TypedExpression::FieldElement(FieldElementExpression::Select(
                a(),
                Box::new(field_number(0))
            )),
            TypedExpression::FieldElement(FieldElementExpression::Select(
                a(),
                Box::new(field_number(1))
            )),
        ])
    );
}

#[test]
fn conditions_compare_equal_types() {
    let mut checker = checker_with(vec![Variable::field_array(name("a"), 2)]);
    let equal = node(1, Statement::Condition(number(1, 1), number(1, 2)));
    assert_eq!(
        checker.check_statement(&equal, &vec![]),
        Ok(TypedStatement::Condition(
            TypedExpression::FieldElement(field_number(1)),
            TypedExpression::FieldElement(field_number(2))
        ))
    );
    let unequal = node(2, Statement::Condition(identifier(2, "a"), number(2, 2)));
    assert_eq!(
        checker.check_statement(&unequal, &vec![]),
        Err(error(2, "Cannot compare a of type field[2] to 2 of type field"))
    );
}

#[test]
fn return_has_the_shape_of_the_signature() {
    let mut checker = Checker::new();
    let statement = returning(1, vec![number(1, 1), boolean(1, true)]);
    assert_eq!(
        checker.check_statement(&statement, &vec![Type::FieldElement, Type::Boolean]),
        Ok(TypedStatement::Return(vec![
            TypedExpression::FieldElement(field_number(1)),
            TypedExpression::Boolean(BooleanExpression::Value(true)),
        ]))
    );
    assert_eq!(
        checker.check_statement(&statement, &vec![Type::FieldElementArray(2)]),
        Err(error(1, "Expected (field[2]) in return statement, found (field, bool)"))
    );
    assert_eq!(
        checker.check_statement(&returning(2, vec![]), &vec![Type::FieldElement]),
        Err(error(2, "Expected (field) in return statement, found ()"))
    );
}

#[test]
fn scope_levels() {
    let mut checker = Checker::new();
    assert!(checker.insert_scope(Variable::field_element(name("a"))));
    checker.enter_scope();
    assert!(checker.insert_scope(Variable::boolean(name("b"))));
    assert!(!checker.insert_scope(Variable::boolean(name("a"))));
    checker.enter_scope();
    assert!(checker.insert_scope(Variable::field_array(name("c"), 2)));
    {
        let a = checker.get_scope("a").unwrap();
        assert_eq!(a.level(), 0);
        assert_eq!(a.id(), &Variable::field_element(name("a")));
        assert_eq!(checker.get_scope("b").unwrap().level(), 1);
        assert_eq!(checker.get_scope("c").unwrap().level(), 2);
    }
    checker.exit_scope();
    assert!(checker.get_scope("c").is_none());
    assert!(checker.get_scope("b").is_some());
    assert!(checker.insert_scope(Variable::field_element(name("c"))));
    assert_eq!(checker.get_scope("c").unwrap().level(), 1);
    checker.exit_scope();
    assert!(checker.get_scope("c").is_none());
    assert!(checker.get_scope("b").is_none());
    assert!(checker.get_scope("a").is_some());
}

#[test]
fn queries_match_by_name_inputs_and_asked_outputs() {
    let declaration = FunctionDeclaration::new(
        name("foo"),
        signature(vec![Type::FieldElement], vec![Type::Boolean, Type::FieldElementArray(2)]),
    );
    let query = |id: &str, inputs: Vec<Type>, outputs: Vec<Option<Type>>| {
        FunctionQuery::new(id, &inputs, &outputs)
    };
    assert!(query("foo", vec![Type::FieldElement], vec![None, None]).match_func(&declaration));
    assert!(query(
        "foo",
        vec![Type::FieldElement],
        vec![Some(Type::Boolean), Some(Type::FieldElementArray(2))]
    )
    .match_func(&declaration));
    assert!(query("foo", vec![Type::FieldElement], vec![None, Some(Type::FieldElementArray(2))])
        .match_func(&declaration));
    assert!(!query("bar", vec![Type::FieldElement], vec![None, None]).match_func(&declaration));
    assert!(!query("foo", vec![Type::Boolean], vec![None, None]).match_func(&declaration));
    assert!(!query("foo", vec![], vec![None, None]).match_func(&declaration));
    assert!(!query("foo", vec![Type::FieldElement], vec![None]).match_func(&declaration));
    assert!(!query("foo", vec![Type::FieldElement], vec![None, None, None])
        .match_func(&declaration));
    assert!(!query("foo", vec![Type::FieldElement], vec![None, Some(Type::FieldElementArray(3))])
        .match_func(&declaration));
}

#[test]
fn candidates_come_in_the_order_of_the_registry() {
    let first = FunctionDeclaration::new(
        name("foo"),
        signature(vec![], vec![Type::FieldElement]),
    );
    let second = FunctionDeclaration::new(name("bar"), signature(vec![], vec![Type::Boolean]));
    let third = FunctionDeclaration::new(name("foo"), signature(vec![], vec![Type::Boolean]));
    let mut checker = Checker::new();
    checker.register(first.clone());
    checker.register(second.clone());
    checker.register(third.clone());
    checker.register(first.clone());
    let any = FunctionQuery::new("foo", &vec![], &vec![None]);
    assert_eq!(checker.find_candidates(&any), vec![first.clone(), third.clone()]);
    assert_eq!(
        any.match_funcs(&vec![third.clone(), second, first.clone(), third.clone()]),
        vec![third.clone(), first, third]
    );
    let none = FunctionQuery::new("foo", &vec![Type::Boolean], &vec![None]);
    assert_eq!(checker.find_candidates(&none), vec![]);
}

#[test]
fn queries_are_rendered() {
    let query = FunctionQuery::new(
        "foo",
        &vec![Type::FieldElement, Type::FieldElementArray(12)],
        &vec![None, Some(Type::Boolean), None],
    );
    assert_eq!(query.to_string(), "(field, field[12]) -> (_, bool, _)");
    assert_eq!(FunctionQuery::new("foo", &vec![], &vec![]).to_string(), "() -> ()");
}

#[test]
fn errors_are_rendered() {
    assert_eq!(
        Error::new(
            Some((Position::new(3, 14), Position::new(3, 20))),
            name("Identifier \"a\" is undefined")
        )
        .to_string(),
        "3:14\n\tIdentifier \"a\" is undefined"
    );
    let error = Error::new(None, name("No main function found"));
    assert_eq!(error.to_string(), "?\n\tNo main function found");
    assert_eq!(error.pos(), None);
    assert_eq!(error.message(), "No main function found");
}

#[test]
fn parser_invariants_are_tested() {
    let good = function(
        1,
        "main",
        vec![Variable::field_element(name("a"))],
        vec![node(
            2,
            Statement::For(
                node(2, Variable::field_element(name("i"))),
                FieldValue::from_usize(0),
                FieldValue::from_usize(2),
                vec![defines(3, "a", number(3, 1)), returning(4, vec![call(4, "f", vec![])])],
            ),
        )],
        vec![],
    );
    assert!(good.value.is_well_formed());
    assert!(good.value.statements[0].is_well_formed());
    let call_in_definition = defines(5, "a", call(5, "f", vec![]));
    assert!(!call_in_definition.is_well_formed());
    let nested = node(
        6,
        Statement::For(
            node(6, Variable::field_element(name("i"))),
            FieldValue::from_usize(0),
            FieldValue::from_usize(2),
            vec![declares(7, Variable::boolean(name("b"))), defines(8, "a", call(8, "f", vec![]))],
        ),
    );
    assert!(!nested.is_well_formed());
    let mut missing_argument = function(9, "g", vec![], vec![], vec![]);
    missing_argument.value.signature = signature(vec![Type::Boolean], vec![]);
    assert!(!missing_argument.value.is_well_formed());
    assert!(program(vec![good]).is_well_formed());
    assert!(!program(vec![function(1, "h", vec![], vec![nested], vec![])]).is_well_formed());
    assert!(!program(vec![missing_argument]).is_well_formed());
    assert!(program(vec![]).is_well_formed());
}

#[test]
fn a_name_defined_twice_by_one_call_keeps_its_first_type() {
    // a, a = foo(), where foo returns a field element and a boolean
    let mut checker = Checker::new();
    checker.register(FunctionDeclaration::new(
        name("foo"),
        signature(vec![], vec![Type::FieldElement, Type::Boolean]),
    ));
    let statement = node(
        1,
        Statement::MultipleDefinition(
            vec![
                node(1, Assignee::Identifier(name("a"))),
                node(1, Assignee::Identifier(name("a"))),
            ],
            call(1, "foo", vec![]),
        ),
    );
    assert_eq!(
        checker.check_statement(&statement, &vec![]),
        Ok(TypedStatement::MultipleDefinition(
            vec![Variable::field_element(name("a")), Variable::boolean(name("a"))],
            TypedExpressionList::FunctionCall(
                name("foo"),
                vec![],
                vec![Type::FieldElement, Type::Boolean]
            ),
        ))
    );
    assert_eq!(checker.get_scope("a").unwrap().id(), &Variable::field_element(name("a")));
}

#[test]
fn a_loop_variable_that_is_bound_already_keeps_its_binding() {
    // bool i
    // for field i in 0..2 do
    //   i == true
    // endfor
    let mut checker = checker_with(vec![Variable::boolean(name("i"))]);
    let statement = node(
        1,
        Statement::For(
            node(1, Variable::field_element(name("i"))),
            FieldValue::from_usize(0),
            FieldValue::from_usize(2),
            vec![node(2, Statement::Condition(identifier(2, "i"), boolean(2, true)))],
        ),
    );
    assert!(checker.check_statement(&statement, &vec![]).is_ok());
    assert_eq!(checker.get_scope("i").unwrap().id(), &Variable::boolean(name("i")));
    assert_eq!(checker.get_scope("i").unwrap().level(), 0);
}

#[test]
fn arguments_are_bound_in_the_function_only() {
    // def first(field x, bool x) -> (field):
    //   return x
    // def main() -> (field):
    //   return x
    let first = function(
        1,
        "first",
        vec![Variable::field_element(name("x")), Variable::boolean(name("x"))],
        vec![returning(2, vec![identifier(2, "x")])],
        vec![Type::FieldElement],
    );
    let main = function(3, "main", vec![], vec![returning(4, vec![identifier(4, "x")])], vec![
        Type::FieldElement,
    ]);
    let mut checker = Checker::new();
    assert_eq!(
        checker.check_program(program(vec![first, main])),
        Err(vec![error(4, "Identifier \"x\" is undefined")])
    );
    assert_eq!(checker.level(), 0);
    assert!(checker.scope().is_empty());
    assert_eq!(checker.functions().len(), 2);
}

#[test]
fn imported_functions_are_declared_once_and_first() {
    let twice = FunctionDeclaration::new(
        name("twice"),
        signature(vec![Type::FieldElement], vec![Type::FieldElement]),
    );
    let main = function(
        1,
        "main",
        vec![],
        vec![returning(2, vec![call(2, "twice", vec![number(2, 4)])])],
        vec![Type::FieldElement],
    );
    let clash = function(
        3,
        "twice",
        vec![Variable::field_element(name("x"))],
        vec![returning(4, vec![identifier(4, "x")])],
        vec![Type::FieldElement],
    );
    let mut checker = Checker::new();
    let result = checker.check_program(Prog {
        functions: vec![main, clash],
        imports: vec![],
        imported_functions: vec![twice.clone(), twice.clone()],
    });
    assert_eq!(
        result,
        Err(vec![error(
            3,
            "Duplicate definition for function twice with signature (field) -> (field)"
        )])
    );
    assert_eq!(checker.functions().len(), 2);
    assert_eq!(checker.functions()[0], twice);
    assert_eq!(checker.functions()[1].id(), "main");
    assert_eq!(
        checker.functions()[1].signature(),
        &signature(vec![], vec![Type::FieldElement])
    );
}
