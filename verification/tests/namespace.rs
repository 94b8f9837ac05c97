use dice_backend::namespace::Namespace;
use dice_backend::parser_output::{
    AbstractSyntaxTree, Expression, Literal, Operation, Statement, Statements, Structures, TypeData,
    VariableReference,
};

fn num(n: i64) -> Expression {
    Expression::new_literal(Literal::Number(n))
}

fn var(name: &str) -> Expression {
    Expression::Variable(VariableReference { name: name.to_string() })
}

fn call(name: &str, args: Vec<Expression>) -> Expression {
    let mut args = args;
    let last = args.pop();
    let firsts = args.into_iter().map(|e| (e, ",".to_string())).collect();
    Expression::new_function(name.to_string(), firsts, last)
}

fn op(left: Expression, o: Operation, right: Expression) -> Expression {
    Expression::new_operation(left, o, right)
}

fn func(name: &str, params: &[(&str, TypeData)], ret: TypeData, body: Expression) -> Structures {
    let mut params: Vec<(&str, TypeData)> = params.to_vec();
    let last = params.pop().map(|(n, k)| (n.to_string(), ":".to_string(), k));
    let firsts = params.into_iter().map(|(n, k)| (n.to_string(), ":".to_string(), k, ",".to_string())).collect();
    let body = Statements::new(vec![(Statement::new_ret(body), "return".to_string())]);
    Structures::new_func(name.to_string(), firsts, last, ret, body)
}

fn error_of(ast: &AbstractSyntaxTree) -> String {
    match Namespace::new(ast) {
        Ok(_) => panic!("the program was accepted"),
        Err(e) => e,
    }
}

fn program(items: Vec<Structures>) -> AbstractSyntaxTree {
    AbstractSyntaxTree::new(items.into_iter().map(|s| (s, String::new())).collect())
}

/// const FIVE: int = 5;
/// const TEN: int = 10;
/// fn lol_sub(x: int) -> int { return (x - FIVE); }
/// fn lol_add(x: int, y: int) -> int { return ( ( lol_sub(x) + lol_sub(y) ) + TEN); }
/// analyze lol_add(4,0);
fn complex_program() -> AbstractSyntaxTree {
    program(vec![
        Structures::new_const("FIVE".to_string(), TypeData::Int, num(5)),
        Structures::new_const("TEN".to_string(), TypeData::Int, num(10)),
        func("lol_sub", &[("x", TypeData::Int)], TypeData::Int, op(var("x"), Operation::Sub, var("FIVE"))),
        func(
            "lol_add",
            &[("x", TypeData::Int), ("y", TypeData::Int)],
            TypeData::Int,
            op(
                op(call("lol_sub", vec![var("x")]), Operation::Add, call("lol_sub", vec![var("y")])),
                Operation::Add,
                var("TEN"),
            ),
        ),
        Structures::new_analysis(call("lol_add", vec![num(4), num(0)])),
    ])
}

#[test]
fn test_complex_example() {
    let ast = complex_program();
    let ns = match Namespace::new(&ast) {
        Ok(namespace) => namespace,
        Err(e) => panic!("namespace error: {:?}", e),
    };
    let analysis = match ns.get_analysis() {
        &Option::Some(ref analysis) => analysis,
        &Option::None => panic!("could not find analysis"),
    };
    match &analysis.expr {
        Expression::Func(ref func) => {
            assert_eq!(func.name, "lol_add");
            assert_eq!(func.args.len(), 2);
        }
        anything_else => panic!("{:?}", anything_else),
    };
}

#[test]
fn test_simple_stuff() {
    // analyze ( 1 != roll_d6(10) );
    let ast = program(vec![Structures::new_analysis(op(
        num(1),
        Operation::NotEqual,
        call("roll_d6", vec![num(10)]),
    ))]);
    let _namespace = match Namespace::new(&ast) {
        Ok(namespace) => namespace,
        Err(e) => panic!("namespace error: {:?}", e),
    };
}

#[test]
fn test_namspace_with_trivial_program_1() {
    // analyze roll_d6(10);
    let ast = program(vec![Structures::new_analysis(call("roll_d6", vec![num(10)]))]);
    let namespace = match Namespace::new(&ast) {
        Ok(namespace) => namespace,
        Err(e) => panic!("namespace error: {:?}", e),
    };
    assert!(namespace.get_function("roll_d6").is_some());
    assert!(namespace.get_function("roll_d3").is_some());
    assert!(namespace.get_function("roll").is_some());
    assert!(namespace.get_function("filter").is_some());
    assert!(namespace.get_function("sum").is_some());
    assert!(namespace.get_all_constants().iter().count() == 0);
    assert!(namespace.get_analysis().is_some());
}

#[test]
fn test_namspace_with_trivial_program_2() {
    // const value:int = 10;
    // analyze roll_d6(value);
    let ast = program(vec![
        Structures::new_const("value".to_string(), TypeData::Int, num(10)),
        Structures::new_analysis(call("roll_d6", vec![var("value")])),
    ]);
    let namespace = match Namespace::new(&ast) {
        Ok(namespace) => namespace,
        Err(e) => panic!("namespace error: {:?}", e),
    };
    assert!(namespace.get_function("roll_d6").is_some());
    assert!(namespace.get_function("roll_d3").is_some());
    assert!(namespace.get_function("roll").is_some());
    assert!(namespace.get_function("filter").is_some());
    assert!(namespace.get_function("sum").is_some());
    assert!(namespace.get_all_constants().iter().count() == 1);
    assert!(namespace.get_constant("value").is_some());
    assert!(namespace.get_analysis().is_some());
}

#[test]
fn namespace_refuses_a_second_constant_of_a_name() {
    let ast = program(vec![
        Structures::new_const("value".to_string(), TypeData::Int, num(10)),
        Structures::new_const("value".to_string(), TypeData::Int, num(11)),
        Structures::new_analysis(call("roll_d6", vec![var("value")])),
    ]);
    assert_eq!(error_of(&ast), "const named=\"value\" already exists");
}

#[test]
fn namespace_refuses_a_constant_named_like_a_function() {
    let ast = program(vec![
        Structures::new_const("sum".to_string(), TypeData::Int, num(10)),
        Structures::new_analysis(num(1)),
    ]);
    assert_eq!(error_of(&ast), "constant named=\"sum\" cannot be declared, function=\"sum\" uses that name");
}

#[test]
fn namespace_refuses_a_function_named_like_the_library() {
    let ast = program(vec![
        func("roll_d6", &[("x", TypeData::Int)], TypeData::Int, var("x")),
        Structures::new_analysis(num(1)),
    ]);
    assert_eq!(error_of(&ast), "function named=\"roll_d6\" already exists");
}

#[test]
fn namespace_refuses_two_analyses() {
    let ast = program(vec![Structures::new_analysis(num(1)), Structures::new_analysis(num(2))]);
    assert_eq!(error_of(&ast), "analyze statement is already declared\n\n1\n\nsecond declaration\n\n2\n\n is error");
}

#[test]
fn namespace_refuses_an_undefined_variable() {
    let ast = program(vec![Structures::new_analysis(call("roll_d6", vec![var("missing")]))]);
    assert_eq!(error_of(&ast), "variable name:'missing' is not defined");
}

#[test]
fn namespace_refuses_a_wrong_argument_count() {
    let ast = program(vec![Structures::new_analysis(call("roll_d6", vec![num(1), num(2)]))]);
    assert_eq!(error_of(&ast), "function invocation: 'roll_d6( 1, 2 )' has the name of function: 'roll_d6' but incorrect argument count. Expected: 1 Found: 2");
}

#[test]
fn namespace_refuses_an_argument_of_the_wrong_type() {
    let ast = program(vec![Structures::new_analysis(call("sum", vec![num(3)]))]);
    assert_eq!(error_of(&ast), "expression: 'sum( 3 )' has an error the 0 argument to function 'sum' is of the incorrect type. Expected type:vec<int> Found type:int");
}

#[test]
fn namespace_refuses_a_constant_of_the_wrong_type() {
    let ast = program(vec![
        Structures::new_const("value".to_string(), TypeData::Bool, num(10)),
        Structures::new_analysis(num(1)),
    ]);
    assert_eq!(error_of(&ast), "constant declaration: 'value' is in error. Expression: '10' yeilds type: 'int' but we are binding type: 'bool'");
}

#[test]
fn namespace_refuses_a_function_returning_the_wrong_type() {
    let ast = program(vec![
        func("f", &[("x", TypeData::Int)], TypeData::Bool, var("x")),
        Structures::new_analysis(num(1)),
    ]);
    assert_eq!(error_of(&ast), "return expression: 'return x;' has type of 'int' while the function we are returning: 'f' expects: 'bool'");
}

#[test]
fn namespace_finds_declared_names() {
    let ns = Namespace::new(&complex_program()).unwrap();
    assert!(ns.get_function("lol_add").is_some());
    assert!(ns.get_function("lol_sub").is_some());
    assert!(ns.get_function("lol_mul").is_none());
    assert_eq!(ns.get_constant_type("TEN"), Some(TypeData::Int));
    assert_eq!(ns.get_constant_type("lol_add"), None);
    assert!(ns.is_name_defined("FIVE"));
    assert!(ns.is_name_defined("count"));
    assert!(!ns.is_name_defined("x"));
    assert_eq!(ns.get_all_constants().len(), 2);
    assert!(ns.get_own_block().is_some());
}

#[test]
fn namespace_names_an_unknown_function() {
    let ast = program(vec![Structures::new_analysis(call("nothing", vec![num(1)]))]);
    assert_eq!(
        error_of(&ast),
        "function invocation: 'nothing( 1 )' cannot be resolved. no function of that name is defined"
    );
}

#[test]
fn namespace_names_an_argument_that_takes_a_used_name() {
    let ast = program(vec![
        func("f", &[("sum", TypeData::Int)], TypeData::Int, var("sum")),
        Structures::new_analysis(num(1)),
    ]);
    assert_eq!(
        error_of(&ast),
        "within function declaration: 'f' argument: 'sum: int' its name collides with an external variable"
    );
}

fn func_with(name: &str, body: Vec<Statement>) -> Structures {
    let body = Statements::new(body.into_iter().map(|st| (st, ";".to_string())).collect());
    Structures::new_func(name.to_string(), Vec::new(), Some(("x".to_string(), ":".to_string(), TypeData::Int)), TypeData::Int, body)
}

#[test]
fn namespace_names_a_second_return() {
    let ast = program(vec![
        func_with("f", vec![Statement::new_ret(num(1)), Statement::new_ret(num(2))]),
        Structures::new_analysis(num(1)),
    ]);
    assert_eq!(error_of(&ast), "multiple return statements\nold:\n1\nnew:\n    return 2;\n\n");
}

#[test]
fn namespace_names_a_variable_that_takes_a_used_name() {
    let ast = program(vec![
        func_with("f", vec![Statement::new_var("x".to_string(), TypeData::Int, num(1)), Statement::new_ret(var("x"))]),
        Structures::new_analysis(num(1)),
    ]);
    assert_eq!(error_of(&ast), "variable: 'x' collides with an existing name");
}

#[test]
fn namespace_names_a_variable_of_the_wrong_type() {
    let ast = program(vec![
        func_with("f", vec![Statement::new_var("y".to_string(), TypeData::Bool, var("x")), Statement::new_ret(var("x"))]),
        Structures::new_analysis(num(1)),
    ]);
    assert_eq!(
        error_of(&ast),
        "in variable defination: 'y' the expression: 'x' returns type: 'int' while the variable is declared 'bool'"
    );
}

#[test]
fn namespace_names_a_function_named_like_a_constant() {
    let ast = program(vec![
        Structures::new_const("g".to_string(), TypeData::Int, num(1)),
        func("g", &[("x", TypeData::Int)], TypeData::Int, var("x")),
        Structures::new_analysis(num(1)),
    ]);
    assert_eq!(error_of(&ast), "function named=\"g\" cannot be declared, constant=\"g\" uses that name");
}
