use dice_backend::cfgbuilder::{build_cfg, CallStack, ExpressionCollection, HashedExpression, Identifier};
use dice_backend::inliner::envir::{lookup_bool, lookup_int, parse_bool, parse_i32};
use dice_backend::inliner::expr::InlineError;
use dice_backend::inliner::{InlinedCollection, InlinedExpression};
use dice_backend::linkage::LinkageExpression;
use dice_backend::namespace::Namespace;
use dice_backend::ordering::coll::OrderedCollection;
use dice_backend::ordering::tracking::{OrderedExpression as TrackedExpression, OrderingCollection, ReadTrackingOp};
use dice_backend::parser_output::{
    AbstractSyntaxTree, Expression, Literal, Operation, Statement, Statements, Structures, TypeData,
    VariableReference,
};

fn num(n: i64) -> Expression {
    Expression::new_literal(Literal::Number(n))
}

fn var(name: &str) -> Expression {
    Expression::Variable(VariableReference { name: name.to_string() })
}

fn call(name: &str, args: Vec<Expression>) -> Expression {
    let mut args = args;
    let last = args.pop();
    let firsts = args.into_iter().map(|e| (e, ",".to_string())).collect();
    Expression::new_function(name.to_string(), firsts, last)
}

fn op(left: Expression, o: Operation, right: Expression) -> Expression {
    Expression::new_operation(left, o, right)
}

fn func(name: &str, params: &[(&str, TypeData)], ret: TypeData, body: Expression) -> Structures {
    let mut params: Vec<(&str, TypeData)> = params.to_vec();
    let last = params.pop().map(|(n, k)| (n.to_string(), ":".to_string(), k));
    let firsts = params.into_iter().map(|(n, k)| (n.to_string(), ":".to_string(), k, ",".to_string())).collect();
    let body = Statements::new(vec![(Statement::new_ret(body), "return".to_string())]);
    Structures::new_func(name.to_string(), firsts, last, ret, body)
}

fn program(items: Vec<Structures>) -> AbstractSyntaxTree {
    AbstractSyntaxTree::new(items.into_iter().map(|s| (s, String::new())).collect())
}

fn complex_program() -> AbstractSyntaxTree {
    program(vec![
        Structures::new_const("FIVE".to_string(), TypeData::Int, num(5)),
        Structures::new_const("TEN".to_string(), TypeData::Int, num(10)),
        func("lol_sub", &[("x", TypeData::Int)], TypeData::Int, op(var("x"), Operation::Sub, var("FIVE"))),
        func(
            "lol_add",
            &[("x", TypeData::Int), ("y", TypeData::Int)],
            TypeData::Int,
            op(
                op(call("lol_sub", vec![var("x")]), Operation::Add, call("lol_sub", vec![var("y")])),
                Operation::Add,
                var("TEN"),
            ),
        ),
        Structures::new_analysis(call("lol_add", vec![num(4), num(0)])),
    ])
}

fn collection_of(ast: &AbstractSyntaxTree) -> ExpressionCollection {
    let ns = Namespace::new(ast).unwrap();
    ExpressionCollection::new(&ns)
}

fn no_env() -> Vec<(String, String)> {
    Vec::new()
}

#[test]
fn test_complicated_cfg() {
    let ast = complex_program();
    let namespace = match Namespace::new(&ast) {
        Ok(namespace) => namespace,
        Err(e) => panic!("namespace error: {:?}", e),
    };
    let cfgcoll = ExpressionCollection::new(&namespace);

    let lol_add_id = match cfgcoll.get_return().unwrap() {
        &HashedExpression::Func(ref id, ref args, ref kind) => {
            assert_eq!(args.len(), 2);
            assert_eq!(kind.clone(), TypeData::Int);
            match cfgcoll.get_expr(None, &args[0]).unwrap() {
                &HashedExpression::ConstantValue(Literal::Number(4), TypeData::Int) => {}
                anything_else => panic!("expected a constant of 4, found {:?}", anything_else),
            };
            match cfgcoll.get_expr(None, &args[1]).unwrap() {
                &HashedExpression::ConstantValue(Literal::Number(0), TypeData::Int) => {}
                anything_else => panic!("expected a constant of 0, found {:?}", anything_else),
            };
            id
        }
        anything_else => panic!("expected a function found:'{:?}'", anything_else),
    };

    let lol_add_ctx = cfgcoll.get_function_context(lol_add_id).unwrap();
    match lol_add_ctx.get_return() {
        Option::Some(HashedExpression::Op(ref left, Operation::Add, ref right, TypeData::Int)) => {
            match lol_add_ctx.get_expr(Some(*lol_add_id), right) {
                Option::Some(HashedExpression::ExternalConstant(ref _id, TypeData::Int)) => {}
                anything_else => panic!("expected a constant, found {:?}", anything_else),
            };
            match lol_add_ctx.get_expr(Some(*lol_add_id), left) {
                Option::Some(HashedExpression::Op(ref left, Operation::Add, ref right, TypeData::Int)) => {
                    let (left_id, left_args) = match lol_add_ctx.get_expr(Some(*lol_add_id), left) {
                        Option::Some(HashedExpression::Func(ref left_id, ref left_args, TypeData::Int)) => {
                            (left_id, left_args)
                        }
                        anything_else => panic!("{:?}", anything_else),
                    };
                    let (right_id, right_args) = match lol_add_ctx.get_expr(Some(*lol_add_id), right) {
                        Option::Some(HashedExpression::Func(ref right_id, ref right_args, TypeData::Int)) => {
                            (right_id, right_args)
                        }
                        anything_else => panic!("{:?}", anything_else),
                    };
                    assert!(right_id == left_id);
                    assert!(left_args != right_args);
                }
                anything_else => panic!("{:?}", anything_else),
            };
        }
        anything_else => panic!("expected an op, found {:?}", anything_else),
    };
}

#[test]
fn build_cfg_needs_an_analysis() {
    let ns = Namespace::new(&complex_program()).unwrap();
    assert!(build_cfg(&ns).is_ok());
    // a namespace is only built for a program with an analysis
    let no_analysis = program(vec![Structures::new_const("A".to_string(), TypeData::Int, num(1))]);
    assert_eq!(
        Namespace::new(&no_analysis).err(),
        Some("program contains no analysis directive. How do we report?".to_string())
    );
}

#[test]
fn collection_knows_the_library_and_the_variables() {
    let coll = collection_of(&complex_program());
    let sum = Identifier::new_global("sum");
    let lol_add = Identifier::new_global("lol_add");
    assert!(coll.is_function_stdlib(&sum));
    assert!(!coll.is_function_stdlib(&lol_add));
    assert_eq!(coll.get_function_name(&lol_add), Some("lol_add"));
    let ten = Identifier::new_global("TEN");
    match coll.get_variable(&ten) {
        HashedExpression::ConstantValue(Literal::Number(10), TypeData::Int) => {}
        other => panic!("expected ten, found {:?}", other),
    }
    assert!(coll.find_variable(&Identifier::new_global("ELEVEN")).is_none());
    assert!(Identifier::new_namespaced("lol_add", "x").is_namespace());
    assert!(Identifier::new(None, "x").is_global());
    assert_ne!(Identifier::new_global("x"), Identifier::new_global("y"));
    assert_eq!(Identifier::new(Some("f"), "x"), Identifier::new_namespaced("f", "x"));
}

#[test]
fn call_stack_follows_the_frames() {
    let coll = collection_of(&complex_program());
    let mut stack = CallStack::new(&coll);
    assert_eq!(stack.get_context(), None);
    assert_eq!(stack.get_ctx_expr(), None);
    assert_eq!(stack.get_arg_count(), None);
    let ret = match coll.get_return().unwrap() {
        HashedExpression::Func(id, args, _) => (*id, args.clone()),
        other => panic!("{:?}", other),
    };
    let root_hash = coll.get_return().unwrap().get_hash();
    assert!(stack.has_function(&ret.0));
    stack.push(&ret.0, &root_hash);
    assert_eq!(stack.get_context(), Some(ret.0));
    assert_eq!(stack.get_ctx_expr(), Some(root_hash));
    assert_eq!(stack.get_arg_count(), Some(2));
    assert_eq!(stack.get_arg_index(1), Some(ret.1[1]));
    match stack.get_return() {
        Some(HashedExpression::Op(_, Operation::Add, _, TypeData::Int)) => {}
        other => panic!("{:?}", other),
    }
    stack.pop();
    assert_eq!(stack.get_context(), None);
}

#[test]
fn inlining_folds_the_program_to_a_constant() {
    let coll = collection_of(&complex_program());
    let inlined = InlinedCollection::new(&coll, &no_env()).unwrap();
    let ret = inlined.get_return().unwrap();
    // lol_add(4, 0) = (4 - 5) + (0 - 5) + 10 = 4
    assert_eq!(inlined.get_expr(&ret), Some(&InlinedExpression::ConstantInt(4)));
    assert_eq!(InlinedExpression::ConstantInt(4).get_hash(), ret);
    assert_eq!(InlinedExpression::ConstantInt(4).get_type(), TypeData::Int);
}

#[test]
fn inlining_keeps_the_dice() {
    // analyze sum(roll_d6(3));
    let ast = program(vec![Structures::new_analysis(call("sum", vec![call("roll_d6", vec![num(3)])]))]);
    let coll = collection_of(&ast);
    let inlined = InlinedCollection::new(&coll, &no_env()).unwrap();
    let ret = inlined.get_return().unwrap();
    let three = InlinedExpression::ConstantInt(3).get_hash();
    let dice = InlinedExpression::D6(three);
    assert_eq!(inlined.get_expr(&ret), Some(&InlinedExpression::Sum(dice.get_hash())));
    assert_eq!(inlined.get_expr(&dice.get_hash()), Some(&dice));
    assert_eq!(inlined.get_expr(&three), Some(&InlinedExpression::ConstantInt(3)));
    assert_eq!(inlined.keys().len(), 3);
    assert_eq!(dice.get_type(), TypeData::CollectionOfInt);
}

#[test]
fn inlining_reads_the_environment() {
    // analyze ( %d{{N}} * 2 );
    let ast = program(vec![Structures::new_analysis(op(
        Expression::new_literal(Literal::EnvirNumber("N".to_string())),
        Operation::Mul,
        num(2),
    ))]);
    let coll = collection_of(&ast);
    let env = vec![("N".to_string(), "21".to_string())];
    let inlined = InlinedCollection::new(&coll, &env).unwrap();
    let ret = inlined.get_return().unwrap();
    assert_eq!(inlined.get_expr(&ret), Some(&InlinedExpression::ConstantInt(42)));
    assert_eq!(InlinedCollection::new(&coll, &no_env()).err(), Some(InlineError::MissingEnvironment));
    let bad = vec![("N".to_string(), "twenty".to_string())];
    assert_eq!(InlinedCollection::new(&coll, &bad).err(), Some(InlineError::MissingEnvironment));
}

#[test]
fn inlining_reports_overflow_and_division_by_zero() {
    let big = program(vec![Structures::new_analysis(op(num(2147483647), Operation::Add, num(1)))]);
    let coll = collection_of(&big);
    assert_eq!(InlinedCollection::new(&coll, &no_env()).err(), Some(InlineError::Arithmetic));
    let div = program(vec![Structures::new_analysis(op(num(1), Operation::Div, num(0)))]);
    let coll = collection_of(&div);
    assert_eq!(InlinedCollection::new(&coll, &no_env()).err(), Some(InlineError::Arithmetic));
}

#[test]
fn inlining_folds_comparisons() {
    let ast = program(vec![Structures::new_analysis(op(num(3), Operation::LessThan, num(4)))]);
    let coll = collection_of(&ast);
    let inlined = InlinedCollection::new(&coll, &no_env()).unwrap();
    let ret = inlined.get_return().unwrap();
    assert_eq!(inlined.get_expr(&ret), Some(&InlinedExpression::ConstantBool(true)));
}

#[test]
fn inlining_of_recursion_is_too_deep() {
    // fn f(x: int) -> int { return f(x); } analyze f(1);
    let ast = program(vec![
        func("f", &[("x", TypeData::Int)], TypeData::Int, call("f", vec![var("x")])),
        Structures::new_analysis(call("f", vec![num(1)])),
    ]);
    let coll = collection_of(&ast);
    // with a small depth the recursion runs it out
    let mut stack = CallStack::new(&coll);
    let mut inlined = InlinedCollection::empty();
    let root = coll.get_return().unwrap();
    assert_eq!(
        InlinedExpression::new(root, &mut stack, &mut inlined, &no_env(), 64).err(),
        Some(InlineError::TooDeep)
    );
    assert_eq!(stack.get_context(), None);
}

#[test]
fn inlining_follows_deep_nesting() {
    // analyze ( ( ... ( 0 + 1 ) + 1 ... ) + 1 ), nested 600 levels
    let mut e = num(0);
    for _ in 0..600 {
        e = op(e, Operation::Add, num(1));
    }
    let ast = program(vec![Structures::new_analysis(e)]);
    let coll = collection_of(&ast);
    let inlined = InlinedCollection::new(&coll, &no_env()).unwrap();
    let ret = inlined.get_return().unwrap();
    assert_eq!(inlined.get_expr(&ret), Some(&InlinedExpression::ConstantInt(600)));
}

#[test]
fn environment_values_parse() {
    assert_eq!(parse_i32("21"), Some(21));
    assert_eq!(parse_i32("-2147483648"), Some(-2147483648));
    assert_eq!(parse_i32("2147483647"), Some(2147483647));
    assert_eq!(parse_i32("2147483648"), None);
    assert_eq!(parse_i32("+5"), Some(5));
    assert_eq!(parse_i32("+"), None);
    assert_eq!(parse_i32("-"), None);
    assert_eq!(parse_i32(""), None);
    assert_eq!(parse_i32("1a"), None);
    assert_eq!(parse_bool("true"), Some(true));
    assert_eq!(parse_bool("false"), Some(false));
    assert_eq!(parse_bool("True"), None);
    let env = vec![("A".to_string(), "7".to_string()), ("B".to_string(), "false".to_string())];
    assert_eq!(lookup_int(&env, "A"), Some(7));
    assert_eq!(lookup_int(&env, "B"), None);
    assert_eq!(lookup_bool(&env, "B"), Some(false));
    assert_eq!(lookup_bool(&env, "C"), None);
}

#[test]
fn ordered_collection_ends_in_the_final_node() {
    let ast = program(vec![Structures::new_analysis(call("sum", vec![call("roll_d6", vec![num(3)])]))]);
    let coll = collection_of(&ast);
    let inlined = InlinedCollection::new(&coll, &no_env()).unwrap();
    let ordered = OrderedCollection::new(&inlined).unwrap();
    assert_eq!(ordered.len(), 4);
    let fin = ordered.get_return();
    let keys = ordered.keys();
    assert_eq!(keys.len(), 4);
    assert!(keys.windows(2).all(|w| w[0] < w[1]));
    assert!(keys.contains(&fin));
    match ordered.get_expr(fin) {
        Some(dice_backend::ordering::expr::OrderedExpression::Final(_)) => {}
        other => panic!("{:?}", other),
    }
    assert!(ordered.get_expr(u64::MAX).is_none() || keys.contains(&u64::MAX));
}

#[test]
fn linkage_links_the_root_of_a_program() {
    // const A: int = 2; analyze ( A + sum(roll_d3(A)) );
    let ast = program(vec![
        Structures::new_const("A".to_string(), TypeData::Int, num(2)),
        Structures::new_analysis(op(var("A"), Operation::Add, call("sum", vec![call("roll_d3", vec![var("A")])]))),
    ]);
    let coll = collection_of(&ast);
    let root = coll.get_return().unwrap();
    let linked = LinkageExpression::expr(root, &coll);
    assert_eq!(linked.get_type(), TypeData::Int);
    match linked {
        LinkageExpression::Operation(left, Operation::Add, right, TypeData::Int) => {
            match *left {
                LinkageExpression::Constant(Literal::Number(2), TypeData::Int) => {}
                other => panic!("{:?}", other),
            }
            match *right {
                LinkageExpression::Function(_, args, TypeData::Int) => {
                    assert_eq!(args.len(), 1);
                    match &args[0] {
                        LinkageExpression::Function(_, inner, TypeData::CollectionOfInt) => {
                            assert_eq!(inner.len(), 1);
                        }
                        other => panic!("{:?}", other),
                    }
                }
                other => panic!("{:?}", other),
            }
        }
        other => panic!("{:?}", other),
    }
}

#[test]
fn tracking_records_readers_and_reads() {
    let ast = program(vec![Structures::new_analysis(call("sum", vec![call("roll_d6", vec![num(3)])]))]);
    let coll = collection_of(&ast);
    let inlined = InlinedCollection::new(&coll, &no_env()).unwrap();
    let tracking = OrderingCollection::new(&inlined);
    let ret = tracking.get_return();
    assert_eq!(ret, inlined.get_return().unwrap());
    let three = InlinedExpression::ConstantInt(3).get_hash();
    let dice = InlinedExpression::D6(three).get_hash();
    // sum reads the dice, which read the constant
    assert_eq!(tracking.get_expr(&ret).get_num_sources(), 1);
    assert_eq!(tracking.get_expr(&ret).get_num_sinks(), 0);
    assert_eq!(tracking.get_expr(&dice).get_num_sources(), 1);
    assert_eq!(tracking.get_expr(&dice).get_num_sinks(), 1);
    assert_eq!(tracking.get_expr(&three).get_num_sources(), 0);
    assert_eq!(tracking.get_expr(&three).get_num_sinks(), 1);
    match tracking.get_expr(&three) {
        TrackedExpression::ConstantInt(lit) => assert_eq!(lit.lit, 3),
        other => panic!("{:?}", other),
    }
}

#[test]
fn inlining_folds_not_equal() {
    let ast = program(vec![Structures::new_analysis(op(num(1), Operation::NotEqual, num(2)))]);
    let coll = collection_of(&ast);
    let inlined = InlinedCollection::new(&coll, &no_env()).unwrap();
    let ret = inlined.get_return().unwrap();
    assert_eq!(inlined.get_expr(&ret), Some(&InlinedExpression::ConstantBool(true)));
    let ast = program(vec![Structures::new_analysis(op(num(2), Operation::NotEqual, num(2)))]);
    let coll = collection_of(&ast);
    let inlined = InlinedCollection::new(&coll, &no_env()).unwrap();
    let ret = inlined.get_return().unwrap();
    assert_eq!(inlined.get_expr(&ret), Some(&InlinedExpression::ConstantBool(false)));
}

#[test]
fn ordering_follows_deep_nesting() {
    // analyze ( ( ... ( roll_d6(1) + 1 ) + 1 ... ) + 1 ), nested 600 levels
    let mut e = call("roll_d6", vec![num(1)]);
    for _ in 0..600 {
        e = op(e, Operation::Add, num(1));
    }
    let ast = program(vec![Structures::new_analysis(e)]);
    let coll = collection_of(&ast);
    let inlined = InlinedCollection::new(&coll, &no_env()).unwrap();
    let ordered = OrderedCollection::new(&inlined).unwrap();
    // the constants 1, the dice, 600 operations and the final node
    assert_eq!(ordered.len(), 603);
}

#[test]
fn linkage_reports_what_does_not_link() {
    // fn f(x: int) -> int { return x; } analyze f(1);
    let ast = program(vec![
        func("f", &[("x", TypeData::Int)], TypeData::Int, var("x")),
        Structures::new_analysis(call("f", vec![num(1)])),
    ]);
    let coll = collection_of(&ast);
    assert!(LinkageExpression::try_expr(coll.get_return().unwrap(), &coll).is_none());
    let ast = program(vec![Structures::new_analysis(call("sum", vec![call("roll_d3", vec![num(2)])]))]);
    let coll = collection_of(&ast);
    let linked = LinkageExpression::try_expr(coll.get_return().unwrap(), &coll).unwrap();
    assert_eq!(linked.get_type(), TypeData::Int);
}

#[test]
fn tracked_nodes_keep_what_they_compute() {
    match TrackedExpression::new(&InlinedExpression::ConstantInt(7)) {
        TrackedExpression::ConstantInt(x) => assert_eq!(x.lit, 7),
        other => panic!("{:?}", other),
    }
    match TrackedExpression::new(&InlinedExpression::ConstantBool(false)) {
        TrackedExpression::ConstantBool(x) => assert!(!x.lit),
        other => panic!("{:?}", other),
    }
    match TrackedExpression::new(&InlinedExpression::Operation(1, Operation::Sub, 2, TypeData::Int)) {
        TrackedExpression::Operation(x) => {
            assert_eq!(x.left, 1);
            assert_eq!(x.op, Operation::Sub);
            assert_eq!(x.right, 2);
        }
        other => panic!("{:?}", other),
    }
    let mut call = TrackedExpression::new(&InlinedExpression::Filter(3, 4));
    match &call {
        TrackedExpression::StdLibFunc(x) => {
            assert_eq!(x.name, "filter");
            assert_eq!(x.arg, vec![3, 4]);
        }
        other => panic!("{:?}", other),
    }
    let h = InlinedExpression::Filter(3, 4).get_hash();
    assert_eq!(call.get_source_sink(), vec![(h, 3), (h, 4)]);
    match &call {
        TrackedExpression::StdLibFunc(x) => assert_eq!(x.name, "filter"),
        other => panic!("{:?}", other),
    }
}
