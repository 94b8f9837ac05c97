use dice_backend::cfgbuilder::Identifier;
use dice_backend::exec::elements::DataElement;
use dice_backend::exec::stack::Stack;
use dice_backend::hashing::hash_str;
use dice_backend::namespace::BlockExpression;
use dice_backend::notacfg::GlobalScope;
use dice_backend::ordering::datum::Datum;
use dice_backend::parser_output::{
    AbstractSyntaxTree, Expression, Literal, Operation, Statement, Statements, Structures, TypeData,
    VariableReference,
};
use dice_backend::sorting::{sort_bools, sort_ints};

fn num(n: i64) -> Expression {
    Expression::new_literal(Literal::Number(n))
}

fn var(name: &str) -> Expression {
    Expression::Variable(VariableReference { name: name.to_string() })
}

fn function(name: &str) -> Structures {
    let body = Statements::new(vec![(Statement::new_ret(var("x")), String::new())]);
    Structures::new_func(
        name.to_string(),
        vec![("x".to_string(), ":".to_string(), TypeData::Int, ",".to_string())],
        Some(("y".to_string(), ":".to_string(), TypeData::Bool)),
        TypeData::Int,
        body,
    )
}

#[test]
fn types_and_operations_print() {
    assert_eq!(TypeData::Bool.to_string(), "bool");
    assert_eq!(TypeData::Int.to_string(), "int");
    assert_eq!(TypeData::CollectionOfBool.to_string(), "vec<bool>");
    assert_eq!(TypeData::CollectionOfInt.to_string(), "vec<int>");
    assert_eq!(Operation::Add.to_string(), "+");
    assert_eq!(Operation::Or.to_string(), "|");
    assert_eq!(Operation::GreaterThanEqual.to_string(), ">=");
    assert_eq!(Operation::NotEqual.as_text(), "!=");
}

#[test]
fn literals_print() {
    assert_eq!(Literal::Number(0).to_string(), "0");
    assert_eq!(Literal::Number(-42).to_string(), "-42");
    assert_eq!(Literal::Number(1234567890).to_string(), "1234567890");
    assert_eq!(Literal::Number(i64::MIN).to_string(), "-9223372036854775808");
    assert_eq!(Literal::Number(i64::MAX).to_string(), "9223372036854775807");
    assert_eq!(Literal::Boolean(true).to_string(), "true");
    assert_eq!(Literal::Boolean(false).to_string(), "false");
    assert_eq!(Literal::EnvirBool("FLAG".to_string()).to_string(), "%b{{FLAG}}");
    assert_eq!(Literal::EnvirNumber("N".to_string()).to_string(), "%d{{N}}");
}

#[test]
fn expressions_and_statements_print() {
    let call = Expression::new_function("roll_d6".to_string(), vec![(num(3), ",".to_string())], Some(var("x")));
    let e = Expression::new_operation(num(1), Operation::Add, call);
    assert_eq!(e.to_string(), "( 1 + roll_d6( 3, x ) )");
    let empty = Expression::new_function("f".to_string(), vec![], None);
    assert_eq!(empty.to_string(), "f(  )");
    assert_eq!(Statement::new_var("x".to_string(), TypeData::Int, num(2)).to_string(), "    let x: int = 2;\n");
    assert_eq!(Statement::new_ret(var("x")).to_string(), "    return x;\n");
    let body = Statements::new(vec![
        (Statement::new_var("a".to_string(), TypeData::Bool, var("y")), String::new()),
        (Statement::new_ret(var("x")), String::new()),
    ]);
    assert_eq!(body.to_string(), "    let a: bool = y;\n    return x;\n");
}

#[test]
fn structures_and_trees_print() {
    assert_eq!(Structures::new_const("A".to_string(), TypeData::Int, num(1)).to_string(), "const A: int = 1;\n");
    assert_eq!(Structures::new_analysis(var("A")).to_string(), "analyze A;\n");
    assert_eq!(function("f").to_string(), "fn f( x: int, y: bool ) -> int {\n     return x;\n }\n");
    let ast = AbstractSyntaxTree::new(vec![
        (Structures::new_const("A".to_string(), TypeData::Int, num(1)), String::new()),
        (Structures::new_analysis(var("A")), String::new()),
    ]);
    assert_eq!(ast.to_string(), "const A: int = 1;\nanalyze A;\n");
}

#[test]
fn block_expressions_print() {
    let b = BlockExpression::Func(
        "sum".to_string(),
        vec![
            BlockExpression::Var("a".to_string(), TypeData::CollectionOfInt),
            BlockExpression::ConstantValue(Literal::Number(2), TypeData::Int),
        ],
        TypeData::Int,
    );
    assert_eq!(b.to_string(), "sum(a,2)");
    let op = BlockExpression::Op(
        Box::new(BlockExpression::FunctionArg("x".to_string(), TypeData::Int)),
        Operation::Sub,
        Box::new(BlockExpression::ExternalConstant("FIVE".to_string(), TypeData::Int)),
        TypeData::Int,
    );
    assert_eq!(op.to_string(), "( x - FIVE )");
}

#[test]
fn names_hash_apart() {
    assert_eq!(hash_str("roll_d6"), hash_str("roll_d6"));
    assert_ne!(hash_str("roll_d6"), hash_str("roll_d3"));
    assert_ne!(hash_str(""), hash_str("a"));
    assert_ne!(Identifier::new_global("a"), Identifier::new_namespaced("a", "a"));
}

#[test]
fn sorting_orders_and_keeps_items() {
    let mut v = vec![5, -1, 3, 3, 0];
    sort_ints(&mut v);
    assert_eq!(v, vec![-1, 0, 3, 3, 5]);
    let mut b = vec![true, false, true, false];
    sort_bools(&mut b);
    assert_eq!(b, vec![false, false, true, true]);
    let mut e: Vec<i32> = vec![];
    sort_ints(&mut e);
    assert!(e.is_empty());
}

#[test]
fn datum_scalars() {
    let i = Datum::from(7);
    assert_eq!(i.get_type(), TypeData::Int);
    assert_eq!(i.get_int(), 7);
    assert_eq!(i.len(), 1);
    let b = Datum::from(true);
    assert_eq!(b.get_type(), TypeData::Bool);
    assert!(b.get_bool());
    let mut s = Vec::new();
    b.hash(&mut s);
    assert_eq!(s, vec![1, 1]);
    let mut s = Vec::new();
    Datum::from(-2).hash(&mut s);
    assert_eq!(s, vec![2, 0xfe, 0xff, 0xff, 0xff]);
}

#[test]
fn datum_collections() {
    let mut d = Datum::from([5]);
    assert_eq!(d.get_type(), TypeData::CollectionOfInt);
    d.extend_from(vec![1, 3]);
    assert_eq!(d.len(), 3);
    assert_eq!(d.sum(), 9);
    d.sort();
    let mut s = Vec::new();
    d.hash(&mut s);
    assert_eq!(s, vec![3, 1, 0, 0, 0, 3, 0, 0, 0, 5, 0, 0, 0]);
    d.append_int(-4);
    assert_eq!(d.sum(), 5);
    let again = Datum::from(d.get_int_vec());
    assert_eq!(again.len(), 4);
    let mut bools = Datum::from([true]);
    bools.sort();
    assert_eq!(bools.get_type(), TypeData::CollectionOfBool);
    assert_eq!(bools.len(), 1);
    let mut s = Vec::new();
    bools.hash(&mut s);
    assert_eq!(s, vec![4, 1]);
    let back = Datum::from(bools.get_bool_vec());
    assert_eq!(back.len(), 1);
}

#[test]
fn evaluation_stack_frames() {
    let mut st = Stack::new();
    assert_eq!(st.get_current_frame(), None);
    let f = Identifier::new_global("f");
    let g = Identifier::new_global("g");
    st.push_frame(f);
    st.push_frame(g);
    assert_eq!(st.get_current_frame(), Some(g));
    st.pop_frame();
    assert_eq!(st.get_current_frame(), Some(f));
    st.pop_frame();
    st.pop_frame();
    assert_eq!(st.get_current_frame(), None);
}

#[test]
fn data_elements() {
    let mut e = DataElement::CollofInt(vec![3, 1, 2]);
    e.sort_internal();
    assert_eq!(e.get_int_slice(), &[1, 2, 3]);
    e.push_int(0);
    assert_eq!(e.get_int_slice(), &[1, 2, 3, 0]);
    assert_eq!(e.get_type(), TypeData::CollectionOfInt);
    let mut b = DataElement::CollofBool(vec![true]);
    b.push_bool(false);
    b.sort_internal();
    assert_eq!(b.get_bool_slice(), &[false, true]);
    assert_eq!(DataElement::Int(4).get_int(), 4);
    assert!(DataElement::Bool(true).get_bool());
    let mut x = DataElement::Int(9);
    x.sort_internal();
    assert_eq!(x, DataElement::Int(9));
}

#[test]
fn global_scope_gathers_names() {
    let items = vec![
        Structures::new_const("A".to_string(), TypeData::Int, num(1)),
        function("f"),
        Structures::new_analysis(var("A")),
    ];
    let mut g = GlobalScope::new();
    assert_eq!(g.gather_function_data(&items), Ok(()));
    assert_eq!(g.gather_constant_type_data(&items), Ok(()));
    assert_eq!(GlobalScope::multiple_analyze(&items), Ok(()));

    let clash = vec![function("A")];
    assert_eq!(
        g.gather_function_data(&clash),
        Err("function & constant are both named 'A' this is illegal".to_string())
    );
    let again = vec![function("f")];
    assert_eq!(g.gather_function_data(&again), Err("multiple functions with name 'f' encountered".to_string()));
    let twice = vec![Structures::new_const("A".to_string(), TypeData::Bool, num(2))];
    assert_eq!(
        g.gather_constant_type_data(&twice),
        Err("multiple constants with name 'A' encountered".to_string())
    );
    let named_f = vec![Structures::new_const("f".to_string(), TypeData::Int, num(2))];
    assert_eq!(
        g.gather_constant_type_data(&named_f),
        Err("function & constant are both named 'f' this is illegal".to_string())
    );
    let two = vec![Structures::new_analysis(num(1)), Structures::new_analysis(num(2))];
    assert_eq!(
        GlobalScope::multiple_analyze(&two),
        Err("There are only be 1 analyze statement per input".to_string())
    );
}

#[test]
fn block_expressions_hash_by_content() {
    let a = BlockExpression::Var("a".to_string(), TypeData::Int);
    let a2 = BlockExpression::Var("a".to_string(), TypeData::Int);
    let b = BlockExpression::Var("b".to_string(), TypeData::Int);
    let c = BlockExpression::ExternalConstant("a".to_string(), TypeData::Int);
    assert_eq!(a.get_hash(), a2.get_hash());
    assert_ne!(a.get_hash(), b.get_hash());
    assert_ne!(a.get_hash(), c.get_hash());
    let f = BlockExpression::Func("sum".to_string(), vec![a, b], TypeData::Int);
    let g = BlockExpression::Func("sum".to_string(), vec![a2], TypeData::Int);
    assert_ne!(f.get_hash(), g.get_hash());
}
