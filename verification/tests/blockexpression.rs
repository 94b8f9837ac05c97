use dice_backend::namespace::BlockExpression;
use dice_backend::parser_output::{GetType, Literal, Operation, TypeData};

#[test]
fn test_type_assertions() {
    assert!(BlockExpression::FunctionArg("foo".to_string(), TypeData::Int).get_type().unwrap() == TypeData::Int);
    assert!(BlockExpression::FunctionArg("foo".to_string(), TypeData::Bool).get_type().unwrap() == TypeData::Bool);
    assert!(
        BlockExpression::FunctionArg("foo".to_string(), TypeData::CollectionOfInt).get_type().unwrap()
            == TypeData::CollectionOfInt
    );
    assert!(
        BlockExpression::FunctionArg("foo".to_string(), TypeData::CollectionOfBool).get_type().unwrap()
            == TypeData::CollectionOfBool
    );

    assert!(BlockExpression::ExternalConstant("foo".to_string(), TypeData::Int).get_type().unwrap() == TypeData::Int);
    assert!(BlockExpression::ExternalConstant("foo".to_string(), TypeData::Bool).get_type().unwrap() == TypeData::Bool);
    assert!(
        BlockExpression::ExternalConstant("foo".to_string(), TypeData::CollectionOfInt).get_type().unwrap()
            == TypeData::CollectionOfInt
    );
    assert!(
        BlockExpression::ExternalConstant("foo".to_string(), TypeData::CollectionOfBool).get_type().unwrap()
            == TypeData::CollectionOfBool
    );

    // we only check the `TypeData` field. Creating these types outside of this is relatively illegal otherwise
    assert!(BlockExpression::ConstantValue(Literal::Number(20), TypeData::Int).get_type().unwrap() == TypeData::Int);
    assert!(BlockExpression::ConstantValue(Literal::Number(20), TypeData::Bool).get_type().unwrap() == TypeData::Bool);
    assert!(
        BlockExpression::ConstantValue(Literal::Number(20), TypeData::CollectionOfInt).get_type().unwrap()
            == TypeData::CollectionOfInt
    );
    assert!(
        BlockExpression::ConstantValue(Literal::Number(20), TypeData::CollectionOfBool).get_type().unwrap()
            == TypeData::CollectionOfBool
    );

    assert!(BlockExpression::Var("foo".to_string(), TypeData::Int).get_type().unwrap() == TypeData::Int);
    assert!(BlockExpression::Var("foo".to_string(), TypeData::Bool).get_type().unwrap() == TypeData::Bool);
    assert!(
        BlockExpression::Var("foo".to_string(), TypeData::CollectionOfInt).get_type().unwrap()
            == TypeData::CollectionOfInt
    );
    assert!(
        BlockExpression::Var("foo".to_string(), TypeData::CollectionOfBool).get_type().unwrap()
            == TypeData::CollectionOfBool
    );

    assert!(BlockExpression::Func("foo".to_string(), Vec::new(), TypeData::Int).get_type().unwrap() == TypeData::Int);
    assert!(BlockExpression::Func("foo".to_string(), Vec::new(), TypeData::Bool).get_type().unwrap() == TypeData::Bool);
    assert!(
        BlockExpression::Func("foo".to_string(), Vec::new(), TypeData::CollectionOfInt).get_type().unwrap()
            == TypeData::CollectionOfInt
    );
    assert!(
        BlockExpression::Func("foo".to_string(), Vec::new(), TypeData::CollectionOfBool).get_type().unwrap()
            == TypeData::CollectionOfBool
    );

    // canned block expressions, actual type safe testing is done elswhere
    let expr = Box::new(BlockExpression::ConstantValue(Literal::Number(6), TypeData::Int));
    let op = Operation::Add;
    let copy = || Box::new(expr.duplicate());
    assert!(BlockExpression::Op(copy(), op, copy(), TypeData::Int).get_type().unwrap() == TypeData::Int);
    assert!(BlockExpression::Op(copy(), op, copy(), TypeData::Bool).get_type().unwrap() == TypeData::Bool);
    assert!(
        BlockExpression::Op(copy(), op, copy(), TypeData::CollectionOfInt).get_type().unwrap()
            == TypeData::CollectionOfInt
    );
    assert!(
        BlockExpression::Op(copy(), op, copy(), TypeData::CollectionOfBool).get_type().unwrap()
            == TypeData::CollectionOfBool
    );
}
