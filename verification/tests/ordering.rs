use dice_backend::cfgbuilder::ExpressionCollection;
use dice_backend::inliner::InlinedCollection;
use dice_backend::namespace::Namespace;
use dice_backend::ordering::coll::{Graph, OrderedCollection, OrderingCollection};
use dice_backend::ordering::expr::{ConstantValue, Op, OrderedExpression, StdLibraryFunc};
use dice_backend::ordering::graphs::{AddSink, Inserter, Modifications, Operation as GraphOp, RemoveSink, Remover, SwapSource};
use dice_backend::ordering::holes::{and_inline, brute_force_optimize, len_dice};
use dice_backend::ordering::matcher::{Match, MatchTrait};
use dice_backend::ordering::ord::{search_for_index, OrdTrait, OrdType};
use dice_backend::parser_output::{AbstractSyntaxTree, Expression, Literal, Structures, TypeData};

fn ordered_of(analysis: Expression) -> OrderedCollection {
    let ast = AbstractSyntaxTree::new(vec![(Structures::new_analysis(analysis), String::new())]);
    let ns = Namespace::new(&ast).unwrap();
    let coll = ExpressionCollection::new(&ns);
    let inlined = InlinedCollection::new(&coll, &Vec::new()).unwrap();
    OrderedCollection::new(&inlined).unwrap()
}

fn constant(id: u64, value: i32) -> OrderedExpression {
    OrderedExpression::Constant(ConstantValue::Int(value, OrdType::new(Match::new(id, TypeData::Int), vec![])))
}

#[test]
fn ord_type_tracks_sinks_and_sources() {
    let a = Match::new(1, TypeData::Int);
    let b = Match::new(2, TypeData::Int);
    let c = Match::new(3, TypeData::Bool);
    let mut o = OrdType::new(Match::new(7, TypeData::Int), vec![a, b]);
    assert_eq!(o.id_of(), 7);
    assert_eq!(o.get_kind(), TypeData::Int);
    assert!(o.has_sources());
    assert!(!o.has_sinks());
    assert!(o.source_exists(&a));
    assert!(!o.sink_exists(&c));
    o.add_sink(&c);
    o.add_sink(&c);
    assert_eq!(o.get_sinks(), &[c]);
    assert!(o.has_sinks());
    o.cas_source(&a, &c);
    assert_eq!(o.get_sources(), &[c, b]);
    o.remove_sink(&c);
    assert!(!o.has_sinks());
    o.remove_sink(&c);
    assert!(!o.has_sinks());
    assert_eq!(search_for_index(&[a, b, c], &b), Some(1));
    assert_eq!(search_for_index(&[a, b], &c), None);
    let d = o.duplicate();
    assert_eq!(d.get_sources(), o.get_sources());
    assert_eq!(Match::default(), Match::new(0, TypeData::Bool));
}

#[test]
fn ordering_collection_hands_out_free_identifiers() {
    let mut coll = OrderingCollection::new();
    assert_eq!(coll.next_free_id(), 0);
    coll.insert(constant(0, 5));
    coll.insert(constant(2, 6));
    assert!(coll.contains(&0));
    assert!(!coll.contains(&1));
    assert_eq!(coll.next_free_id(), 1);
    coll.set_expr_sink(&0, 2, TypeData::Int);
    assert_eq!(coll.get_expr(&0).unwrap().get_sinks(), &[Match::new(2, TypeData::Int)]);
}

#[test]
fn ordered_program_reads_its_result() {
    // analyze sum(roll_d6(3));
    let sum = Expression::new_function(
        "sum".to_string(),
        vec![],
        Some(Expression::new_function("roll_d6".to_string(), vec![], Some(Expression::new_literal(Literal::Number(3))))),
    );
    let coll = ordered_of(sum);
    let fin = coll.get_return();
    let fin_node = coll.get_expr(fin).unwrap();
    assert_eq!(fin_node.get_sources().len(), 1);
    assert!(fin_node.has_sources());
    assert!(!fin_node.has_sinks());
    let result = fin_node.get_sources()[0];
    match coll.get_expr(result.id).unwrap() {
        OrderedExpression::StdLib(StdLibraryFunc::Sum(o)) => {
            // the final node reads the result without being recorded as its sink
            assert!(o.get_sinks().is_empty());
            assert_eq!(o.get_sources().len(), 1);
        }
        other => panic!("{:?}", other),
    }
    let free = coll.next_free_id(&vec![fin]);
    assert!(free != fin && coll.get_expr(free).is_none());
}

#[test]
fn graph_rewrites_apply_in_order() {
    let mut coll = ordered_of(Expression::new_literal(Literal::Number(1)));
    let n = coll.len();
    let a = Match::new(1000, TypeData::Int);
    let b = Match::new(1001, TypeData::Int);
    let mut mods = Modifications::new();
    mods.push(GraphOp::Insert(Inserter::new(constant(1000, 3))));
    mods.push(GraphOp::Insert(Inserter::new(constant(1001, 4))));
    mods.push(GraphOp::AddSink(AddSink::new(a, b)));
    assert_eq!(mods.len(), 3);
    assert!(mods.apply(&mut coll));
    assert_eq!(coll.len(), n + 2);
    assert_eq!(coll.get_expr(1000).unwrap().get_sinks(), &[b]);
    let mut undo = Modifications::new();
    undo.push(GraphOp::RemoveSink(RemoveSink::new(a, b)));
    undo.push(GraphOp::Remove(Remover::new(b)));
    assert!(undo.apply(&mut coll));
    assert_eq!(coll.len(), n + 1);
    assert!(!coll.get_expr(1000).unwrap().has_sinks());
    // a rewrite of a node that is not there does not apply
    let mut bad = Modifications::new();
    bad.push(GraphOp::Remove(Remover::new(Match::new(5000, TypeData::Int))));
    assert!(!bad.apply(&mut coll));
}

#[test]
fn len_of_dice_reduces_to_their_count() {
    let mut coll = ordered_of(Expression::new_literal(Literal::Number(1)));
    let count = Match::new(100, TypeData::Int);
    let roll = Match::new(101, TypeData::CollectionOfInt);
    let len = Match::new(102, TypeData::Int);
    coll.insert(constant(100, 3));
    coll.insert(OrderedExpression::StdLib(StdLibraryFunc::D6(OrdType::new(roll, vec![count]))));
    coll.insert(OrderedExpression::StdLib(StdLibraryFunc::Len(OrdType::new(len, vec![roll]))));
    coll.add_sink(&count, &roll);
    coll.add_sink(&roll, &len);
    let mods = len_dice(102, &coll).unwrap();
    assert_eq!(mods.len(), 4);
    assert!(len_dice(101, &coll).is_none());
    assert!(len_dice(100, &coll).is_none());
    assert!(len_dice(9999, &coll).is_none());
}

#[test]
fn and_of_constants_folds() {
    let mut coll = ordered_of(Expression::new_literal(Literal::Number(1)));
    let x = Match::new(200, TypeData::Int);
    let y = Match::new(201, TypeData::Int);
    let and = Match::new(202, TypeData::Int);
    coll.insert(constant(200, 6));
    coll.insert(constant(201, 3));
    coll.insert(OrderedExpression::Op(Op::And(OrdType::new(and, vec![x, y]))));
    coll.add_sink(&x, &and);
    coll.add_sink(&y, &and);
    let mods = and_inline(202, &coll);
    assert!(mods.is_some());
    assert!(mods.unwrap().len() > 0);
    assert!(and_inline(200, &coll).is_none());
}

#[test]
fn optimizing_a_program_without_holes_keeps_it() {
    let mut coll = ordered_of(Expression::new_literal(Literal::Number(1)));
    let before = coll.keys();
    assert!(brute_force_optimize(&mut coll));
    assert_eq!(coll.keys(), before);
}

#[test]
fn ordered_expression_ord_mut_changes_the_data_only() {
    let mut e = OrderedExpression::Op(Op::Add(OrdType::new(Match::new(9, TypeData::Int), vec![])));
    e.ord_mut().add_sink(&Match::new(10, TypeData::Int));
    assert_eq!(e.get_sinks(), &[Match::new(10, TypeData::Int)]);
    match &e {
        OrderedExpression::Op(Op::Add(_)) => {}
        other => panic!("{:?}", other),
    }
    assert_eq!(e.get_id(), 9);
    assert_eq!(e.get_kind(), TypeData::Int);
}

#[test]
fn optimizing_removes_the_length_of_dice() {
    let mut coll = ordered_of(Expression::new_literal(Literal::Number(1)));
    let count = Match::new(100, TypeData::Int);
    let roll = Match::new(101, TypeData::CollectionOfInt);
    let len = Match::new(102, TypeData::Int);
    coll.insert(constant(100, 3));
    coll.insert(OrderedExpression::StdLib(StdLibraryFunc::D6(OrdType::new(roll, vec![count]))));
    coll.insert(OrderedExpression::StdLib(StdLibraryFunc::Len(OrdType::new(len, vec![roll]))));
    coll.add_sink(&count, &roll);
    coll.add_sink(&roll, &len);
    let before = coll.len();
    let done = brute_force_optimize(&mut coll);
    assert!(done);
    assert!(coll.get_expr(102).is_none());
    assert!(coll.get_expr(101).is_none());
    assert!(coll.get_expr(100).is_some());
    assert_eq!(coll.len(), before - 2);
}

#[test]
fn building_a_node_keeps_the_table_and_records_its_edges() {
    // analyze sum(roll_d6(3));
    let sum = Expression::new_function(
        "sum".to_string(),
        vec![],
        Some(Expression::new_function("roll_d6".to_string(), vec![], Some(Expression::new_literal(Literal::Number(3))))),
    );
    let ast = AbstractSyntaxTree::new(vec![(Structures::new_analysis(sum), String::new())]);
    let ns = Namespace::new(&ast).unwrap();
    let inlined = InlinedCollection::new(&ExpressionCollection::new(&ns), &Vec::new()).unwrap();
    let ret = inlined.get_return().unwrap();
    let root = inlined.get_expr(&ret).unwrap();
    let mut table = OrderingCollection::new();
    table.insert(constant(5, 9));
    assert!(OrderedExpression::new(root, &inlined, &mut table));
    assert!(table.contains(&5));
    assert!(table.get_expr(&5).unwrap().get_sinks().is_empty());
    let sum_node = table.get_expr(&ret).unwrap();
    assert_eq!(sum_node.get_sources().len(), 1);
    let dice = sum_node.get_sources()[0];
    assert_eq!(dice.kind, TypeData::CollectionOfInt);
    let dice_node = table.get_expr(&dice.id).unwrap();
    assert_eq!(dice_node.get_kind(), dice.kind);
    assert_eq!(dice_node.get_sinks(), &[Match::new(ret, TypeData::CollectionOfInt)]);
    let count = dice_node.get_sources()[0];
    assert_eq!(table.get_expr(&count.id).unwrap().get_kind(), count.kind);
    assert_eq!(table.get_expr(&count.id).unwrap().get_sinks(), &[Match::new(dice.id, TypeData::Int)]);
    // building it again changes nothing
    assert!(OrderedExpression::new(root, &inlined, &mut table));
    assert_eq!(table.get_expr(&dice.id).unwrap().get_sinks().len(), 1);
}

#[test]
fn optimizing_the_length_of_dice_read_by_the_result_makes_it_read_the_count() {
    let mut coll = ordered_of(Expression::new_literal(Literal::Number(1)));
    let fin = coll.get_return();
    assert_eq!(fin, 0);
    let count = Match::new(100, TypeData::Int);
    let roll = Match::new(101, TypeData::CollectionOfInt);
    let len = Match::new(102, TypeData::Int);
    coll.insert(constant(100, 3));
    coll.insert(OrderedExpression::StdLib(StdLibraryFunc::D6(OrdType::new(roll, vec![count]))));
    coll.insert(OrderedExpression::StdLib(StdLibraryFunc::Len(OrdType::new(len, vec![roll]))));
    coll.add_sink(&count, &roll);
    coll.add_sink(&roll, &len);
    let result = coll.get_expr(fin).unwrap().get_sources()[0];
    let mut redirect = Modifications::new();
    redirect.push(GraphOp::SwapSource(SwapSource::new(Match::new(fin, TypeData::Int), result, len)));
    assert!(redirect.apply(&mut coll));
    assert_eq!(coll.get_expr(fin).unwrap().get_sources(), &[len]);
    assert!(brute_force_optimize(&mut coll));
    assert!(coll.get_expr(102).is_none());
    assert!(coll.get_expr(101).is_none());
    assert_eq!(coll.get_expr(fin).unwrap().get_sources(), &[count]);
}
