//! Properties of name resolution and type checking that hold of every
//! program.
use vstd::prelude::*;

use crate::parser_output::{ConstantView, FunctionView, StructuresView, TypeData};

use super::block::{
    args_fold, const_step, consts_fold, convert, convert_args, empty_model, find_var, spec_from_func,
    spec_from_root, stmt_step, stmts_fold, var_names, BlockModel,
};
use super::blockexpression::{block_type, op_type, BlockView};
use super::namespace::NamespaceView;
use super::namespace::{
    const_names, declare, declare_all, declare_analysis, declare_const, declare_func, find_const, find_func,
    func_names, index_of, lemma_index_of, lemma_index_of_at, spec_namespace, std_declarations, std_functions,
    Declarations,
};

verus! {

/// A block expression is well typed when every operation has the type the
/// typing rules give its operands, all the way down.
pub open spec fn well_typed(b: BlockView) -> bool
    decreases b,
{
    match b {
        BlockView::Op(l, op, r, t) => op_type(op, block_type(*l), block_type(*r)) == Some(t)
            && well_typed(*l) && well_typed(*r),
        BlockView::Func(_, args, _) => all_well_typed(args),
        _ => true,
    }
}

/// Every expression of the sequence is well typed.
pub open spec fn all_well_typed(s: Seq<BlockView>) -> bool
    decreases s,
{
    if s.len() == 0 {
        true
    } else {
        well_typed(s[0]) && all_well_typed(s.drop_first())
    }
}

/// `all_well_typed` holds exactly when each element is well typed.
pub proof fn lemma_all_well_typed(s: Seq<BlockView>)
    ensures
        all_well_typed(s) <==> forall|i: int| 0 <= i < s.len() ==> #[trigger] well_typed(s[i]),
    decreases s.len(),
{
    if s.len() > 0 {
        lemma_all_well_typed(s.drop_first());
        if forall|i: int| 0 <= i < s.len() ==> #[trigger] well_typed(s[i]) {
            assert forall|i: int| 0 <= i < s.drop_first().len() implies #[trigger] well_typed(s.drop_first()[i]) by {
                assert(s.drop_first()[i] == s[i + 1]);
            }
            assert(well_typed(s[0]));
            assert(all_well_typed(s.drop_first()));
            assert(all_well_typed(s));
        }
        if all_well_typed(s) {
            assert forall|i: int| 0 <= i < s.len() implies #[trigger] well_typed(s[i]) by {
                if i > 0 {
                    assert(s.drop_first()[i - 1] == s[i]);
                }
            }
        }
    }
}

/// Lowering only produces well typed expressions, whose invocations give
/// each parameter an argument of its declared type.
pub proof fn lemma_convert_well_typed(
    cs: Seq<ConstantView>,
    fs: Seq<FunctionView>,
    vars: Seq<(Seq<char>, BlockView)>,
    e: crate::parser_output::ExprView,
)
    requires
        convert(cs, fs, vars, e) is Ok,
    ensures
        well_typed(convert(cs, fs, vars, e)->Ok_0),
    decreases e,
{
    match e {
        crate::parser_output::ExprView::Func(name, args) => {
            let d = find_func(fs, name)->Some_0;
            lemma_convert_args_well_typed(cs, fs, vars, args, d.args, Seq::empty(), e, d.name);
            let bs = convert_args(cs, fs, vars, args, d.args, Seq::empty(), e, d.name)->Ok_0;
            assert(convert(cs, fs, vars, e)->Ok_0 == BlockView::Func(name, bs, d.ret));
            assert(forall|i: int| 0 <= i < bs.len() ==> #[trigger] well_typed(bs[i]));
            lemma_all_well_typed(bs);
        },
        crate::parser_output::ExprView::Operation(l, op, r) => {
            lemma_convert_well_typed(cs, fs, vars, *l);
            lemma_convert_well_typed(cs, fs, vars, *r);
        },
        _ => {},
    }
}

/// Lowered arguments are well typed, one per argument, each of the type
/// its parameter declares.
pub proof fn lemma_convert_args_well_typed(
    cs: Seq<ConstantView>,
    fs: Seq<FunctionView>,
    vars: Seq<(Seq<char>, BlockView)>,
    args: Seq<crate::parser_output::ExprView>,
    decl: Seq<(Seq<char>, TypeData)>,
    done: Seq<BlockView>,
    call: crate::parser_output::ExprView,
    fname: Seq<char>,
)
    requires
        convert_args(cs, fs, vars, args, decl, done, call, fname) is Ok,
        forall|i: int| 0 <= i < done.len() ==> #[trigger] well_typed(done[i]),
    ensures
        ({
            let bs = convert_args(cs, fs, vars, args, decl, done, call, fname)->Ok_0;
            &&& decl.len() >= args.len()
            &&& bs.len() == done.len() + args.len()
            &&& bs.subrange(0, done.len() as int) == done
            &&& forall|i: int| 0 <= i < bs.len() ==> #[trigger] well_typed(bs[i])
            &&& forall|i: int| 0 <= i < args.len() ==> block_type(#[trigger] bs[done.len() + i]) == decl[i].1
        }),
    decreases args,
{
    if args.len() > 0 {
        let b = convert(cs, fs, vars, args[0])->Ok_0;
        lemma_convert_well_typed(cs, fs, vars, args[0]);
        let d2 = done.push(b);
        assert forall|i: int| 0 <= i < d2.len() implies #[trigger] well_typed(d2[i]) by {
            if i < done.len() {
                assert(d2[i] == done[i]);
            }
        }
        lemma_convert_args_well_typed(cs, fs, vars, args.drop_first(), decl.drop_first(), d2, call, fname);
        let bs = convert_args(cs, fs, vars, args, decl, done, call, fname)->Ok_0;
        assert(bs.subrange(0, done.len() as int) =~= bs.subrange(0, d2.len() as int).subrange(0, done.len() as int));
        assert(bs.subrange(0, done.len() as int) =~= done);
        assert forall|i: int| 0 <= i < args.len() implies block_type(#[trigger] bs[done.len() + i]) == decl[i].1 by {
            if i == 0 {
                assert(bs[done.len() as int] == bs.subrange(0, d2.len() as int)[done.len() as int]);
            } else {
                assert(args.drop_first().len() == args.len() - 1);
                let j = i - 1;
                assert(bs[d2.len() + j] == bs[done.len() + i]);
                assert(decl.drop_first()[j] == decl[i]);
            }
        }
    } else {
        assert(convert_args(cs, fs, vars, args, decl, done, call, fname)->Ok_0 == done);
        assert(done.subrange(0, done.len() as int) =~= done);
    }
}

/// The root block binds every constant, in declaration order, to a well
/// typed expression of the constant's declared type, and returns the
/// analysis.
pub proof fn lemma_root_binds_constants(cs: Seq<ConstantView>, fs: Seq<FunctionView>, analysis: Option<crate::parser_output::ExprView>)
    requires
        spec_from_root(cs, fs, analysis) is Ok,
    ensures
        ({
            let m = spec_from_root(cs, fs, analysis)->Ok_0;
            &&& m.vars.len() == cs.len()
            &&& forall|i: int| 0 <= i < cs.len() ==> (#[trigger] m.vars[i]).0 == cs[i].name
                && block_type(m.vars[i].1) == cs[i].kind && well_typed(m.vars[i].1)
            &&& analysis is Some
            &&& m.ret is Some && well_typed(m.ret->Some_0)
        }),
{
    lemma_consts_fold(cs, fs, cs, empty_model());
    let m0 = consts_fold(cs, fs, cs, empty_model())->Ok_0;
    lemma_convert_well_typed(cs, fs, m0.vars, analysis->Some_0);
    let m = spec_from_root(cs, fs, analysis)->Ok_0;
    assert(m.vars == m0.vars);
    assert forall|i: int| 0 <= i < cs.len() implies (#[trigger] m.vars[i]).0 == cs[i].name
        && block_type(m.vars[i].1) == cs[i].kind && well_typed(m.vars[i].1) by {
        assert(m0.vars[0 + i] == m.vars[i]);
    }
}

/// Folding constants appends one binding per constant, of its declared
/// type, to the bindings already made.
pub proof fn lemma_consts_fold(cs: Seq<ConstantView>, fs: Seq<FunctionView>, todo: Seq<ConstantView>, m: BlockModel)
    requires
        consts_fold(cs, fs, todo, m) is Ok,
    ensures
        ({
            let r = consts_fold(cs, fs, todo, m)->Ok_0;
            &&& r.vars.len() == m.vars.len() + todo.len()
            &&& r.vars.subrange(0, m.vars.len() as int) == m.vars
            &&& r.ret == m.ret
            &&& forall|i: int| 0 <= i < todo.len() ==> (#[trigger] r.vars[m.vars.len() + i]).0 == todo[i].name
                && block_type(r.vars[m.vars.len() + i].1) == todo[i].kind
                && well_typed(r.vars[m.vars.len() + i].1)
        }),
    decreases todo.len(),
{
    if todo.len() > 0 {
        let m2 = const_step(cs, fs, m, todo[0])->Ok_0;
        lemma_convert_well_typed(cs, fs, m.vars, todo[0].expr);
        lemma_consts_fold(cs, fs, todo.drop_first(), m2);
        let r = consts_fold(cs, fs, todo, m)->Ok_0;
        assert(r.vars.subrange(0, m.vars.len() as int) =~= r.vars.subrange(0, m2.vars.len() as int).subrange(0, m.vars.len() as int));
        assert(m2.vars.subrange(0, m.vars.len() as int) =~= m.vars);
        assert forall|i: int| 0 <= i < todo.len() implies (#[trigger] r.vars[m.vars.len() + i]).0 == todo[i].name
            && block_type(r.vars[m.vars.len() + i].1) == todo[i].kind
            && well_typed(r.vars[m.vars.len() + i].1) by {
            if i == 0 {
                assert(r.vars[m.vars.len() as int] == r.vars.subrange(0, m2.vars.len() as int)[m.vars.len() as int]);
            } else {
                assert(todo.drop_first()[i - 1] == todo[i]);
                assert(r.vars[m2.vars.len() + (i - 1)] == r.vars[m.vars.len() + i]);
            }
        }
    } else {
        assert(consts_fold(cs, fs, todo, m)->Ok_0.vars.subrange(0, m.vars.len() as int) =~= m.vars);
    }
}

/// No name occurs twice.
pub open spec fn distinct_names(s: Seq<Seq<char>>) -> bool {
    forall|i: int, j: int| 0 <= i < j < s.len() ==> s[i] != s[j]
}

/// The names declared: the constants', then the functions'.
pub open spec fn declared_names(d: Declarations) -> Seq<Seq<char>> {
    const_names(d.consts) + func_names(d.funcs)
}

/// A name that `index_of` does not find does not occur.
proof fn lemma_not_found(names: Seq<Seq<char>>, name: Seq<char>)
    requires
        index_of(names, name) >= names.len(),
    ensures
        forall|j: int| 0 <= j < names.len() ==> names[j] != name,
{
    lemma_index_of(names, name);
}

/// The functions of the standard library have distinct names.
proof fn lemma_std_distinct()
    ensures
        distinct_names(func_names(std_functions())),
{
    reveal_strlit("roll_d6");
    reveal_strlit("roll_d3");
    reveal_strlit("reroll");
    reveal_strlit("roll");
    reveal_strlit("filter");
    reveal_strlit("count");
    reveal_strlit("sum");
    let names = func_names(std_functions());
    assert(names[0] == "roll_d6"@);
    assert(names[1] == "roll_d3"@);
    assert(names[2] == "reroll"@);
    assert(names[3] == "roll"@);
    assert(names[4] == "filter"@);
    assert(names[5] == "count"@);
    assert(names[6] == "sum"@);
    assert("roll_d6"@[6] != "roll_d3"@[6]);
    assert("reroll"@[0] != "filter"@[0]);
    assert forall|i: int, j: int| 0 <= i < j < names.len() implies names[i] != names[j] by {
        if i == 0 && j == 1 {
            assert(names[i][6] != names[j][6]);
        } else if i == 2 && j == 4 {
            assert(names[i][0] != names[j][0]);
        } else {
            assert(names[i].len() != names[j].len());
        }
    }
}

/// One declaration keeps the names distinct and the functions declared
/// before it.
proof fn lemma_declare_distinct(d: Declarations, item: StructuresView)
    requires
        distinct_names(declared_names(d)),
        declare(d, item) is Ok,
    ensures
        distinct_names(declared_names(declare(d, item)->Ok_0)),
        declare(d, item)->Ok_0.funcs.len() >= d.funcs.len(),
        declare(d, item)->Ok_0.funcs.take(d.funcs.len() as int) == d.funcs,
{
    let d2 = declare(d, item)->Ok_0;
    match item {
        StructuresView::Constant(c) => {
            lemma_not_found(func_names(d.funcs), c.name);
            lemma_not_found(const_names(d.consts), c.name);
            let n = declared_names(d);
            let n2 = declared_names(d2);
            let k = d.consts.len() as int;
            assert forall|i: int, j: int| 0 <= i < j < n2.len() implies n2[i] != n2[j] by {
                if i == k {
                    assert(n2[j] == func_names(d.funcs)[j - k - 1]);
                } else if j == k {
                    assert(n2[i] == const_names(d.consts)[i]);
                } else {
                    let ii = if i < k { i } else { i - 1 };
                    let jj = if j < k { j } else { j - 1 };
                    assert(n2[i] == n[ii]);
                    assert(n2[j] == n[jj]);
                }
            }
        },
        StructuresView::Func(f) => {
            lemma_not_found(func_names(d.funcs), f.name);
            lemma_not_found(const_names(d.consts), f.name);
            let n = declared_names(d);
            let n2 = declared_names(d2);
            assert(n2 =~= n.push(f.name));
            assert forall|i: int, j: int| 0 <= i < j < n2.len() implies n2[i] != n2[j] by {
                if j == n.len() {
                    if i < d.consts.len() {
                        assert(n[i] == const_names(d.consts)[i]);
                    } else {
                        assert(n[i] == func_names(d.funcs)[i - d.consts.len()]);
                    }
                }
            }
            assert(d2.funcs.take(d.funcs.len() as int) =~= d.funcs);
        },
        StructuresView::Analyze(e) => {
            assert(d2.funcs.take(d.funcs.len() as int) =~= d.funcs);
            assert(declared_names(d2) == declared_names(d));
        },
    }
    assert(d2.funcs.take(d.funcs.len() as int) =~= d.funcs);
}

/// Declaring the structures keeps the names distinct and the functions
/// declared before them.
proof fn lemma_declare_all_distinct(d: Declarations, items: Seq<StructuresView>)
    requires
        distinct_names(declared_names(d)),
        declare_all(d, items) is Ok,
    ensures
        distinct_names(declared_names(declare_all(d, items)->Ok_0)),
        declare_all(d, items)->Ok_0.funcs.len() >= d.funcs.len(),
        declare_all(d, items)->Ok_0.funcs.take(d.funcs.len() as int) == d.funcs,
    decreases items.len(),
{
    if items.len() == 0 {
        assert(d.funcs.take(d.funcs.len() as int) =~= d.funcs);
    } else {
        lemma_declare_distinct(d, items[0]);
        let d2 = declare(d, items[0])->Ok_0;
        lemma_declare_all_distinct(d2, items.drop_first());
        let r = declare_all(d, items)->Ok_0;
        assert(r.funcs.take(d.funcs.len() as int) =~= r.funcs.take(d2.funcs.len() as int).take(d.funcs.len() as int));
    }
}

/// A namespace is well formed: it declares the standard library first,
/// and no name twice, whether as a constant or as a function.
pub open spec fn wf_namespace(v: NamespaceView) -> bool {
    &&& v.functions.len() >= std_functions().len()
    &&& v.functions.take(std_functions().len() as int) == std_functions()
    &&& distinct_names(const_names(v.constants) + func_names(v.functions))
}

/// Every namespace declares the standard library first, each of its
/// functions found under its name; and no name is declared twice, whether
/// as a constant or as a function.
pub proof fn lemma_namespace_declarations(items: Seq<StructuresView>)
    requires
        spec_namespace(items) is Ok,
    ensures
        wf_namespace(spec_namespace(items)->Ok_0),
        ({
            let v = spec_namespace(items)->Ok_0;
            &&& v.functions.take(std_functions().len() as int) == std_functions()
            &&& distinct_names(const_names(v.constants) + func_names(v.functions))
            &&& forall|i: int|
                0 <= i < std_functions().len() ==> find_func(v.functions, #[trigger] std_functions()[i].name)
                    == Some(std_functions()[i])
        }),
{
    lemma_std_distinct();
    let d0 = std_declarations();
    assert(declared_names(d0) =~= func_names(std_functions()));
    lemma_declare_all_distinct(d0, items);
    let d = declare_all(d0, items)->Ok_0;
    let v = spec_namespace(items)->Ok_0;
    assert(v.functions == d.funcs);
    assert(v.constants == d.consts);
    let names = func_names(d.funcs);
    assert(std_functions().len() == 7);
    assert forall|i: int| 0 <= i < std_functions().len() implies find_func(v.functions, #[trigger] std_functions()[i].name)
        == Some(std_functions()[i]) by {
        assert(d.funcs[i] == d.funcs.take(std_functions().len() as int)[i]);
        assert(names[i] == std_functions()[i].name);
        assert forall|j: int| 0 <= j < i implies names[j] != std_functions()[i].name by {
            let dn = declared_names(d);
            assert(dn[d.consts.len() + j] == names[j]);
            assert(dn[d.consts.len() + i] == names[i]);
        }
        lemma_index_of_at(names, std_functions()[i].name, i);
    }
}

/// Binding a name the block does not have yet keeps its names distinct.
proof fn lemma_push_fresh_var(vars: Seq<(Seq<char>, BlockView)>, name: Seq<char>, b: BlockView)
    requires
        distinct_names(var_names(vars)),
        find_var(vars, name) is None,
    ensures
        distinct_names(var_names(vars.push((name, b)))),
{
    let n = var_names(vars);
    let n2 = var_names(vars.push((name, b)));
    lemma_not_found(n, name);
    assert forall|i: int, j: int| 0 <= i < j < n2.len() implies n2[i] != n2[j] by {
        assert(n2[i] == n[i]);
        if j < n.len() {
            assert(n2[j] == n[j]);
        }
    }
}

/// Binding the arguments keeps the block's names distinct.
proof fn lemma_args_fold_distinct(
    cs: Seq<ConstantView>,
    fs: Seq<FunctionView>,
    fname: Seq<char>,
    args: Seq<(Seq<char>, TypeData)>,
    m: BlockModel,
)
    requires
        distinct_names(var_names(m.vars)),
        args_fold(cs, fs, fname, args, m) is Ok,
    ensures
        distinct_names(var_names(args_fold(cs, fs, fname, args, m)->Ok_0.vars)),
    decreases args.len(),
{
    if args.len() > 0 {
        lemma_push_fresh_var(m.vars, args[0].0, BlockView::FunctionArg(args[0].0, args[0].1));
        lemma_args_fold_distinct(
            cs,
            fs,
            fname,
            args.drop_first(),
            BlockModel {
                vars: m.vars.push((args[0].0, BlockView::FunctionArg(args[0].0, args[0].1))),
                ret: m.ret,
            },
        );
    }
}

/// Lowering the statements keeps the block's names distinct.
proof fn lemma_stmts_fold_distinct(
    cs: Seq<ConstantView>,
    fs: Seq<FunctionView>,
    fname: Seq<char>,
    ret: TypeData,
    stmts: Seq<crate::parser_output::StatementView>,
    m: BlockModel,
)
    requires
        distinct_names(var_names(m.vars)),
        stmts_fold(cs, fs, fname, ret, stmts, m) is Ok,
    ensures
        distinct_names(var_names(stmts_fold(cs, fs, fname, ret, stmts, m)->Ok_0.vars)),
    decreases stmts.len(),
{
    if stmts.len() > 0 {
        let m2 = stmt_step(cs, fs, fname, ret, m, stmts[0])->Ok_0;
        match stmts[0] {
            crate::parser_output::StatementView::Variable(name, kind, e) => {
                let b = convert(cs, fs, m.vars, e)->Ok_0;
                lemma_push_fresh_var(m.vars, name, b);
            },
            crate::parser_output::StatementView::Return(_) => {},
        }
        lemma_stmts_fold_distinct(cs, fs, fname, ret, stmts.drop_first(), m2);
    }
}

/// A function's block binds no name twice: its arguments and variables
/// each take a name that nothing else in scope has.
pub proof fn lemma_function_block_distinct(cs: Seq<ConstantView>, fs: Seq<FunctionView>, f: FunctionView)
    requires
        spec_from_func(cs, fs, f) is Ok,
    ensures
        distinct_names(var_names(spec_from_func(cs, fs, f)->Ok_0.vars)),
{
    assert(var_names(empty_model().vars) =~= Seq::<Seq<char>>::empty());
    lemma_args_fold_distinct(cs, fs, f.name, f.args, empty_model());
    let m = args_fold(cs, fs, f.name, f.args, empty_model())->Ok_0;
    lemma_stmts_fold_distinct(cs, fs, f.name, f.ret, f.body, m);
}

/// Whether a type is a collection.
pub open spec fn is_collection(t: TypeData) -> bool {
    t == TypeData::CollectionOfInt || t == TypeData::CollectionOfBool
}

/// The type of a value, or of the items of a collection.
pub open spec fn item_type(t: TypeData) -> TypeData {
    match t {
        TypeData::Int | TypeData::CollectionOfInt => TypeData::Int,
        TypeData::Bool | TypeData::CollectionOfBool => TypeData::Bool,
    }
}

/// Whether an operation compares integers.
pub open spec fn is_comparison(op: crate::parser_output::Operation) -> bool {
    ||| op == crate::parser_output::Operation::Equal
    ||| op == crate::parser_output::Operation::NotEqual
    ||| op == crate::parser_output::Operation::GreaterThan
    ||| op == crate::parser_output::Operation::LessThan
    ||| op == crate::parser_output::Operation::GreaterThanEqual
    ||| op == crate::parser_output::Operation::LessThanEqual
}

/// Comparisons take integers or collections of integers on either side and
/// lift over collections: the result is a boolean, or a collection of
/// booleans exactly when a side is a collection.
pub proof fn lemma_comparison_types(op: crate::parser_output::Operation, l: TypeData, r: TypeData)
    requires
        is_comparison(op),
    ensures
        op_type(op, l, r) is Some <==> item_type(l) == TypeData::Int && item_type(r) == TypeData::Int,
        op_type(op, l, r) matches Some(t) ==> item_type(t) == TypeData::Bool && (is_collection(t) <==> (is_collection(l)
            || is_collection(r))),
{
}

/// `&` and `|` take booleans or collections of booleans on either side and
/// lift over collections: the result is a boolean, or a collection of
/// booleans exactly when a side is a collection.
pub proof fn lemma_logic_types(op: crate::parser_output::Operation, l: TypeData, r: TypeData)
    requires
        op == crate::parser_output::Operation::And || op == crate::parser_output::Operation::Or,
    ensures
        op_type(op, l, r) is Some <==> item_type(l) == TypeData::Bool && item_type(r) == TypeData::Bool,
        op_type(op, l, r) matches Some(t) ==> item_type(t) == TypeData::Bool && (is_collection(t) <==> (is_collection(l)
            || is_collection(r))),
{
}

/// Arithmetic takes integers or collections of integers on either side and
/// gives integers: a collection of integers exactly when the right side is
/// a collection (a collection on the left with an integer on the right
/// gives an integer).
pub proof fn lemma_arithmetic_types(op: crate::parser_output::Operation, l: TypeData, r: TypeData)
    requires
        op == crate::parser_output::Operation::Add || op == crate::parser_output::Operation::Sub || op
            == crate::parser_output::Operation::Mul || op == crate::parser_output::Operation::Div,
    ensures
        op_type(op, l, r) is Some <==> item_type(l) == TypeData::Int && item_type(r) == TypeData::Int,
        op_type(op, l, r) matches Some(t) ==> item_type(t) == TypeData::Int && (is_collection(t) <==> is_collection(r)),
{
}

/// A lowered expression has the type of what it computes: a literal its
/// literal's type, a call the return type its function declares, a name
/// the type of the constant it names where a constant has that name, and
/// otherwise the type of the argument or variable of the block it names.
pub proof fn lemma_convert_types(
    cs: Seq<ConstantView>,
    fs: Seq<FunctionView>,
    vars: Seq<(Seq<char>, BlockView)>,
    e: crate::parser_output::ExprView,
)
    requires
        convert(cs, fs, vars, e) is Ok,
    ensures
        ({
            let t = block_type(convert(cs, fs, vars, e)->Ok_0);
            match e {
                crate::parser_output::ExprView::Literal(l) => t == crate::parser_output::literal_type(l),
                crate::parser_output::ExprView::Func(name, _) => find_func(fs, name) is Some && t == find_func(
                    fs,
                    name,
                )->Some_0.ret,
                crate::parser_output::ExprView::Variable(name) => match find_const(cs, name) {
                    Some(c) => t == c.kind,
                    None => super::block::find_var(vars, name) is Some && t == block_type(
                        super::block::find_var(vars, name)->Some_0,
                    ),
                },
                crate::parser_output::ExprView::Operation(l, op, r) => op_type(
                    op,
                    block_type(convert(cs, fs, vars, *l)->Ok_0),
                    block_type(convert(cs, fs, vars, *r)->Ok_0),
                ) == Some(t),
            }
        }),
{
}

} // verus!
