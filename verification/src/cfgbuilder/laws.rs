//! Properties of the hashed collection that hold for every namespace that
//! can be collected.
use vstd::prelude::*;

use crate::namespace::block::BlockModel;
use crate::namespace::blockexpression::BlockView;
use crate::namespace::namespace::{find_func, NamespaceView};
use crate::parser_output::FunctionView;

use crate::assoc::{assoc_get, lemma_assoc_push};
use crate::hashing::str_hash;
use super::collection::{
    local_variable, spec_variable,
    add_function, add_functions, collectable, empty_view, hash_block, hash_blocks, insert_hashed, insert_var,
    insert_vars, sig_params, spec_collection, spec_from_block, spec_from_namespace, spec_return, with_return,
    CollectionView,
};
use super::expression::{hashed_hash, HashedView};
use super::identifier::{spec_identifier, Identifier};

verus! {

/// The hashes an expression refers to.
pub open spec fn hashed_children(h: HashedView) -> Seq<u64> {
    match h {
        HashedView::Func(_, args, _) => args,
        HashedView::Op(l, _, r, _) => seq![l, r],
        _ => Seq::empty(),
    }
}

/// Every expression is stored under its own hash, and every hash it refers
/// to is stored.
pub open spec fn sound_table(d: Map<u64, HashedView>) -> bool {
    &&& forall|k: u64| #[trigger] d.contains_key(k) ==> hashed_hash(d[k]) == k
    &&& forall|k: u64, i: int|
        #![trigger d.contains_key(k), hashed_children(d[k])[i]]
        d.contains_key(k) && 0 <= i < hashed_children(d[k]).len() ==> d.contains_key(hashed_children(d[k])[i])
}

/// Storing an expression whose references are stored keeps a table sound
/// and stores it under its hash.
proof fn lemma_insert_sound(d: Map<u64, HashedView>, h: HashedView)
    requires
        sound_table(d),
        forall|i: int| 0 <= i < hashed_children(h).len() ==> d.contains_key(#[trigger] hashed_children(h)[i]),
    ensures
        sound_table(insert_hashed(d, h).0),
        insert_hashed(d, h).0.contains_key(insert_hashed(d, h).1),
        d.dom().subset_of(insert_hashed(d, h).0.dom()),
{
    let d2 = insert_hashed(d, h).0;
    let k0 = hashed_hash(h);
    assert forall|k: u64, i: int|
        #![trigger d2.contains_key(k), hashed_children(d2[k])[i]]
        d2.contains_key(k) && 0 <= i < hashed_children(d2[k]).len() implies d2.contains_key(hashed_children(d2[k])[i]) by {
        if k == k0 {
            assert(d2[k] == h);
            assert(d.contains_key(hashed_children(h)[i]));
        } else {
            assert(d.contains_key(k));
            assert(d2[k] == d[k]);
            assert(d.contains_key(hashed_children(d[k])[i]));
        }
    }
}

/// Storing a block expression keeps a table sound, only adds to it, and
/// stores the expression under the hash it returns.
pub proof fn lemma_hash_block_sound(n: Option<Seq<char>>, params: Seq<Seq<char>>, d: Map<u64, HashedView>, b: BlockView)
    requires
        sound_table(d),
    ensures
        sound_table(hash_block(n, params, d, b).0),
        hash_block(n, params, d, b).0.contains_key(hash_block(n, params, d, b).1),
        d.dom().subset_of(hash_block(n, params, d, b).0.dom()),
    decreases b,
{
    match b {
        BlockView::Func(name, args, k) => {
            lemma_hash_blocks_sound(n, params, d, args);
            let (d1, ids) = hash_blocks(n, params, d, args);
            lemma_insert_sound(d1, HashedView::Func(super::identifier::spec_identifier(None, name), ids, k));
        },
        BlockView::Op(l, op, r, k) => {
            lemma_hash_block_sound(n, params, d, *l);
            let (d1, lk) = hash_block(n, params, d, *l);
            lemma_hash_block_sound(n, params, d1, *r);
            let (d2, rk) = hash_block(n, params, d1, *r);
            let h = HashedView::Op(lk, op, rk, k);
            assert(hashed_children(h) =~= seq![lk, rk]);
            lemma_insert_sound(d2, h);
        },
        _ => {
            let h = match b {
                BlockView::FunctionArg(name, k) => HashedView::FunctionArg(
                    super::identifier::spec_identifier(n, name),
                    crate::namespace::namespace::index_of(params, name) as usize,
                    k,
                ),
                BlockView::ConstantValue(l, k) => HashedView::ConstantValue(l, k),
                BlockView::ExternalConstant(name, k) => HashedView::ExternalConstant(
                    super::identifier::spec_identifier(None, name),
                    k,
                ),
                BlockView::Var(name, k) => HashedView::Var(super::identifier::spec_identifier(n, name), k),
                _ => HashedView::ConstantValue(crate::parser_output::LiteralView::Boolean(true), crate::parser_output::TypeData::Bool),
            };
            assert(hashed_children(h) =~= Seq::<u64>::empty());
            lemma_insert_sound(d, h);
        },
    }
}

/// Storing block expressions keeps a table sound, only adds to it, and
/// stores each one under the hash returned for it.
pub proof fn lemma_hash_blocks_sound(n: Option<Seq<char>>, params: Seq<Seq<char>>, d: Map<u64, HashedView>, bs: Seq<BlockView>)
    requires
        sound_table(d),
    ensures
        sound_table(hash_blocks(n, params, d, bs).0),
        hash_blocks(n, params, d, bs).1.len() == bs.len(),
        forall|i: int|
            0 <= i < bs.len() ==> hash_blocks(n, params, d, bs).0.contains_key(
                #[trigger] hash_blocks(n, params, d, bs).1[i],
            ),
        d.dom().subset_of(hash_blocks(n, params, d, bs).0.dom()),
    decreases bs,
{
    if bs.len() > 0 {
        lemma_hash_blocks_sound(n, params, d, bs.drop_last());
        let (d1, ids) = hash_blocks(n, params, d, bs.drop_last());
        lemma_hash_block_sound(n, params, d1, bs.last());
        let (d2, k) = hash_block(n, params, d1, bs.last());
        assert forall|i: int| 0 <= i < bs.len() implies d2.contains_key(#[trigger] ids.push(k)[i]) by {
            if i < bs.len() - 1 {
                assert(d1.contains_key(ids[i]));
            }
        }
    }
}

/// Binding variables keeps the table sound.
proof fn lemma_insert_vars_sound(c: CollectionView, n: Option<Seq<char>>, params: Seq<Seq<char>>, vars: Seq<(Seq<char>, BlockView)>)
    requires
        sound_table(c.data),
    ensures
        sound_table(insert_vars(c, n, params, vars).data),
        insert_vars(c, n, params, vars).ret == c.ret,
    decreases vars.len(),
{
    if vars.len() > 0 {
        lemma_insert_vars_sound(c, n, params, vars.drop_last());
        let c1 = insert_vars(c, n, params, vars.drop_last());
        lemma_hash_block_sound(n, params, c1.data, vars.last().1);
    }
}

/// The collection of a function body has a sound table, and stores its
/// return where the function is not of the standard library.
proof fn lemma_from_block_sound(name: Seq<char>, block: BlockModel, sig: FunctionView)
    requires
        !sig.stdlib ==> block.ret is Some,
    ensures
        sound_table(spec_from_block(name, block, sig).data),
        !sig.stdlib ==> spec_return(spec_from_block(name, block, sig)) is Some,
{
    let c = insert_vars(empty_view(), Some(name), sig_params(sig), block.vars);
    assert(sound_table(empty_view().data));
    lemma_insert_vars_sound(empty_view(), Some(name), sig_params(sig), block.vars);
    if !sig.stdlib {
        lemma_hash_block_sound(Some(name), sig_params(sig), c.data, block.ret->Some_0);
    }
}

/// Adding function bodies leaves the root alone, and gives each body a
/// sound table.
proof fn lemma_add_functions_sound(c: CollectionView, ns: NamespaceView, bodies: Seq<(Seq<char>, BlockModel)>)
    requires
        forall|i: int|
            0 <= i < bodies.len() ==> ((#[trigger] find_func(ns.functions, bodies[i].0)) matches Some(f) && (!f.stdlib
                ==> bodies[i].1.ret is Some)),
        forall|j: int| 0 <= j < c.functions.len() ==> sound_table(#[trigger] c.functions[j].1.data),
    ensures
        add_functions(c, ns, bodies).data == c.data,
        add_functions(c, ns, bodies).ret == c.ret,
        forall|j: int|
            0 <= j < add_functions(c, ns, bodies).functions.len() ==> sound_table(
                #[trigger] add_functions(c, ns, bodies).functions[j].1.data,
            ),
    decreases bodies.len(),
{
    if bodies.len() > 0 {
        let b = bodies.drop_last();
        assert forall|i: int| 0 <= i < b.len() implies ((#[trigger] find_func(ns.functions, b[i].0)) matches Some(f)
            && (!f.stdlib ==> b[i].1.ret is Some)) by {
            assert(b[i] == bodies[i]);
        }
        lemma_add_functions_sound(c, ns, b);
        let c1 = add_functions(c, ns, b);
        let last = bodies.last();
        assert(find_func(ns.functions, bodies[bodies.len() - 1].0) is Some);
        let f = find_func(ns.functions, last.0)->Some_0;
        lemma_from_block_sound(last.0, last.1, f);
        let c2 = add_function(c1, last.0, last.1, f);
        assert forall|j: int| 0 <= j < c2.functions.len() implies sound_table(#[trigger] c2.functions[j].1.data) by {
            if j < c1.functions.len() {
                assert(c2.functions[j] == c1.functions[j]);
            }
        }
    }
}

/// The collection of every collectable namespace stores each expression
/// under its own hash with everything it refers to, in the root and in
/// each function body, and has a result.
#[verifier::rlimit(40)]
pub proof fn lemma_collection_sound(ns: NamespaceView)
    requires
        collectable(ns),
    ensures
        sound_table(spec_collection(ns).data),
        forall|j: int|
            0 <= j < spec_collection(ns).functions.len() ==> sound_table(
                #[trigger] spec_collection(ns).functions[j].1.data,
            ),
        spec_return(spec_collection(ns)) is Some,
{
    let own = ns.own->Some_0;
    let c0 = insert_vars(empty_view(), None, Seq::empty(), own.vars);
    assert(sound_table(empty_view().data));
    lemma_insert_vars_sound(empty_view(), None, Seq::empty(), own.vars);
    lemma_hash_block_sound(None, Seq::empty(), c0.data, own.ret->Some_0);
    let root = spec_from_namespace(ns);
    let (d, k) = hash_block(None, Seq::empty(), c0.data, own.ret->Some_0);
    assert(root.data == d);
    assert(root.ret == Some(k));
    assert(root.functions == c0.functions);
    assert(c0.functions.len() == 0) by {
        lemma_insert_vars_frame(empty_view(), None, Seq::empty(), own.vars);
    }
    lemma_add_functions_sound(root, ns, ns.bodies);
    let c = spec_collection(ns);
    assert(c.data == d && c.ret == Some(k));
    assert(d.contains_key(k));
}

/// Binding variables adds no function body.
proof fn lemma_insert_vars_frame(c: CollectionView, n: Option<Seq<char>>, params: Seq<Seq<char>>, vars: Seq<(Seq<char>, BlockView)>)
    ensures
        insert_vars(c, n, params, vars).functions == c.functions,
    decreases vars.len(),
{
    if vars.len() > 0 {
        lemma_insert_vars_frame(c, n, params, vars.drop_last());
    }
}

/// Binding variables binds each one's name, in the namespace, to a stored
/// expression.
proof fn lemma_insert_vars_binds(c: CollectionView, n: Option<Seq<char>>, params: Seq<Seq<char>>, vars: Seq<(Seq<char>, BlockView)>)
    requires
        sound_table(c.data),
    ensures
        forall|j: int|
            0 <= j < vars.len() ==> (assoc_get(insert_vars(c, n, params, vars).vars, spec_identifier(n, #[trigger] vars[j].0))
                matches Some(k) && insert_vars(c, n, params, vars).data.contains_key(k)),
    decreases vars.len(),
{
    if vars.len() > 0 {
        let init = vars.drop_last();
        lemma_insert_vars_binds(c, n, params, init);
        lemma_insert_vars_sound(c, n, params, init);
        let c1 = insert_vars(c, n, params, init);
        let (name, b) = vars.last();
        lemma_hash_block_sound(n, params, c1.data, b);
        let (d, k) = hash_block(n, params, c1.data, b);
        let id = spec_identifier(n, name);
        let c2 = insert_vars(c, n, params, vars);
        assert forall|j: int| 0 <= j < vars.len() implies (assoc_get(c2.vars, spec_identifier(n, #[trigger] vars[j].0))
            matches Some(k2) && c2.data.contains_key(k2)) by {
            let q = spec_identifier(n, vars[j].0);
            lemma_assoc_push(c1.vars, id, k, q);
            if q != id {
                assert(j < init.len());
                assert(init[j] == vars[j]);
            }
        }
    }
}

/// A reference to a variable that a function's block binds, stored in the
/// function's namespace, resolves: in the function's collection, and in
/// any collection that holds that function's collection under the
/// function's name, to the expression the variable is bound to.
pub proof fn lemma_variable_reference_resolves(
    g: CollectionView,
    fname: Seq<char>,
    block: BlockModel,
    sig: FunctionView,
    j: int,
    k: crate::parser_output::TypeData,
    data: Map<u64, HashedView>,
)
    requires
        0 <= j < block.vars.len(),
        assoc_get(g.functions, Identifier::Global(str_hash(fname))) == Some(spec_from_block(fname, block, sig)),
    ensures
        ({
            let (d, h) = hash_block(Some(fname), sig_params(sig), data, BlockView::Var(block.vars[j].0, k));
            &&& d.contains_key(h)
            &&& d[h] is Var
            &&& d[h]->Var_1 == k
            &&& local_variable(spec_from_block(fname, block, sig), d[h]->Var_0) is Some
            &&& spec_variable(g, d[h]->Var_0) == local_variable(spec_from_block(fname, block, sig), d[h]->Var_0)
        }),
{
    let params = sig_params(sig);
    assert(sound_table(empty_view().data));
    lemma_insert_vars_binds(empty_view(), Some(fname), params, block.vars);
    lemma_insert_vars_sound(empty_view(), Some(fname), params, block.vars);
    let c = insert_vars(empty_view(), Some(fname), params, block.vars);
    let id = spec_identifier(Some(fname), block.vars[j].0);
    assert(assoc_get(c.vars, id) is Some);
    if !sig.stdlib {
        lemma_hash_block_sound(Some(fname), params, c.data, block.ret->Some_0);
    }
}

/// Adding function bodies leaves the root's variables alone.
proof fn lemma_add_functions_vars(c: CollectionView, ns: NamespaceView, bodies: Seq<(Seq<char>, BlockModel)>)
    ensures
        add_functions(c, ns, bodies).vars == c.vars,
        add_functions(c, ns, bodies).data == c.data,
    decreases bodies.len(),
{
    if bodies.len() > 0 {
        lemma_add_functions_vars(c, ns, bodies.drop_last());
    }
}

/// A reference to a constant of the program, stored in any namespace,
/// resolves in the program's collection to the expression the constant is
/// bound to.
pub proof fn lemma_constant_reference_resolves(
    ns: NamespaceView,
    j: int,
    k: crate::parser_output::TypeData,
    n: Option<Seq<char>>,
    params: Seq<Seq<char>>,
    data: Map<u64, HashedView>,
)
    requires
        ns.own is Some,
        0 <= j < ns.own->Some_0.vars.len(),
    ensures
        ({
            let (d, h) = hash_block(n, params, data, BlockView::ExternalConstant(ns.own->Some_0.vars[j].0, k));
            &&& d.contains_key(h)
            &&& d[h] is ExternalConstant
            &&& d[h]->ExternalConstant_1 == k
            &&& spec_variable(spec_collection(ns), d[h]->ExternalConstant_0) is Some
        }),
{
    let own = ns.own->Some_0;
    assert(sound_table(empty_view().data));
    lemma_insert_vars_binds(empty_view(), None, Seq::empty(), own.vars);
    lemma_insert_vars_sound(empty_view(), None, Seq::empty(), own.vars);
    let c0 = insert_vars(empty_view(), None, Seq::empty(), own.vars);
    lemma_hash_block_sound(None, Seq::empty(), c0.data, own.ret->Some_0);
    lemma_add_functions_vars(spec_from_namespace(ns), ns, ns.bodies);
    let id = spec_identifier(None, own.vars[j].0);
    assert(assoc_get(c0.vars, id) is Some);
}

/// A reference to a parameter of a function is stored with the position of
/// that parameter: the first parameter of that name.
pub proof fn lemma_parameter_reference_position(
    n: Option<Seq<char>>,
    params: Seq<Seq<char>>,
    data: Map<u64, HashedView>,
    name: Seq<char>,
    k: crate::parser_output::TypeData,
)
    requires
        params.contains(name),
        params.len() <= usize::MAX,
    ensures
        ({
            let (d, h) = hash_block(n, params, data, BlockView::FunctionArg(name, k));
            &&& d.contains_key(h)
            &&& d[h] is FunctionArg
            &&& 0 <= d[h]->FunctionArg_1 < params.len()
            &&& params[d[h]->FunctionArg_1 as int] == name
            &&& forall|i: int| 0 <= i < d[h]->FunctionArg_1 ==> params[i] != name
            &&& d[h]->FunctionArg_2 == k
        }),
{
    crate::namespace::namespace::lemma_index_of(params, name);
    let i = choose|i: int| 0 <= i < params.len() && params[i] == name;
    let p = crate::namespace::namespace::index_of(params, name);
    assert(p <= i);
    assert((p as usize) as int == p);
}

} // verus!
