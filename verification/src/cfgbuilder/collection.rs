//! The expression collection: every expression of the program stored once
//! under its hash, with the variables and function bodies that refer to
//! them.
use std::collections::BTreeMap;
use vstd::prelude::*;

use crate::assoc::{assoc_get, find_key, lemma_assoc_get, lemma_assoc_push};
use crate::hashing::str_hash;
use crate::namespace::block::{view_vars, BasicBlock, BlockModel};
use crate::namespace::blockexpression::{lemma_view_blocks, view_blocks, BlockExpression, BlockView};
use crate::namespace::namespace::{
    find_func, index_of, lemma_index_of_at, view_bodies, Namespace, NamespaceView,
};
use crate::parser_output::{same_name, FunctionDeclaration, FunctionView, TypeData};

use super::expression::{hashed_hash, HashedExpression, HashedView};
use super::identifier::{spec_identifier, Identifier};

verus! {

broadcast use vstd::std_specs::btree::group_btree_axioms;

/// The value of an expression collection: the table of expressions by
/// hash, the variables (identifier and name, identifier and the hash of the
/// defining expression), the function bodies and signatures by identifier,
/// and the hash of the returned expression.
pub struct CollectionView {
    pub data: Map<u64, HashedView>,
    pub var_names: Seq<(Identifier, Seq<char>)>,
    pub vars: Seq<(Identifier, u64)>,
    pub functions: Seq<(Identifier, CollectionView)>,
    pub signatures: Seq<(Identifier, FunctionView)>,
    pub ret: Option<u64>,
}

/// The values of a table of hashed expressions.
pub open spec fn view_data(m: Map<u64, HashedExpression>) -> Map<u64, HashedView> {
    m.map_values(|e: HashedExpression| e@)
}

/// The empty collection.
pub open spec fn empty_view() -> CollectionView {
    CollectionView {
        data: Map::empty(),
        var_names: Seq::empty(),
        vars: Seq::empty(),
        functions: Seq::empty(),
        signatures: Seq::empty(),
        ret: None,
    }
}

/// The names of a function's parameters, in order.
pub open spec fn param_names(params: Seq<(String, TypeData)>) -> Seq<Seq<char>> {
    params.map_values(|p: (String, TypeData)| p.0@)
}

/// The value of an optional name.
pub open spec fn name_view(n: Option<&str>) -> Option<Seq<char>> {
    match n {
        Some(s) => Some(s@),
        None => None,
    }
}

/// Stores an expression under its hash, which it returns.
pub open spec fn insert_hashed(data: Map<u64, HashedView>, h: HashedView) -> (Map<u64, HashedView>, u64) {
    (data.insert(hashed_hash(h), h), hashed_hash(h))
}

/// Stores a block expression, its subexpressions first (left to right),
/// in the namespace `n` of a function with parameters `params`; returns
/// the table and the hash of the stored expression. A parameter is
/// referred to by its position, a constant globally, and a variable by
/// its name in the namespace.
pub open spec fn hash_block(
    n: Option<Seq<char>>,
    params: Seq<Seq<char>>,
    data: Map<u64, HashedView>,
    b: BlockView,
) -> (Map<u64, HashedView>, u64)
    decreases b,
{
    match b {
        BlockView::FunctionArg(name, k) => insert_hashed(
            data,
            HashedView::FunctionArg(spec_identifier(n, name), index_of(params, name) as usize, k),
        ),
        BlockView::ConstantValue(l, k) => insert_hashed(data, HashedView::ConstantValue(l, k)),
        BlockView::ExternalConstant(name, k) => insert_hashed(
            data,
            HashedView::ExternalConstant(spec_identifier(None, name), k),
        ),
        BlockView::Var(name, k) => insert_hashed(data, HashedView::Var(spec_identifier(n, name), k)),
        BlockView::Func(name, args, k) => {
            let (d, ids) = hash_blocks(n, params, data, args);
            insert_hashed(d, HashedView::Func(spec_identifier(None, name), ids, k))
        },
        BlockView::Op(l, op, r, k) => {
            let (d1, lk) = hash_block(n, params, data, *l);
            let (d2, rk) = hash_block(n, params, d1, *r);
            insert_hashed(d2, HashedView::Op(lk, op, rk, k))
        },
    }
}

/// Stores a sequence of block expressions, left to right; returns the
/// table and their hashes.
pub open spec fn hash_blocks(
    n: Option<Seq<char>>,
    params: Seq<Seq<char>>,
    data: Map<u64, HashedView>,
    bs: Seq<BlockView>,
) -> (Map<u64, HashedView>, Seq<u64>)
    decreases bs,
{
    if bs.len() == 0 {
        (data, Seq::empty())
    } else {
        let (d1, ids) = hash_blocks(n, params, data, bs.drop_last());
        let (d2, k) = hash_block(n, params, d1, bs.last());
        (d2, ids.push(k))
    }
}

/// Binds a variable to its stored expression.
pub open spec fn insert_var(
    c: CollectionView,
    n: Option<Seq<char>>,
    params: Seq<Seq<char>>,
    name: Seq<char>,
    b: BlockView,
) -> CollectionView {
    let (d, k) = hash_block(n, params, c.data, b);
    let id = spec_identifier(n, name);
    CollectionView { data: d, var_names: c.var_names.push((id, name)), vars: c.vars.push((id, k)), ..c }
}

/// Binds each variable of a block, in order.
pub open spec fn insert_vars(
    c: CollectionView,
    n: Option<Seq<char>>,
    params: Seq<Seq<char>>,
    vars: Seq<(Seq<char>, BlockView)>,
) -> CollectionView
    decreases vars.len(),
{
    if vars.len() == 0 {
        c
    } else {
        insert_var(insert_vars(c, n, params, vars.drop_last()), n, params, vars.last().0, vars.last().1)
    }
}

/// Stores the returned expression.
pub open spec fn with_return(c: CollectionView, n: Option<Seq<char>>, params: Seq<Seq<char>>, b: BlockView) -> CollectionView {
    let (d, k) = hash_block(n, params, c.data, b);
    CollectionView { data: d, ret: Some(k), ..c }
}

/// The names of a function's parameters.
pub open spec fn sig_params(f: FunctionView) -> Seq<Seq<char>> {
    f.args.map_values(|p: (Seq<char>, TypeData)| p.0)
}

/// The collection of a function body: its variables in the function's
/// namespace, and its return unless it is of the standard library.
pub open spec fn spec_from_block(name: Seq<char>, block: BlockModel, sig: FunctionView) -> CollectionView {
    let c = insert_vars(empty_view(), Some(name), sig_params(sig), block.vars);
    if sig.stdlib {
        c
    } else {
        with_return(c, Some(name), sig_params(sig), block.ret->Some_0)
    }
}

/// The collection of the root block: the constants, globally, and the
/// analysis as the return.
pub open spec fn spec_from_namespace(ns: NamespaceView) -> CollectionView {
    let own = ns.own->Some_0;
    with_return(insert_vars(empty_view(), None, Seq::empty(), own.vars), None, Seq::empty(), own.ret->Some_0)
}

/// Adds a function body, under the global identifier of its name.
pub open spec fn add_function(c: CollectionView, name: Seq<char>, block: BlockModel, sig: FunctionView) -> CollectionView {
    let id = Identifier::Global(str_hash(name));
    CollectionView {
        functions: c.functions.push((id, spec_from_block(name, block, sig))),
        signatures: c.signatures.push((id, sig)),
        ..c
    }
}

/// Adds each function body, in order.
pub open spec fn add_functions(c: CollectionView, ns: NamespaceView, bodies: Seq<(Seq<char>, BlockModel)>) -> CollectionView
    decreases bodies.len(),
{
    if bodies.len() == 0 {
        c
    } else {
        let name = bodies.last().0;
        add_function(add_functions(c, ns, bodies.drop_last()), name, bodies.last().1, find_func(ns.functions, name)->Some_0)
    }
}

/// The collection of a namespace: the root block, then every function body.
pub open spec fn spec_collection(ns: NamespaceView) -> CollectionView {
    add_functions(spec_from_namespace(ns), ns, ns.bodies)
}

/// A namespace can be collected when it has a root block with a return,
/// and every body belongs to a declared function that, unless it is of
/// the standard library, returns something.
pub open spec fn collectable(ns: NamespaceView) -> bool {
    &&& ns.own matches Some(own) && own.ret is Some
    &&& forall|i: int|
        0 <= i < ns.bodies.len() ==> ((#[trigger] find_func(ns.functions, ns.bodies[i].0)) matches Some(f)
            && (!f.stdlib ==> ns.bodies[i].1.ret is Some))
}

/// The table in which expressions are looked up in the context of function
/// `ctx`: that function's, where there is one, else the root's.
pub open spec fn scope_data(c: CollectionView, ctx: Option<Identifier>) -> Map<u64, HashedView> {
    match ctx {
        Some(f) => match assoc_get(c.functions, f) {
            Some(fc) => fc.data,
            None => c.data,
        },
        None => c.data,
    }
}

/// The returned expression.
pub open spec fn spec_return(c: CollectionView) -> Option<HashedView> {
    match c.ret {
        Some(k) => if c.data.contains_key(k) {
            Some(c.data[k])
        } else {
            None
        },
        None => None,
    }
}

/// The expression bound to a variable of this collection.
pub open spec fn local_variable(c: CollectionView, id: Identifier) -> Option<HashedView> {
    match assoc_get(c.vars, id) {
        Some(k) => if c.data.contains_key(k) {
            Some(c.data[k])
        } else {
            None
        },
        None => None,
    }
}

/// The expression that defines a variable: a global one in the root, a
/// namespaced one in the body of the function whose name it is hashed
/// with.
pub open spec fn spec_variable(c: CollectionView, id: Identifier) -> Option<HashedView> {
    match id {
        Identifier::Global(_) => local_variable(c, id),
        Identifier::Namespaced(f, _) => match assoc_get(c.functions, Identifier::Global(f)) {
            Some(fc) => local_variable(fc, id),
            None => None,
        },
    }
}

/// ExpressionCollection starts the linkage of expressions. Identifiers,
/// constants and expressions are all reduced to hashes; an expression that
/// nests others points to their hashes, not to an allocation.
pub struct ExpressionCollection {
    data: BTreeMap<u64, HashedExpression>,
    var_names: Vec<(Identifier, String)>,
    vars: Vec<(Identifier, u64)>,
    functions: Vec<(Identifier, ExpressionCollection)>,
    function_signature: Vec<(Identifier, FunctionDeclaration)>,
    ret: Option<u64>,
}

/// The value of a collection.
pub closed spec fn view_collection(c: ExpressionCollection) -> CollectionView
    decreases c,
{
    CollectionView {
        data: view_data(c.data@),
        var_names: c.var_names@.map_values(|p: (Identifier, String)| (p.0, p.1@)),
        vars: c.vars@,
        functions: view_contexts(c.functions@),
        signatures: c.function_signature@.map_values(|p: (Identifier, FunctionDeclaration)| (p.0, p.1@)),
        ret: c.ret,
    }
}

/// The values of the function bodies.
pub closed spec fn view_contexts(s: Seq<(Identifier, ExpressionCollection)>) -> Seq<(Identifier, CollectionView)>
    decreases s,
{
    if s.len() == 0 {
        Seq::empty()
    } else {
        view_contexts(s.drop_last()).push((s.last().0, view_collection(s.last().1)))
    }
}

/// `view_contexts` keeps each identifier and takes each body's value.
proof fn lemma_view_contexts(s: Seq<(Identifier, ExpressionCollection)>)
    ensures
        view_contexts(s).len() == s.len(),
        forall|i: int| 0 <= i < s.len() ==> #[trigger] view_contexts(s)[i] == (s[i].0, view_collection(s[i].1)),
    decreases s.len(),
{
    if s.len() > 0 {
        lemma_view_contexts(s.drop_last());
        assert forall|i: int| 0 <= i < s.len() implies #[trigger] view_contexts(s)[i] == (s[i].0, view_collection(s[i].1)) by {
            if i < s.len() - 1 {
                assert(s.drop_last()[i] == s[i]);
            }
        }
    }
}

impl View for ExpressionCollection {
    type V = CollectionView;

    closed spec fn view(&self) -> CollectionView {
        view_collection(*self)
    }
}

/// Stores an expression under its hash.
fn insert_expression(data: &mut BTreeMap<u64, HashedExpression>, expr: HashedExpression) -> (k: u64)
    ensures
        (view_data(final(data)@), k) == insert_hashed(view_data(old(data)@), expr@),
{
    let key = expr.get_hash();
    let ghost e = expr@;
    data.insert(key, expr);
    assert(view_data(data@) =~= view_data(old(data)@).insert(key, e));
    key
}

/// The position of the parameter called `name`, or the number of
/// parameters when there is none.
fn param_index(params: &Vec<(String, TypeData)>, name: &str) -> (r: usize)
    ensures
        r == index_of(param_names(params@), name@),
{
    let ghost names = param_names(params@);
    let n = params.len();
    for i in 0..n
        invariant
            n == params@.len(),
            names == param_names(params@),
            forall|j: int| 0 <= j < i ==> names[j] != name@,
    {
        if same_name(params[i].0.as_str(), name) {
            proof {
                lemma_index_of_at(names, name@, i as int);
            }
            return i;
        }
    }
    proof {
        lemma_index_of_at(names, name@, n as int);
    }
    n
}

/// Stores a block expression and its subexpressions.
fn insert_block(
    data: &mut BTreeMap<u64, HashedExpression>,
    n: Option<&str>,
    params: &Vec<(String, TypeData)>,
    expr: &BlockExpression,
) -> (k: u64)
    ensures
        (view_data(final(data)@), k) == hash_block(name_view(n), param_names(params@), view_data(old(data)@), expr@),
    decreases expr,
{
    let ghost nv = name_view(n);
    let ghost pv = param_names(params@);
    let h = match expr {
        BlockExpression::FunctionArg(name, kind) => {
            let idx = param_index(params, name.as_str());
            HashedExpression::FunctionArg(Identifier::new(n, name.as_str()), idx, *kind)
        },
        BlockExpression::ConstantValue(value, kind) => HashedExpression::ConstantValue(value.duplicate(), *kind),
        BlockExpression::ExternalConstant(name, kind) => HashedExpression::ExternalConstant(
            Identifier::new(None, name.as_str()),
            *kind,
        ),
        BlockExpression::Var(name, kind) => HashedExpression::Var(Identifier::new(n, name.as_str()), *kind),
        BlockExpression::Func(name, args, kind) => {
            let ids = insert_blocks(data, n, params, args);
            HashedExpression::Func(Identifier::new(None, name.as_str()), ids, *kind)
        },
        BlockExpression::Op(l, op, r, kind) => {
            let lk = insert_block(data, n, params, l);
            let rk = insert_block(data, n, params, r);
            HashedExpression::Op(lk, *op, rk, *kind)
        },
    };
    insert_expression(data, h)
}

/// Stores block expressions left to right, returning their hashes.
fn insert_blocks(
    data: &mut BTreeMap<u64, HashedExpression>,
    n: Option<&str>,
    params: &Vec<(String, TypeData)>,
    args: &Vec<BlockExpression>,
) -> (ids: Vec<u64>)
    ensures
        (view_data(final(data)@), ids@) == hash_blocks(name_view(n), param_names(params@), view_data(old(data)@), view_blocks(args@)),
    decreases args,
{
    let ghost nv = name_view(n);
    let ghost pv = param_names(params@);
    let ghost bs = view_blocks(args@);
    let ghost d0 = view_data(data@);
    proof {
        lemma_view_blocks(args@);
        assert(bs.take(0) =~= Seq::<BlockView>::empty());
    }
    let mut ids: Vec<u64> = Vec::new();
    let m = args.len();
    let mut i: usize = 0;
    while i < m
        invariant
            m == args@.len(),
            i <= m,
            bs == view_blocks(args@),
            bs.len() == m,
            forall|j: int| 0 <= j < m ==> #[trigger] bs[j] == args@[j]@,
            nv == name_view(n),
            pv == param_names(params@),
            (view_data(data@), ids@) == hash_blocks(nv, pv, d0, bs.take(i as int)),
        decreases m - i,
    {
        proof {
            assert(decreases_to!(args => args@[i as int]));
        }
        let k = insert_block(data, n, params, &args[i]);
        ids.push(k);
        proof {
            assert(bs.take(i + 1).drop_last() =~= bs.take(i as int));
            assert(bs.take(i + 1).last() == args@[i as int]@);
        }
        i = i + 1;
    }
    assert(bs.take(m as int) =~= bs);
    ids
}

} // verus!

verus! {

impl ExpressionCollection {
    /// A collection with nothing in it.
    fn empty() -> (r: ExpressionCollection)
        ensures
            r@ == empty_view(),
    {
        let r = ExpressionCollection {
            data: BTreeMap::new(),
            var_names: Vec::new(),
            vars: Vec::new(),
            functions: Vec::new(),
            function_signature: Vec::new(),
            ret: None,
        };
        assert(view_data(r.data@) =~= Map::<u64, HashedView>::empty());
        assert(r@.var_names =~= Seq::<(Identifier, Seq<char>)>::empty());
        assert(r@.signatures =~= Seq::<(Identifier, FunctionView)>::empty());
        assert(view_contexts(r.functions@) =~= Seq::<(Identifier, CollectionView)>::empty());
        r
    }

    /// Binds a variable to its expression, which is stored first.
    fn insert_vars(&mut self, n: Option<&str>, params: &Vec<(String, TypeData)>, name: &str, expr: &BlockExpression)
        ensures
            final(self)@ == insert_var(old(self)@, name_view(n), param_names(params@), name@, expr@),
    {
        let blocked_id = insert_block(&mut self.data, n, params, expr);
        let name_id = Identifier::new(n, name);
        let ghost old_names = self.var_names@;
        self.var_names.push((name_id, String::from_str(name)));
        self.vars.push((name_id, blocked_id));
        assert(self@.var_names =~= old(self)@.var_names.push((name_id, name@)));
    }

    /// Binds every variable of a block, in order.
    fn insert_all_vars(&mut self, n: Option<&str>, params: &Vec<(String, TypeData)>, vars: &Vec<(String, BlockExpression)>)
        ensures
            final(self)@ == insert_vars(old(self)@, name_view(n), param_names(params@), view_vars(vars@)),
    {
        let ghost vs = view_vars(vars@);
        let ghost c0 = self@;
        assert(vs.take(0) =~= Seq::<(Seq<char>, BlockView)>::empty());
        let m = vars.len();
        for i in 0..m
            invariant
                m == vars@.len(),
                vs == view_vars(vars@),
                self@ == insert_vars(c0, name_view(n), param_names(params@), vs.take(i as int)),
        {
            self.insert_vars(n, params, vars[i].0.as_str(), &vars[i].1);
            proof {
                assert(vs.take(i + 1).drop_last() =~= vs.take(i as int));
                assert(vs.take(i + 1).last() == vs[i as int]);
            }
        }
        assert(vs.take(m as int) =~= vs);
    }

    /// The collection of a function body: its variables in the function's
    /// namespace, then its return unless the function is of the standard
    /// library.
    fn from_block(name: &str, block: &BasicBlock, sig: &FunctionDeclaration) -> (r: ExpressionCollection)
        requires
            !sig.stdlib ==> block@.ret is Some,
        ensures
            r@ == spec_from_block(name@, block@, sig@),
    {
        assert(param_names(sig.args@) =~= sig_params(sig@));
        let mut collection = ExpressionCollection::empty();
        collection.insert_all_vars(Some(name), &sig.args, block.get_vars());
        if !sig.stdlib {
            match block.get_return() {
                Option::Some(expr) => {
                    let k = insert_block(&mut collection.data, Some(name), &sig.args, expr);
                    collection.ret = Some(k);
                },
                Option::None => {},
            }
        }
        collection
    }

    /// The collection of the root block: its constants, then the analysis.
    fn from_namespace(ns: &Namespace) -> (r: ExpressionCollection)
        requires
            ns@.own matches Some(own) && own.ret is Some,
        ensures
            r@ == spec_from_namespace(ns@),
    {
        let params: Vec<(String, TypeData)> = Vec::new();
        assert(param_names(params@) =~= Seq::<Seq<char>>::empty());
        let mut collection = ExpressionCollection::empty();
        match ns.get_own_block() {
            Option::Some(block) => {
                collection.insert_all_vars(None, &params, block.get_vars());
                match block.get_return() {
                    Option::Some(expr) => {
                        let k = insert_block(&mut collection.data, None, &params, expr);
                        collection.ret = Some(k);
                    },
                    Option::None => {},
                }
            },
            Option::None => {},
        }
        collection
    }

    /// Adds the body of the function `name` under its global identifier.
    fn insert_function(&mut self, namespace: &Namespace, name: &str, block: &BasicBlock)
        requires
            find_func(namespace@.functions, name@) matches Some(f) && (!f.stdlib ==> block@.ret is Some),
        ensures
            final(self)@ == add_function(old(self)@, name@, block@, find_func(namespace@.functions, name@)->Some_0),
    {
        let id = Identifier::new(None, name);
        match namespace.get_function(name) {
            Option::Some(f) => {
                let sig = f.duplicate();
                let coll = ExpressionCollection::from_block(name, block, &sig);
                let ghost cv = coll@;
                let ghost fs = self.functions@;
                self.functions.push((id, coll));
                self.function_signature.push((id, sig));
                proof {
                    assert(self.functions@.drop_last() =~= fs);
                    assert(view_contexts(self.functions@) == view_contexts(fs).push((id, cv)));
                    assert(self@.signatures =~= old(self)@.signatures.push((id, sig@)));
                }
            },
            Option::None => {},
        }
    }

    /// Takes the namespace and converts it to an expression collection:
    /// the root block, then the body of every function.
    pub fn new(namespace: &Namespace) -> (r: ExpressionCollection)
        requires
            collectable(namespace@),
        ensures
            r@ == spec_collection(namespace@),
    {
        let mut expression = ExpressionCollection::from_namespace(namespace);
        let blocks = namespace.get_all_function_blocks();
        let ghost bodies = namespace@.bodies;
        assert(bodies.take(0) =~= Seq::<(Seq<char>, BlockModel)>::empty());
        let m = blocks.len();
        for i in 0..m
            invariant
                m == blocks@.len(),
                bodies == namespace@.bodies,
                view_bodies(blocks@) == bodies,
                collectable(namespace@),
                expression@ == add_functions(spec_from_namespace(namespace@), namespace@, bodies.take(i as int)),
        {
            proof {
                assert(bodies[i as int] == (blocks@[i as int].0@, blocks@[i as int].1@));
                assert(find_func(namespace@.functions, bodies[i as int].0) is Some);
            }
            expression.insert_function(namespace, blocks[i].0.as_str(), &blocks[i].1);
            proof {
                assert(bodies.take(i + 1).drop_last() =~= bodies.take(i as int));
                assert(bodies.take(i + 1).last() == bodies[i as int]);
            }
        }
        assert(bodies.take(m as int) =~= bodies);
        expression
    }

    /// The body of a function, by its identifier.
    pub fn get_function_context(&self, id: &Identifier) -> (r: Option<&ExpressionCollection>)
        ensures
            match assoc_get(self@.functions, *id) {
                Some(c) => r matches Some(x) && x@ == c,
                None => r is None,
            },
    {
        proof {
            lemma_view_contexts(self.functions@);
        }
        match find_key(&self.functions, id) {
            Option::Some(i) => {
                proof {
                    lemma_assoc_get(self@.functions, *id, i as int);
                }
                Some(&self.functions[i].1)
            },
            Option::None => {
                proof {
                    lemma_assoc_get(self@.functions, *id, self@.functions.len() as int);
                }
                None
            },
        }
    }

    /// Looks up an expression by hash, in the body of the function `ctx`
    /// where there is one, else in the root.
    pub fn get_expr(&self, ctx: Option<Identifier>, id: &u64) -> (r: Option<&HashedExpression>)
        ensures
            match r {
                Some(e) => scope_data(self@, ctx).contains_key(*id) && scope_data(self@, ctx)[*id] == e@,
                None => !scope_data(self@, ctx).contains_key(*id),
            },
    {
        let table = match ctx {
            Option::Some(f) => match self.get_function_context(&f) {
                Option::Some(c) => &c.data,
                Option::None => &self.data,
            },
            Option::None => &self.data,
        };
        table.get(id)
    }

    /// The returned expression.
    pub fn get_return(&self) -> (r: Option<&HashedExpression>)
        ensures
            match spec_return(self@) {
                Some(h) => r matches Some(e) && e@ == h,
                None => r is None,
            },
    {
        match self.ret {
            Option::Some(k) => self.data.get(&k),
            Option::None => None,
        }
    }

    /// The expression bound to a variable of this very collection.
    fn local_variable(&self, id: &Identifier) -> (r: Option<&HashedExpression>)
        ensures
            match local_variable(self@, *id) {
                Some(h) => r matches Some(e) && e@ == h,
                None => r is None,
            },
    {
        match find_key(&self.vars, id) {
            Option::Some(i) => {
                proof {
                    lemma_assoc_get(self@.vars, *id, i as int);
                }
                self.data.get(&self.vars[i].1)
            },
            Option::None => {
                proof {
                    lemma_assoc_get(self@.vars, *id, self@.vars.len() as int);
                }
                None
            },
        }
    }

    /// The expression that defines a variable, if it is bound.
    pub fn find_variable(&self, id: &Identifier) -> (r: Option<&HashedExpression>)
        ensures
            match spec_variable(self@, *id) {
                Some(h) => r matches Some(e) && e@ == h,
                None => r is None,
            },
    {
        match id {
            Identifier::Global(_) => self.local_variable(id),
            Identifier::Namespaced(f, _) => match self.get_function_context(&Identifier::Global(*f)) {
                Option::Some(c) => c.local_variable(id),
                Option::None => None,
            },
        }
    }

    /// Returns the hashed expression which defines the variable.
    pub fn get_variable(&self, id: &Identifier) -> (r: &HashedExpression)
        requires
            spec_variable(self@, *id) is Some,
        ensures
            spec_variable(self@, *id) == Some(r@),
    {
        match self.find_variable(id) {
            Option::Some(e) => e,
            Option::None => {
                proof {
                    assert(false);
                }
                self.find_variable(id).unwrap()
            },
        }
    }

    /// Whether the function with this identifier is of the standard library.
    pub fn is_function_stdlib(&self, id: &Identifier) -> (r: bool)
        ensures
            r == (assoc_get(self@.signatures, *id) matches Some(f) && f.stdlib),
    {
        match find_key(&self.function_signature, id) {
            Option::Some(i) => {
                proof {
                    lemma_assoc_get(self@.signatures, *id, i as int);
                }
                self.function_signature[i].1.stdlib
            },
            Option::None => {
                proof {
                    lemma_assoc_get(self@.signatures, *id, self@.signatures.len() as int);
                }
                false
            },
        }
    }

    /// The name of the function with this identifier.
    pub fn get_function_name(&self, id: &Identifier) -> (r: Option<&str>)
        ensures
            match assoc_get(self@.signatures, *id) {
                Some(f) => r matches Some(s) && s@ == f.name,
                None => r is None,
            },
    {
        match find_key(&self.function_signature, id) {
            Option::Some(i) => {
                proof {
                    lemma_assoc_get(self@.signatures, *id, i as int);
                }
                Some(self.function_signature[i].1.name.as_str())
            },
            Option::None => {
                proof {
                    lemma_assoc_get(self@.signatures, *id, self@.signatures.len() as int);
                }
                None
            },
        }
    }
}

} // verus!
