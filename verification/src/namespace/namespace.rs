//! The namespace: the program's constants, functions and analysis, with
//! the standard library, checked for colliding names, and every body
//! lowered into a basic block.
use vstd::prelude::*;

use crate::parser_output::{
    same_name, AbstractSyntaxTree, AnalysisDeclaration, ConstantDeclaration, ConstantView,
    ExprView, FunctionDeclaration, FunctionView, Statements, Structures, StructuresView, TypeData,
    view_args,
};

use crate::printing::expr_text;
use super::block::{spec_from_func, spec_from_root, BasicBlock, BlockModel};

verus! {

/// The position of the first occurrence of `name` in `names`, or
/// `names.len()` when it does not occur.
pub open spec fn index_of(names: Seq<Seq<char>>, name: Seq<char>) -> int
    decreases names.len(),
{
    if names.len() == 0 {
        0
    } else if names[0] == name {
        0
    } else {
        1 + index_of(names.drop_first(), name)
    }
}

/// `index_of` is the first position holding `name`.
pub proof fn lemma_index_of(names: Seq<Seq<char>>, name: Seq<char>)
    ensures
        0 <= index_of(names, name) <= names.len(),
        index_of(names, name) < names.len() ==> names[index_of(names, name)] == name,
        forall|j: int| 0 <= j < index_of(names, name) ==> names[j] != name,
    decreases names.len(),
{
    if names.len() > 0 && names[0] != name {
        lemma_index_of(names.drop_first(), name);
        assert forall|j: int| 0 <= j < index_of(names, name) implies names[j] != name by {
            if j > 0 {
                assert(names.drop_first()[j - 1] == names[j]);
            }
        }
    }
}

/// A position whose name matches, after positions that do not, is the
/// first occurrence.
pub proof fn lemma_index_of_at(names: Seq<Seq<char>>, name: Seq<char>, i: int)
    requires
        0 <= i <= names.len(),
        i < names.len() ==> names[i] == name,
        forall|j: int| 0 <= j < i ==> names[j] != name,
    ensures
        index_of(names, name) == i,
{
    lemma_index_of(names, name);
    let k = index_of(names, name);
    if k < i {
        assert(names[k] == name);
    } else if k > i {
        assert(names[i] != name);
    }
}

/// The names of a sequence of constants.
pub open spec fn const_names(cs: Seq<ConstantView>) -> Seq<Seq<char>> {
    cs.map_values(|c: ConstantView| c.name)
}

/// The names of a sequence of functions.
pub open spec fn func_names(fs: Seq<FunctionView>) -> Seq<Seq<char>> {
    fs.map_values(|f: FunctionView| f.name)
}

/// The first constant named `name`.
pub open spec fn find_const(cs: Seq<ConstantView>, name: Seq<char>) -> Option<ConstantView> {
    let i = index_of(const_names(cs), name);
    if i < cs.len() {
        Some(cs[i])
    } else {
        None
    }
}

/// The first function named `name`.
pub open spec fn find_func(fs: Seq<FunctionView>, name: Seq<char>) -> Option<FunctionView> {
    let i = index_of(func_names(fs), name);
    if i < fs.len() {
        Some(fs[i])
    } else {
        None
    }
}

/// A standard library function: it has a name, typed arguments, a return
/// type and no body.
pub open spec fn std_fn(name: Seq<char>, args: Seq<(Seq<char>, TypeData)>, ret: TypeData) -> FunctionView {
    FunctionView { stdlib: true, name, args, ret, body: Seq::empty() }
}

/// The standard library, in the order it is declared.
pub open spec fn std_functions() -> Seq<FunctionView> {
    seq![
        std_fn("roll_d6"@, seq![("number_of_d6_to_roll"@, TypeData::Int)], TypeData::CollectionOfInt),
        std_fn("roll_d3"@, seq![("number_of_d3_to_roll"@, TypeData::Int)], TypeData::CollectionOfInt),
        std_fn(
            "reroll"@,
            seq![
                ("max_value_roll_can_return_inclusive"@, TypeData::Int),
                ("min_value_roll_can_return_inclusive"@, TypeData::Int),
                ("filters_to_reroll"@, TypeData::CollectionOfBool),
                ("collection_to_be_re_rolled"@, TypeData::CollectionOfInt),
            ],
            TypeData::CollectionOfInt,
        ),
        std_fn(
            "roll"@,
            seq![
                ("max_value_roll_can_return_inclusive"@, TypeData::Int),
                ("min_value_roll_can_return_inclusive"@, TypeData::Int),
                ("number_of_rolls_to_make"@, TypeData::Int),
            ],
            TypeData::CollectionOfInt,
        ),
        std_fn(
            "filter"@,
            seq![
                ("collection_of_tests_to_filter_with"@, TypeData::CollectionOfBool),
                ("collection_of_data_to_filter"@, TypeData::CollectionOfInt),
            ],
            TypeData::CollectionOfBool,
        ),
        std_fn("count"@, seq![("collection_to_sum_over"@, TypeData::CollectionOfBool)], TypeData::Int),
        std_fn("sum"@, seq![("collection_to_sum_with"@, TypeData::CollectionOfInt)], TypeData::Int),
    ]
}

/// The declarations gathered so far: constants and functions in the order
/// they were declared, and the analysis if one was.
pub struct Declarations {
    pub consts: Seq<ConstantView>,
    pub funcs: Seq<FunctionView>,
    pub analysis: Option<ExprView>,
}

/// Declaring a constant: its name must not belong to a function or to an
/// earlier constant.
pub open spec fn declare_const(d: Declarations, c: ConstantView) -> Result<Declarations, Seq<char>> {
    if find_func(d.funcs, c.name) is Some {
        Err("constant named=\""@ + c.name + "\" cannot be declared, function=\""@ + c.name + "\" uses that name"@)
    } else if find_const(d.consts, c.name) is Some {
        Err("const named=\""@ + c.name + "\" already exists"@)
    } else {
        Ok(Declarations { consts: d.consts.push(c), ..d })
    }
}

/// Declaring a function: its name must not belong to a constant or to an
/// earlier function, the standard library's included.
pub open spec fn declare_func(d: Declarations, f: FunctionView) -> Result<Declarations, Seq<char>> {
    if find_const(d.consts, f.name) is Some {
        Err("function named=\""@ + f.name + "\" cannot be declared, constant=\""@ + f.name + "\" uses that name"@)
    } else if find_func(d.funcs, f.name) is Some {
        Err("function named=\""@ + f.name + "\" already exists"@)
    } else {
        Ok(Declarations { funcs: d.funcs.push(f), ..d })
    }
}

/// Declaring the analysis: a program has at most one.
pub open spec fn declare_analysis(d: Declarations, e: ExprView) -> Result<Declarations, Seq<char>> {
    if d.analysis is Some {
        Err("analyze statement is already declared\n\n"@ + expr_text(d.analysis->Some_0) + "\n\nsecond declaration\n\n"@
            + expr_text(e) + "\n\n is error"@)
    } else {
        Ok(Declarations { analysis: Some(e), ..d })
    }
}

/// Declaring one top-level structure.
pub open spec fn declare(d: Declarations, item: StructuresView) -> Result<Declarations, Seq<char>> {
    match item {
        StructuresView::Constant(c) => declare_const(d, c),
        StructuresView::Func(f) => declare_func(d, f),
        StructuresView::Analyze(e) => declare_analysis(d, e),
    }
}

/// Declaring the structures one after the other; the first refusal ends it.
pub open spec fn declare_all(d: Declarations, items: Seq<StructuresView>) -> Result<Declarations, Seq<char>>
    decreases items.len(),
{
    if items.len() == 0 {
        Ok(d)
    } else {
        match declare(d, items[0]) {
            Ok(d2) => declare_all(d2, items.drop_first()),
            Err(x) => Err(x),
        }
    }
}

/// The declarations a program starts with: the standard library alone.
pub open spec fn std_declarations() -> Declarations {
    Declarations { consts: Seq::empty(), funcs: std_functions(), analysis: None }
}

/// Lowering every function body, in the order the functions were declared,
/// onto the bodies lowered so far.
pub open spec fn lower_bodies(
    cs: Seq<ConstantView>,
    fs: Seq<FunctionView>,
    todo: Seq<FunctionView>,
    done: Seq<(Seq<char>, BlockModel)>,
) -> Result<Seq<(Seq<char>, BlockModel)>, Seq<char>>
    decreases todo.len(),
{
    if todo.len() == 0 {
        Ok(done)
    } else {
        match spec_from_func(cs, fs, todo[0]) {
            Ok(m) => lower_bodies(cs, fs, todo.drop_first(), done.push((todo[0].name, m))),
            Err(x) => Err(x),
        }
    }
}

/// The value of a namespace.
pub struct NamespaceView {
    pub constants: Seq<ConstantView>,
    pub functions: Seq<FunctionView>,
    pub bodies: Seq<(Seq<char>, BlockModel)>,
    pub own: Option<BlockModel>,
    pub analysis: Option<ExprView>,
}

/// The namespace of a program: the declarations with the standard library
/// first, each function body lowered, and the root block (the constants
/// and the analysis) lowered; or an error where any of these fails.
pub open spec fn spec_namespace(items: Seq<StructuresView>) -> Result<NamespaceView, Seq<char>> {
    match declare_all(std_declarations(), items) {
        Err(x) => Err(x),
        Ok(d) => match lower_bodies(d.consts, d.funcs, d.funcs, Seq::empty()) {
            Err(x) => Err(x),
            Ok(bodies) => match spec_from_root(d.consts, d.funcs, d.analysis) {
                Err(x) => Err(x),
                Ok(own) => Ok(
                    NamespaceView {
                        constants: d.consts,
                        functions: d.funcs,
                        bodies,
                        own: Some(own),
                        analysis: d.analysis,
                    },
                ),
            },
        },
    }
}

/// The values of a sequence of structures.
pub open spec fn view_structures(s: Seq<Structures>) -> Seq<StructuresView> {
    s.map_values(|x: Structures| x@)
}

/// The values of a sequence of constant declarations.
pub open spec fn view_consts(s: Seq<ConstantDeclaration>) -> Seq<ConstantView> {
    s.map_values(|c: ConstantDeclaration| c@)
}

/// The values of a sequence of function declarations.
pub open spec fn view_funcs(s: Seq<FunctionDeclaration>) -> Seq<FunctionView> {
    s.map_values(|f: FunctionDeclaration| f@)
}

/// The value of the analysis, if any.
pub open spec fn view_analysis(a: Option<AnalysisDeclaration>) -> Option<ExprView> {
    match a {
        Some(x) => Some(x.expr@),
        None => None,
    }
}

/// The values of named basic blocks.
pub open spec fn view_bodies(s: Seq<(String, BasicBlock)>) -> Seq<(Seq<char>, BlockModel)> {
    s.map_values(|p: (String, BasicBlock)| (p.0@, p.1@))
}

/// The value of an optional basic block.
pub open spec fn view_own(b: Option<BasicBlock>) -> Option<BlockModel> {
    match b {
        Some(x) => Some(x@),
        None => None,
    }
}

/// Namespace represents the pre-parsing of the AST. It ensures there are
/// no collisions with the standard library or within the program. The
/// declarations are kept in the order they were declared and looked up by
/// name; no name occurs twice (`wf_namespace`).
pub struct Namespace {
    constants: Vec<ConstantDeclaration>,
    functions: Vec<FunctionDeclaration>,
    function_body: Vec<(String, BasicBlock)>,
    owndata: Option<BasicBlock>,
    analysis: Option<AnalysisDeclaration>,
}

impl View for Namespace {
    type V = NamespaceView;

    closed spec fn view(&self) -> NamespaceView {
        NamespaceView {
            constants: view_consts(self.constants@),
            functions: view_funcs(self.functions@),
            bodies: view_bodies(self.function_body@),
            own: view_own(self.owndata),
            analysis: view_analysis(self.analysis),
        }
    }
}

/// A standard library declaration.
fn std_decl(name: &str, args: Vec<(String, TypeData)>, ret: TypeData) -> (f: FunctionDeclaration)
    ensures
        f@ == std_fn(name@, view_args(args@), ret),
{
    let f = FunctionDeclaration {
        stdlib: true,
        name: String::from_str(name),
        args,
        ret,
        body: Statements { data: Vec::new() },
    };
    assert(f@.body =~= Seq::empty());
    f
}

/// A named argument.
fn arg(name: &str, kind: TypeData) -> (r: (String, TypeData))
    ensures
        r.0@ == name@,
        r.1 == kind,
{
    (String::from_str(name), kind)
}

impl Namespace {
    /// Builds the namespace of a program: the standard library, then each
    /// structure in order (a name may be declared once, as a constant or a
    /// function, and there is at most one analysis), then every function
    /// body and the root block lowered and type checked.
    pub fn new(ast: &AbstractSyntaxTree) -> (r: Result<Namespace, String>)
        ensures
            match spec_namespace(view_structures(ast.ast@)) {
                Ok(v) => r matches Ok(n) && n@ == v,
                Err(x) => r matches Err(y) && y@ == x,
            },
            r matches Ok(n) ==> super::laws::wf_namespace(n@),
    {
        let mut ns = Namespace {
            constants: Vec::new(),
            functions: Vec::new(),
            function_body: Vec::new(),
            owndata: None,
            analysis: None,
        };
        ns.populate_std();
        let ghost items = view_structures(ast.ast@);
        assert(items.skip(0) =~= items);
        let n = ast.ast.len();
        let mut i: usize = 0;
        while i < n
            invariant
                n == ast.ast@.len(),
                items == view_structures(ast.ast@),
                i <= n,
                ns.function_body@.len() == 0,
                ns.owndata is None,
                declare_all(std_declarations(), items) == declare_all(ns.decls(), items.skip(i as int)),
            decreases n - i,
        {
            let item = &ast.ast[i];
            let ghost before = ns.decls();
            proof {
                assert(items.skip(i as int)[0] == item@);
                assert(items.skip(i as int).drop_first() =~= items.skip(i + 1));
            }
            ns.add_const(item)?;
            ns.add_function(item)?;
            ns.add_analysis(item)?;
            assert(declare(before, item@) == Ok::<Declarations, Seq<char>>(ns.decls()));
            i = i + 1;
        }
        let ghost d = ns.decls();
        assert(items.skip(n as int) =~= Seq::<StructuresView>::empty());
        assert(declare_all(std_declarations(), items) == Ok::<Declarations, Seq<char>>(d));
        let mut bodies: Vec<(String, BasicBlock)> = Vec::new();
        assert(d.funcs.skip(0) =~= d.funcs);
        assert(view_bodies(bodies@) =~= Seq::<(Seq<char>, BlockModel)>::empty());
        let nf = ns.functions.len();
        let mut j: usize = 0;
        while j < nf
            invariant
                nf == ns.functions@.len(),
                d == ns.decls(),
                declare_all(std_declarations(), view_structures(ast.ast@)) == Ok::<Declarations, Seq<char>>(d),
                j <= nf,
                lower_bodies(d.consts, d.funcs, d.funcs, Seq::empty()) == lower_bodies(
                    d.consts,
                    d.funcs,
                    d.funcs.skip(j as int),
                    view_bodies(bodies@),
                ),
            decreases nf - j,
        {
            let f = &ns.functions[j];
            proof {
                assert(d.funcs.skip(j as int)[0] == f@);
                assert(d.funcs.skip(j as int).drop_first() =~= d.funcs.skip(j + 1));
            }
            let bb = BasicBlock::from_func(&ns, f)?;
            let ghost prev = bodies@;
            bodies.push((f.name.clone(), bb));
            proof {
                assert(view_bodies(bodies@) =~= view_bodies(prev).push((f@.name, bb@)));
            }
            j = j + 1;
        }
        assert(d.funcs.skip(nf as int) =~= Seq::<FunctionView>::empty());
        let root = BasicBlock::from_root(&ns)?;
        ns.function_body = bodies;
        ns.owndata = Some(root);
        proof {
            super::laws::lemma_namespace_declarations(view_structures(ast.ast@));
        }
        Ok(ns)
    }

    /// The gathered declarations.
    closed spec fn decls(&self) -> Declarations {
        Declarations {
            consts: view_consts(self.constants@),
            funcs: view_funcs(self.functions@),
            analysis: view_analysis(self.analysis),
        }
    }

    /// Declares the standard library.
    fn populate_std(&mut self)
        requires
            old(self).constants@.len() == 0,
            old(self).functions@.len() == 0,
            old(self).analysis is None,
        ensures
            final(self).decls() == std_declarations(),
            final(self).function_body == old(self).function_body,
            final(self).owndata == old(self).owndata,
    {
        let a = vec![arg("number_of_d6_to_roll", TypeData::Int)];
        assert(view_args(a@) =~= seq![("number_of_d6_to_roll"@, TypeData::Int)]);
        self.functions.push(std_decl("roll_d6", a, TypeData::CollectionOfInt));
        let a = vec![arg("number_of_d3_to_roll", TypeData::Int)];
        assert(view_args(a@) =~= seq![("number_of_d3_to_roll"@, TypeData::Int)]);
        self.functions.push(std_decl("roll_d3", a, TypeData::CollectionOfInt));
        let a = vec![
            arg("max_value_roll_can_return_inclusive", TypeData::Int),
            arg("min_value_roll_can_return_inclusive", TypeData::Int),
            arg("filters_to_reroll", TypeData::CollectionOfBool),
            arg("collection_to_be_re_rolled", TypeData::CollectionOfInt),
        ];
        assert(view_args(a@) =~= seq![
            ("max_value_roll_can_return_inclusive"@, TypeData::Int),
            ("min_value_roll_can_return_inclusive"@, TypeData::Int),
            ("filters_to_reroll"@, TypeData::CollectionOfBool),
            ("collection_to_be_re_rolled"@, TypeData::CollectionOfInt),
        ]);
        self.functions.push(std_decl("reroll", a, TypeData::CollectionOfInt));
        let a = vec![
            arg("max_value_roll_can_return_inclusive", TypeData::Int),
            arg("min_value_roll_can_return_inclusive", TypeData::Int),
            arg("number_of_rolls_to_make", TypeData::Int),
        ];
        assert(view_args(a@) =~= seq![
            ("max_value_roll_can_return_inclusive"@, TypeData::Int),
            ("min_value_roll_can_return_inclusive"@, TypeData::Int),
            ("number_of_rolls_to_make"@, TypeData::Int),
        ]);
        self.functions.push(std_decl("roll", a, TypeData::CollectionOfInt));
        let a = vec![
            arg("collection_of_tests_to_filter_with", TypeData::CollectionOfBool),
            arg("collection_of_data_to_filter", TypeData::CollectionOfInt),
        ];
        assert(view_args(a@) =~= seq![
            ("collection_of_tests_to_filter_with"@, TypeData::CollectionOfBool),
            ("collection_of_data_to_filter"@, TypeData::CollectionOfInt),
        ]);
        self.functions.push(std_decl("filter", a, TypeData::CollectionOfBool));
        let a = vec![arg("collection_to_sum_over", TypeData::CollectionOfBool)];
        assert(view_args(a@) =~= seq![("collection_to_sum_over"@, TypeData::CollectionOfBool)]);
        self.functions.push(std_decl("count", a, TypeData::Int));
        let a = vec![arg("collection_to_sum_with", TypeData::CollectionOfInt)];
        assert(view_args(a@) =~= seq![("collection_to_sum_with"@, TypeData::CollectionOfInt)]);
        self.functions.push(std_decl("sum", a, TypeData::Int));
        assert(view_funcs(self.functions@) =~= std_functions());
        assert(view_consts(self.constants@) =~= Seq::empty());
    }

    /// Declares `arg` if it is a constant.
    fn add_const(&mut self, arg: &Structures) -> (r: Result<(), String>)
        ensures
            match arg@ {
                StructuresView::Constant(c) => match declare_const(old(self).decls(), c) {
                    Ok(d) => r is Ok && final(self).decls() == d,
                    Err(x) => r matches Err(y) && y@ == x,
                },
                _ => r is Ok && final(self).decls() == old(self).decls(),
            },
            final(self).function_body == old(self).function_body,
            final(self).owndata == old(self).owndata,
    {
        match arg.to_const() {
            Option::None => Ok(()),
            Option::Some(c) => {
                if let Option::Some(_) = self.get_function(c.name.as_str()) {
                    let mut s = String::from_str("constant named=\"");
                    s.append(c.name.as_str());
                    s.append("\" cannot be declared, function=\"");
                    s.append(c.name.as_str());
                    s.append("\" uses that name");
                    assert(s@ =~= "constant named=\""@ + c@.name + "\" cannot be declared, function=\""@ + c@.name
                        + "\" uses that name"@);
                    return Err(s);
                }
                if let Option::Some(_) = self.get_constant(c.name.as_str()) {
                    let mut s = String::from_str("const named=\"");
                    s.append(c.name.as_str());
                    s.append("\" already exists");
                    assert(s@ =~= "const named=\""@ + c@.name + "\" already exists"@);
                    return Err(s);
                }
                let ghost prev = self.constants@;
                self.constants.push(c.duplicate());
                assert(view_consts(self.constants@) =~= view_consts(prev).push(c@));
                Ok(())
            },
        }
    }

    /// Declares `arg` if it is an analysis.
    fn add_analysis(&mut self, arg: &Structures) -> (r: Result<(), String>)
        ensures
            match arg@ {
                StructuresView::Analyze(e) => match declare_analysis(old(self).decls(), e) {
                    Ok(d) => r is Ok && final(self).decls() == d,
                    Err(x) => r matches Err(y) && y@ == x,
                },
                _ => r is Ok && final(self).decls() == old(self).decls(),
            },
            final(self).function_body == old(self).function_body,
            final(self).owndata == old(self).owndata,
    {
        match arg.to_analysis() {
            Option::None => Ok(()),
            Option::Some(a) => {
                if let Some(old_analysis) = &self.analysis {
                    let mut s = String::from_str("analyze statement is already declared\n\n");
                    old_analysis.expr.write_to(&mut s);
                    s.append("\n\nsecond declaration\n\n");
                    a.expr.write_to(&mut s);
                    s.append("\n\n is error");
                    assert(s@ =~= "analyze statement is already declared\n\n"@ + expr_text(old_analysis.expr@)
                        + "\n\nsecond declaration\n\n"@ + expr_text(a.expr@) + "\n\n is error"@);
                    return Err(s);
                }
                self.analysis = Some(a.duplicate());
                Ok(())
            },
        }
    }

    /// Declares `arg` if it is a function.
    fn add_function(&mut self, arg: &Structures) -> (r: Result<(), String>)
        ensures
            match arg@ {
                StructuresView::Func(f) => match declare_func(old(self).decls(), f) {
                    Ok(d) => r is Ok && final(self).decls() == d,
                    Err(x) => r matches Err(y) && y@ == x,
                },
                _ => r is Ok && final(self).decls() == old(self).decls(),
            },
            final(self).function_body == old(self).function_body,
            final(self).owndata == old(self).owndata,
    {
        match arg.to_func() {
            Option::None => Ok(()),
            Option::Some(f) => {
                if let Option::Some(_) = self.get_constant(f.name.as_str()) {
                    let mut s = String::from_str("function named=\"");
                    s.append(f.name.as_str());
                    s.append("\" cannot be declared, constant=\"");
                    s.append(f.name.as_str());
                    s.append("\" uses that name");
                    assert(s@ =~= "function named=\""@ + f@.name + "\" cannot be declared, constant=\""@ + f@.name
                        + "\" uses that name"@);
                    return Err(s);
                }
                if let Option::Some(_) = self.get_function(f.name.as_str()) {
                    let mut s = String::from_str("function named=\"");
                    s.append(f.name.as_str());
                    s.append("\" already exists");
                    assert(s@ =~= "function named=\""@ + f@.name + "\" already exists"@);
                    return Err(s);
                }
                let ghost prev = self.functions@;
                self.functions.push(f.duplicate());
                assert(view_funcs(self.functions@) =~= view_funcs(prev).push(f@));
                Ok(())
            },
        }
    }

    /// The declaration of the function named `arg`, for argument and type
    /// checking.
    pub fn get_function(&self, arg: &str) -> (r: Option<&FunctionDeclaration>)
        ensures
            match find_func(self@.functions, arg@) {
                Some(f) => r matches Some(d) && d@ == f,
                None => r is None,
            },
    {
        let n = self.functions.len();
        let ghost names = func_names(view_funcs(self.functions@));
        for i in 0..n
            invariant
                n == self.functions@.len(),
                names == func_names(view_funcs(self.functions@)),
                forall|j: int| 0 <= j < i ==> names[j] != arg@,
        {
            if same_name(self.functions[i].name.as_str(), arg) {
                proof {
                    lemma_index_of_at(names, arg@, i as int);
                }
                return Some(&self.functions[i]);
            }
        }
        proof {
            lemma_index_of_at(names, arg@, n as int);
        }
        None
    }

    /// The declaration of the constant named `arg`, for type checking and
    /// validation.
    pub fn get_constant(&self, arg: &str) -> (r: Option<&ConstantDeclaration>)
        ensures
            match find_const(self@.constants, arg@) {
                Some(c) => r matches Some(d) && d@ == c,
                None => r is None,
            },
    {
        let n = self.constants.len();
        let ghost names = const_names(view_consts(self.constants@));
        for i in 0..n
            invariant
                n == self.constants@.len(),
                names == const_names(view_consts(self.constants@)),
                forall|j: int| 0 <= j < i ==> names[j] != arg@,
        {
            if same_name(self.constants[i].name.as_str(), arg) {
                proof {
                    lemma_index_of_at(names, arg@, i as int);
                }
                return Some(&self.constants[i]);
            }
        }
        proof {
            lemma_index_of_at(names, arg@, n as int);
        }
        None
    }

    /// All constants, in the order they were declared.
    pub fn get_all_constants(&self) -> (r: &Vec<ConstantDeclaration>)
        ensures
            view_consts(r@) == self@.constants,
    {
        &self.constants
    }

    /// Every function's lowered body, paired with the function's name.
    pub fn get_all_function_blocks(&self) -> (r: &Vec<(String, BasicBlock)>)
        ensures
            view_bodies(r@) == self@.bodies,
    {
        &self.function_body
    }

    /// The analysis of this program.
    pub fn get_analysis(&self) -> (r: &Option<AnalysisDeclaration>)
        ensures
            view_analysis(*r) == self@.analysis,
    {
        &self.analysis
    }

    /// The type of the constant named `name`.
    pub fn get_constant_type(&self, name: &str) -> (r: Option<TypeData>)
        ensures
            r == match find_const(self@.constants, name@) {
                Some(c) => Some(c.kind),
                None => None::<TypeData>,
            },
    {
        match self.get_constant(name) {
            Option::Some(c) => Some(c.kind),
            Option::None => None,
        }
    }

    /// Whether a constant or a function has this name.
    pub fn is_name_defined(&self, arg: &str) -> (r: bool)
        ensures
            r == (find_const(self@.constants, arg@) is Some || find_func(self@.functions, arg@) is Some),
    {
        self.get_constant(arg).is_some() || self.get_function(arg).is_some()
    }

    /// The root block: the constants and the analysis, lowered.
    pub fn get_own_block(&self) -> (r: &Option<BasicBlock>)
        ensures
            view_own(*r) == self@.own,
    {
        &self.owndata
    }
}

} // verus!
