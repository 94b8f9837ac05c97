use vstd::prelude::*;
use vstd::string::StringExecFns;

use crate::assoc::{assoc_get, lemma_assoc_get};
use crate::namespace::namespace::view_structures;
use crate::parser_output::{
    same_name, view_args, FunctionView, ConstantView, Statements, Structures, StructuresView, TypeData,
};

verus! {

/// The value of a global scope: the return type and the arguments of each
/// function, and the type of each constant, as association lists by name.
#[verifier::ext_equal]
pub struct ScopeView {
    pub function_types: Seq<(Seq<char>, TypeData)>,
    pub function_args: Seq<(Seq<char>, Seq<(Seq<char>, TypeData)>)>,
    pub constant_types: Seq<(Seq<char>, TypeData)>,
}

/// The empty scope.
pub open spec fn empty_scope() -> ScopeView {
    ScopeView { function_types: Seq::empty(), function_args: Seq::empty(), constant_types: Seq::empty() }
}

/// The error for a function and a constant of the same name.
pub open spec fn both_named_text(name: Seq<char>) -> Seq<char> {
    "function & constant are both named '"@ + name + "' this is illegal"@
}

/// The error for a second function of a name.
pub open spec fn multiple_functions_text(name: Seq<char>) -> Seq<char> {
    "multiple functions with name '"@ + name + "' encountered"@
}

/// The error for a second constant of a name.
pub open spec fn multiple_constants_text(name: Seq<char>) -> Seq<char> {
    "multiple constants with name '"@ + name + "' encountered"@
}

/// The error for a program with more than one analysis.
pub open spec fn multiple_analyze_text() -> Seq<char> {
    "There are only be 1 analyze statement per input"@
}

/// Records one function: refused where a constant has its name; where a
/// function already has it, its return type is recorded over the old one
/// and the error is given.
pub open spec fn function_step(g: ScopeView, f: FunctionView) -> (ScopeView, Result<(), Seq<char>>) {
    if assoc_get(g.constant_types, f.name) is Some {
        (g, Err(both_named_text(f.name)))
    } else if assoc_get(g.function_types, f.name) is Some {
        (ScopeView { function_types: g.function_types.push((f.name, f.ret)), ..g }, Err(multiple_functions_text(f.name)))
    } else {
        (
            ScopeView {
                function_types: g.function_types.push((f.name, f.ret)),
                function_args: g.function_args.push((f.name, f.args)),
                ..g
            },
            Ok(()),
        )
    }
}

/// Records the functions among `s`, in order, up to the first error.
pub open spec fn gather_functions(g: ScopeView, s: Seq<StructuresView>) -> (ScopeView, Result<(), Seq<char>>)
    decreases s.len(),
{
    if s.len() == 0 {
        (g, Ok(()))
    } else {
        match s[0] {
            StructuresView::Func(f) => {
                let (g1, r) = function_step(g, f);
                match r {
                    Ok(_) => gather_functions(g1, s.drop_first()),
                    Err(m) => (g1, Err(m)),
                }
            },
            _ => gather_functions(g, s.drop_first()),
        }
    }
}

/// Records one constant: refused where a function has its name; where a
/// constant already has it, its type is recorded over the old one and the
/// error is given.
pub open spec fn constant_step(g: ScopeView, c: ConstantView) -> (ScopeView, Result<(), Seq<char>>) {
    if assoc_get(g.function_types, c.name) is Some {
        (g, Err(both_named_text(c.name)))
    } else {
        let g1 = ScopeView { constant_types: g.constant_types.push((c.name, c.kind)), ..g };
        if assoc_get(g.constant_types, c.name) is Some {
            (g1, Err(multiple_constants_text(c.name)))
        } else {
            (g1, Ok(()))
        }
    }
}

/// Records the constants among `s`, in order, up to the first error.
pub open spec fn gather_constants(g: ScopeView, s: Seq<StructuresView>) -> (ScopeView, Result<(), Seq<char>>)
    decreases s.len(),
{
    if s.len() == 0 {
        (g, Ok(()))
    } else {
        match s[0] {
            StructuresView::Constant(c) => {
                let (g1, r) = constant_step(g, c);
                match r {
                    Ok(_) => gather_constants(g1, s.drop_first()),
                    Err(m) => (g1, Err(m)),
                }
            },
            _ => gather_constants(g, s.drop_first()),
        }
    }
}

/// The number of analyses among `s`.
pub open spec fn count_analyze(s: Seq<StructuresView>) -> nat
    decreases s.len(),
{
    if s.len() == 0 {
        0
    } else {
        count_analyze(s.drop_last()) + if s.last() is Analyze {
            1nat
        } else {
            0nat
        }
    }
}

/// GlobalScope holds what the program declares at the top level: the
/// return type and arguments of each function, the statements of their
/// bodies, and the type of each constant.
pub struct GlobalScope {
    functions_type_data: Vec<(String, TypeData)>,
    functions_arg_data: Vec<(String, Vec<(String, TypeData)>)>,
    function_statement_data: Vec<(String, Statements)>,
    constants_type_data: Vec<(String, TypeData)>,
}

impl View for GlobalScope {
    type V = ScopeView;

    closed spec fn view(&self) -> ScopeView {
        ScopeView {
            function_types: self.functions_type_data@.map_values(|p: (String, TypeData)| (p.0@, p.1)),
            function_args: self.functions_arg_data@.map_values(
                |p: (String, Vec<(String, TypeData)>)| (p.0@, view_args(p.1@)),
            ),
            constant_types: self.constants_type_data@.map_values(|p: (String, TypeData)| (p.0@, p.1)),
        }
    }
}

/// The position of the last pair named `k`.
fn find_name<T>(s: &Vec<(String, T)>, k: &str) -> (r: Option<usize>)
    ensures
        match r {
            Some(i) => i < s@.len() && s@[i as int].0@ == k@ && forall|j: int| i < j < s@.len() ==> s@[j].0@ != k@,
            None => forall|j: int| 0 <= j < s@.len() ==> s@[j].0@ != k@,
        },
{
    let mut i: usize = s.len();
    while i > 0
        invariant
            i <= s@.len(),
            forall|j: int| i <= j < s@.len() ==> s@[j].0@ != k@,
        decreases i,
    {
        if same_name(s[i - 1].0.as_str(), k) {
            return Some(i - 1);
        }
        i = i - 1;
    }
    None
}

/// Whether some pair is named `k`, as a lookup by name sees it.
fn has_name(s: &Vec<(String, TypeData)>, k: &str) -> (r: bool)
    ensures
        r == assoc_get(s@.map_values(|p: (String, TypeData)| (p.0@, p.1)), k@) is Some,
{
    let ghost m = s@.map_values(|p: (String, TypeData)| (p.0@, p.1));
    match find_name(s, k) {
        Option::Some(i) => {
            proof {
                lemma_assoc_get(m, k@, i as int);
            }
            true
        },
        Option::None => {
            proof {
                lemma_assoc_get(m, k@, m.len() as int);
            }
            false
        },
    }
}

/// `prefix'name'suffix`.
fn quote(prefix: &str, name: &str, suffix: &str) -> (r: String)
    ensures
        r@ == prefix@ + name@ + suffix@,
{
    let mut s = String::from_str(prefix);
    s.append(name);
    s.append(suffix);
    s
}

impl GlobalScope {
    /// A scope with nothing declared.
    pub fn new() -> (r: GlobalScope)
        ensures
            r@ == empty_scope(),
    {
        let r = GlobalScope {
            functions_type_data: Vec::new(),
            functions_arg_data: Vec::new(),
            function_statement_data: Vec::new(),
            constants_type_data: Vec::new(),
        };
        assert(r@.function_types =~= Seq::<(Seq<char>, TypeData)>::empty());
        assert(r@.function_args =~= Seq::<(Seq<char>, Seq<(Seq<char>, TypeData)>)>::empty());
        assert(r@.constant_types =~= Seq::<(Seq<char>, TypeData)>::empty());
        r
    }

    /// Records the return type and arguments of every function among
    /// `structures`, in order; stops at the first function that shares its
    /// name with a constant or with an earlier function.
    pub fn gather_function_data(&mut self, structures: &[Structures]) -> (r: Result<(), String>)
        ensures
            final(self)@ == gather_functions(old(self)@, view_structures(structures@)).0,
            match gather_functions(old(self)@, view_structures(structures@)).1 {
                Ok(_) => r is Ok,
                Err(m) => r matches Err(e) && e@ == m,
            },
    {
        let ghost sv = view_structures(structures@);
        let n = structures.len();
        assert(sv.skip(0) =~= sv);
        for i in 0..n
            invariant
                n == structures@.len(),
                sv == view_structures(structures@),
                gather_functions(old(self)@, sv) == gather_functions(self@, sv.skip(i as int)),
        {
            assert(sv.skip(i as int).drop_first() =~= sv.skip(i + 1));
            assert(sv.skip(i as int)[0] == structures@[i as int]@);
            match structures[i].to_func() {
                Option::Some(func_dec) => {
                    let ghost g = self@;
                    if has_name(&self.constants_type_data, func_dec.name.as_str()) {
                        return Err(quote("function & constant are both named '", func_dec.name.as_str(), "' this is illegal"));
                    }
                    let already = has_name(&self.functions_type_data, func_dec.name.as_str());
                    self.functions_type_data.push((func_dec.name.clone(), func_dec.ret));
                    if already {
                        assert(self@ =~= function_step(g, func_dec@).0);
                        return Err(quote("multiple functions with name '", func_dec.name.as_str(), "' encountered"));
                    }
                    let args = copy_args(&func_dec.args);
                    self.functions_arg_data.push((func_dec.name.clone(), args));
                    assert(self@ =~= function_step(g, func_dec@).0);
                },
                Option::None => {},
            }
        }
        assert(sv.skip(n as int) =~= Seq::<StructuresView>::empty());
        Ok(())
    }

    /// Records the type of every constant among `structures`, in order;
    /// stops at the first constant that shares its name with a function or
    /// with an earlier constant.
    pub fn gather_constant_type_data(&mut self, structures: &[Structures]) -> (r: Result<(), String>)
        ensures
            final(self)@ == gather_constants(old(self)@, view_structures(structures@)).0,
            match gather_constants(old(self)@, view_structures(structures@)).1 {
                Ok(_) => r is Ok,
                Err(m) => r matches Err(e) && e@ == m,
            },
    {
        let ghost sv = view_structures(structures@);
        let n = structures.len();
        assert(sv.skip(0) =~= sv);
        for i in 0..n
            invariant
                n == structures@.len(),
                sv == view_structures(structures@),
                gather_constants(old(self)@, sv) == gather_constants(self@, sv.skip(i as int)),
        {
            assert(sv.skip(i as int).drop_first() =~= sv.skip(i + 1));
            assert(sv.skip(i as int)[0] == structures@[i as int]@);
            match structures[i].to_const() {
                Option::Some(cons) => {
                    let ghost g = self@;
                    if has_name(&self.functions_type_data, cons.name.as_str()) {
                        return Err(quote("function & constant are both named '", cons.name.as_str(), "' this is illegal"));
                    }
                    let already = has_name(&self.constants_type_data, cons.name.as_str());
                    self.constants_type_data.push((cons.name.clone(), cons.kind));
                    assert(self@ =~= constant_step(g, cons@).0);
                    if already {
                        return Err(quote("multiple constants with name '", cons.name.as_str(), "' encountered"));
                    }
                },
                Option::None => {},
            }
        }
        assert(sv.skip(n as int) =~= Seq::<StructuresView>::empty());
        Ok(())
    }

    /// Refuses a program with more than one analysis.
    pub fn multiple_analyze(structures: &[Structures]) -> (r: Result<(), String>)
        ensures
            count_analyze(view_structures(structures@)) > 1 ==> (r matches Err(e) && e@ == multiple_analyze_text()),
            count_analyze(view_structures(structures@)) <= 1 ==> r is Ok,
    {
        let ghost sv = view_structures(structures@);
        let n = structures.len();
        let mut count: usize = 0;
        assert(sv.take(0) =~= Seq::<StructuresView>::empty());
        for i in 0..n
            invariant
                n == structures@.len(),
                sv == view_structures(structures@),
                count == count_analyze(sv.take(i as int)),
                count <= i,
        {
            assert(sv.take(i + 1).drop_last() =~= sv.take(i as int));
            match &structures[i] {
                Structures::Analyze(_) => {
                    count = count + 1;
                },
                _ => {},
            }
        }
        assert(sv.take(n as int) =~= sv);
        if count > 1 {
            return Err(String::from_str("There are only be 1 analyze statement per input"));
        }
        Ok(())
    }
}

/// A copy of a function's arguments.
fn copy_args(args: &Vec<(String, TypeData)>) -> (r: Vec<(String, TypeData)>)
    ensures
        view_args(r@) == view_args(args@),
{
    let mut out: Vec<(String, TypeData)> = Vec::new();
    let n = args.len();
    for i in 0..n
        invariant
            n == args@.len(),
            view_args(out@) == view_args(args@.take(i as int)),
    {
        let ghost before = out@;
        out.push((args[i].0.clone(), args[i].1));
        assert(view_args(out@) =~= view_args(before).push((args@[i as int].0@, args@[i as int].1)));
        assert(view_args(args@.take(i + 1)) =~= view_args(args@.take(i as int)).push(
            (args@[i as int].0@, args@[i as int].1),
        ));
    }
    assert(args@.take(n as int) =~= args@);
    out
}

} // verus!
