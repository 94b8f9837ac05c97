//! Basic blocks: a function body (or the program's root) lowered into
//! block expressions, with names resolved and types checked.
use vstd::prelude::*;

use crate::parser_output::{
    literal_type, ConstantView, ExprView, Expression, FunctionDeclaration, FunctionView, Statement,
    StatementView, TypeData, lemma_view_exprs, view_args, view_expr, view_exprs,
};

use super::blockexpression::{
    block_type, op_error_text, op_type, BlockExpression, BlockView, lemma_view_blocks, view_block, view_blocks,
};
use crate::printing::{block_text, expr_text, type_text};
use crate::text::{digits, push_digits};
use super::namespace::{
    find_const, find_func, index_of, lemma_index_of_at, Namespace, view_consts,
};

verus! {

/// The value of a basic block: its variables in the order they were
/// bound, each with the expression it is bound to, and its return
/// expression if it has one.
pub struct BlockModel {
    pub vars: Seq<(Seq<char>, BlockView)>,
    pub ret: Option<BlockView>,
}

/// The empty block.
pub open spec fn empty_model() -> BlockModel {
    BlockModel { vars: Seq::empty(), ret: None }
}

/// The names a block binds.
pub open spec fn var_names(vars: Seq<(Seq<char>, BlockView)>) -> Seq<Seq<char>> {
    vars.map_values(|p: (Seq<char>, BlockView)| p.0)
}

/// The expression the first variable named `name` is bound to.
pub open spec fn find_var(vars: Seq<(Seq<char>, BlockView)>, name: Seq<char>) -> Option<BlockView> {
    let i = index_of(var_names(vars), name);
    if i < vars.len() {
        Some(vars[i].1)
    } else {
        None
    }
}

/// Whether a name is taken: by a constant, a function, or a variable of
/// the block.
pub open spec fn name_defined(
    cs: Seq<ConstantView>,
    fs: Seq<FunctionView>,
    vars: Seq<(Seq<char>, BlockView)>,
    name: Seq<char>,
) -> bool {
    find_const(cs, name) is Some || find_func(fs, name) is Some || find_var(vars, name) is Some
}

/// What a name in expression position refers to: a constant first, then
/// an argument of the function, then a variable of the block.
pub open spec fn var_ref(
    cs: Seq<ConstantView>,
    vars: Seq<(Seq<char>, BlockView)>,
    name: Seq<char>,
) -> Result<BlockView, Seq<char>> {
    match find_const(cs, name) {
        Some(c) => Ok(BlockView::ExternalConstant(name, c.kind)),
        None => match find_var(vars, name) {
            Some(BlockView::FunctionArg(_, k)) => Ok(BlockView::FunctionArg(name, k)),
            Some(b) => Ok(BlockView::Var(name, block_type(b))),
            None => Err("variable name:'"@ + name + "' is not defined"@),
        },
    }
}

/// The message for an invocation of a name no function has.
pub open spec fn unresolved_text(e: ExprView) -> Seq<char> {
    "function invocation: '"@ + expr_text(e) + "' cannot be resolved. no function of that name is defined"@
}

/// The message for an invocation of `name` with `found` arguments where
/// it declares `expected`.
pub open spec fn arg_count_text(e: ExprView, name: Seq<char>, expected: nat, found: nat) -> Seq<char> {
    "function invocation: '"@ + expr_text(e) + "' has the name of function: '"@ + name
        + "' but incorrect argument count. Expected: "@ + digits(expected) + " Found: "@ + digits(found)
}

/// The message for argument `index` of the invocation `call` of `name`
/// having type `found` where the parameter declares `expected`.
pub open spec fn arg_type_text(call: ExprView, index: nat, name: Seq<char>, expected: TypeData, found: TypeData) -> Seq<char> {
    "expression: '"@ + expr_text(call) + "' has an error the "@ + digits(index) + " argument to function '"@ + name
        + "' is of the incorrect type. Expected type:"@ + type_text(expected) + " Found type:"@ + type_text(found)
}

/// Lowering an expression: names are resolved, invocations must name a
/// function and give it as many arguments as it declares, each of the
/// declared type, and operations must be legal on their operands' types.
/// The error is the message for the first of these that fails, left to
/// right.
pub open spec fn convert(
    cs: Seq<ConstantView>,
    fs: Seq<FunctionView>,
    vars: Seq<(Seq<char>, BlockView)>,
    e: ExprView,
) -> Result<BlockView, Seq<char>>
    decreases e,
{
    match e {
        ExprView::Literal(l) => Ok(BlockView::ConstantValue(l, literal_type(l))),
        ExprView::Variable(name) => var_ref(cs, vars, name),
        ExprView::Func(name, args) => match find_func(fs, name) {
            None => Err(unresolved_text(e)),
            Some(d) => if d.args.len() != args.len() {
                Err(arg_count_text(e, d.name, d.args.len(), args.len()))
            } else {
                match convert_args(cs, fs, vars, args, d.args, Seq::empty(), e, d.name) {
                    Ok(bs) => Ok(BlockView::Func(name, bs, d.ret)),
                    Err(m) => Err(m),
                }
            },
        },
        ExprView::Operation(l, op, r) => match convert(cs, fs, vars, *l) {
            Err(m) => Err(m),
            Ok(lb) => match convert(cs, fs, vars, *r) {
                Err(m) => Err(m),
                Ok(rb) => match op_type(op, block_type(lb), block_type(rb)) {
                    Some(t) => Ok(BlockView::Op(Box::new(lb), op, Box::new(rb), t)),
                    None => Err(op_error_text(lb, op, rb)),
                },
            },
        },
    }
}

/// Lowering the arguments of the invocation `call` of `fname`, left to
/// right, onto those lowered so far; each must have the type its
/// parameter declares.
pub open spec fn convert_args(
    cs: Seq<ConstantView>,
    fs: Seq<FunctionView>,
    vars: Seq<(Seq<char>, BlockView)>,
    args: Seq<ExprView>,
    decl: Seq<(Seq<char>, TypeData)>,
    done: Seq<BlockView>,
    call: ExprView,
    fname: Seq<char>,
) -> Result<Seq<BlockView>, Seq<char>>
    decreases args,
{
    if args.len() == 0 {
        Ok(done)
    } else {
        match convert(cs, fs, vars, args[0]) {
            Err(m) => Err(m),
            Ok(b) => if decl.len() == 0 || block_type(b) != decl[0].1 {
                Err(arg_type_text(call, done.len(), fname, decl[0].1, block_type(b)))
            } else {
                convert_args(cs, fs, vars, args.drop_first(), decl.drop_first(), done.push(b), call, fname)
            },
        }
    }
}

/// Binding the arguments of function `fname`, in order; an argument may
/// not reuse a name that is taken.
pub open spec fn args_fold(
    cs: Seq<ConstantView>,
    fs: Seq<FunctionView>,
    fname: Seq<char>,
    args: Seq<(Seq<char>, TypeData)>,
    m: BlockModel,
) -> Result<BlockModel, Seq<char>>
    decreases args.len(),
{
    if args.len() == 0 {
        Ok(m)
    } else if name_defined(cs, fs, m.vars, args[0].0) {
        Err("within function declaration: '"@ + fname + "' argument: '"@ + args[0].0 + ": "@ + type_text(args[0].1)
            + "' its name collides with an external variable"@)
    } else {
        args_fold(
            cs,
            fs,
            fname,
            args.drop_first(),
            BlockModel {
                vars: m.vars.push((args[0].0, BlockView::FunctionArg(args[0].0, args[0].1))),
                ret: m.ret,
            },
        )
    }
}

/// One statement of function `fname` returning `ret`: a variable takes a
/// free name and an expression of its declared type; the return
/// expression has the function's return type and comes once.
pub open spec fn stmt_step(
    cs: Seq<ConstantView>,
    fs: Seq<FunctionView>,
    fname: Seq<char>,
    ret: TypeData,
    m: BlockModel,
    st: StatementView,
) -> Result<BlockModel, Seq<char>> {
    match st {
        StatementView::Variable(name, kind, e) => if name_defined(cs, fs, m.vars, name) {
            Err("variable: '"@ + name + "' collides with an existing name"@)
        } else {
            match convert(cs, fs, m.vars, e) {
                Err(x) => Err(x),
                Ok(b) => if block_type(b) != kind {
                    Err("in variable defination: '"@ + name + "' the expression: '"@ + expr_text(e) + "' returns type: '"@
                        + type_text(block_type(b)) + "' while the variable is declared '"@ + type_text(kind) + "'"@)
                } else {
                    Ok(BlockModel { vars: m.vars.push((name, b)), ret: m.ret })
                },
            }
        },
        StatementView::Return(e) => match convert(cs, fs, m.vars, e) {
            Err(x) => Err(x),
            Ok(b) => if block_type(b) != ret {
                Err("return expression: 'return "@ + expr_text(e) + ";' has type of '"@ + type_text(block_type(b))
                    + "' while the function we are returning: '"@ + fname + "' expects: '"@ + type_text(ret) + "'"@)
            } else if m.ret is Some {
                Err("multiple return statements\nold:\n"@ + block_text(m.ret->Some_0) + "\nnew:\n    return "@
                    + expr_text(e) + ";\n\n"@)
            } else {
                Ok(BlockModel { vars: m.vars, ret: Some(b) })
            },
        },
    }
}

/// The statements of function `fname`, in order.
pub open spec fn stmts_fold(
    cs: Seq<ConstantView>,
    fs: Seq<FunctionView>,
    fname: Seq<char>,
    ret: TypeData,
    stmts: Seq<StatementView>,
    m: BlockModel,
) -> Result<BlockModel, Seq<char>>
    decreases stmts.len(),
{
    if stmts.len() == 0 {
        Ok(m)
    } else {
        match stmt_step(cs, fs, fname, ret, m, stmts[0]) {
            Err(x) => Err(x),
            Ok(m2) => stmts_fold(cs, fs, fname, ret, stmts.drop_first(), m2),
        }
    }
}

/// The block of a function: its arguments bound, then its statements.
pub open spec fn spec_from_func(cs: Seq<ConstantView>, fs: Seq<FunctionView>, f: FunctionView) -> Result<BlockModel, Seq<char>> {
    match args_fold(cs, fs, f.name, f.args, empty_model()) {
        Err(x) => Err(x),
        Ok(m) => stmts_fold(cs, fs, f.name, f.ret, f.body, m),
    }
}

/// One constant of the root block: its expression has its declared type.
pub open spec fn const_step(cs: Seq<ConstantView>, fs: Seq<FunctionView>, m: BlockModel, c: ConstantView) -> Result<BlockModel, Seq<char>> {
    match convert(cs, fs, m.vars, c.expr) {
        Err(x) => Err(x),
        Ok(b) => if block_type(b) != c.kind {
            Err("constant declaration: '"@ + c.name + "' is in error. Expression: '"@ + expr_text(c.expr) + "' yeilds type: '"@
                + type_text(block_type(b)) + "' but we are binding type: '"@ + type_text(c.kind) + "'"@)
        } else {
            Ok(BlockModel { vars: m.vars.push((c.name, b)), ret: m.ret })
        },
    }
}

/// The constants of the root block, in order.
pub open spec fn consts_fold(
    cs: Seq<ConstantView>,
    fs: Seq<FunctionView>,
    todo: Seq<ConstantView>,
    m: BlockModel,
) -> Result<BlockModel, Seq<char>>
    decreases todo.len(),
{
    if todo.len() == 0 {
        Ok(m)
    } else {
        match const_step(cs, fs, m, todo[0]) {
            Err(x) => Err(x),
            Ok(m2) => consts_fold(cs, fs, todo.drop_first(), m2),
        }
    }
}

/// The root block: every constant, then the analysis as its return
/// expression; a program without an analysis is an error.
pub open spec fn spec_from_root(cs: Seq<ConstantView>, fs: Seq<FunctionView>, analysis: Option<ExprView>) -> Result<BlockModel, Seq<char>> {
    match consts_fold(cs, fs, cs, empty_model()) {
        Err(x) => Err(x),
        Ok(m) => match analysis {
            None => Err("program contains no analysis directive. How do we report?"@),
            Some(e) => match convert(cs, fs, m.vars, e) {
                Err(x) => Err(x),
                Ok(b) => Ok(BlockModel { vars: m.vars, ret: Some(b) }),
            },
        },
    }
}

/// A lowered expression agrees with the lowering the spec gives, its
/// error message included.
pub open spec fn block_result(r: Result<BlockExpression, String>, s: Result<BlockView, Seq<char>>) -> bool {
    match s {
        Ok(b) => r matches Ok(x) && x@ == b,
        Err(m) => r matches Err(x) && x@ == m,
    }
}

/// A lowered block agrees with the block the spec gives, its error
/// message included.
pub open spec fn model_result(r: Result<BasicBlock, String>, s: Result<BlockModel, Seq<char>>) -> bool {
    match s {
        Ok(m) => r matches Ok(x) && x@ == m,
        Err(x) => r matches Err(y) && y@ == x,
    }
}

/// The values of a block's variables.
pub open spec fn view_vars(s: Seq<(String, BlockExpression)>) -> Seq<(Seq<char>, BlockView)> {
    s.map_values(|p: (String, BlockExpression)| (p.0@, p.1@))
}

/// BasicBlock is in essence a function's body: its variables (arguments
/// included) bound to their lowered expressions, and its return. The
/// variables are kept in the order they were bound and looked up by name;
/// a function's block binds no name twice.
pub struct BasicBlock {
    populated_vars: Vec<(String, BlockExpression)>,
    populated_return_expresion: Option<BlockExpression>,
}

impl View for BasicBlock {
    type V = BlockModel;

    closed spec fn view(&self) -> BlockModel {
        BlockModel {
            vars: view_vars(self.populated_vars@),
            ret: match self.populated_return_expresion {
                Some(b) => Some(b@),
                None => None,
            },
        }
    }
}

impl BasicBlock {
    /// The block of a function: its arguments bound, then its statements
    /// lowered and checked against their declared types. No name is bound
    /// twice.
    pub fn from_func(names: &Namespace, func: &FunctionDeclaration) -> (r: Result<BasicBlock, String>)
        ensures
            model_result(r, spec_from_func(names@.constants, names@.functions, func@)),
            r matches Ok(b) ==> super::laws::distinct_names(var_names(b@.vars)),
    {
        let ghost cs = names@.constants;
        let ghost fs = names@.functions;
        let mut bb = BasicBlock { populated_vars: Vec::new(), populated_return_expresion: None };
        assert(bb@.vars =~= empty_model().vars);
        let ghost args = func@.args;
        assert(args.skip(0) =~= args);
        assert(bb@ =~= empty_model());
        let n = func.args.len();
        for i in 0..n
            invariant
                n == func.args@.len(),
                args == func@.args,
                args == view_args(func.args@),
                cs == names@.constants,
                fs == names@.functions,
                args_fold(cs, fs, func@.name, args, empty_model()) == args_fold(cs, fs, func@.name, args.skip(i as int), bb@),
        {
            proof {
                assert(args.skip(i as int)[0] == args[i as int]);
                assert(args.skip(i as int).drop_first() =~= args.skip(i + 1));
            }
            bb.add_function_vars(func, names, i, func.args[i].0.as_str(), func.args[i].1)?;
        }
        assert(args.skip(n as int) =~= Seq::<(Seq<char>, TypeData)>::empty());
        let ghost body = func@.body;
        assert(body.skip(0) =~= body);
        let m = func.body.data.len();
        for k in 0..m
            invariant
                m == func.body.data@.len(),
                body == func@.body,
                args == func@.args,
                cs == names@.constants,
                fs == names@.functions,
                match args_fold(cs, fs, func@.name, args, empty_model()) {
                    Ok(m0) => stmts_fold(cs, fs, func@.name, func.ret, body, m0) == stmts_fold(
                        cs,
                        fs,
                        func@.name,
                        func.ret,
                        body.skip(k as int),
                        bb@,
                    ),
                    Err(_) => false,
                },
        {
            proof {
                assert(body.skip(k as int)[0] == func.body.data@[k as int]@);
                assert(body.skip(k as int).drop_first() =~= body.skip(k + 1));
            }
            bb.add_statement(func, names, &func.body.data[k])?;
        }
        assert(body.skip(m as int) =~= Seq::<StatementView>::empty());
        proof {
            super::laws::lemma_function_block_distinct(cs, fs, func@);
        }
        Ok(bb)
    }

    /// The root block: every constant lowered and checked against its
    /// declared type, then the analysis as the return expression.
    pub fn from_root(names: &Namespace) -> (r: Result<BasicBlock, String>)
        ensures
            model_result(r, spec_from_root(names@.constants, names@.functions, names@.analysis)),
    {
        let ghost cs = names@.constants;
        let ghost fs = names@.functions;
        let mut bb = BasicBlock { populated_vars: Vec::new(), populated_return_expresion: None };
        assert(bb@.vars =~= empty_model().vars);
        let consts = names.get_all_constants();
        assert(cs.skip(0) =~= cs);
        assert(bb@ =~= empty_model());
        let n = consts.len();
        for i in 0..n
            invariant
                n == consts@.len(),
                view_consts(consts@) == cs,
                cs == names@.constants,
                fs == names@.functions,
                bb@.ret is None,
                consts_fold(cs, fs, cs, empty_model()) == consts_fold(cs, fs, cs.skip(i as int), bb@),
        {
            let value = &consts[i];
            proof {
                assert(cs.skip(i as int)[0] == value@);
                assert(cs.skip(i as int).drop_first() =~= cs.skip(i + 1));
            }
            let expr = bb.convert_expression(names, &value.expr)?;
            let expr_type = expr.kind();
            if value.kind != expr_type {
                let mut s = String::from_str("constant declaration: '");
                s.append(value.name.as_str());
                s.append("' is in error. Expression: '");
                value.expr.write_to(&mut s);
                s.append("' yeilds type: '");
                s.append(expr_type.to_string().as_str());
                s.append("' but we are binding type: '");
                s.append(value.kind.to_string().as_str());
                s.append("'");
                assert(s@ =~= "constant declaration: '"@ + value@.name + "' is in error. Expression: '"@ + expr_text(value@.expr)
                    + "' yeilds type: '"@ + type_text(expr_type) + "' but we are binding type: '"@ + type_text(value@.kind) + "'"@);
                return Err(s);
            }
            let ghost prev = bb@;
            bb.populated_vars.push((value.name.clone(), expr));
            assert(bb@.vars =~= prev.vars.push((value@.name, expr@)));
        }
        assert(cs.skip(n as int) =~= Seq::<ConstantView>::empty());
        let analysis = match names.get_analysis() {
            Option::Some(analysis) => analysis,
            Option::None => {
                return Err(String::from_str("program contains no analysis directive. How do we report?"));
            },
        };
        let expr = bb.convert_expression(names, &analysis.expr)?;
        bb.populated_return_expresion = Some(expr);
        Ok(bb)
    }

    /// The return expression of the block, if it has one.
    pub fn get_return(&self) -> (r: &Option<BlockExpression>)
        ensures
            match *r {
                Some(b) => self@.ret == Some(b@),
                None => self@.ret is None,
            },
    {
        &self.populated_return_expresion
    }

    /// The variables of the block, each with its lowered expression.
    pub fn get_vars(&self) -> (r: &Vec<(String, BlockExpression)>)
        ensures
            view_vars(r@) == self@.vars,
    {
        &self.populated_vars
    }

    /// Applies one statement of `f`.
    fn add_statement(&mut self, f: &FunctionDeclaration, names: &Namespace, stmt: &Statement) -> (r: Result<(), String>)
        ensures
            match stmt_step(names@.constants, names@.functions, f.name@, f.ret, old(self)@, stmt@) {
                Ok(m) => r is Ok && final(self)@ == m,
                Err(x) => r matches Err(y) && y@ == x,
            },
    {
        match stmt {
            Statement::Variable(var) => {
                self.insert_variable(f, names, var.name.as_str(), var.kind, &var.expr)?;
            },
            Statement::Return(term) => {
                self.insert_return(f, names, &term.expr)?;
            },
        }
        Ok(())
    }

    /// Lowers an expression in the scope of this block.
    fn convert_expression(&self, n: &Namespace, expr: &Expression) -> (r: Result<BlockExpression, String>)
        ensures
            block_result(r, convert(n@.constants, n@.functions, self@.vars, expr@)),
        decreases expr,
    {
        match expr {
            Expression::Literal(lit) => BlockExpression::lit(&lit.lit),
            Expression::Variable(var) => self.convert_expr_var_name(n, var.name.as_str()),
            Expression::Func(func) => {
                let func_data = match n.get_function(func.name.as_str()) {
                    Option::None => {
                        let mut m = String::from_str("function invocation: '");
                        expr.write_to(&mut m);
                        m.append("' cannot be resolved. no function of that name is defined");
                        return Err(m);
                    },
                    Option::Some(func_data) => func_data,
                };
                proof {
                    lemma_view_exprs(func.args@);
                }
                if func_data.args.len() != func.args.len() {
                    let mut m = String::from_str("function invocation: '");
                    expr.write_to(&mut m);
                    m.append("' has the name of function: '");
                    m.append(func_data.name.as_str());
                    m.append("' but incorrect argument count. Expected: ");
                    push_digits(&mut m, func_data.args.len() as u64);
                    m.append(" Found: ");
                    push_digits(&mut m, func.args.len() as u64);
                    return Err(m);
                }
                proof {
                    lemma_view_exprs(func.args@);
                }
                let arg_vec = self.convert_args(n, &func.args, &func_data.args, expr, func_data.name.as_str())?;
                BlockExpression::func(func.name.clone(), arg_vec, func_data.ret)
            },
            Expression::Operation(op) => {
                let left = self.convert_expression(n, &op.left)?;
                let right = self.convert_expression(n, &op.right)?;
                BlockExpression::op(left, op.op, right)
            },
        }
    }

    /// Lowers the arguments of an invocation and checks each against the
    /// type its parameter declares.
    fn convert_args(
        &self,
        n: &Namespace,
        args: &Vec<Expression>,
        decl: &Vec<(String, TypeData)>,
        call: &Expression,
        func_name: &str,
    ) -> (r: Result<Vec<BlockExpression>, String>)
        requires
            args@.len() == decl@.len(),
        ensures
            match convert_args(
                n@.constants,
                n@.functions,
                self@.vars,
                view_exprs(args@),
                view_args(decl@),
                Seq::empty(),
                call@,
                func_name@,
            ) {
                Ok(bs) => r matches Ok(v) && view_blocks(v@) == bs,
                Err(x) => r matches Err(y) && y@ == x,
            },
        decreases args,
    {
        let ghost cs = n@.constants;
        let ghost fs = n@.functions;
        let ghost vars = self@.vars;
        let ghost all = view_exprs(args@);
        let ghost ds = view_args(decl@);
        proof {
            lemma_view_exprs(args@);
        }
        let mut out: Vec<BlockExpression> = Vec::new();
        assert(all.skip(0) =~= all);
        assert(ds.skip(0) =~= ds);
        assert(view_blocks(out@) =~= Seq::<BlockView>::empty());
        let len = args.len();
        for i in 0..len
            invariant
                len == args@.len(),
                len == decl@.len(),
                all == view_exprs(args@),
                all.len() == len,
                forall|j: int| 0 <= j < len ==> #[trigger] all[j] == view_expr(args@[j]),
                ds == view_args(decl@),
                cs == n@.constants,
                fs == n@.functions,
                vars == self@.vars,
                out@.len() == i,
                convert_args(cs, fs, vars, all, ds, Seq::empty(), call@, func_name@) == convert_args(
                    cs,
                    fs,
                    vars,
                    all.skip(i as int),
                    ds.skip(i as int),
                    view_blocks(out@),
                    call@,
                    func_name@,
                ),
        {
            proof {
                assert(decreases_to!(args => args@[i as int]));
                assert(all.skip(i as int)[0] == all[i as int]);
                assert(all.skip(i as int).drop_first() =~= all.skip(i + 1));
                assert(ds.skip(i as int)[0] == ds[i as int]);
                assert(ds.skip(i as int).drop_first() =~= ds.skip(i + 1));
            }
            let block_expr = self.convert_expression(n, &args[i])?;
            let found_type = block_expr.kind();
            if found_type != decl[i].1 {
                let mut m = String::from_str("expression: '");
                call.write_to(&mut m);
                m.append("' has an error the ");
                push_digits(&mut m, i as u64);
                m.append(" argument to function '");
                m.append(func_name);
                m.append("' is of the incorrect type. Expected type:");
                let expected = decl[i].1.to_string();
                m.append(expected.as_str());
                m.append(" Found type:");
                let found = found_type.to_string();
                m.append(found.as_str());
                proof {
                    lemma_view_blocks(out@);
                    assert(view_args(decl@)[i as int].1 == decl@[i as int].1);
                }
                assert(m@ =~= arg_type_text(call@, i as nat, func_name@, decl@[i as int].1, found_type));
                return Err(m);
            }
            let ghost prev = out@;
            out.push(block_expr);
            proof {
                lemma_view_blocks(prev);
                lemma_view_blocks(out@);
                assert(view_blocks(out@) =~= view_blocks(prev).push(block_expr@));
            }
        }
        assert(all.skip(len as int) =~= Seq::<ExprView>::empty());
        Ok(out)
    }

    /// Binds argument `index` of `f`, named `name`, unless the name is taken.
    fn add_function_vars(&mut self, f: &FunctionDeclaration, n: &Namespace, index: usize, name: &str, kind: TypeData) -> (r: Result<(), String>)
        ensures
            if name_defined(n@.constants, n@.functions, old(self)@.vars, name@) {
                r matches Err(e) && e@ == "within function declaration: '"@ + f.name@ + "' argument: '"@ + name@ + ": "@
                    + type_text(kind) + "' its name collides with an external variable"@
            } else {
                r is Ok && final(self)@ == (BlockModel {
                    vars: old(self)@.vars.push((name@, BlockView::FunctionArg(name@, kind))),
                    ret: old(self)@.ret,
                })
            },
    {
        if self.is_name_defined(n, name) {
            let mut s = String::from_str("within function declaration: '");
            s.append(f.name.as_str());
            s.append("' argument: '");
            s.append(name);
            s.append(": ");
            s.append(kind.to_string().as_str());
            s.append("' its name collides with an external variable");
            assert(s@ =~= "within function declaration: '"@ + f.name@ + "' argument: '"@ + name@ + ": "@ + type_text(kind)
                + "' its name collides with an external variable"@);
            return Err(s);
        }
        let ghost prev = self@;
        self.populated_vars.push((String::from_str(name), BlockExpression::FunctionArg(String::from_str(name), kind)));
        assert(self@.vars =~= prev.vars.push((name@, BlockView::FunctionArg(name@, kind))));
        Ok(())
    }

    /// Binds the variable `name: kind = expr`.
    fn insert_variable(&mut self, f: &FunctionDeclaration, n: &Namespace, name: &str, kind: TypeData, expr: &Expression) -> (r: Result<(), String>)
        ensures
            match stmt_step(n@.constants, n@.functions, f.name@, f.ret, old(self)@, StatementView::Variable(name@, kind, expr@)) {
                Ok(m) => r is Ok && final(self)@ == m,
                Err(x) => r matches Err(y) && y@ == x,
            },
    {
        if self.is_name_defined(n, name) {
            let mut s = String::from_str("variable: '");
            s.append(name);
            s.append("' collides with an existing name");
            assert(s@ =~= "variable: '"@ + name@ + "' collides with an existing name"@);
            return Err(s);
        }
        let block = self.convert_expression(n, expr)?;
        let expr_type = block.kind();
        if expr_type != kind {
            let mut s = String::from_str("in variable defination: '");
            s.append(name);
            s.append("' the expression: '");
            expr.write_to(&mut s);
            s.append("' returns type: '");
            s.append(expr_type.to_string().as_str());
            s.append("' while the variable is declared '");
            s.append(kind.to_string().as_str());
            s.append("'");
            assert(s@ =~= "in variable defination: '"@ + name@ + "' the expression: '"@ + expr_text(expr@) + "' returns type: '"@
                + type_text(expr_type) + "' while the variable is declared '"@ + type_text(kind) + "'"@);
            return Err(s);
        }
        let ghost prev = self@;
        self.populated_vars.push((String::from_str(name), block));
        assert(self@.vars =~= prev.vars.push((name@, block@)));
        Ok(())
    }

    /// Sets the return expression of `f`'s block.
    fn insert_return(&mut self, f: &FunctionDeclaration, n: &Namespace, expr: &Expression) -> (r: Result<(), String>)
        ensures
            match stmt_step(n@.constants, n@.functions, f.name@, f.ret, old(self)@, StatementView::Return(expr@)) {
                Ok(m) => r is Ok && final(self)@ == m,
                Err(x) => r matches Err(y) && y@ == x,
            },
    {
        let return_expr = self.convert_expression(n, expr)?;
        let return_type = return_expr.kind();
        if return_type != f.ret {
            let mut s = String::from_str("return expression: 'return ");
            expr.write_to(&mut s);
            s.append(";' has type of '");
            s.append(return_type.to_string().as_str());
            s.append("' while the function we are returning: '");
            s.append(f.name.as_str());
            s.append("' expects: '");
            s.append(f.ret.to_string().as_str());
            s.append("'");
            assert(s@ =~= "return expression: 'return "@ + expr_text(expr@) + ";' has type of '"@ + type_text(return_type)
                + "' while the function we are returning: '"@ + f.name@ + "' expects: '"@ + type_text(f.ret) + "'"@);
            return Err(s);
        }
        if let Some(old_term) = &self.populated_return_expresion {
            let mut s = String::from_str("multiple return statements\nold:\n");
            old_term.write_to(&mut s);
            s.append("\nnew:\n    return ");
            expr.write_to(&mut s);
            s.append(";\n\n");
            assert(s@ =~= "multiple return statements\nold:\n"@ + block_text(old_term@) + "\nnew:\n    return "@
                + expr_text(expr@) + ";\n\n"@);
            return Err(s);
        }
        self.populated_return_expresion = Some(return_expr);
        Ok(())
    }

    /// Whether the name is taken by the namespace or by this block.
    fn is_name_defined(&self, n: &Namespace, name: &str) -> (r: bool)
        ensures
            r == name_defined(n@.constants, n@.functions, self@.vars, name@),
    {
        n.is_name_defined(name) || self.find_var(name).is_some()
    }

    /// The expression bound to the first variable named `name`.
    fn find_var(&self, name: &str) -> (r: Option<&BlockExpression>)
        ensures
            match find_var(self@.vars, name@) {
                Some(b) => r matches Some(x) && x@ == b,
                None => r is None,
            },
    {
        let n = self.populated_vars.len();
        let ghost names = var_names(self@.vars);
        for i in 0..n
            invariant
                n == self.populated_vars@.len(),
                names == var_names(self@.vars),
                forall|j: int| 0 <= j < i ==> names[j] != name@,
        {
            if crate::parser_output::same_name(self.populated_vars[i].0.as_str(), name) {
                proof {
                    lemma_index_of_at(names, name@, i as int);
                }
                return Some(&self.populated_vars[i].1);
            }
        }
        proof {
            lemma_index_of_at(names, name@, n as int);
        }
        None
    }

    /// Resolves a name in expression position: a constant, an argument of
    /// the function, or a variable of the block.
    fn convert_expr_var_name(&self, namespace: &Namespace, name: &str) -> (r: Result<BlockExpression, String>)
        ensures
            block_result(r, var_ref(namespace@.constants, self@.vars, name@)),
    {
        match namespace.get_constant(name) {
            Option::None => {},
            Option::Some(constant_dec) => {
                return Ok(BlockExpression::ExternalConstant(String::from_str(name), constant_dec.kind));
            },
        }
        match self.find_var(name) {
            Option::Some(BlockExpression::FunctionArg(_, kind)) => {
                Ok(BlockExpression::FunctionArg(String::from_str(name), *kind))
            },
            Option::Some(block) => Ok(BlockExpression::Var(String::from_str(name), block.kind())),
            Option::None => {
                let mut m = String::from_str("variable name:'");
                m.append(name);
                m.append("' is not defined");
                Err(m)
            },
        }
    }
}

} // verus!
