//! The printed forms of the syntax, as the parser would read them back.
use vstd::prelude::*;
use vstd::string::StringExecFns;

use crate::namespace::blockexpression::{lemma_view_blocks, view_block, view_blocks, BlockExpression, BlockView};
use crate::parser_output::{
    view_args, view_expr, view_exprs, lemma_view_exprs, AbstractSyntaxTree, ExprView, Expression, Literal,
    LiteralView, Operation, Statement, StatementView, Statements, Structures, StructuresView, TypeData,
};
use crate::namespace::namespace::view_structures;
use crate::text::{int_text, push_int};

verus! {

/// The printed form of a type.
pub open spec fn type_text(k: TypeData) -> Seq<char> {
    match k {
        TypeData::Bool => "bool"@,
        TypeData::Int => "int"@,
        TypeData::CollectionOfBool => "vec<bool>"@,
        TypeData::CollectionOfInt => "vec<int>"@,
    }
}

/// The printed form of an operation.
pub open spec fn op_text(op: Operation) -> Seq<char> {
    match op {
        Operation::Add => "+"@,
        Operation::Sub => "-"@,
        Operation::Mul => "*"@,
        Operation::Div => "/"@,
        Operation::Or => "|"@,
        Operation::And => "&"@,
        Operation::Equal => "=="@,
        Operation::NotEqual => "!="@,
        Operation::GreaterThan => ">"@,
        Operation::LessThan => "<"@,
        Operation::GreaterThanEqual => ">="@,
        Operation::LessThanEqual => "<="@,
    }
}

/// The printed form of a literal: a number in decimal, `true` or `false`,
/// and an environment lookup as its sigil with the name in double braces.
pub open spec fn literal_text(l: LiteralView) -> Seq<char> {
    match l {
        LiteralView::Number(n) => int_text(n as int),
        LiteralView::Boolean(b) => if b {
            "true"@
        } else {
            "false"@
        },
        LiteralView::EnvirBool(name) => "%b{{"@ + name + "}}"@,
        LiteralView::EnvirNumber(name) => "%d{{"@ + name + "}}"@,
    }
}

/// The printed form of an expression: a call as the name and its arguments
/// between `( ` and ` )`, separated by `, `; an operation between `( ` and
/// ` )`, its operator set off by spaces.
pub open spec fn expr_text(e: ExprView) -> Seq<char>
    decreases e,
{
    match e {
        ExprView::Func(name, args) => name + "( "@ + args_text(args) + " )"@,
        ExprView::Variable(name) => name,
        ExprView::Literal(l) => literal_text(l),
        ExprView::Operation(l, op, r) => "( "@ + expr_text(*l) + " "@ + op_text(op) + " "@ + expr_text(*r)
            + " )"@,
    }
}

/// The printed arguments of a call, separated by `, `.
pub open spec fn args_text(s: Seq<ExprView>) -> Seq<char>
    decreases s,
{
    if s.len() == 0 {
        Seq::empty()
    } else if s.len() == 1 {
        expr_text(s[0])
    } else {
        args_text(s.drop_last()) + ", "@ + expr_text(s.last())
    }
}

/// The printed form of a statement, on a line of its own, indented.
pub open spec fn statement_text(s: StatementView) -> Seq<char> {
    match s {
        StatementView::Variable(name, kind, e) => "    let "@ + name + ": "@ + type_text(kind) + " = "@
            + expr_text(e) + ";\n"@,
        StatementView::Return(e) => "    return "@ + expr_text(e) + ";\n"@,
    }
}

/// The printed statements, one after the other.
pub open spec fn statements_text(s: Seq<StatementView>) -> Seq<char>
    decreases s.len(),
{
    if s.len() == 0 {
        Seq::empty()
    } else {
        statements_text(s.drop_last()) + statement_text(s.last())
    }
}

/// The printed parameters of a function, each `name: type`, separated by
/// `, `.
pub open spec fn params_text(s: Seq<(Seq<char>, TypeData)>) -> Seq<char>
    decreases s.len(),
{
    if s.len() == 0 {
        Seq::empty()
    } else if s.len() == 1 {
        s[0].0 + ": "@ + type_text(s[0].1)
    } else {
        params_text(s.drop_last()) + ", "@ + s.last().0 + ": "@ + type_text(s.last().1)
    }
}

/// The printed form of a top-level structure.
pub open spec fn structure_text(s: StructuresView) -> Seq<char> {
    match s {
        StructuresView::Analyze(e) => "analyze "@ + expr_text(e) + ";\n"@,
        StructuresView::Constant(c) => "const "@ + c.name + ": "@ + type_text(c.kind) + " = "@ + expr_text(c.expr)
            + ";\n"@,
        StructuresView::Func(f) => "fn "@ + f.name + "( "@ + params_text(f.args) + " ) -> "@ + type_text(f.ret)
            + " {\n "@ + statements_text(f.body) + " }\n"@,
    }
}

/// The printed structures, one after the other.
pub open spec fn structures_text(s: Seq<StructuresView>) -> Seq<char>
    decreases s.len(),
{
    if s.len() == 0 {
        Seq::empty()
    } else {
        structures_text(s.drop_last()) + structure_text(s.last())
    }
}

/// The printed form of a block expression: a call as the name and its
/// arguments between `(` and `)`, separated by `,`; an operation as in an
/// expression; names and literals as they are.
pub open spec fn block_text(b: BlockView) -> Seq<char>
    decreases b,
{
    match b {
        BlockView::ConstantValue(l, _) => literal_text(l),
        BlockView::ExternalConstant(name, _) => name,
        BlockView::FunctionArg(name, _) => name,
        BlockView::Var(name, _) => name,
        BlockView::Op(l, op, r, _) => "( "@ + block_text(*l) + " "@ + op_text(op) + " "@ + block_text(*r)
            + " )"@,
        BlockView::Func(name, args, _) => name + "("@ + block_args_text(args) + ")"@,
    }
}

/// The printed arguments of a block call, separated by `,`.
pub open spec fn block_args_text(s: Seq<BlockView>) -> Seq<char>
    decreases s,
{
    if s.len() == 0 {
        Seq::empty()
    } else if s.len() == 1 {
        block_text(s[0])
    } else {
        block_args_text(s.drop_last()) + ","@ + block_text(s.last())
    }
}

impl TypeData {
    /// The printed form of the type.
    pub fn to_string(&self) -> (r: String)
        ensures
            r@ == type_text(*self),
    {
        match self {
            TypeData::Bool => String::from_str("bool"),
            TypeData::Int => String::from_str("int"),
            TypeData::CollectionOfBool => String::from_str("vec<bool>"),
            TypeData::CollectionOfInt => String::from_str("vec<int>"),
        }
    }
}

impl Operation {
    /// The printed form of the operation.
    pub fn as_text(&self) -> (r: &'static str)
        ensures
            r@ == op_text(*self),
    {
        match self {
            Operation::Add => "+",
            Operation::Sub => "-",
            Operation::Mul => "*",
            Operation::Div => "/",
            Operation::Or => "|",
            Operation::And => "&",
            Operation::Equal => "==",
            Operation::NotEqual => "!=",
            Operation::GreaterThan => ">",
            Operation::LessThan => "<",
            Operation::GreaterThanEqual => ">=",
            Operation::LessThanEqual => "<=",
        }
    }

    /// The printed form of the operation.
    pub fn to_string(&self) -> (r: String)
        ensures
            r@ == op_text(*self),
    {
        String::from_str(self.as_text())
    }
}

impl Literal {
    /// Appends the printed form of the literal.
    pub fn write_to(&self, s: &mut String)
        ensures
            final(s)@ == old(s)@ + literal_text(self@),
    {
        match self {
            Literal::Number(n) => push_int(s, *n),
            Literal::Boolean(b) => if *b {
                s.append("true");
            } else {
                s.append("false");
            },
            Literal::EnvirBool(name) => {
                s.append("%b{{");
                s.append(name.as_str());
                s.append("}}");
            },
            Literal::EnvirNumber(name) => {
                s.append("%d{{");
                s.append(name.as_str());
                s.append("}}");
            },
        }
        assert(final(s)@ =~= old(s)@ + literal_text(self@));
    }

    /// The printed form of the literal.
    pub fn to_string(&self) -> (r: String)
        ensures
            r@ == literal_text(self@),
    {
        let mut s = String::new();
        self.write_to(&mut s);
        assert(s@ =~= literal_text(self@));
        s
    }
}

/// Appending an argument to a list of arguments prints it after a `, `.
proof fn lemma_args_text_push(xs: Seq<ExprView>, x: ExprView)
    ensures
        args_text(xs.push(x)) == if xs.len() == 0 {
            expr_text(x)
        } else {
            args_text(xs) + ", "@ + expr_text(x)
        },
{
    assert(xs.push(x).drop_last() =~= xs);
    if xs.len() == 0 {
        assert(xs.push(x)[0] == x);
    }
}

/// The values of a prefix one longer.
proof fn lemma_view_exprs_take(v: Seq<Expression>, i: int)
    requires
        0 <= i < v.len(),
    ensures
        view_exprs(v.take(i + 1)) == view_exprs(v.take(i)).push(view_expr(v[i])),
{
    lemma_view_exprs(v.take(i + 1));
    lemma_view_exprs(v.take(i));
    assert(view_exprs(v.take(i + 1)) =~= view_exprs(v.take(i)).push(view_expr(v[i])));
}

impl Expression {
    /// Appends the printed form of the expression.
    pub fn write_to(&self, s: &mut String)
        ensures
            final(s)@ == old(s)@ + expr_text(self@),
        decreases self,
    {
        match self {
            Expression::Func(f) => {
                s.append(f.name.as_str());
                s.append("( ");
                write_args(&f.args, s);
                s.append(" )");
            },
            Expression::Variable(v) => {
                s.append(v.name.as_str());
            },
            Expression::Literal(l) => {
                l.lit.write_to(s);
            },
            Expression::Operation(o) => {
                s.append("( ");
                o.left.write_to(s);
                s.append(" ");
                s.append(o.op.as_text());
                s.append(" ");
                o.right.write_to(s);
                s.append(" )");
            },
        }
        assert(final(s)@ =~= old(s)@ + expr_text(self@));
    }

    /// The printed form of the expression.
    pub fn to_string(&self) -> (r: String)
        ensures
            r@ == expr_text(self@),
    {
        let mut s = String::new();
        self.write_to(&mut s);
        assert(s@ =~= expr_text(self@));
        s
    }
}

/// Appends the printed arguments of a call.
fn write_args(v: &Vec<Expression>, s: &mut String)
    ensures
        final(s)@ == old(s)@ + args_text(view_exprs(v@)),
    decreases v,
{
    let n = v.len();
    assert(v@.take(0) =~= Seq::<Expression>::empty());
    for i in 0..n
        invariant
            n == v@.len(),
            s@ == old(s)@ + args_text(view_exprs(v@.take(i as int))),
    {
        proof {
            assert(decreases_to!(v => v@[i as int]));
            lemma_view_exprs_take(v@, i as int);
            lemma_args_text_push(view_exprs(v@.take(i as int)), view_expr(v@[i as int]));
            lemma_view_exprs(v@.take(i as int));
        }
        if i > 0 {
            s.append(", ");
        }
        v[i].write_to(s);
        assert(s@ =~= old(s)@ + args_text(view_exprs(v@.take(i + 1))));
    }
    assert(v@.take(n as int) =~= v@);
}

impl Statement {
    /// Appends the printed form of the statement.
    pub fn write_to(&self, s: &mut String)
        ensures
            final(s)@ == old(s)@ + statement_text(self@),
    {
        match self {
            Statement::Variable(var) => {
                s.append("    let ");
                s.append(var.name.as_str());
                s.append(": ");
                s.append(type_str(var.kind));
                s.append(" = ");
                var.expr.write_to(s);
                s.append(";\n");
            },
            Statement::Return(ret) => {
                s.append("    return ");
                ret.expr.write_to(s);
                s.append(";\n");
            },
        }
        assert(final(s)@ =~= old(s)@ + statement_text(self@));
    }

    /// The printed form of the statement.
    pub fn to_string(&self) -> (r: String)
        ensures
            r@ == statement_text(self@),
    {
        let mut s = String::new();
        self.write_to(&mut s);
        assert(s@ =~= statement_text(self@));
        s
    }
}

/// The printed form of a type, as a literal.
fn type_str(k: TypeData) -> (r: &'static str)
    ensures
        r@ == type_text(k),
{
    match k {
        TypeData::Bool => "bool",
        TypeData::Int => "int",
        TypeData::CollectionOfBool => "vec<bool>",
        TypeData::CollectionOfInt => "vec<int>",
    }
}

impl Statements {
    /// The printed statements, one after the other.
    pub fn to_string(&self) -> (r: String)
        ensures
            r@ == statements_text(self.data@.map_values(|st: Statement| st@)),
    {
        let ghost v = self.data@.map_values(|st: Statement| st@);
        let mut s = String::new();
        let n = self.data.len();
        assert(v.take(0) =~= Seq::<StatementView>::empty());
        for i in 0..n
            invariant
                n == self.data@.len(),
                v == self.data@.map_values(|st: Statement| st@),
                s@ == statements_text(v.take(i as int)),
        {
            self.data[i].write_to(&mut s);
            assert(v.take(i + 1).drop_last() =~= v.take(i as int));
        }
        assert(v.take(n as int) =~= v);
        s
    }
}

/// Appending a parameter to a list prints it after a `, `.
proof fn lemma_params_text_push(xs: Seq<(Seq<char>, TypeData)>, x: (Seq<char>, TypeData))
    ensures
        params_text(xs.push(x)) == if xs.len() == 0 {
            x.0 + ": "@ + type_text(x.1)
        } else {
            params_text(xs) + ", "@ + x.0 + ": "@ + type_text(x.1)
        },
{
    assert(xs.push(x).drop_last() =~= xs);
    if xs.len() == 0 {
        assert(xs.push(x)[0] == x);
    }
}

impl Structures {
    /// Appends the printed form of the structure.
    pub fn write_to(&self, s: &mut String)
        ensures
            final(s)@ == old(s)@ + structure_text(self@),
    {
        match self {
            Structures::Analyze(ana) => {
                s.append("analyze ");
                ana.expr.write_to(s);
                s.append(";\n");
            },
            Structures::Constant(con) => {
                s.append("const ");
                s.append(con.name.as_str());
                s.append(": ");
                s.append(type_str(con.kind));
                s.append(" = ");
                con.expr.write_to(s);
                s.append(";\n");
            },
            Structures::Func(func) => {
                s.append("fn ");
                s.append(func.name.as_str());
                s.append("( ");
                let ghost s0 = s@;
                let ghost ps = view_args(func.args@);
                let n = func.args.len();
                assert(ps.take(0) =~= Seq::<(Seq<char>, TypeData)>::empty());
                for i in 0..n
                    invariant
                        n == func.args@.len(),
                        ps == view_args(func.args@),
                        s@ == s0 + params_text(ps.take(i as int)),
                {
                    proof {
                        assert(ps.take(i + 1) =~= ps.take(i as int).push(ps[i as int]));
                        lemma_params_text_push(ps.take(i as int), ps[i as int]);
                    }
                    if i > 0 {
                        s.append(", ");
                    }
                    s.append(func.args[i].0.as_str());
                    s.append(": ");
                    s.append(type_str(func.args[i].1));
                    assert(s@ =~= s0 + params_text(ps.take(i + 1)));
                }
                assert(ps.take(n as int) =~= ps);
                s.append(" ) -> ");
                s.append(type_str(func.ret));
                s.append(" {\n ");
                let body = func.body.to_string();
                s.append(body.as_str());
                s.append(" }\n");
            },
        }
        assert(final(s)@ =~= old(s)@ + structure_text(self@));
    }

    /// The printed form of the structure.
    pub fn to_string(&self) -> (r: String)
        ensures
            r@ == structure_text(self@),
    {
        let mut s = String::new();
        self.write_to(&mut s);
        assert(s@ =~= structure_text(self@));
        s
    }
}

impl AbstractSyntaxTree {
    /// The printed structures of the tree, one after the other.
    pub fn to_string(&self) -> (r: String)
        ensures
            r@ == structures_text(view_structures(self.ast@)),
    {
        let ghost v = view_structures(self.ast@);
        let mut s = String::new();
        let n = self.ast.len();
        assert(v.take(0) =~= Seq::<StructuresView>::empty());
        for i in 0..n
            invariant
                n == self.ast@.len(),
                v == view_structures(self.ast@),
                s@ == structures_text(v.take(i as int)),
        {
            self.ast[i].write_to(&mut s);
            assert(v.take(i + 1).drop_last() =~= v.take(i as int));
        }
        assert(v.take(n as int) =~= v);
        s
    }
}

/// Appending an argument to a list of block arguments prints it after a `,`.
proof fn lemma_block_args_text_push(xs: Seq<BlockView>, x: BlockView)
    ensures
        block_args_text(xs.push(x)) == if xs.len() == 0 {
            block_text(x)
        } else {
            block_args_text(xs) + ","@ + block_text(x)
        },
{
    assert(xs.push(x).drop_last() =~= xs);
    if xs.len() == 0 {
        assert(xs.push(x)[0] == x);
    }
}

impl BlockExpression {
    /// Appends the printed form of the block expression.
    pub fn write_to(&self, s: &mut String)
        ensures
            final(s)@ == old(s)@ + block_text(self@),
        decreases self,
    {
        match self {
            BlockExpression::ConstantValue(lit, _) => lit.write_to(s),
            BlockExpression::ExternalConstant(name, _) => s.append(name.as_str()),
            BlockExpression::FunctionArg(name, _) => s.append(name.as_str()),
            BlockExpression::Var(name, _) => s.append(name.as_str()),
            BlockExpression::Op(left, op, right, _) => {
                s.append("( ");
                left.write_to(s);
                s.append(" ");
                s.append(op.as_text());
                s.append(" ");
                right.write_to(s);
                s.append(" )");
            },
            BlockExpression::Func(name, args, _) => {
                s.append(name.as_str());
                s.append("(");
                write_block_args(args, s);
                s.append(")");
            },
        }
        assert(final(s)@ =~= old(s)@ + block_text(self@));
    }

    /// The printed form of the block expression.
    pub fn to_string(&self) -> (r: String)
        ensures
            r@ == block_text(self@),
    {
        let mut s = String::new();
        self.write_to(&mut s);
        assert(s@ =~= block_text(self@));
        s
    }
}

/// Appends the printed arguments of a block call.
fn write_block_args(v: &Vec<BlockExpression>, s: &mut String)
    ensures
        final(s)@ == old(s)@ + block_args_text(view_blocks(v@)),
    decreases v,
{
    let n = v.len();
    assert(v@.take(0) =~= Seq::<BlockExpression>::empty());
    for i in 0..n
        invariant
            n == v@.len(),
            s@ == old(s)@ + block_args_text(view_blocks(v@.take(i as int))),
    {
        proof {
            assert(decreases_to!(v => v@[i as int]));
            lemma_view_blocks(v@.take(i + 1));
            lemma_view_blocks(v@.take(i as int));
            assert(view_blocks(v@.take(i + 1)) =~= view_blocks(v@.take(i as int)).push(view_block(v@[i as int])));
            lemma_block_args_text_push(view_blocks(v@.take(i as int)), view_block(v@[i as int]));
        }
        if i > 0 {
            s.append(",");
        }
        v[i].write_to(s);
        assert(s@ =~= old(s)@ + block_args_text(view_blocks(v@.take(i + 1))));
    }
    assert(v@.take(n as int) =~= v@);
}

} // verus!
