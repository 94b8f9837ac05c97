//! The abstract syntax that the parser produces: literals, types,
//! operations, expressions, statements and top-level structures.
use vstd::prelude::*;

verus! {

/// Literal values.
#[derive(Clone, Debug, PartialEq, Eq, Hash)]
pub enum Literal {
    Number(i64),
    Boolean(bool),
    EnvirBool(String),
    EnvirNumber(String),
}

/// The four types of the language.
#[derive(Clone, Copy, Debug, PartialEq, Eq, Structural, PartialOrd, Ord, Hash)]
pub enum TypeData {
    Bool,
    Int,
    CollectionOfBool,
    CollectionOfInt,
}

/// Binary operations.
#[derive(Clone, Copy, Debug, PartialEq, Eq, Structural, PartialOrd, Ord, Hash)]
pub enum Operation {
    Add,
    Sub,
    Mul,
    Div,
    Or,
    And,
    Equal,
    NotEqual,
    GreaterThan,
    LessThan,
    GreaterThanEqual,
    LessThanEqual,
}

/// The value of a literal, with names as character sequences.
pub enum LiteralView {
    Number(i64),
    Boolean(bool),
    EnvirBool(Seq<char>),
    EnvirNumber(Seq<char>),
}

impl View for Literal {
    type V = LiteralView;

    open spec fn view(&self) -> LiteralView {
        match self {
            Literal::Number(n) => LiteralView::Number(*n),
            Literal::Boolean(b) => LiteralView::Boolean(*b),
            Literal::EnvirBool(s) => LiteralView::EnvirBool(s@),
            Literal::EnvirNumber(s) => LiteralView::EnvirNumber(s@),
        }
    }
}

/// The type a literal denotes: numbers are `int`, booleans are `bool`,
/// and an environment lookup has the type its sigil names.
pub open spec fn literal_type(lit: LiteralView) -> TypeData {
    match lit {
        LiteralView::Number(_) => TypeData::Int,
        LiteralView::Boolean(_) => TypeData::Bool,
        LiteralView::EnvirBool(_) => TypeData::Bool,
        LiteralView::EnvirNumber(_) => TypeData::Int,
    }
}

/// Types that can report the type they evaluate to.
pub trait GetType {
    /// Whether the type can only be resolved with a namespace at hand.
    fn requires_namespace(&self) -> bool;

    /// The type this item evaluates to.
    fn get_type(&self) -> Result<TypeData, String>;
}

impl GetType for Literal {
    fn requires_namespace(&self) -> (r: bool)
        ensures
            r == false,
    {
        false
    }

    fn get_type(&self) -> (r: Result<TypeData, String>)
        ensures
            r == Ok::<TypeData, String>(literal_type(self@)),
    {
        match self {
            Literal::Number(_) => Ok(TypeData::Int),
            Literal::Boolean(_) => Ok(TypeData::Bool),
            Literal::EnvirBool(_) => Ok(TypeData::Bool),
            Literal::EnvirNumber(_) => Ok(TypeData::Int),
        }
    }
}

impl Literal {
    /// A copy of this literal.
    pub fn duplicate(&self) -> (r: Literal)
        ensures
            r@ == self@,
    {
        match self {
            Literal::Number(n) => Literal::Number(*n),
            Literal::Boolean(b) => Literal::Boolean(*b),
            Literal::EnvirBool(s) => Literal::EnvirBool(s.clone()),
            Literal::EnvirNumber(s) => Literal::EnvirNumber(s.clone()),
        }
    }
}

/// Statements are a collection of operations.
#[derive(Debug, PartialEq, Eq, Hash)]
pub struct Statements {
    pub data: Vec<Statement>,
}

/// Statements are expressions within a function.
#[derive(Debug, PartialEq, Eq, Hash)]
pub enum Statement {
    Variable(VariableDeclaration),
    Return(TerminalExpression),
}

/// The expression of a `return` statement.
#[derive(Debug, PartialEq, Eq, Hash)]
pub struct TerminalExpression {
    pub expr: Expression,
}

/// `let name: kind = expr;`
#[derive(Debug, PartialEq, Eq, Hash)]
pub struct VariableDeclaration {
    pub name: String,
    pub kind: TypeData,
    pub expr: Expression,
}

/// Structures are top level items; they exist outside of functions.
#[derive(Debug, PartialEq, Eq, Hash)]
pub enum Structures {
    Constant(ConstantDeclaration),
    Func(FunctionDeclaration),
    Analyze(AnalysisDeclaration),
}

/// A function: its name, arguments, return type and body. Functions of
/// the standard library carry `stdlib` and an empty body.
#[derive(Debug, PartialEq, Eq, Hash)]
pub struct FunctionDeclaration {
    pub stdlib: bool,
    pub name: String,
    pub args: Vec<(String, TypeData)>,
    pub ret: TypeData,
    pub body: Statements,
}

/// `analyze expr;`, the expression whose distribution the program asks for.
#[derive(Debug, PartialEq, Eq, Hash)]
pub struct AnalysisDeclaration {
    pub expr: Expression,
}

/// A constant declared at the top level.
#[derive(Debug, PartialEq, Eq, Hash)]
pub struct ConstantDeclaration {
    pub name: String,
    pub kind: TypeData,
    pub expr: Expression,
}

/// Expressions.
#[derive(Debug, PartialEq, Eq, Hash)]
pub enum Expression {
    Func(FunctionInvocation),
    Variable(VariableReference),
    Literal(LiteralValue),
    Operation(OperationResult),
}

/// `name(args...)`
#[derive(Debug, PartialEq, Eq, Hash)]
pub struct FunctionInvocation {
    pub name: String,
    pub args: Vec<Expression>,
}

/// A use of a variable or constant by name.
#[derive(Debug, PartialEq, Eq, Hash)]
pub struct VariableReference {
    pub name: String,
}

/// A literal in expression position.
#[derive(Debug, PartialEq, Eq, Hash)]
pub struct LiteralValue {
    pub lit: Literal,
}

/// `( left op right )`
#[derive(Debug, PartialEq, Eq, Hash)]
pub struct OperationResult {
    pub left: Box<Expression>,
    pub op: Operation,
    pub right: Box<Expression>,
}

/// The top level of a parse.
#[derive(Debug, PartialEq, Eq, Hash)]
pub struct AbstractSyntaxTree {
    pub ast: Vec<Structures>,
}

/// The value of an expression.
pub enum ExprView {
    Func(Seq<char>, Seq<ExprView>),
    Variable(Seq<char>),
    Literal(LiteralView),
    Operation(Box<ExprView>, Operation, Box<ExprView>),
}

/// The value of an expression.
pub open spec fn view_expr(e: Expression) -> ExprView
    decreases e,
{
    match e {
        Expression::Func(f) => ExprView::Func(f.name@, view_exprs(f.args@)),
        Expression::Variable(v) => ExprView::Variable(v.name@),
        Expression::Literal(l) => ExprView::Literal(l.lit@),
        Expression::Operation(o) => ExprView::Operation(
            Box::new(view_expr(*o.left)),
            o.op,
            Box::new(view_expr(*o.right)),
        ),
    }
}

/// The values of a sequence of expressions.
pub open spec fn view_exprs(s: Seq<Expression>) -> Seq<ExprView>
    decreases s,
{
    if s.len() == 0 {
        Seq::empty()
    } else {
        seq![view_expr(s[0])] + view_exprs(s.drop_first())
    }
}

/// `view_exprs` maps each expression to its value.
pub proof fn lemma_view_exprs(s: Seq<Expression>)
    ensures
        view_exprs(s).len() == s.len(),
        forall|i: int| 0 <= i < s.len() ==> #[trigger] view_exprs(s)[i] == view_expr(s[i]),
    decreases s.len(),
{
    if s.len() > 0 {
        lemma_view_exprs(s.drop_first());
        assert forall|i: int| 0 <= i < s.len() implies #[trigger] view_exprs(s)[i] == view_expr(s[i]) by {
            if i > 0 {
                assert(s.drop_first()[i - 1] == s[i]);
            }
        }
    }
}

impl View for Expression {
    type V = ExprView;

    open spec fn view(&self) -> ExprView {
        view_expr(*self)
    }
}

/// The value of a statement.
pub enum StatementView {
    Variable(Seq<char>, TypeData, ExprView),
    Return(ExprView),
}

impl View for Statement {
    type V = StatementView;

    open spec fn view(&self) -> StatementView {
        match self {
            Statement::Variable(v) => StatementView::Variable(v.name@, v.kind, v.expr@),
            Statement::Return(t) => StatementView::Return(t.expr@),
        }
    }
}

/// The value of a function's arguments: each name with its type.
pub open spec fn view_args(args: Seq<(String, TypeData)>) -> Seq<(Seq<char>, TypeData)> {
    args.map_values(|p: (String, TypeData)| (p.0@, p.1))
}

/// The value of a function declaration.
pub struct FunctionView {
    pub stdlib: bool,
    pub name: Seq<char>,
    pub args: Seq<(Seq<char>, TypeData)>,
    pub ret: TypeData,
    pub body: Seq<StatementView>,
}

impl View for FunctionDeclaration {
    type V = FunctionView;

    open spec fn view(&self) -> FunctionView {
        FunctionView {
            stdlib: self.stdlib,
            name: self.name@,
            args: view_args(self.args@),
            ret: self.ret,
            body: self.body.data@.map_values(|st: Statement| st@),
        }
    }
}

/// The value of a constant declaration.
pub struct ConstantView {
    pub name: Seq<char>,
    pub kind: TypeData,
    pub expr: ExprView,
}

impl View for ConstantDeclaration {
    type V = ConstantView;

    open spec fn view(&self) -> ConstantView {
        ConstantView { name: self.name@, kind: self.kind, expr: self.expr@ }
    }
}

/// The value of a top-level structure.
pub enum StructuresView {
    Constant(ConstantView),
    Func(FunctionView),
    Analyze(ExprView),
}

impl View for Structures {
    type V = StructuresView;

    open spec fn view(&self) -> StructuresView {
        match self {
            Structures::Constant(c) => StructuresView::Constant(c@),
            Structures::Func(f) => StructuresView::Func(f@),
            Structures::Analyze(a) => StructuresView::Analyze(a.expr@),
        }
    }
}

impl Expression {
    /// A copy of this expression.
    pub fn duplicate(&self) -> (r: Expression)
        ensures
            r@ == self@,
        decreases self,
    {
        match self {
            Expression::Func(f) => {
                let args = duplicate_exprs(&f.args);
                Expression::Func(FunctionInvocation { name: f.name.clone(), args })
            },
            Expression::Variable(v) => Expression::Variable(VariableReference { name: v.name.clone() }),
            Expression::Literal(l) => Expression::Literal(LiteralValue { lit: l.lit.duplicate() }),
            Expression::Operation(o) => {
                let left = o.left.duplicate();
                let right = o.right.duplicate();
                Expression::Operation(
                    OperationResult { left: Box::new(left), op: o.op, right: Box::new(right) },
                )
            },
        }
    }

    /// A literal in expression position.
    pub fn new_literal(lit: Literal) -> (r: Expression)
        ensures
            r@ == ExprView::Literal(lit@),
    {
        Expression::Literal(LiteralValue { lit })
    }

    /// A function invocation; the parser hands the arguments that end in a
    /// comma together with their text, and the last argument, if any, apart.
    pub fn new_function(name: String, args: Vec<(Expression, String)>, arg: Option<Expression>) -> (r: Expression)
        ensures
            r@ == ExprView::Func(name@, view_exprs(firsts(args@) + option_seq(arg))),
    {
        let mut args = args;
        let ghost orig = args@;
        let mut out: Vec<Expression> = Vec::new();
        while args.len() > 0
            invariant
                firsts(orig) == out@ + firsts(args@),
            decreases args.len(),
        {
            let ghost before = args@;
            let (e, _text) = args.remove(0);
            out.push(e);
            proof {
                assert(firsts(before) =~= seq![e] + firsts(args@));
                assert(out@ + firsts(args@) =~= out@.drop_last() + firsts(before));
            }
        }
        assert(out@ + firsts(args@) =~= out@);
        match arg {
            Option::Some(e) => {
                out.push(e);
            },
            Option::None => {},
        }
        assert(out@ =~= firsts(orig) + option_seq(arg));
        Expression::Func(FunctionInvocation { name, args: out })
    }

    /// `( left op right )`
    pub fn new_operation(left: Expression, op: Operation, right: Expression) -> (r: Expression)
        ensures
            r@ == ExprView::Operation(Box::new(left@), op, Box::new(right@)),
    {
        Expression::Operation(OperationResult { left: Box::new(left), op, right: Box::new(right) })
    }
}

/// The value of a sequence of statements.
pub open spec fn view_statements(s: Seq<Statement>) -> Seq<StatementView> {
    s.map_values(|st: Statement| st@)
}

impl Statements {
    /// Collects parsed statements, dropping the text the parser pairs with
    /// each one.
    pub fn new(arg: Vec<(Statement, String)>) -> (r: Statements)
        ensures
            r.data@ == firsts(arg@),
    {
        let mut args = arg;
        let ghost orig = args@;
        let mut out: Vec<Statement> = Vec::new();
        while args.len() > 0
            invariant
                firsts(orig) == out@ + firsts(args@),
            decreases args.len(),
        {
            let ghost before = args@;
            let (st, _text) = args.remove(0);
            out.push(st);
            proof {
                assert(firsts(before) =~= seq![st] + firsts(args@));
                assert(out@ + firsts(args@) =~= out@.drop_last() + firsts(before));
            }
        }
        assert(out@ + firsts(args@) =~= out@);
        Statements { data: out }
    }

    /// A copy of these statements.
    pub fn duplicate(&self) -> (r: Statements)
        ensures
            view_statements(r.data@) == view_statements(self.data@),
    {
        let mut out: Vec<Statement> = Vec::new();
        let n = self.data.len();
        for i in 0..n
            invariant
                n == self.data@.len(),
                out@.len() == i,
                forall|j: int| 0 <= j < i ==> (#[trigger] out@[j])@ == self.data@[j]@,
        {
            out.push(self.data[i].duplicate());
        }
        assert(view_statements(out@) =~= view_statements(self.data@));
        Statements { data: out }
    }
}

impl Statement {
    /// `let name: kind = expr;`
    pub fn new_var(name: String, kind: TypeData, expr: Expression) -> (r: Statement)
        ensures
            r@ == StatementView::Variable(name@, kind, expr@),
    {
        Statement::Variable(VariableDeclaration { name, kind, expr })
    }

    /// `return expr;`
    pub fn new_ret(expr: Expression) -> (r: Statement)
        ensures
            r@ == StatementView::Return(expr@),
    {
        Statement::Return(TerminalExpression { expr })
    }

    /// A copy of this statement.
    pub fn duplicate(&self) -> (r: Statement)
        ensures
            r@ == self@,
    {
        match self {
            Statement::Variable(v) => Statement::Variable(
                VariableDeclaration { name: v.name.clone(), kind: v.kind, expr: v.expr.duplicate() },
            ),
            Statement::Return(t) => Statement::Return(TerminalExpression { expr: t.expr.duplicate() }),
        }
    }
}

/// The arguments of a parsed function declaration: the name and type of
/// each argument that ends in a comma, then those of the last one.
pub open spec fn declared_args(
    args: Seq<(String, String, TypeData, String)>,
    last_arg: Option<(String, String, TypeData)>,
) -> Seq<(Seq<char>, TypeData)> {
    args.map_values(|t: (String, String, TypeData, String)| (t.0@, t.2)) + match last_arg {
        Option::Some(t) => seq![(t.0@, t.2)],
        Option::None => Seq::empty(),
    }
}

impl Structures {
    /// `const name: kind = expr;`
    pub fn new_const(name: String, kind: TypeData, expr: Expression) -> (r: Structures)
        ensures
            r@ == StructuresView::Constant(ConstantView { name: name@, kind, expr: expr@ }),
    {
        Structures::Constant(ConstantDeclaration { name, kind, expr })
    }

    /// `analyze expr;`
    pub fn new_analysis(expr: Expression) -> (r: Structures)
        ensures
            r@ == StructuresView::Analyze(expr@),
    {
        Structures::Analyze(AnalysisDeclaration { expr })
    }

    /// `fn name(args...) -> ret { body }`, a function the program declares.
    pub fn new_func(
        name: String,
        args: Vec<(String, String, TypeData, String)>,
        last_arg: Option<(String, String, TypeData)>,
        ret: TypeData,
        body: Statements,
    ) -> (r: Structures)
        ensures
            r@ == StructuresView::Func(
                FunctionView {
                    stdlib: false,
                    name: name@,
                    args: declared_args(args@, last_arg),
                    ret,
                    body: view_statements(body.data@),
                },
            ),
    {
        let mut out: Vec<(String, TypeData)> = Vec::new();
        let n = args.len();
        for i in 0..n
            invariant
                n == args@.len(),
                view_args(out@) == declared_args(args@.subrange(0, i as int), None),
        {
            let name_i = args[i].0.clone();
            let kind_i = args[i].2;
            let ghost prev = out@;
            out.push((name_i, kind_i));
            proof {
                assert(view_args(out@) =~= view_args(prev).push((name_i@, kind_i)));
                assert(declared_args(args@.subrange(0, i + 1), None) =~= declared_args(
                    args@.subrange(0, i as int),
                    None,
                ).push((args@[i as int].0@, args@[i as int].2)));
            }
        }
        assert(args@.subrange(0, n as int) =~= args@);
        let ghost mid = out@;
        match last_arg {
            Option::Some(t) => {
                let (arg_name, _text, arg_kind) = t;
                out.push((arg_name, arg_kind));
                assert(view_args(out@) =~= view_args(mid).push((arg_name@, arg_kind)));
            },
            Option::None => {},
        }
        assert(view_args(out@) =~= declared_args(args@, last_arg));
        Structures::Func(FunctionDeclaration { stdlib: false, name, args: out, ret, body })
    }

    /// The constant declaration, if this structure is one.
    pub fn to_const(&self) -> (r: Option<&ConstantDeclaration>)
        ensures
            match self {
                Structures::Constant(c) => r == Some(c),
                _ => r is None,
            },
    {
        match self {
            Structures::Constant(c) => Some(c),
            _ => None,
        }
    }

    /// The function declaration, if this structure is one.
    pub fn to_func(&self) -> (r: Option<&FunctionDeclaration>)
        ensures
            match self {
                Structures::Func(f) => r == Some(f),
                _ => r is None,
            },
    {
        match self {
            Structures::Func(f) => Some(f),
            _ => None,
        }
    }

    /// The analysis declaration, if this structure is one.
    pub fn to_analysis(&self) -> (r: Option<&AnalysisDeclaration>)
        ensures
            match self {
                Structures::Analyze(a) => r == Some(a),
                _ => r is None,
            },
    {
        match self {
            Structures::Analyze(a) => Some(a),
            _ => None,
        }
    }
}

impl FunctionDeclaration {
    /// A copy of this declaration.
    pub fn duplicate(&self) -> (r: FunctionDeclaration)
        ensures
            r@ == self@,
    {
        let mut args: Vec<(String, TypeData)> = Vec::new();
        let n = self.args.len();
        for i in 0..n
            invariant
                n == self.args@.len(),
                view_args(args@) == view_args(self.args@.subrange(0, i as int)),
        {
            let ghost prev = args@;
            args.push((self.args[i].0.clone(), self.args[i].1));
            proof {
                assert(view_args(args@) =~= view_args(prev).push((self.args@[i as int].0@, self.args@[i as int].1)));
                assert(view_args(self.args@.subrange(0, i + 1)) =~= view_args(self.args@.subrange(0, i as int)).push(
                    (self.args@[i as int].0@, self.args@[i as int].1),
                ));
            }
        }
        assert(self.args@.subrange(0, n as int) =~= self.args@);
        let body = self.body.duplicate();
        FunctionDeclaration { stdlib: self.stdlib, name: self.name.clone(), args, ret: self.ret, body }
    }
}

impl ConstantDeclaration {
    /// A copy of this declaration.
    pub fn duplicate(&self) -> (r: ConstantDeclaration)
        ensures
            r@ == self@,
    {
        ConstantDeclaration { name: self.name.clone(), kind: self.kind, expr: self.expr.duplicate() }
    }
}

impl AnalysisDeclaration {
    /// A copy of this declaration.
    pub fn duplicate(&self) -> (r: AnalysisDeclaration)
        ensures
            r.expr@ == self.expr@,
    {
        AnalysisDeclaration { expr: self.expr.duplicate() }
    }
}

/// Copies of a sequence of expressions.
pub fn duplicate_exprs(v: &Vec<Expression>) -> (r: Vec<Expression>)
    ensures
        view_exprs(r@) == view_exprs(v@),
    decreases v,
{
    let mut out: Vec<Expression> = Vec::new();
    let n = v.len();
    for i in 0..n
        invariant
            n == v@.len(),
            out@.len() == i,
            forall|j: int| 0 <= j < i ==> view_expr(#[trigger] out@[j]) == view_expr(v@[j]),
    {
        proof {
            assert(decreases_to!(v => v@[i as int]));
        }
        let e = v[i].duplicate();
        out.push(e);
    }
    proof {
        lemma_view_exprs(out@);
        lemma_view_exprs(v@);
    }
    assert(view_exprs(out@) =~= view_exprs(v@));
    out
}

/// Compares two names character by character.
pub fn same_name(a: &str, b: &str) -> (r: bool)
    ensures
        r == (a@ == b@),
{
    let n = a.unicode_len();
    let m = b.unicode_len();
    if n != m {
        return false;
    }
    let mut i: usize = 0;
    while i < n
        invariant
            n == a@.len(),
            m == b@.len(),
            n == m,
            i <= n,
            forall|j: int| 0 <= j < i ==> a@[j] == b@[j],
        decreases n - i,
    {
        if a.get_char(i) != b.get_char(i) {
            return false;
        }
        i = i + 1;
    }
    assert(a@ =~= b@);
    true
}

/// The sequence holding the value of an option, if any.
pub open spec fn option_seq<A>(o: Option<A>) -> Seq<A> {
    match o {
        Option::Some(a) => seq![a],
        Option::None => Seq::empty(),
    }
}

/// The first components of a sequence of pairs.
pub open spec fn firsts<A, B>(s: Seq<(A, B)>) -> Seq<A> {
    s.map_values(|p: (A, B)| p.0)
}

impl AbstractSyntaxTree {
    /// Builds the tree from the parsed structures, dropping the text that
    /// the parser pairs with each one.
    pub fn new(args: Vec<(Structures, String)>) -> (r: AbstractSyntaxTree)
        ensures
            r.ast@ == firsts(args@),
    {
        let mut args = args;
        let ghost orig = args@;
        let mut out: Vec<Structures> = Vec::new();
        while args.len() > 0
            invariant
                firsts(orig) == out@ + firsts(args@),
            decreases args.len(),
        {
            let ghost before = args@;
            let (s, _text) = args.remove(0);
            out.push(s);
            proof {
                assert(firsts(before) =~= seq![s] + firsts(args@));
                assert(out@ + firsts(args@) =~= out@.drop_last() + firsts(before));
            }
        }
        assert(firsts(args@) =~= Seq::<Structures>::empty());
        assert(out@ + firsts(args@) =~= out@);
        AbstractSyntaxTree { ast: out }
    }
}

} // verus!
