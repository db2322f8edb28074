//! The abstract syntax tree.
//!
//! Statements and expressions are closed sums ([`Statement`],
//! [`Expression`]); each node records the token that introduced it, for
//! diagnostics. Every node has a ghost view ([`StmtV`], [`ExprV`]) that
//! drops the tokens and keeps the structure, and a `string` method that
//! renders the node back to source-like text, specified by the pure
//! [`render_stmt`] / [`render_expr`] functions over the views.

use vstd::prelude::*;
use vstd::string::StringExecFns;
use crate::lexer::Token;

verus! {

broadcast use vstd::std_specs::vec::group_vec_axioms;

/// The ghost view of an expression: the structure the parser's and the
/// evaluator's contracts speak of, with all diagnostic tokens dropped.
pub enum ExprV {
    Ident { name: Seq<char> },
    IntLit { lit: Seq<char>, value: i64 },
    BoolLit { value: bool },
    Prefix { op: Seq<char>, right: Box<ExprV> },
    Infix { left: Box<ExprV>, op: Seq<char>, right: Box<ExprV> },
    If { cond: Box<ExprV>, cons: Seq<StmtV>, alt: Option<Seq<StmtV>> },
    Func { params: Seq<Seq<char>>, body: Seq<StmtV> },
    Call { func: Box<ExprV>, args: Seq<ExprV> },
}

/// The ghost view of a statement.
pub enum StmtV {
    Let { name: Seq<char>, value: ExprV },
    Ret { value: ExprV },
    Expr { value: ExprV },
    Block { stmts: Seq<StmtV> },
}

#[derive(Debug)]
pub enum Statement {
    Let(LetStatement),
    Return(ReturnStatement),
    Expression(ExpressionStmt),
    Block(BlockStatement),
}

#[derive(Debug)]
pub enum Expression {
    Identifier(Identifier),
    IntegerLiteral(IntegerLiteral),
    Boolean(Boolean),
    Prefix(PrefixExpression),
    Infix(InfixExpression),
    If(IfExpression),
    FunctionLiteral(FunctionLiteral),
    Call(CallExpression),
}

#[derive(Debug)]
pub struct Program {
    pub statements: Vec<Statement>,
}

#[derive(Debug)]
pub struct LetStatement {
    pub token: Token,
    pub name: Identifier,
    pub value: Box<Expression>,
}

#[derive(Debug)]
pub struct Identifier {
    pub token: Token,
    pub value: String,
}

#[derive(Debug)]
pub struct ReturnStatement {
    pub token: Token,
    pub return_value: Box<Expression>,
}

#[derive(Debug)]
pub struct ExpressionStmt {
    pub token: Token,
    pub expression: Box<Expression>,
}

#[derive(Debug)]
pub struct IntegerLiteral {
    pub token: Token,
    pub value: i64,
}

#[derive(Debug)]
pub struct PrefixExpression {
    pub token: Token,
    pub operator: String,
    pub right: Box<Expression>,
}

#[derive(Debug)]
pub struct InfixExpression {
    pub token: Token,
    pub left: Box<Expression>,
    pub operator: String,
    pub right: Box<Expression>,
}

#[derive(Debug)]
pub struct Boolean {
    pub token: Token,
    pub value: bool,
}

#[derive(Debug)]
pub struct IfExpression {
    pub token: Token,
    pub condition: Box<Expression>,
    pub consequence: BlockStatement,
    pub alternative: Option<BlockStatement>,
}

#[derive(Debug)]
pub struct BlockStatement {
    pub token: Token,
    pub statements: Vec<Statement>,
}

#[derive(Debug)]
pub struct FunctionLiteral {
    pub token: Token,
    pub parameters: std::rc::Rc<Vec<Identifier>>,
    pub body: std::rc::Rc<BlockStatement>,
}

#[derive(Debug)]
pub struct CallExpression {
    pub token: Token,
    pub function: Box<Expression>,
    pub arguments: Vec<Expression>,
}

/// The names of a parameter list.
pub open spec fn idents_view(ps: Seq<Identifier>) -> Seq<Seq<char>>
    decreases ps.len(),
{
    if ps.len() == 0 {
        Seq::empty()
    } else {
        seq![ps[0].value@] + idents_view(ps.drop_first())
    }
}

pub open spec fn stmt_view(s: Statement) -> StmtV
    decreases s,
{
    match s {
        Statement::Let(ls) => StmtV::Let { name: ls.name.value@, value: expr_view(*ls.value) },
        Statement::Return(rs) => StmtV::Ret { value: expr_view(*rs.return_value) },
        Statement::Expression(es) => StmtV::Expr { value: expr_view(*es.expression) },
        Statement::Block(bs) => StmtV::Block { stmts: stmts_view(bs.statements@) },
    }
}

pub open spec fn stmts_view(ss: Seq<Statement>) -> Seq<StmtV>
    decreases ss,
{
    if ss.len() == 0 {
        Seq::empty()
    } else {
        seq![stmt_view(ss[0])] + stmts_view(ss.drop_first())
    }
}

pub open spec fn expr_view(e: Expression) -> ExprV
    decreases e,
{
    match e {
        Expression::Identifier(id) => ExprV::Ident { name: id.value@ },
        Expression::IntegerLiteral(il) => ExprV::IntLit { lit: il.token.literal@, value: il.value },
        Expression::Boolean(b) => ExprV::BoolLit { value: b.value },
        Expression::Prefix(pe) => ExprV::Prefix {
            op: pe.operator@,
            right: Box::new(expr_view(*pe.right)),
        },
        Expression::Infix(ie) => ExprV::Infix {
            left: Box::new(expr_view(*ie.left)),
            op: ie.operator@,
            right: Box::new(expr_view(*ie.right)),
        },
        Expression::If(ie) => ExprV::If {
            cond: Box::new(expr_view(*ie.condition)),
            cons: stmts_view(ie.consequence.statements@),
            alt: match ie.alternative {
                Some(b) => Some(stmts_view(b.statements@)),
                None => None,
            },
        },
        Expression::FunctionLiteral(fl) => ExprV::Func {
            params: idents_view(fl.parameters@),
            body: stmts_view(fl.body.statements@),
        },
        Expression::Call(ce) => ExprV::Call {
            func: Box::new(expr_view(*ce.function)),
            args: exprs_view(ce.arguments@),
        },
    }
}

pub open spec fn exprs_view(es: Seq<Expression>) -> Seq<ExprV>
    decreases es,
{
    if es.len() == 0 {
        Seq::empty()
    } else {
        seq![expr_view(es[0])] + exprs_view(es.drop_first())
    }
}

impl View for Statement {
    type V = StmtV;

    open spec fn view(&self) -> StmtV {
        stmt_view(*self)
    }
}

impl View for Expression {
    type V = ExprV;

    open spec fn view(&self) -> ExprV {
        expr_view(*self)
    }
}

impl View for Program {
    type V = Seq<StmtV>;

    open spec fn view(&self) -> Seq<StmtV> {
        stmts_view(self.statements@)
    }
}

impl View for BlockStatement {
    type V = Seq<StmtV>;

    open spec fn view(&self) -> Seq<StmtV> {
        stmts_view(self.statements@)
    }
}

impl View for Identifier {
    type V = Seq<char>;

    open spec fn view(&self) -> Seq<char> {
        self.value@
    }
}

pub proof fn lemma_stmts_view(ss: Seq<Statement>)
    ensures
        stmts_view(ss).len() == ss.len(),
        forall|i: int| 0 <= i < ss.len() ==> stmts_view(ss)[i] == stmt_view(ss[i]),
    decreases ss.len(),
{
    if ss.len() > 0 {
        lemma_stmts_view(ss.drop_first());
    }
}

pub proof fn lemma_exprs_view(es: Seq<Expression>)
    ensures
        exprs_view(es).len() == es.len(),
        forall|i: int| 0 <= i < es.len() ==> exprs_view(es)[i] == expr_view(es[i]),
    decreases es.len(),
{
    if es.len() > 0 {
        lemma_exprs_view(es.drop_first());
    }
}

pub proof fn lemma_stmts_view_push(ss: Seq<Statement>, s: Statement)
    ensures
        stmts_view(ss.push(s)) == stmts_view(ss).push(stmt_view(s)),
    decreases ss.len(),
{
    if ss.len() == 0 {
        assert(ss.push(s).drop_first() =~= Seq::<Statement>::empty());
        assert(stmts_view(ss) =~= Seq::<StmtV>::empty());
        assert(stmts_view(ss.push(s).drop_first()) =~= Seq::<StmtV>::empty());
        assert(stmts_view(ss.push(s)) =~= seq![stmt_view(s)]);
        assert(stmts_view(ss).push(stmt_view(s)) =~= seq![stmt_view(s)]);
    } else {
        assert(ss.push(s).drop_first() =~= ss.drop_first().push(s));
        lemma_stmts_view_push(ss.drop_first(), s);
        lemma_stmts_view(ss);
        lemma_stmts_view(ss.drop_first());
        lemma_stmts_view(ss.push(s));
        assert(stmts_view(ss.push(s)) =~= stmts_view(ss).push(stmt_view(s)));
    }
}

pub proof fn lemma_exprs_view_push(es: Seq<Expression>, e: Expression)
    ensures
        exprs_view(es.push(e)) == exprs_view(es).push(expr_view(e)),
    decreases es.len(),
{
    if es.len() == 0 {
        assert(es.push(e).drop_first() =~= Seq::<Expression>::empty());
        assert(exprs_view(es) =~= Seq::<ExprV>::empty());
        assert(exprs_view(es.push(e).drop_first()) =~= Seq::<ExprV>::empty());
        assert(exprs_view(es.push(e)) =~= seq![expr_view(e)]);
        assert(exprs_view(es).push(expr_view(e)) =~= seq![expr_view(e)]);
    } else {
        assert(es.push(e).drop_first() =~= es.drop_first().push(e));
        lemma_exprs_view_push(es.drop_first(), e);
        lemma_exprs_view(es);
        lemma_exprs_view(es.drop_first());
        lemma_exprs_view(es.push(e));
        assert(exprs_view(es.push(e)) =~= exprs_view(es).push(expr_view(e)));
    }
}

pub proof fn lemma_idents_view_push(ps: Seq<Identifier>, p: Identifier)
    ensures
        idents_view(ps.push(p)) == idents_view(ps).push(p.value@),
    decreases ps.len(),
{
    if ps.len() == 0 {
        assert(ps.push(p).drop_first() =~= Seq::<Identifier>::empty());
        assert(idents_view(ps) =~= Seq::<Seq<char>>::empty());
        assert(idents_view(ps.push(p).drop_first()) =~= Seq::<Seq<char>>::empty());
        assert(idents_view(ps.push(p)) =~= seq![p.value@]);
        assert(idents_view(ps).push(p.value@) =~= seq![p.value@]);
    } else {
        assert(ps.push(p).drop_first() =~= ps.drop_first().push(p));
        lemma_idents_view_push(ps.drop_first(), p);
        lemma_idents_view(ps);
        lemma_idents_view(ps.drop_first());
        lemma_idents_view(ps.push(p));
        assert(idents_view(ps.push(p)) =~= idents_view(ps).push(p.value@));
    }
}

pub proof fn lemma_idents_view(ps: Seq<Identifier>)
    ensures
        idents_view(ps).len() == ps.len(),
        forall|i: int| 0 <= i < ps.len() ==> idents_view(ps)[i] == ps[i].value@,
    decreases ps.len(),
{
    if ps.len() > 0 {
        lemma_idents_view(ps.drop_first());
    }
}

/// How a statement renders back to source-like text.
pub open spec fn render_stmt(s: StmtV) -> Seq<char>
    decreases s,
{
    match s {
        StmtV::Let { name, value } => "let "@ + name + " = "@ + render_expr(value) + ";"@,
        StmtV::Ret { value } => "return "@ + render_expr(value) + ";"@,
        StmtV::Expr { value } => render_expr(value),
        StmtV::Block { stmts } => render_stmts(stmts),
    }
}

/// The statements of a block or program, rendered one after another.
pub open spec fn render_stmts(ss: Seq<StmtV>) -> Seq<char>
    decreases ss,
{
    if ss.len() == 0 {
        Seq::empty()
    } else {
        render_stmt(ss[0]) + render_stmts(ss.drop_first())
    }
}

/// How an expression renders back to source-like text, fully
/// parenthesized: `a + b * c` renders as `(a + (b * c))`.
pub open spec fn render_expr(e: ExprV) -> Seq<char>
    decreases e,
{
    match e {
        ExprV::Ident { name } => name,
        ExprV::IntLit { lit, value } => lit,
        ExprV::BoolLit { value } => if value {
            "true"@
        } else {
            "false"@
        },
        ExprV::Prefix { op, right } => "("@ + op + render_expr(*right) + ")"@,
        ExprV::Infix { left, op, right } => "("@ + render_expr(*left) + " "@ + op + " "@
            + render_expr(*right) + ")"@,
        ExprV::If { cond, cons, alt } => "if"@ + render_expr(*cond) + " "@ + render_stmts(cons)
            + match alt {
            Some(a) => " else "@ + render_stmts(a),
            None => Seq::empty(),
        },
        ExprV::Func { params, body } => "fn("@ + join_comma(params) + ")"@ + render_stmts(body),
        ExprV::Call { func, args } => render_expr(*func) + "("@ + render_args(args) + ")"@,
    }
}

/// Argument lists render separated by a comma and a space.
pub open spec fn render_args(es: Seq<ExprV>) -> Seq<char>
    decreases es,
{
    if es.len() == 0 {
        Seq::empty()
    } else if es.len() == 1 {
        render_expr(es[0])
    } else {
        render_expr(es[0]) + ", "@ + render_args(es.drop_first())
    }
}

/// Pieces of text joined by a comma and a space.
pub open spec fn join_comma(xs: Seq<Seq<char>>) -> Seq<char>
    decreases xs.len(),
{
    if xs.len() == 0 {
        Seq::empty()
    } else if xs.len() == 1 {
        xs[0]
    } else {
        xs[0] + ", "@ + join_comma(xs.drop_first())
    }
}

pub open spec fn render_program(ss: Seq<StmtV>) -> Seq<char> {
    render_stmts(ss)
}

} // verus!
verus! {

/// Renders `stmts[i..]`, one statement after another.
fn stmts_string(stmts: &Vec<Statement>, i: usize) -> (s: String)
    requires
        i <= stmts@.len(),
    ensures
        s@ == render_stmts(stmts_view(stmts@.skip(i as int))),
    decreases *stmts, stmts@.len() - i,
{
    if i >= stmts.len() {
        proof {
            assert(stmts@.skip(i as int) =~= Seq::<Statement>::empty());
        }
        String::new()
    } else {
        let st: &Statement = &stmts[i];
        let mut out = st.string();
        let rest = stmts_string(stmts, i + 1);
        out.append(rest.as_str());
        proof {
            let tail = stmts@.skip(i as int);
            lemma_stmts_view(tail);
            lemma_stmts_view(tail.drop_first());
            lemma_stmts_view(stmts@.skip(i as int + 1));
            assert(tail.drop_first() =~= stmts@.skip(i as int + 1));
            assert(stmts_view(tail)[0] == stmt_view(stmts@[i as int]));
            assert(stmts_view(tail).drop_first() =~= stmts_view(stmts@.skip(i as int + 1)));
            assert(out@ == render_stmts(stmts_view(tail)));
        }
        out
    }
}

/// Renders `args[i..]` separated by a comma and a space.
fn args_string(args: &Vec<Expression>, i: usize) -> (s: String)
    requires
        i <= args@.len(),
    ensures
        s@ == render_args(exprs_view(args@.skip(i as int))),
    decreases *args, args@.len() - i,
{
    if i >= args.len() {
        proof {
            assert(args@.skip(i as int) =~= Seq::<Expression>::empty());
        }
        String::new()
    } else {
        let e: &Expression = &args[i];
        let mut out = e.string();
        proof {
            let tail = args@.skip(i as int);
            lemma_exprs_view(tail);
            assert(exprs_view(tail)[0] == expr_view(args@[i as int]));
        }
        if i + 1 < args.len() {
            out.append(", ");
            let rest = args_string(args, i + 1);
            out.append(rest.as_str());
            proof {
                let tail = args@.skip(i as int);
                lemma_exprs_view(tail);
                lemma_exprs_view(tail.drop_first());
                lemma_exprs_view(args@.skip(i as int + 1));
                assert(tail.drop_first() =~= args@.skip(i as int + 1));
                assert(exprs_view(tail).drop_first() =~= exprs_view(args@.skip(i as int + 1)));
                assert(exprs_view(tail).len() == tail.len());
                assert(out@ == render_args(exprs_view(tail)));
            }
        } else {
            proof {
                let tail = args@.skip(i as int);
                lemma_exprs_view(tail);
                assert(exprs_view(tail).len() == 1);
                assert(out@ == render_args(exprs_view(tail)));
            }
        }
        out
    }
}

/// Renders the parameter names `ps[i..]` separated by a comma and a
/// space.
pub(crate) fn params_string(ps: &Vec<Identifier>, i: usize) -> (s: String)
    requires
        i <= ps@.len(),
    ensures
        s@ == join_comma(idents_view(ps@.skip(i as int))),
    decreases ps@.len() - i,
{
    if i >= ps.len() {
        proof {
            assert(ps@.skip(i as int) =~= Seq::<Identifier>::empty());
        }
        String::new()
    } else {
        let p: &Identifier = &ps[i];
        let mut out = p.string();
        proof {
            let tail = ps@.skip(i as int);
            lemma_idents_view(tail);
            assert(idents_view(tail)[0] == ps@[i as int].value@);
        }
        if i + 1 < ps.len() {
            out.append(", ");
            let rest = params_string(ps, i + 1);
            out.append(rest.as_str());
            proof {
                let tail = ps@.skip(i as int);
                lemma_idents_view(tail);
                lemma_idents_view(tail.drop_first());
                lemma_idents_view(ps@.skip(i as int + 1));
                assert(tail.drop_first() =~= ps@.skip(i as int + 1));
                assert(idents_view(tail).drop_first() =~= idents_view(ps@.skip(i as int + 1)));
                assert(out@ == join_comma(idents_view(tail)));
            }
        } else {
            proof {
                let tail = ps@.skip(i as int);
                lemma_idents_view(tail);
                assert(idents_view(tail).len() == 1);
                assert(out@ == join_comma(idents_view(tail)));
            }
        }
        out
    }
}

impl Program {
    pub fn token_literal(&self) -> (r: &str)
        ensures
            self.statements@.len() > 0 ==> r@ == stmt_token_literal(self.statements@[0]),
            self.statements@.len() == 0 ==> r@ == Seq::<char>::empty(),
    {
        if self.statements.len() > 0 {
            let st: &Statement = &self.statements[0];
            st.token_literal()
        } else {
            proof {
                reveal_strlit("");
                assert(""@ =~= Seq::<char>::empty());
            }
            ""
        }
    }

    pub fn string(&self) -> (s: String)
        ensures
            s@ == render_program(self@),
    {
        let s = stmts_string(&self.statements, 0);
        proof {
            assert(self.statements@.skip(0) =~= self.statements@);
        }
        s
    }
}

/// The literal of the token that introduced a statement.
pub open spec fn stmt_token_literal(s: Statement) -> Seq<char> {
    match s {
        Statement::Let(ls) => ls.token.literal@,
        Statement::Return(rs) => rs.token.literal@,
        Statement::Expression(es) => es.token.literal@,
        Statement::Block(bs) => bs.token.literal@,
    }
}

impl Statement {
    pub fn token_literal(&self) -> (r: &str)
        ensures
            r@ == stmt_token_literal(*self),
    {
        match self {
            Statement::Let(ls) => ls.token_literal(),
            Statement::Return(rs) => rs.token_literal(),
            Statement::Expression(es) => es.token_literal(),
            Statement::Block(bs) => bs.token_literal(),
        }
    }

    pub fn string(&self) -> (s: String)
        ensures
            s@ == render_stmt(self@),
        decreases *self,
    {
        match self {
            Statement::Let(ls) => ls.string(),
            Statement::Return(rs) => rs.string(),
            Statement::Expression(es) => es.string(),
            Statement::Block(bs) => bs.string(),
        }
    }
}

/// The literal of the token that introduced an expression.
pub open spec fn expr_token_literal(e: Expression) -> Seq<char> {
    match e {
        Expression::Identifier(n) => n.token.literal@,
        Expression::IntegerLiteral(n) => n.token.literal@,
        Expression::Boolean(n) => n.token.literal@,
        Expression::Prefix(n) => n.token.literal@,
        Expression::Infix(n) => n.token.literal@,
        Expression::If(n) => n.token.literal@,
        Expression::FunctionLiteral(n) => n.token.literal@,
        Expression::Call(n) => n.token.literal@,
    }
}

impl Expression {
    pub fn token_literal(&self) -> (r: &str)
        ensures
            r@ == expr_token_literal(*self),
    {
        match self {
            Expression::Identifier(n) => n.token_literal(),
            Expression::IntegerLiteral(n) => n.token_literal(),
            Expression::Boolean(n) => n.token_literal(),
            Expression::Prefix(n) => n.token_literal(),
            Expression::Infix(n) => n.token_literal(),
            Expression::If(n) => n.token_literal(),
            Expression::FunctionLiteral(n) => n.token_literal(),
            Expression::Call(n) => n.token_literal(),
        }
    }

    pub fn string(&self) -> (s: String)
        ensures
            s@ == render_expr(self@),
        decreases *self,
    {
        match self {
            Expression::Identifier(n) => n.string(),
            Expression::IntegerLiteral(n) => n.string(),
            Expression::Boolean(n) => n.string(),
            Expression::Prefix(n) => n.string(),
            Expression::Infix(n) => n.string(),
            Expression::If(n) => n.string(),
            Expression::FunctionLiteral(n) => n.string(),
            Expression::Call(n) => n.string(),
        }
    }
}

impl LetStatement {
    pub fn token_literal(&self) -> (r: &str)
        ensures
            r@ == self.token.literal@,
    {
        self.token.literal.as_str()
    }

    pub fn string(&self) -> (s: String)
        ensures
            s@ == "let "@ + self.name.value@ + " = "@ + render_expr(self.value@) + ";"@,
        decreases *self,
    {
        let mut out = String::new();
        out.append("let ");
        let name = self.name.string();
        out.append(name.as_str());
        out.append(" = ");
        let value = self.value.string();
        out.append(value.as_str());
        out.append(";");
        out
    }
}

impl ReturnStatement {
    pub fn token_literal(&self) -> (r: &str)
        ensures
            r@ == self.token.literal@,
    {
        self.token.literal.as_str()
    }

    pub fn string(&self) -> (s: String)
        ensures
            s@ == "return "@ + render_expr(self.return_value@) + ";"@,
        decreases *self,
    {
        let mut out = String::new();
        out.append("return ");
        let value = self.return_value.string();
        out.append(value.as_str());
        out.append(";");
        out
    }
}

impl ExpressionStmt {
    pub fn token_literal(&self) -> (r: &str)
        ensures
            r@ == self.token.literal@,
    {
        self.token.literal.as_str()
    }

    pub fn string(&self) -> (s: String)
        ensures
            s@ == render_expr(self.expression@),
        decreases *self,
    {
        self.expression.string()
    }
}

impl BlockStatement {
    pub fn token_literal(&self) -> (r: &str)
        ensures
            r@ == self.token.literal@,
    {
        self.token.literal.as_str()
    }

    pub fn string(&self) -> (s: String)
        ensures
            s@ == render_stmts(self@),
        decreases *self,
    {
        let s = stmts_string(&self.statements, 0);
        proof {
            assert(self.statements@.skip(0) =~= self.statements@);
        }
        s
    }
}

impl Identifier {
    pub fn token_literal(&self) -> (r: &str)
        ensures
            r@ == self.token.literal@,
    {
        self.token.literal.as_str()
    }

    pub fn string(&self) -> (s: String)
        ensures
            s@ == self.value@,
    {
        self.value.clone()
    }
}

impl IntegerLiteral {
    pub fn token_literal(&self) -> (r: &str)
        ensures
            r@ == self.token.literal@,
    {
        self.token.literal.as_str()
    }

    pub fn string(&self) -> (s: String)
        ensures
            s@ == self.token.literal@,
    {
        self.token.literal.clone()
    }
}

impl Boolean {
    pub fn token_literal(&self) -> (r: &str)
        ensures
            r@ == self.token.literal@,
    {
        self.token.literal.as_str()
    }

    pub fn string(&self) -> (s: String)
        ensures
            s@ == render_expr(ExprV::BoolLit { value: self.value }),
    {
        if self.value {
            String::from_str("true")
        } else {
            String::from_str("false")
        }
    }
}

impl PrefixExpression {
    pub fn token_literal(&self) -> (r: &str)
        ensures
            r@ == self.token.literal@,
    {
        self.token.literal.as_str()
    }

    pub fn string(&self) -> (s: String)
        ensures
            s@ == "("@ + self.operator@ + render_expr(self.right@) + ")"@,
        decreases *self,
    {
        let mut out = String::new();
        out.append("(");
        out.append(self.operator.as_str());
        let right = self.right.string();
        out.append(right.as_str());
        out.append(")");
        out
    }
}

impl InfixExpression {
    pub fn token_literal(&self) -> (r: &str)
        ensures
            r@ == self.token.literal@,
    {
        self.token.literal.as_str()
    }

    pub fn string(&self) -> (s: String)
        ensures
            s@ == "("@ + render_expr(self.left@) + " "@ + self.operator@ + " "@ + render_expr(
                self.right@,
            ) + ")"@,
        decreases *self,
    {
        let mut out = String::new();
        out.append("(");
        let left = self.left.string();
        out.append(left.as_str());
        out.append(" ");
        out.append(self.operator.as_str());
        out.append(" ");
        let right = self.right.string();
        out.append(right.as_str());
        out.append(")");
        out
    }
}

impl IfExpression {
    pub fn token_literal(&self) -> (r: &str)
        ensures
            r@ == self.token.literal@,
    {
        self.token.literal.as_str()
    }

    pub fn string(&self) -> (s: String)
        ensures
            s@ == "if"@ + render_expr(self.condition@) + " "@ + render_stmts(self.consequence@)
                + match self.alternative {
                Some(a) => " else "@ + render_stmts(a@),
                None => Seq::<char>::empty(),
            },
        decreases *self,
    {
        let mut out = String::new();
        out.append("if");
        let cond = self.condition.string();
        out.append(cond.as_str());
        out.append(" ");
        let cons = self.consequence.string();
        out.append(cons.as_str());
        match &self.alternative {
            Some(alternative) => {
                out.append(" else ");
                let alt = alternative.string();
                out.append(alt.as_str());
            },
            None => {},
        }
        out
    }
}

impl FunctionLiteral {
    pub fn token_literal(&self) -> (r: &str)
        ensures
            r@ == self.token.literal@,
    {
        self.token.literal.as_str()
    }

    pub fn string(&self) -> (s: String)
        ensures
            s@ == "fn("@ + join_comma(idents_view(self.parameters@)) + ")"@ + render_stmts(
                self.body@,
            ),
        decreases *self,
    {
        let mut out = String::new();
        out.append("fn(");
        let params = params_string(&self.parameters, 0);
        out.append(params.as_str());
        out.append(")");
        let body = self.body.string();
        out.append(body.as_str());
        proof {
            assert(self.parameters@.skip(0) =~= self.parameters@);
        }
        out
    }
}

impl CallExpression {
    pub fn token_literal(&self) -> (r: &str)
        ensures
            r@ == self.token.literal@,
    {
        self.token.literal.as_str()
    }

    pub fn string(&self) -> (s: String)
        ensures
            s@ == render_expr(self.function@) + "("@ + render_args(exprs_view(self.arguments@))
                + ")"@,
        decreases *self,
    {
        let mut out = self.function.string();
        out.append("(");
        let args = args_string(&self.arguments, 0);
        out.append(args.as_str());
        out.append(")");
        proof {
            assert(self.arguments@.skip(0) =~= self.arguments@);
        }
        out
    }
}

} // verus!
