//! The syntax-tree model: expression and statement nodes, each stamped with a
//! diagnostic context record.
use vstd::prelude::*;
use vstd::string::StringExecFns;
use crate::token::{Token, TokenModel};

verus! {

/// The model of a diagnostic context: its strings as character sequences.
pub struct CtxModel {
    pub file: Seq<char>,
    pub line: nat,
    pub module: Seq<char>,
}

/// The model of an expression node.
pub enum ExprModel {
    Binary(CtxModel, Box<ExprModel>, TokenModel, Box<ExprModel>),
    Grouping(CtxModel, Box<ExprModel>),
    Literal(CtxModel, TokenModel),
    Unary(CtxModel, TokenModel, Box<ExprModel>),
    Variable(CtxModel, TokenModel),
    Assign(CtxModel, TokenModel, Box<ExprModel>),
}

/// The model of a statement node.
pub enum StmtModel {
    Expression(CtxModel, Box<ExprModel>),
    PrintLn(CtxModel, Box<ExprModel>),
    Let(CtxModel, TokenModel, bool, Box<ExprModel>),
    Block(CtxModel, Seq<StmtModel>),
}

/// Diagnostic metadata attached to every syntax-tree node: the caller-supplied
/// source name, the line of the triggering token, and the logical unit (always
/// the single top-level unit of this language).
pub struct Ctx {
    pub file: String,
    pub line: usize,
    pub module: String,
}

impl Ctx {
    /// Stamps a context from the triggering token's line and the
    /// caller-supplied source name; the logical unit is always the root unit.
    pub fn from_token(token: &Token, source_name: &str) -> (c: Ctx)
        ensures
            c.file@ == source_name@,
            c.line == token.line,
            c.module@ == "root"@,
    {
        Ctx {
            file: String::from_str(source_name),
            line: token.line,
            module: String::from_str("root"),
        }
    }

    /// An exact copy of this context.
    pub fn dup(&self) -> (r: Ctx)
        ensures
            r == *self,
    {
        Ctx { file: self.file.clone(), line: self.line, module: self.module.clone() }
    }
}

/// An expression node. Each node exclusively owns its children: the tree is
/// strict, with no sharing and no cycles.
pub enum Expr {
    Binary(Ctx, Box<Expr>, Token, Box<Expr>),
    Grouping(Ctx, Box<Expr>),
    Literal(Ctx, Token),
    Unary(Ctx, Token, Box<Expr>),
    Variable(Ctx, Token),
    Assign(Ctx, Token, Box<Expr>),
}

/// Whether a `let` binding may later be assigned to.
pub struct Mutable(pub bool);

/// A statement node.
pub enum Stmt {
    Expression(Ctx, Box<Expr>),
    PrintLn(Ctx, Box<Expr>),
    Let(Ctx, Token, Mutable, Box<Expr>),
    Block(Ctx, Vec<Stmt>),
}

impl View for Ctx {
    type V = CtxModel;

    open spec fn view(&self) -> CtxModel {
        CtxModel { file: self.file@, line: self.line as nat, module: self.module@ }
    }
}

/// The model of an expression tree.
pub open spec fn expr_model(e: Expr) -> ExprModel
    decreases e,
{
    match e {
        Expr::Binary(c, l, op, r) => ExprModel::Binary(
            c@,
            Box::new(expr_model(*l)),
            op@,
            Box::new(expr_model(*r)),
        ),
        Expr::Grouping(c, inner) => ExprModel::Grouping(c@, Box::new(expr_model(*inner))),
        Expr::Literal(c, t) => ExprModel::Literal(c@, t@),
        Expr::Unary(c, op, inner) => ExprModel::Unary(c@, op@, Box::new(expr_model(*inner))),
        Expr::Variable(c, t) => ExprModel::Variable(c@, t@),
        Expr::Assign(c, t, inner) => ExprModel::Assign(c@, t@, Box::new(expr_model(*inner))),
    }
}

/// The model of a statement tree.
pub open spec fn stmt_model(s: Stmt) -> StmtModel
    decreases s,
{
    match s {
        Stmt::Expression(c, e) => StmtModel::Expression(c@, Box::new(expr_model(*e))),
        Stmt::PrintLn(c, e) => StmtModel::PrintLn(c@, Box::new(expr_model(*e))),
        Stmt::Let(c, t, m, e) => StmtModel::Let(c@, t@, m.0, Box::new(expr_model(*e))),
        Stmt::Block(c, stmts) => StmtModel::Block(c@, stmts_model(stmts@)),
    }
}

/// The model of a sequence of statements.
pub open spec fn stmts_model(ss: Seq<Stmt>) -> Seq<StmtModel>
    decreases ss,
{
    if ss.len() == 0 {
        Seq::empty()
    } else {
        seq![stmt_model(ss[0])] + stmts_model(ss.drop_first())
    }
}

impl View for Expr {
    type V = ExprModel;

    open spec fn view(&self) -> ExprModel {
        expr_model(*self)
    }
}

impl View for Stmt {
    type V = StmtModel;

    open spec fn view(&self) -> StmtModel {
        stmt_model(*self)
    }
}

/// Appending a statement appends its model.
pub proof fn lemma_stmts_model_push(ss: Seq<Stmt>, x: Stmt)
    ensures
        stmts_model(ss.push(x)) =~= stmts_model(ss) + seq![stmt_model(x)],
    decreases ss.len(),
{
    if ss.len() == 0 {
        reveal_with_fuel(stmts_model, 2);
        assert(ss.push(x)[0] == x);
        assert(ss.push(x).drop_first() =~= Seq::<Stmt>::empty());
        assert(stmts_model(ss.push(x)) =~= seq![stmt_model(x)]);
        assert(stmts_model(ss) + seq![stmt_model(x)] =~= seq![stmt_model(x)]);
    } else {
        assert(ss.push(x)[0] == ss[0]);
        assert(ss.push(x).drop_first() =~= ss.drop_first().push(x));
        lemma_stmts_model_push(ss.drop_first(), x);
        assert(seq![stmt_model(ss[0])] + (stmts_model(ss.drop_first()) + seq![stmt_model(x)])
            =~= (seq![stmt_model(ss[0])] + stmts_model(ss.drop_first())) + seq![stmt_model(x)]);
    }
}

/// Each statement's model is the model of the statement.
pub proof fn lemma_stmts_model_index(ss: Seq<Stmt>, i: int)
    requires
        0 <= i < ss.len(),
    ensures
        stmts_model(ss).len() == ss.len(),
        stmts_model(ss)[i] == stmt_model(ss[i]),
    decreases ss.len(),
{
    lemma_stmts_model_len(ss);
    if i > 0 {
        lemma_stmts_model_index(ss.drop_first(), i - 1);
    }
}

/// A statement sequence and its model have one length.
pub proof fn lemma_stmts_model_len(ss: Seq<Stmt>)
    ensures
        stmts_model(ss).len() == ss.len(),
    decreases ss.len(),
{
    if ss.len() > 0 {
        lemma_stmts_model_len(ss.drop_first());
    }
}

} // verus!
