//! The evaluator: walks the syntax tree, resolves identifiers through the
//! scope chain, computes values, and threads errors. Its behaviour is fixed
//! by a spec-level evaluator over the model types, which the executable
//! methods are proved to match step for step.
use vstd::prelude::*;
use vstd::string::StringExecFns;
use crate::ast::{stmt_model, stmts_model, lemma_stmts_model_index, lemma_stmts_model_len, Expr,
    ExprModel, Stmt, StmtModel};
use crate::common::{make_error_msg, spec_error_msg};
use crate::envr::{spec_env_assign, spec_env_define, spec_env_lookup, spec_frame_contains,
    EntryModel, Environment};
use crate::token::TokenTypeModel;
use crate::value::{res_view, spec_apply_binary, spec_apply_unary, spec_display, ErrorModel,
    UvlError, UvlResult, UvlValue, ValueModel};

verus! {

/// The outcome of evaluating an expression: the scope chain afterwards and
/// the value or error produced.
pub struct EvalModel {
    pub env: Seq<Seq<EntryModel>>,
    pub res: Result<ValueModel, ErrorModel>,
}

/// The outcome of executing a statement: the scope chain afterwards, the
/// lines printed, and the value or error produced.
pub struct StepModel {
    pub env: Seq<Seq<EntryModel>>,
    pub out: Seq<Seq<char>>,
    pub res: Result<ValueModel, ErrorModel>,
}

/// The diagnostic for a reference to a name no frame binds.
pub open spec fn spec_not_defined_msg(ctx: crate::ast::CtxModel, name: Seq<char>) -> Seq<char> {
    spec_error_msg(ctx, "Name '"@ + name + "' is not defined"@)
}

/// The diagnostic for an assignment to an immutable name.
pub open spec fn spec_immutable_msg(ctx: crate::ast::CtxModel, name: Seq<char>) -> Seq<char> {
    spec_error_msg(ctx, "Name '"@ + name + "' is immutable"@)
}

/// The diagnostic for a redeclaration in the same frame.
pub open spec fn spec_already_defined_msg(
    ctx: crate::ast::CtxModel,
    name: Seq<char>,
) -> Seq<char> {
    spec_error_msg(ctx, "Name '"@ + name + "' is already defined"@)
}

/// The value of a literal token: string and number payloads carry over, the
/// boolean keywords yield booleans, and everything else yields nil.
pub open spec fn spec_literal_value(t: TokenTypeModel) -> ValueModel {
    match t {
        TokenTypeModel::Str(s) => ValueModel::Str(s),
        TokenTypeModel::Number(n) => ValueModel::Num(n),
        TokenTypeModel::True => ValueModel::Bool(true),
        TokenTypeModel::False => ValueModel::Bool(false),
        _ => ValueModel::Nil,
    }
}

/// What evaluating an expression against a scope chain yields. Operands are
/// evaluated left to right, both before either side's error is reported; an
/// assignment checks the binding before evaluating its right-hand side and
/// returns the binding's previous value.
pub open spec fn spec_eval_expr(env: Seq<Seq<EntryModel>>, e: ExprModel) -> EvalModel
    decreases e,
{
    match e {
        ExprModel::Literal(_, t) => EvalModel { env, res: Ok(spec_literal_value(t.ttype)) },
        ExprModel::Grouping(_, inner) => spec_eval_expr(env, *inner),
        ExprModel::Unary(ctx, op, inner) => {
            let r1 = spec_eval_expr(env, *inner);
            match r1.res {
                Ok(v) => EvalModel { env: r1.env, res: spec_apply_unary(v, ctx, op.ttype) },
                Err(e1) => EvalModel { env: r1.env, res: Err(e1) },
            }
        },
        ExprModel::Binary(ctx, l, op, r) => {
            let r1 = spec_eval_expr(env, *l);
            let r2 = spec_eval_expr(r1.env, *r);
            match r1.res {
                Err(e1) => EvalModel { env: r2.env, res: Err(e1) },
                Ok(v1) => match r2.res {
                    Err(e2) => EvalModel { env: r2.env, res: Err(e2) },
                    Ok(v2) => EvalModel {
                        env: r2.env,
                        res: spec_apply_binary(v1, ctx, op.ttype, v2),
                    },
                },
            }
        },
        ExprModel::Variable(ctx, t) => match spec_env_lookup(env, t.lexeme) {
            Some(b) => EvalModel { env, res: Ok(b.value) },
            None => EvalModel {
                env,
                res: Err(ErrorModel::NameError(spec_not_defined_msg(ctx, t.lexeme))),
            },
        },
        ExprModel::Assign(ctx, t, rhs) => match spec_env_lookup(env, t.lexeme) {
            None => EvalModel {
                env,
                res: Err(ErrorModel::NameError(spec_not_defined_msg(ctx, t.lexeme))),
            },
            Some(b) => if !b.is_mutable {
                EvalModel {
                    env,
                    res: Err(ErrorModel::NameError(spec_immutable_msg(ctx, t.lexeme))),
                }
            } else {
                let r1 = spec_eval_expr(env, *rhs);
                match r1.res {
                    Err(e1) => EvalModel { env: r1.env, res: Err(e1) },
                    Ok(v) => EvalModel {
                        env: spec_env_assign(r1.env, t.lexeme, v),
                        res: Ok(b.value),
                    },
                }
            },
        },
    }
}

/// What executing one statement yields: an expression statement hands back
/// its value, a print statement emits the value's rendering and yields nil, a
/// declaration rejects a name its frame already binds and otherwise binds the
/// initializer's value, and a block runs its statements in a fresh child
/// frame that is discarded on exit, error or not.
pub open spec fn spec_exec_stmt(env: Seq<Seq<EntryModel>>, s: StmtModel) -> StepModel
    decreases s,
{
    match s {
        StmtModel::Expression(_, e) => {
            let r = spec_eval_expr(env, *e);
            StepModel { env: r.env, out: Seq::empty(), res: r.res }
        },
        StmtModel::PrintLn(_, e) => {
            let r = spec_eval_expr(env, *e);
            match r.res {
                Ok(v) => StepModel {
                    env: r.env,
                    out: seq![spec_display(v)],
                    res: Ok(ValueModel::Nil),
                },
                Err(er) => StepModel { env: r.env, out: Seq::empty(), res: Err(er) },
            }
        },
        StmtModel::Let(ctx, t, m, e) => if spec_frame_contains(env.last(), t.lexeme) {
            StepModel {
                env,
                out: Seq::empty(),
                res: Err(ErrorModel::NameError(spec_already_defined_msg(ctx, t.lexeme))),
            }
        } else {
            let r = spec_eval_expr(env, *e);
            match r.res {
                Err(er) => StepModel { env: r.env, out: Seq::empty(), res: Err(er) },
                Ok(v) => StepModel {
                    env: spec_env_define(r.env, t.lexeme, m, v),
                    out: Seq::empty(),
                    res: Ok(ValueModel::Nil),
                },
            }
        },
        StmtModel::Block(_, stmts) => {
            let b = spec_exec_stmts(env.push(Seq::empty()), stmts, 0);
            StepModel {
                env: b.env.drop_last(),
                out: b.out,
                res: match b.res {
                    Ok(_) => Ok(ValueModel::Nil),
                    Err(e) => Err(e),
                },
            }
        },
    }
}

/// What executing the statements from position `i` on yields: statements run
/// in order, stopping at the first error; success yields nil.
pub open spec fn spec_exec_stmts(
    env: Seq<Seq<EntryModel>>,
    ss: Seq<StmtModel>,
    i: int,
) -> StepModel
    decreases ss, ss.len() - i,
{
    if i < 0 || i >= ss.len() {
        StepModel { env, out: Seq::empty(), res: Ok(ValueModel::Nil) }
    } else {
        let st = spec_exec_stmt(env, ss[i]);
        match st.res {
            Err(e) => StepModel { env: st.env, out: st.out, res: Err(e) },
            Ok(_) => {
                let rest = spec_exec_stmts(st.env, ss, i + 1);
                StepModel { env: rest.env, out: st.out + rest.out, res: rest.res }
            },
        }
    }
}

/// What a top-level run of parsed statements yields: in interactive mode only
/// the first statement is executed and hands back its value (nil where no
/// statement was parsed); otherwise every statement runs in order and success
/// yields nil.
pub open spec fn spec_execute(
    env: Seq<Seq<EntryModel>>,
    ss: Seq<StmtModel>,
    prompt: bool,
) -> StepModel {
    if prompt {
        if ss.len() == 0 {
            StepModel { env, out: Seq::empty(), res: Ok(ValueModel::Nil) }
        } else {
            spec_exec_stmt(env, ss[0])
        }
    } else {
        let m = spec_exec_stmts(env, ss, 0);
        StepModel {
            env: m.env,
            out: m.out,
            res: match m.res {
                Ok(_) => Ok(ValueModel::Nil),
                Err(e) => Err(e),
            },
        }
    }
}

/// Law: evaluating a numeric literal yields exactly the number the literal's
/// text parses to — the value the lexer stored for it — whatever the scope
/// chain holds.
pub proof fn lemma_numeric_literal_eval(
    env: Seq<Seq<EntryModel>>,
    ctx: crate::ast::CtxModel,
    t: crate::token::TokenModel,
)
    requires
        t.ttype == TokenTypeModel::Number(crate::numerics::spec_num_parse(t.lexeme)),
    ensures
        spec_eval_expr(env, ExprModel::Literal(ctx, t)) == (EvalModel {
            env,
            res: Ok(ValueModel::Num(crate::numerics::spec_num_parse(t.lexeme))),
        }),
{
}

/// What one run of the whole pipeline yields on a source text: the lexer's
/// fault, the parser's diagnostic, or the outcome of executing the parsed
/// statements against the given scope chain.
pub open spec fn spec_run(
    env: Seq<Seq<EntryModel>>,
    source_name: Seq<char>,
    source: Seq<char>,
    prompt: bool,
) -> StepModel {
    match crate::lexer::spec_scan(source) {
        Err(e) => StepModel { env, out: Seq::empty(), res: Err(e) },
        Ok(toks) => match crate::parser::spec_parse(toks, source_name, prompt) {
            Err(msg) => StepModel {
                env,
                out: Seq::empty(),
                res: Err(ErrorModel::ParseError(msg)),
            },
            Ok(stmts) => spec_execute(env, stmts, prompt),
        },
    }
}

/// The interpreter session: the interactive flag, the transient error flag,
/// the scope chain, and the lines printed so far (handed to the caller to
/// emit).
pub struct UvlInterpreter {
    pub prompt_mode: bool,
    pub had_error: bool,
    pub environment: Environment,
    pub output: Vec<String>,
}

impl UvlInterpreter {
    /// Whether the session's scope chain is well formed.
    pub open spec fn wf(&self) -> bool {
        self.environment.wf()
    }

    /// The lines printed so far.
    pub open spec fn out_model(&self) -> Seq<Seq<char>> {
        self.output@.map_values(|s: String| s@)
    }

    /// A fresh session with a single empty root frame and no output.
    pub fn new(prompt_mode: bool) -> (r: UvlInterpreter)
        ensures
            r.wf(),
            r.prompt_mode == prompt_mode,
            !r.had_error,
            r.environment@ =~~= seq![Seq::<EntryModel>::empty()],
            r.out_model() =~= Seq::<Seq<char>>::empty(),
    {
        UvlInterpreter {
            prompt_mode,
            had_error: false,
            environment: Environment::new(),
            output: Vec::new(),
        }
    }

    /// Clears only the transient error flag; declared bindings are kept, so
    /// an interactive session keeps its continuity.
    pub fn reset(&mut self)
        ensures
            !final(self).had_error,
            final(self).prompt_mode == old(self).prompt_mode,
            final(self).environment == old(self).environment,
            final(self).output == old(self).output,
    {
        self.had_error = false;
    }

    /// Emits a value: its rendering joins the session's output, and the
    /// statement's result is nil.
    fn exec_println(&mut self, val: &UvlValue) -> (r: UvlResult)
        ensures
            final(self).environment == old(self).environment,
            final(self).prompt_mode == old(self).prompt_mode,
            final(self).had_error == old(self).had_error,
            final(self).out_model() =~= old(self).out_model() + seq![spec_display(val@)],
            res_view(r) == Ok::<ValueModel, ErrorModel>(ValueModel::Nil),
    {
        let s = val.display_string();
        self.output.push(s);
        let r = Ok(UvlValue::Nil);
        assert(final(self).out_model() =~= old(self).out_model() + seq![spec_display(val@)]);
        r
    }

    /// Evaluates one expression, as the spec-level evaluator does.
    fn eval_expr(&mut self, expr: &Expr) -> (r: UvlResult)
        requires
            old(self).wf(),
        ensures
            final(self).wf(),
            final(self).prompt_mode == old(self).prompt_mode,
            final(self).had_error == old(self).had_error,
            final(self).output == old(self).output,
            final(self).environment@.len() == old(self).environment@.len(),
            ({
                let m = spec_eval_expr(old(self).environment@, expr@);
                final(self).environment@ == m.env && res_view(r) == m.res
            }),
        decreases expr,
    {
        match expr {
            Expr::Literal(_, token) => match &token.ttype {
                crate::token::TokenType::Str(s) => Ok(UvlValue::Str(s.clone())),
                crate::token::TokenType::Number(n) => Ok(UvlValue::Num(*n)),
                crate::token::TokenType::True => Ok(UvlValue::Bool(true)),
                crate::token::TokenType::False => Ok(UvlValue::Bool(false)),
                _ => Ok(UvlValue::Nil),
            },
            Expr::Grouping(_, inner) => self.eval_expr(inner),
            Expr::Unary(ctx, op, inner) => match self.eval_expr(inner) {
                Ok(v) => v.apply_operator(ctx, &op.ttype, None),
                Err(e) => Err(e),
            },
            Expr::Binary(ctx, left, op, right) => {
                let left_val = self.eval_expr(left);
                let right_val = self.eval_expr(right);
                match left_val {
                    Err(e1) => Err(e1),
                    Ok(v1) => match right_val {
                        Err(e2) => Err(e2),
                        Ok(v2) => v1.apply_operator(ctx, &op.ttype, Some(&v2)),
                    },
                }
            },
            Expr::Variable(ctx, token) => match self.environment.get(&token.lexeme) {
                Some(entry) => Ok(entry.value.dup()),
                None => {
                    let mut m = String::from_str("Name '");
                    m.append(token.lexeme.as_str());
                    m.append("' is not defined");
                    assert(m@ =~= "Name '"@ + token.lexeme@ + "' is not defined"@);
                    Err(UvlError::NameError(make_error_msg(ctx, m)))
                },
            },
            Expr::Assign(ctx, token, rhs) => {
                let is_mutable: bool;
                let prev: UvlValue;
                match self.environment.get(&token.lexeme) {
                    None => {
                        let mut m = String::from_str("Name '");
                        m.append(token.lexeme.as_str());
                        m.append("' is not defined");
                        assert(m@ =~= "Name '"@ + token.lexeme@ + "' is not defined"@);
                        return Err(UvlError::NameError(make_error_msg(ctx, m)));
                    },
                    Some(entry) => {
                        is_mutable = entry.is_mutable;
                        prev = entry.value.dup();
                    },
                }
                if !is_mutable {
                    let mut m = String::from_str("Name '");
                    m.append(token.lexeme.as_str());
                    m.append("' is immutable");
                    assert(m@ =~= "Name '"@ + token.lexeme@ + "' is immutable"@);
                    return Err(UvlError::NameError(make_error_msg(ctx, m)));
                }
                match self.eval_expr(rhs) {
                    Ok(val) => {
                        self.environment.assign(&token.lexeme, val);
                        Ok(prev)
                    },
                    Err(e) => Err(e),
                }
            },
        }
    }

    /// Executes one statement, as the spec-level evaluator does.
    fn exec_statement(&mut self, stmt: &Stmt) -> (r: UvlResult)
        requires
            old(self).wf(),
        ensures
            final(self).wf(),
            final(self).prompt_mode == old(self).prompt_mode,
            final(self).had_error == old(self).had_error,
            final(self).environment@.len() == old(self).environment@.len(),
            ({
                let m = spec_exec_stmt(old(self).environment@, stmt@);
                final(self).environment@ == m.env && final(self).out_model() =~= old(
                    self,
                ).out_model() + m.out && res_view(r) == m.res
            }),
        decreases stmt,
    {
        match stmt {
            Stmt::Expression(_, expr) => self.eval_expr(expr),
            Stmt::PrintLn(_, expr) => match self.eval_expr(expr) {
                Ok(val) => self.exec_println(&val),
                Err(e) => Err(e),
            },
            Stmt::Let(ctx, token, is_mutable, expr) => {
                if self.environment.contains(&token.lexeme) {
                    let mut m = String::from_str("Name '");
                    m.append(token.lexeme.as_str());
                    m.append("' is already defined");
                    assert(m@ =~= "Name '"@ + token.lexeme@ + "' is already defined"@);
                    return Err(UvlError::NameError(make_error_msg(ctx, m)));
                }
                match self.eval_expr(expr) {
                    Ok(val) => {
                        self.environment.define(&token.lexeme, is_mutable.0, val);
                        Ok(UvlValue::Nil)
                    },
                    Err(e) => Err(e),
                }
            },
            Stmt::Block(_, stmts) => self.exec_block(stmts),
        }
    }

    /// Runs a block: a fresh child frame is opened, the statements run
    /// against it, and the frame is discarded when the block exits, on
    /// success or on the first statement error, so its bindings never leak
    /// into the parent scope.
    fn exec_block(&mut self, stmts: &Vec<Stmt>) -> (r: UvlResult)
        requires
            old(self).wf(),
        ensures
            final(self).wf(),
            final(self).prompt_mode == old(self).prompt_mode,
            final(self).had_error == old(self).had_error,
            final(self).environment@.len() == old(self).environment@.len(),
            ({
                let b = spec_exec_stmts(
                    old(self).environment@.push(Seq::empty()),
                    stmts_model(stmts@),
                    0,
                );
                final(self).environment@ == b.env.drop_last() && final(self).out_model() =~= old(
                    self,
                ).out_model() + b.out && res_view(r) == (match b.res {
                    Ok(_) => Ok(ValueModel::Nil),
                    Err(e) => Err(e),
                })
            }),
        decreases stmts, 1nat,
    {
        self.environment.push_frame();
        let r = self.exec_stmts(stmts);
        self.environment.pop_frame();
        r
    }

    /// Runs a list of statements in order against the current scope chain,
    /// stopping at the first error.
    fn exec_stmts(&mut self, stmts: &Vec<Stmt>) -> (r: UvlResult)
        requires
            old(self).wf(),
        ensures
            final(self).wf(),
            final(self).prompt_mode == old(self).prompt_mode,
            final(self).had_error == old(self).had_error,
            final(self).environment@.len() == old(self).environment@.len(),
            ({
                let m = spec_exec_stmts(old(self).environment@, stmts_model(stmts@), 0);
                final(self).environment@ == m.env && final(self).out_model() =~= old(
                    self,
                ).out_model() + m.out && res_view(r) == (match m.res {
                    Ok(_) => Ok(ValueModel::Nil),
                    Err(e) => Err(e),
                })
            }),
        decreases stmts, 0nat,
    {
        let ghost env00 = self.environment@;
        let ghost out0 = self.out_model();
        let ghost sm = stmts_model(stmts@);
        proof {
            lemma_stmts_model_len(stmts@);
        }
        let n = stmts.len();
        let mut i: usize = 0;
        while i < n
            invariant
                self.wf(),
                self.prompt_mode == old(self).prompt_mode,
                self.had_error == old(self).had_error,
                self.environment@.len() == env00.len(),
                env00 == old(self).environment@,
                out0 == old(self).out_model(),
                sm == stmts_model(stmts@),
                sm.len() == n,
                n == stmts@.len(),
                i <= n,
                out0.len() <= self.out_model().len(),
                self.out_model().take(out0.len() as int) =~= out0,
                ({
                    let full = spec_exec_stmts(env00, sm, 0);
                    let rest = spec_exec_stmts(self.environment@, sm, i as int);
                    full.env == rest.env && full.res == rest.res && full.out
                        =~= self.out_model().skip(out0.len() as int) + rest.out
                }),
            decreases n - i,
        {
            let ghost env_i = self.environment@;
            let ghost out_i = self.out_model();
            let res = self.exec_statement(&stmts[i]);
            proof {
                lemma_stmts_model_index(stmts@, i as int);
                assert(stmt_model(stmts@[i as int]) == sm[i as int]);
            }
            match res {
                Err(e) => {
                    proof {
                        let m_i = spec_exec_stmt(env_i, sm[i as int]);
                        assert(spec_exec_stmts(env_i, sm, i as int) == StepModel {
                            env: m_i.env,
                            out: m_i.out,
                            res: m_i.res,
                        });
                        assert(self.out_model().skip(out0.len() as int) =~= out_i.skip(
                            out0.len() as int,
                        ) + m_i.out);
                    }
                    return Err(e);
                },
                Ok(_) => {
                    proof {
                        let m_i = spec_exec_stmt(env_i, sm[i as int]);
                        let rest_next = spec_exec_stmts(self.environment@, sm, i as int + 1);
                        assert(spec_exec_stmts(env_i, sm, i as int) == StepModel {
                            env: rest_next.env,
                            out: m_i.out + rest_next.out,
                            res: rest_next.res,
                        });
                        assert(self.out_model().skip(out0.len() as int) =~= out_i.skip(
                            out0.len() as int,
                        ) + m_i.out);
                    }
                },
            }
            i += 1;
        }
        proof {
            assert(spec_exec_stmts(self.environment@, sm, i as int).out =~= Seq::<
                Seq<char>,
            >::empty());
            assert(self.out_model() =~= out0 + self.out_model().skip(out0.len() as int));
        }
        Ok(UvlValue::Nil)
    }

    /// Runs one source text against this session: in interactive mode only
    /// the first parsed statement is executed.
    pub fn run(&mut self, source_name: &str, source: &str) -> (r: UvlResult)
        requires
            old(self).wf(),
        ensures
            final(self).wf(),
            final(self).prompt_mode == old(self).prompt_mode,
            final(self).had_error == old(self).had_error,
            ({
                let m = spec_run(
                    old(self).environment@,
                    source_name@,
                    source@,
                    old(self).prompt_mode,
                );
                final(self).environment@ == m.env && final(self).out_model() =~= old(
                    self,
                ).out_model() + m.out && res_view(r) == m.res
            }),
    {
        let mut lexer = crate::lexer::Lexer::new(source);
        let tokens = match lexer.scan() {
            Err(e) => {
                assert(final(self).out_model() =~= old(self).out_model());
                return Err(e);
            },
            Ok(t) => t,
        };
        proof {
            crate::lexer::lemma_scan_from_ok_shape(source@, 0, 0);
        }
        let mut parser = crate::parser::Parser::new(&tokens, source_name, self.prompt_mode);
        match parser.parse() {
            Ok(stmts) => self.execute(&stmts),
            Err(e) => {
                assert(final(self).out_model() =~= old(self).out_model());
                Err(UvlError::ParseError(e))
            },
        }
    }

    /// Runs the parsed statements: in interactive mode only the first, which
    /// hands back its value; otherwise all of them in order.
    fn execute(&mut self, stmts: &Vec<Stmt>) -> (r: UvlResult)
        requires
            old(self).wf(),
        ensures
            final(self).wf(),
            final(self).prompt_mode == old(self).prompt_mode,
            final(self).had_error == old(self).had_error,
            final(self).environment@.len() == old(self).environment@.len(),
            ({
                let m = spec_execute(
                    old(self).environment@,
                    stmts_model(stmts@),
                    old(self).prompt_mode,
                );
                final(self).environment@ == m.env && final(self).out_model() =~= old(
                    self,
                ).out_model() + m.out && res_view(r) == m.res
            }),
    {
        proof {
            lemma_stmts_model_len(stmts@);
        }
        if self.prompt_mode {
            if stmts.len() == 0 {
                assert(final(self).out_model() =~= old(self).out_model());
                Ok(UvlValue::Nil)
            } else {
                proof {
                    lemma_stmts_model_index(stmts@, 0);
                }
                self.exec_statement(&stmts[0])
            }
        } else {
            self.exec_stmts(stmts)
        }
    }
}

} // verus!
