//! The parser: recursive descent over the token stream, producing statement
//! nodes, with left-associative binary layers for the operator grammar and
//! right-associative assignment. Its behaviour is fixed by a spec-level
//! parser over token models, which the executable methods are proved to
//! match. The spec-level parser is total: the arms it holds for a sub-parse
//! that consumed nothing or overran the input make its recursion visibly
//! terminating, and the executable methods' contracts carry the progress and
//! bounds facts that rule those arms out.
use vstd::prelude::*;
use vstd::string::StringExecFns;
use crate::ast::{Ctx, CtxModel, Expr, ExprModel, Mutable, Stmt, StmtModel};
use crate::common::{format_usize, spec_decimal};
use crate::lexer::tokens_model;
use crate::token::{Token, TokenKind, TokenModel};

verus! {

/// The context stamped on a node from its triggering token.
pub open spec fn spec_ctx(name: Seq<char>, t: TokenModel) -> CtxModel {
    CtxModel { file: name, line: t.line, module: "root"@ }
}

/// The single-line parse diagnostic: at end of input the offending lexeme is
/// not named; otherwise it is quoted.
pub open spec fn spec_parse_err_msg(
    name: Seq<char>,
    tok: TokenModel,
    message: Seq<char>,
) -> Seq<char> {
    if tok.ttype.kind() == TokenKind::Eof {
        "File \"<"@ + name + ">\", line "@ + spec_decimal(tok.line) + ", in <root>\n\tError: "@
            + message + " at end"@
    } else {
        "File \"<"@ + name + ">\", line "@ + spec_decimal(tok.line) + ", in <root>\n\tError at '"@
            + tok.lexeme + "': "@ + message
    }
}

/// The token at `pos`, or an end-of-input token out of range.
pub open spec fn spec_at(toks: Seq<TokenModel>, pos: int) -> TokenModel {
    if 0 <= pos < toks.len() {
        toks[pos]
    } else {
        TokenModel { ttype: crate::token::TokenTypeModel::Eof, lexeme: Seq::empty(), line: 0 }
    }
}

/// Whether `k` is one of the operators of the given binary-layer level:
/// multiplicative, additive, comparison, or equality.
pub open spec fn spec_level_op(level: int, k: TokenKind) -> bool {
    if level == 2 {
        k == TokenKind::Slash || k == TokenKind::Star
    } else if level == 3 {
        k == TokenKind::Minus || k == TokenKind::Plus
    } else if level == 4 {
        k == TokenKind::Greater || k == TokenKind::GreaterEqual || k == TokenKind::Less || k
            == TokenKind::LessEqual
    } else if level == 5 {
        k == TokenKind::BangEqual || k == TokenKind::EqualEqual
    } else {
        false
    }
}

/// A parsed expression: the position after it, and the node or the
/// diagnostic.
pub struct PExpr {
    pub pos: int,
    pub res: Result<ExprModel, Seq<char>>,
}

/// A parsed statement.
pub struct PStmt {
    pub pos: int,
    pub res: Result<StmtModel, Seq<char>>,
}

/// A parsed statement sequence.
pub struct PStmts {
    pub pos: int,
    pub res: Result<Seq<StmtModel>, Seq<char>>,
}

/// A primary expression: a literal, a variable reference, or a
/// parenthesized grouping.
pub open spec fn spec_parse_primary(toks: Seq<TokenModel>, name: Seq<char>, pos: int) -> PExpr
    decreases toks.len() - pos, 0int,
{
    let t = spec_at(toks, pos);
    let k = t.ttype.kind();
    if k == TokenKind::False || k == TokenKind::True || k == TokenKind::Nil || k
        == TokenKind::Number || k == TokenKind::Str {
        PExpr { pos: pos + 1, res: Ok(ExprModel::Literal(spec_ctx(name, t), t)) }
    } else if k == TokenKind::Identifier {
        PExpr { pos: pos + 1, res: Ok(ExprModel::Variable(spec_ctx(name, t), t)) }
    } else if k == TokenKind::LeftParen {
        let e = spec_parse_assignment(toks, name, pos + 1);
        match e.res {
            Err(m) => PExpr { pos: e.pos, res: Err(m) },
            Ok(inner) => if spec_at(toks, e.pos).ttype.kind() == TokenKind::RightParen {
                PExpr {
                    pos: e.pos + 1,
                    res: Ok(ExprModel::Grouping(spec_ctx(name, t), Box::new(inner))),
                }
            } else {
                PExpr {
                    pos: e.pos,
                    res: Err(
                        spec_parse_err_msg(
                            name,
                            spec_at(toks, e.pos),
                            "Expect ')' after expression"@,
                        ),
                    ),
                }
            },
        }
    } else {
        PExpr { pos, res: Err(spec_parse_err_msg(name, t, "Expect expression"@)) }
    }
}

/// A unary expression: `!` or `-` applied to a unary expression, or a
/// primary.
pub open spec fn spec_parse_unary(toks: Seq<TokenModel>, name: Seq<char>, pos: int) -> PExpr
    decreases toks.len() - pos, 1int,
{
    let t = spec_at(toks, pos);
    let k = t.ttype.kind();
    if k == TokenKind::Bang || k == TokenKind::Minus {
        let r = spec_parse_unary(toks, name, pos + 1);
        match r.res {
            Err(m) => PExpr { pos: r.pos, res: Err(m) },
            Ok(e) => PExpr {
                pos: r.pos,
                res: Ok(ExprModel::Unary(spec_ctx(name, t), t, Box::new(e))),
            },
        }
    } else {
        spec_parse_primary(toks, name, pos)
    }
}

/// One left-associative binary layer: its operand layer, then any run of its
/// operators, each folded into a binary node.
pub open spec fn spec_parse_level(
    toks: Seq<TokenModel>,
    name: Seq<char>,
    pos: int,
    level: int,
) -> PExpr
    decreases toks.len() - pos, (if level <= 2 { 4int } else { 2 * level }),
{
    let first = if level <= 2 {
        spec_parse_unary(toks, name, pos)
    } else {
        spec_parse_level(toks, name, pos, level - 1)
    };
    match first.res {
        Err(m) => first,
        Ok(l) => if first.pos <= pos || first.pos > toks.len() {
            first
        } else {
            spec_parse_level_rest(toks, name, first.pos, level, l)
        },
    }
}

/// The run of operators continuing a binary layer after its first operand.
pub open spec fn spec_parse_level_rest(
    toks: Seq<TokenModel>,
    name: Seq<char>,
    pos: int,
    level: int,
    left: ExprModel,
) -> PExpr
    decreases toks.len() - pos, (if level <= 2 { 5int } else { 2 * level + 1 }),
{
    let t = spec_at(toks, pos);
    if !spec_level_op(level, t.ttype.kind()) || pos >= toks.len() || pos < 0 {
        PExpr { pos, res: Ok(left) }
    } else {
        let right = if level <= 2 {
            spec_parse_unary(toks, name, pos + 1)
        } else {
            spec_parse_level(toks, name, pos + 1, level - 1)
        };
        match right.res {
            Err(m) => PExpr { pos: right.pos, res: Err(m) },
            Ok(r) => if right.pos <= pos || right.pos > toks.len() {
                PExpr { pos: right.pos, res: Err(Seq::empty()) }
            } else {
                spec_parse_level_rest(
                    toks,
                    name,
                    right.pos,
                    level,
                    ExprModel::Binary(spec_ctx(name, t), Box::new(left), t, Box::new(r)),
                )
            },
        }
    }
}

/// An assignment: an equality-layer expression, optionally followed by `=`
/// and a right-associative assignment whose target must be a bare variable
/// reference.
pub open spec fn spec_parse_assignment(toks: Seq<TokenModel>, name: Seq<char>, pos: int) -> PExpr
    decreases toks.len() - pos, 11int,
{
    let eq = spec_parse_level(toks, name, pos, 5);
    match eq.res {
        Err(m) => eq,
        Ok(l) => if eq.pos <= pos || eq.pos > toks.len() {
            eq
        } else if spec_at(toks, eq.pos).ttype.kind() == TokenKind::Equal {
            let teq = spec_at(toks, eq.pos);
            let value = spec_parse_assignment(toks, name, eq.pos + 1);
            match value.res {
                Err(m) => PExpr { pos: value.pos, res: Err(m) },
                Ok(v) => match l {
                    ExprModel::Variable(c, ntok) => PExpr {
                        pos: value.pos,
                        res: Ok(ExprModel::Assign(c, ntok, Box::new(v))),
                    },
                    _ => PExpr {
                        pos: value.pos,
                        res: Err(spec_parse_err_msg(name, teq, "Invalid assignment value"@)),
                    },
                },
            }
        } else {
            eq
        },
    }
}

/// A declaration, the `let` keyword already consumed: an optional `mut`, an
/// identifier, `=`, an initializer, and the statement terminator (optional
/// at end of input in interactive mode).
pub open spec fn spec_parse_let(
    toks: Seq<TokenModel>,
    name: Seq<char>,
    prompt: bool,
    pos: int,
) -> PStmt
    decreases toks.len() - pos, 12int,
{
    let (is_mut, p) = if spec_at(toks, pos).ttype.kind() == TokenKind::Mut {
        (true, pos + 1)
    } else {
        (false, pos)
    };
    if spec_at(toks, p).ttype.kind() == TokenKind::Identifier {
        let ident = spec_at(toks, p);
        if spec_at(toks, p + 1).ttype.kind() == TokenKind::Equal {
            let e = spec_parse_assignment(toks, name, p + 2);
            match e.res {
                Err(m) => PStmt { pos: e.pos, res: Err(m) },
                Ok(init) => if spec_at(toks, e.pos).ttype.kind() == TokenKind::Semicolon {
                    PStmt {
                        pos: e.pos + 1,
                        res: Ok(
                            StmtModel::Let(spec_ctx(name, ident), ident, is_mut, Box::new(init)),
                        ),
                    }
                } else if prompt {
                    PStmt {
                        pos: e.pos,
                        res: Ok(
                            StmtModel::Let(spec_ctx(name, ident), ident, is_mut, Box::new(init)),
                        ),
                    }
                } else {
                    PStmt {
                        pos: e.pos,
                        res: Err(
                            spec_parse_err_msg(
                                name,
                                spec_at(toks, e.pos),
                                "Expect ';' after expression"@,
                            ),
                        ),
                    }
                },
            }
        } else {
            PStmt {
                pos: p + 1,
                res: Err(
                    spec_parse_err_msg(name, spec_at(toks, p + 1), "Expect initialization"@),
                ),
            }
        }
    } else {
        PStmt {
            pos: p,
            res: Err(
                spec_parse_err_msg(name, spec_at(toks, p), "Expect identifier after let"@),
            ),
        }
    }
}

/// A print statement, the `println` keyword already consumed: an expression
/// and the statement terminator.
pub open spec fn spec_parse_print(
    toks: Seq<TokenModel>,
    name: Seq<char>,
    prompt: bool,
    pos: int,
) -> PStmt
    decreases toks.len() - pos, 12int,
{
    let e = spec_parse_assignment(toks, name, pos);
    match e.res {
        Err(m) => PStmt { pos: e.pos, res: Err(m) },
        Ok(expr) => if spec_at(toks, e.pos).ttype.kind() == TokenKind::Semicolon {
            PStmt {
                pos: e.pos + 1,
                res: Ok(StmtModel::PrintLn(spec_ctx(name, spec_at(toks, e.pos)), Box::new(expr))),
            }
        } else if prompt {
            PStmt {
                pos: e.pos,
                res: Ok(
                    StmtModel::PrintLn(spec_ctx(name, spec_at(toks, e.pos - 1)), Box::new(expr)),
                ),
            }
        } else {
            PStmt {
                pos: e.pos,
                res: Err(
                    spec_parse_err_msg(
                        name,
                        spec_at(toks, e.pos),
                        "Expect ';' after statement"@,
                    ),
                ),
            }
        },
    }
}

/// An expression statement: an expression and the statement terminator.
pub open spec fn spec_parse_exprstmt(
    toks: Seq<TokenModel>,
    name: Seq<char>,
    prompt: bool,
    pos: int,
) -> PStmt
    decreases toks.len() - pos, 12int,
{
    let e = spec_parse_assignment(toks, name, pos);
    match e.res {
        Err(m) => PStmt { pos: e.pos, res: Err(m) },
        Ok(expr) => if spec_at(toks, e.pos).ttype.kind() == TokenKind::Semicolon {
            PStmt {
                pos: e.pos + 1,
                res: Ok(
                    StmtModel::Expression(spec_ctx(name, spec_at(toks, e.pos)), Box::new(expr)),
                ),
            }
        } else if prompt {
            PStmt {
                pos: e.pos,
                res: Ok(
                    StmtModel::Expression(
                        spec_ctx(name, spec_at(toks, e.pos - 1)),
                        Box::new(expr),
                    ),
                ),
            }
        } else {
            PStmt {
                pos: e.pos,
                res: Err(
                    spec_parse_err_msg(
                        name,
                        spec_at(toks, e.pos),
                        "Expect ';' after expression"@,
                    ),
                ),
            }
        },
    }
}

/// The statements of a block, up to its closing brace or the end of input.
pub open spec fn spec_parse_block_items(
    toks: Seq<TokenModel>,
    name: Seq<char>,
    prompt: bool,
    pos: int,
) -> PStmts
    decreases toks.len() - pos, 14int,
{
    if !(0 <= pos < toks.len()) {
        PStmts { pos, res: Ok(Seq::empty()) }
    } else {
        let k = spec_at(toks, pos).ttype.kind();
        if k == TokenKind::RightBrace || k == TokenKind::Eof {
            PStmts { pos, res: Ok(Seq::empty()) }
        } else {
            let st = spec_parse_statement(toks, name, prompt, pos);
            match st.res {
                Err(m) => PStmts { pos: st.pos, res: Err(m) },
                Ok(s1) => if st.pos <= pos || st.pos > toks.len() {
                    PStmts { pos: st.pos, res: Err(Seq::empty()) }
                } else {
                    let rest = spec_parse_block_items(toks, name, prompt, st.pos);
                    match rest.res {
                        Err(m) => PStmts { pos: rest.pos, res: Err(m) },
                        Ok(ss) => PStmts { pos: rest.pos, res: Ok(seq![s1] + ss) },
                    }
                },
            }
        }
    }
}

/// A block statement, the opening brace already consumed: statements up to
/// the matching closing brace, which must be present.
pub open spec fn spec_parse_block(
    toks: Seq<TokenModel>,
    name: Seq<char>,
    prompt: bool,
    pos: int,
) -> PStmt
    decreases toks.len() - pos, 15int,
{
    let items = spec_parse_block_items(toks, name, prompt, pos);
    match items.res {
        Err(m) => PStmt { pos: items.pos, res: Err(m) },
        Ok(ss) => if spec_at(toks, items.pos).ttype.kind() == TokenKind::RightBrace {
            PStmt {
                pos: items.pos + 1,
                res: Ok(StmtModel::Block(spec_ctx(name, spec_at(toks, pos - 1)), ss)),
            }
        } else {
            PStmt {
                pos: items.pos,
                res: Err(
                    spec_parse_err_msg(name, spec_at(toks, items.pos), "Expect '}' after block"@),
                ),
            }
        },
    }
}

/// One statement: a declaration, a print statement, a block, or an
/// expression statement.
pub open spec fn spec_parse_statement(
    toks: Seq<TokenModel>,
    name: Seq<char>,
    prompt: bool,
    pos: int,
) -> PStmt
    decreases toks.len() - pos, 13int,
{
    let k = spec_at(toks, pos).ttype.kind();
    if k == TokenKind::Let {
        spec_parse_let(toks, name, prompt, pos + 1)
    } else if k == TokenKind::PrintLn {
        spec_parse_print(toks, name, prompt, pos + 1)
    } else if k == TokenKind::LeftBrace {
        spec_parse_block(toks, name, prompt, pos + 1)
    } else {
        spec_parse_exprstmt(toks, name, prompt, pos)
    }
}

/// The statements of a whole token stream, up to the end-of-input token.
pub open spec fn spec_parse_stmts(
    toks: Seq<TokenModel>,
    name: Seq<char>,
    prompt: bool,
    pos: int,
) -> PStmts
    decreases toks.len() - pos, 14int,
{
    if !(0 <= pos < toks.len()) {
        PStmts { pos, res: Ok(Seq::empty()) }
    } else if spec_at(toks, pos).ttype.kind() == TokenKind::Eof {
        PStmts { pos, res: Ok(Seq::empty()) }
    } else {
        let st = spec_parse_statement(toks, name, prompt, pos);
        match st.res {
            Err(m) => PStmts { pos: st.pos, res: Err(m) },
            Ok(s1) => if st.pos <= pos || st.pos > toks.len() {
                PStmts { pos: st.pos, res: Err(Seq::empty()) }
            } else {
                let rest = spec_parse_stmts(toks, name, prompt, st.pos);
                match rest.res {
                    Err(m) => PStmts { pos: rest.pos, res: Err(m) },
                    Ok(ss) => PStmts { pos: rest.pos, res: Ok(seq![s1] + ss) },
                }
            },
        }
    }
}

/// What parsing a whole token stream yields: the statement sequence, or the
/// first syntax diagnostic.
pub open spec fn spec_parse(toks: Seq<TokenModel>, name: Seq<char>, prompt: bool) -> Result<
    Seq<StmtModel>,
    Seq<char>,
> {
    spec_parse_stmts(toks, name, prompt, 0).res
}

/// The parser's cursor.
pub struct ParserState {
    pub current: usize,
}

impl ParserState {
    pub fn new() -> (r: ParserState)
        ensures
            r.current == 0,
    {
        ParserState { current: 0 }
    }
}

/// The parser over one token stream.
pub struct Parser<'a> {
    pub source_name: &'a str,
    pub prompt_mode: bool,
    pub tokens: &'a Vec<Token>,
    pub state: ParserState,
}

impl<'a> Parser<'a> {
    /// The models of the tokens in hand.
    pub open spec fn toks(&self) -> Seq<TokenModel> {
        tokens_model(self.tokens@)
    }

    /// The source name for diagnostics.
    pub open spec fn sname(&self) -> Seq<char> {
        self.source_name@
    }

    /// The token stream's well-formedness: non-empty and terminated by the
    /// end-of-input token, with the cursor on a token.
    pub open spec fn wf(&self) -> bool {
        &&& self.toks().len() >= 1
        &&& self.toks().last().ttype.kind() == TokenKind::Eof
        &&& self.state.current < self.toks().len()
    }

    /// Whether `b` is `a` after nothing but cursor movement.
    pub open spec fn same_frame(a: Parser<'a>, b: Parser<'a>) -> bool {
        &&& a.source_name == b.source_name
        &&& a.prompt_mode == b.prompt_mode
        &&& a.tokens == b.tokens
    }

    pub fn new(tokens: &'a Vec<Token>, source_name: &'a str, prompt_mode: bool) -> (r: Parser<'a>)
        ensures
            r.tokens == tokens,
            r.source_name == source_name,
            r.prompt_mode == prompt_mode,
            r.state.current == 0,
    {
        Parser { source_name, prompt_mode, tokens, state: ParserState::new() }
    }

    /// The token under the cursor.
    fn peek(&self) -> (t: &Token)
        requires
            self.wf(),
        ensures
            t@ == spec_at(self.toks(), self.state.current as int),
    {
        &self.tokens[self.state.current]
    }

    /// Whether the cursor is on the end-of-input token.
    fn is_at_end(&self) -> (r: bool)
        requires
            self.wf(),
        ensures
            r == (spec_at(self.toks(), self.state.current as int).ttype.kind()
                == TokenKind::Eof),
    {
        self.tokens[self.state.current].ttype.kind() == TokenKind::Eof
    }

    /// Whether the token under the cursor has the given category.
    fn check(&self, k: TokenKind) -> (r: bool)
        requires
            self.wf(),
        ensures
            r == (spec_at(self.toks(), self.state.current as int).ttype.kind() == k && k
                != TokenKind::Eof),
    {
        let kk = self.tokens[self.state.current].ttype.kind();
        kk == k && !(kk == TokenKind::Eof)
    }

    /// Moves the cursor past the current token, unless it is the
    /// end-of-input token.
    fn advance(&mut self)
        requires
            old(self).wf(),
        ensures
            final(self).wf(),
            Parser::same_frame(*old(self), *final(self)),
            final(self).state.current == if spec_at(
                old(self).toks(),
                old(self).state.current as int,
            ).ttype.kind() == TokenKind::Eof {
                old(self).state.current as int
            } else {
                old(self).state.current + 1
            },
    {
        if !self.is_at_end() {
            let n = self.tokens.len();
            proof {
                assert(self.toks()[self.state.current as int] != self.toks().last());
                assert(self.state.current < n);
            }
            self.state.current = self.state.current + 1;
        }
    }

    /// Moves past the current token exactly when it has the given category.
    fn match_kind(&mut self, k: TokenKind) -> (r: bool)
        requires
            old(self).wf(),
        ensures
            final(self).wf(),
            Parser::same_frame(*old(self), *final(self)),
            r == (spec_at(old(self).toks(), old(self).state.current as int).ttype.kind() == k && k
                != TokenKind::Eof),
            final(self).state.current == if r {
                old(self).state.current + 1
            } else {
                old(self).state.current as int
            },
    {
        if self.check(k) {
            self.advance();
            true
        } else {
            false
        }
    }

    /// Formats the single-line parse diagnostic for the offending token.
    fn make_parse_error_message(&self, token: &Token, message: &str) -> (r: String)
        ensures
            r@ == spec_parse_err_msg(self.sname(), token@, message@),
    {
        let mut m = String::from_str("File \"<");
        m.append(self.source_name);
        m.append(">\", line ");
        let ln = format_usize(token.line);
        m.append(ln.as_str());
        if token.ttype.kind() == TokenKind::Eof {
            m.append(", in <root>\n\tError: ");
            m.append(message);
            m.append(" at end");
            assert(m@ =~= spec_parse_err_msg(self.sname(), token@, message@));
        } else {
            m.append(", in <root>\n\tError at '");
            m.append(token.lexeme.as_str());
            m.append("': ");
            m.append(message);
            assert(m@ =~= spec_parse_err_msg(self.sname(), token@, message@));
        }
        m
    }

    /// A primary expression.
    fn primary(&mut self) -> (r: Result<Expr, String>)
        requires
            old(self).wf(),
        ensures
            final(self).wf(),
            Parser::same_frame(*old(self), *final(self)),
            old(self).state.current <= final(self).state.current,
            ({
                let m = spec_parse_primary(
                    old(self).toks(),
                    old(self).sname(),
                    old(self).state.current as int,
                );
                &&& final(self).state.current == m.pos
                &&& match (r, m.res) {
                    (Ok(e), Ok(em)) => e@ == em && old(self).state.current < m.pos,
                    (Err(s), Err(ms)) => s@ == ms,
                    _ => false,
                }
            }),
        decreases old(self).toks().len() - old(self).state.current, 0int,
    {
        if self.check(TokenKind::False) || self.check(TokenKind::True) || self.check(
            TokenKind::Nil,
        ) || self.check(TokenKind::Number) || self.check(TokenKind::Str) {
            let t = self.peek().dup();
            self.advance();
            let c = Ctx::from_token(&t, self.source_name);
            Ok(Expr::Literal(c, t))
        } else if self.check(TokenKind::Identifier) {
            let t = self.peek().dup();
            self.advance();
            let c = Ctx::from_token(&t, self.source_name);
            Ok(Expr::Variable(c, t))
        } else if self.check(TokenKind::LeftParen) {
            let t = self.peek().dup();
            self.advance();
            match self.expr() {
                Err(e) => Err(e),
                Ok(inner) => {
                    if self.match_kind(TokenKind::RightParen) {
                        let c = Ctx::from_token(&t, self.source_name);
                        Ok(Expr::Grouping(c, Box::new(inner)))
                    } else {
                        let msg = self.make_parse_error_message(
                            &self.tokens[self.state.current],
                            "Expect ')' after expression",
                        );
                        Err(msg)
                    }
                },
            }
        } else {
            let msg = self.make_parse_error_message(
                &self.tokens[self.state.current],
                "Expect expression",
            );
            Err(msg)
        }
    }

    /// A unary expression.
    fn unary(&mut self) -> (r: Result<Expr, String>)
        requires
            old(self).wf(),
        ensures
            final(self).wf(),
            Parser::same_frame(*old(self), *final(self)),
            old(self).state.current <= final(self).state.current,
            ({
                let m = spec_parse_unary(
                    old(self).toks(),
                    old(self).sname(),
                    old(self).state.current as int,
                );
                &&& final(self).state.current == m.pos
                &&& match (r, m.res) {
                    (Ok(e), Ok(em)) => e@ == em && old(self).state.current < m.pos,
                    (Err(s), Err(ms)) => s@ == ms,
                    _ => false,
                }
            }),
        decreases old(self).toks().len() - old(self).state.current, 1int,
    {
        if self.check(TokenKind::Bang) || self.check(TokenKind::Minus) {
            let t = self.peek().dup();
            self.advance();
            match self.unary() {
                Err(e) => Err(e),
                Ok(operand) => {
                    let c = Ctx::from_token(&t, self.source_name);
                    Ok(Expr::Unary(c, t, Box::new(operand)))
                },
            }
        } else {
            self.primary()
        }
    }

    /// Whether the token under the cursor is an operator of the given
    /// binary layer.
    fn check_level_op(&self, level: usize) -> (r: bool)
        requires
            self.wf(),
            2 <= level <= 5,
        ensures
            r == spec_level_op(
                level as int,
                spec_at(self.toks(), self.state.current as int).ttype.kind(),
            ),
    {
        let k = self.tokens[self.state.current].ttype.kind();
        if level == 2 {
            k == TokenKind::Slash || k == TokenKind::Star
        } else if level == 3 {
            k == TokenKind::Minus || k == TokenKind::Plus
        } else if level == 4 {
            k == TokenKind::Greater || k == TokenKind::GreaterEqual || k == TokenKind::Less || k
                == TokenKind::LessEqual
        } else {
            k == TokenKind::BangEqual || k == TokenKind::EqualEqual
        }
    }

    /// One left-associative binary layer: equality, comparison, additive or
    /// multiplicative, by level.
    fn binary_level(&mut self, level: usize) -> (r: Result<Expr, String>)
        requires
            old(self).wf(),
            2 <= level <= 5,
        ensures
            final(self).wf(),
            Parser::same_frame(*old(self), *final(self)),
            old(self).state.current <= final(self).state.current,
            ({
                let m = spec_parse_level(
                    old(self).toks(),
                    old(self).sname(),
                    old(self).state.current as int,
                    level as int,
                );
                &&& final(self).state.current == m.pos
                &&& match (r, m.res) {
                    (Ok(e), Ok(em)) => e@ == em && old(self).state.current < m.pos,
                    (Err(s), Err(ms)) => s@ == ms,
                    _ => false,
                }
            }),
        decreases old(self).toks().len() - old(self).state.current, 2 * level,
    {
        let ghost pos0 = self.state.current as int;
        let first = if level == 2 {
            self.unary()
        } else {
            self.binary_level(level - 1)
        };
        let mut left = match first {
            Err(e) => {
                return Err(e);
            },
            Ok(x) => x,
        };
        while self.check_level_op(level)
            invariant
                self.wf(),
                Parser::same_frame(*old(self), *self),
                2 <= level <= 5,
                pos0 == old(self).state.current,
                pos0 < self.state.current,
                spec_parse_level(self.toks(), self.sname(), pos0, level as int)
                    == spec_parse_level_rest(
                    self.toks(),
                    self.sname(),
                    self.state.current as int,
                    level as int,
                    left@,
                ),
            decreases self.toks().len() - self.state.current,
        {
            let t = self.peek().dup();
            self.advance();
            let right = if level == 2 {
                self.unary()
            } else {
                self.binary_level(level - 1)
            };
            match right {
                Err(e) => {
                    return Err(e);
                },
                Ok(rx) => {
                    let c = Ctx::from_token(&t, self.source_name);
                    left = Expr::Binary(c, Box::new(left), t, Box::new(rx));
                },
            }
        }
        Ok(left)
    }

    /// An expression: an assignment.
    fn expr(&mut self) -> (r: Result<Expr, String>)
        requires
            old(self).wf(),
        ensures
            final(self).wf(),
            Parser::same_frame(*old(self), *final(self)),
            old(self).state.current <= final(self).state.current,
            ({
                let m = spec_parse_assignment(
                    old(self).toks(),
                    old(self).sname(),
                    old(self).state.current as int,
                );
                &&& final(self).state.current == m.pos
                &&& match (r, m.res) {
                    (Ok(e), Ok(em)) => e@ == em && old(self).state.current < m.pos,
                    (Err(s), Err(ms)) => s@ == ms,
                    _ => false,
                }
            }),
        decreases old(self).toks().len() - old(self).state.current, 12int,
    {
        self.assignment()
    }

    /// An assignment expression.
    fn assignment(&mut self) -> (r: Result<Expr, String>)
        requires
            old(self).wf(),
        ensures
            final(self).wf(),
            Parser::same_frame(*old(self), *final(self)),
            old(self).state.current <= final(self).state.current,
            ({
                let m = spec_parse_assignment(
                    old(self).toks(),
                    old(self).sname(),
                    old(self).state.current as int,
                );
                &&& final(self).state.current == m.pos
                &&& match (r, m.res) {
                    (Ok(e), Ok(em)) => e@ == em && old(self).state.current < m.pos,
                    (Err(s), Err(ms)) => s@ == ms,
                    _ => false,
                }
            }),
        decreases old(self).toks().len() - old(self).state.current, 11int,
    {
        let e = match self.binary_level(5) {
            Err(m) => {
                return Err(m);
            },
            Ok(x) => x,
        };
        if self.check(TokenKind::Equal) {
            let teq = self.peek().dup();
            self.advance();
            let value = match self.assignment() {
                Err(m) => {
                    return Err(m);
                },
                Ok(v) => v,
            };
            match e {
                Expr::Variable(c, ntok) => Ok(Expr::Assign(c, ntok, Box::new(value))),
                _ => {
                    let msg = self.make_parse_error_message(&teq, "Invalid assignment value");
                    Err(msg)
                },
            }
        } else {
            Ok(e)
        }
    }

    /// A declaration, the `let` keyword already consumed.
    fn let_statement(&mut self) -> (r: Result<Stmt, String>)
        requires
            old(self).wf(),
        ensures
            final(self).wf(),
            Parser::same_frame(*old(self), *final(self)),
            old(self).state.current <= final(self).state.current,
            ({
                let m = spec_parse_let(
                    old(self).toks(),
                    old(self).sname(),
                    old(self).prompt_mode,
                    old(self).state.current as int,
                );
                &&& final(self).state.current == m.pos
                &&& match (r, m.res) {
                    (Ok(s), Ok(sm)) => s@ == sm && old(self).state.current < m.pos,
                    (Err(s), Err(ms)) => s@ == ms,
                    _ => false,
                }
            }),
        decreases old(self).toks().len() - old(self).state.current, 12int,
    {
        let is_mutable = if self.check(TokenKind::Mut) {
            self.advance();
            true
        } else {
            false
        };
        if self.check(TokenKind::Identifier) {
            let ident = self.peek().dup();
            self.advance();
            if self.match_kind(TokenKind::Equal) {
                match self.expr() {
                    Err(e) => Err(e),
                    Ok(init) => {
                        let semi = self.match_kind(TokenKind::Semicolon);
                        if semi || self.prompt_mode {
                            let c = Ctx::from_token(&ident, self.source_name);
                            Ok(Stmt::Let(c, ident, Mutable(is_mutable), Box::new(init)))
                        } else {
                            Err(
                                self.make_parse_error_message(
                                    &self.tokens[self.state.current],
                                    "Expect ';' after expression",
                                ),
                            )
                        }
                    },
                }
            } else {
                Err(
                    self.make_parse_error_message(
                        &self.tokens[self.state.current],
                        "Expect initialization",
                    ),
                )
            }
        } else {
            Err(
                self.make_parse_error_message(
                    &self.tokens[self.state.current],
                    "Expect identifier after let",
                ),
            )
        }
    }

    /// A print statement, the `println` keyword already consumed.
    fn print_statement(&mut self) -> (r: Result<Stmt, String>)
        requires
            old(self).wf(),
        ensures
            final(self).wf(),
            Parser::same_frame(*old(self), *final(self)),
            old(self).state.current <= final(self).state.current,
            ({
                let m = spec_parse_print(
                    old(self).toks(),
                    old(self).sname(),
                    old(self).prompt_mode,
                    old(self).state.current as int,
                );
                &&& final(self).state.current == m.pos
                &&& match (r, m.res) {
                    (Ok(s), Ok(sm)) => s@ == sm && old(self).state.current < m.pos,
                    (Err(s), Err(ms)) => s@ == ms,
                    _ => false,
                }
            }),
        decreases old(self).toks().len() - old(self).state.current, 12int,
    {
        match self.expr() {
            Err(e) => Err(e),
            Ok(expr) => {
                let semi = self.match_kind(TokenKind::Semicolon);
                if semi || self.prompt_mode {
                    let c = Ctx::from_token(
                        &self.tokens[self.state.current - 1],
                        self.source_name,
                    );
                    Ok(Stmt::PrintLn(c, Box::new(expr)))
                } else {
                    Err(
                        self.make_parse_error_message(
                            &self.tokens[self.state.current],
                            "Expect ';' after statement",
                        ),
                    )
                }
            },
        }
    }

    /// An expression statement.
    fn expression_statement(&mut self) -> (r: Result<Stmt, String>)
        requires
            old(self).wf(),
        ensures
            final(self).wf(),
            Parser::same_frame(*old(self), *final(self)),
            old(self).state.current <= final(self).state.current,
            ({
                let m = spec_parse_exprstmt(
                    old(self).toks(),
                    old(self).sname(),
                    old(self).prompt_mode,
                    old(self).state.current as int,
                );
                &&& final(self).state.current == m.pos
                &&& match (r, m.res) {
                    (Ok(s), Ok(sm)) => s@ == sm && old(self).state.current < m.pos,
                    (Err(s), Err(ms)) => s@ == ms,
                    _ => false,
                }
            }),
        decreases old(self).toks().len() - old(self).state.current, 12int,
    {
        match self.expr() {
            Err(e) => Err(e),
            Ok(expr) => {
                let semi = self.match_kind(TokenKind::Semicolon);
                if semi || self.prompt_mode {
                    let c = Ctx::from_token(
                        &self.tokens[self.state.current - 1],
                        self.source_name,
                    );
                    Ok(Stmt::Expression(c, Box::new(expr)))
                } else {
                    Err(
                        self.make_parse_error_message(
                            &self.tokens[self.state.current],
                            "Expect ';' after expression",
                        ),
                    )
                }
            },
        }
    }

    /// A block statement, the opening brace already consumed.
    fn block_statement(&mut self) -> (r: Result<Stmt, String>)
        requires
            old(self).wf(),
            old(self).state.current >= 1,
        ensures
            final(self).wf(),
            Parser::same_frame(*old(self), *final(self)),
            old(self).state.current <= final(self).state.current,
            ({
                let m = spec_parse_block(
                    old(self).toks(),
                    old(self).sname(),
                    old(self).prompt_mode,
                    old(self).state.current as int,
                );
                &&& final(self).state.current == m.pos
                &&& match (r, m.res) {
                    (Ok(s), Ok(sm)) => s@ == sm,
                    (Err(s), Err(ms)) => s@ == ms,
                    _ => false,
                }
            }),
        decreases old(self).toks().len() - old(self).state.current, 15int,
    {
        let ghost pos0 = self.state.current as int;
        let c = Ctx::from_token(&self.tokens[self.state.current - 1], self.source_name);
        let mut stmts: Vec<Stmt> = Vec::new();
        while !self.check(TokenKind::RightBrace) && !self.is_at_end()
            invariant
                self.wf(),
                Parser::same_frame(*old(self), *self),
                pos0 == old(self).state.current,
                pos0 <= self.state.current,
                ({
                    let full = spec_parse_block_items(
                        self.toks(),
                        self.sname(),
                        self.prompt_mode,
                        pos0,
                    );
                    let rest = spec_parse_block_items(
                        self.toks(),
                        self.sname(),
                        self.prompt_mode,
                        self.state.current as int,
                    );
                    full.pos == rest.pos && full.res == (match rest.res {
                        Err(m) => Err::<Seq<StmtModel>, Seq<char>>(m),
                        Ok(ss) => Ok::<Seq<StmtModel>, Seq<char>>(
                            crate::ast::stmts_model(stmts@) + ss,
                        ),
                    })
                }),
            decreases self.toks().len() - self.state.current,
        {
            let ghost stmts0 = stmts@;
            let ghost cur0 = self.state.current as int;
            match self.statement() {
                Err(e) => {
                    return Err(e);
                },
                Ok(s) => {
                    let ghost smod = s@;
                    proof {
                        crate::ast::lemma_stmts_model_push(stmts0, s);
                    }
                    stmts.push(s);
                    proof {
                        let rest_new = spec_parse_block_items(
                            self.toks(),
                            self.sname(),
                            self.prompt_mode,
                            self.state.current as int,
                        );
                        if let Ok(ss) = rest_new.res {
                            assert((crate::ast::stmts_model(stmts0) + seq![smod]) + ss
                                =~= crate::ast::stmts_model(stmts0) + (seq![smod] + ss));
                        }
                    }
                },
            }
        }
        if self.match_kind(TokenKind::RightBrace) {
            proof {
                assert(crate::ast::stmts_model(stmts@) + Seq::<StmtModel>::empty()
                    =~= crate::ast::stmts_model(stmts@));
            }
            Ok(Stmt::Block(c, stmts))
        } else {
            Err(
                self.make_parse_error_message(
                    &self.tokens[self.state.current],
                    "Expect '}' after block",
                ),
            )
        }
    }

    /// One statement.
    fn statement(&mut self) -> (r: Result<Stmt, String>)
        requires
            old(self).wf(),
        ensures
            final(self).wf(),
            Parser::same_frame(*old(self), *final(self)),
            old(self).state.current <= final(self).state.current,
            ({
                let m = spec_parse_statement(
                    old(self).toks(),
                    old(self).sname(),
                    old(self).prompt_mode,
                    old(self).state.current as int,
                );
                &&& final(self).state.current == m.pos
                &&& match (r, m.res) {
                    (Ok(s), Ok(sm)) => s@ == sm && old(self).state.current < m.pos,
                    (Err(s), Err(ms)) => s@ == ms,
                    _ => false,
                }
            }),
        decreases old(self).toks().len() - old(self).state.current, 13int,
    {
        if self.check(TokenKind::Let) {
            self.advance();
            self.let_statement()
        } else if self.check(TokenKind::PrintLn) {
            self.advance();
            self.print_statement()
        } else if self.check(TokenKind::LeftBrace) {
            self.advance();
            self.block_statement()
        } else {
            self.expression_statement()
        }
    }

    /// Parses the whole token stream into statements, failing with the
    /// diagnostic of the first unrecoverable syntax violation.
    pub fn parse(&mut self) -> (r: Result<Vec<Stmt>, String>)
        requires
            old(self).wf(),
            old(self).state.current == 0,
        ensures
            final(self).wf(),
            Parser::same_frame(*old(self), *final(self)),
            match (r, spec_parse(old(self).toks(), old(self).sname(), old(self).prompt_mode)) {
                (Ok(v), Ok(ss)) => crate::ast::stmts_model(v@) == ss,
                (Err(s), Err(ms)) => s@ == ms,
                _ => false,
            },
    {
        let ghost pos0 = self.state.current as int;
        let mut stmts: Vec<Stmt> = Vec::new();
        while !self.is_at_end()
            invariant
                self.wf(),
                Parser::same_frame(*old(self), *self),
                pos0 == 0,
                pos0 <= self.state.current,
                ({
                    let full = spec_parse_stmts(
                        self.toks(),
                        self.sname(),
                        self.prompt_mode,
                        pos0,
                    );
                    let rest = spec_parse_stmts(
                        self.toks(),
                        self.sname(),
                        self.prompt_mode,
                        self.state.current as int,
                    );
                    full.pos == rest.pos && full.res == (match rest.res {
                        Err(m) => Err::<Seq<StmtModel>, Seq<char>>(m),
                        Ok(ss) => Ok::<Seq<StmtModel>, Seq<char>>(
                            crate::ast::stmts_model(stmts@) + ss,
                        ),
                    })
                }),
            decreases self.toks().len() - self.state.current,
        {
            let ghost stmts0 = stmts@;
            match self.statement() {
                Err(e) => {
                    return Err(e);
                },
                Ok(s) => {
                    let ghost smod = s@;
                    proof {
                        crate::ast::lemma_stmts_model_push(stmts0, s);
                    }
                    stmts.push(s);
                    proof {
                        let rest_new = spec_parse_stmts(
                            self.toks(),
                            self.sname(),
                            self.prompt_mode,
                            self.state.current as int,
                        );
                        if let Ok(ss) = rest_new.res {
                            assert((crate::ast::stmts_model(stmts0) + seq![smod]) + ss
                                =~= crate::ast::stmts_model(stmts0) + (seq![smod] + ss));
                        }
                    }
                },
            }
        }
        proof {
            assert(crate::ast::stmts_model(stmts@) + Seq::<StmtModel>::empty()
                =~= crate::ast::stmts_model(stmts@));
        }
        Ok(stmts)
    }
}

} // verus!
