//! The parser: a token sequence to a list of statements.
//!
//! The abstract syntax tree ([`Expr`], [`Stmt`]) is mirrored by ghost types
//! ([`ExprV`], [`StmtV`]) whose strings are character sequences, so that the
//! parser can be given a functional model: a family of spec functions, one
//! per grammar production, each taking the token sequence, a position and a
//! recursion budget, and returning the parsed tree with the next position,
//! or the first error.  The executable [`Parser`] is proved to return
//! exactly what the model says.

use vstd::prelude::*;
use vstd::string::StringExecFns;

use crate::error::{ParserError, ParserErrorType, VeonError};
use crate::token::{value_view, Token, TokenType, Value, ValueV};

verus! {

broadcast use vstd::seq::group_seq_axioms, vstd::std_specs::vec::group_vec_axioms;

/// An expression of the language.
pub enum Expr {
    Literal(Value),
    Unary { operator: TokenType, right: Box<Expr> },
    Binary { left: Box<Expr>, operator: TokenType, right: Box<Expr> },
    Logical { left: Box<Expr>, operator: TokenType, right: Box<Expr> },
    Grouping(Box<Expr>),
    Variable(String),
    Assign { name: String, value: Box<Expr> },
    Array(Vec<Expr>),
    Index { array: Box<Expr>, index: Box<Expr> },
    Call { callee: Box<Expr>, paren: TokenType, arguments: Vec<Expr> },
    Get { object: Box<Expr>, name: String },
    SetProp { object: Box<Expr>, name: String, value: Box<Expr> },
    This,
}

/// A statement of the language.
pub enum Stmt {
    Expression(Expr),
    Var { name: String, initializer: Option<Expr> },
    Block(Vec<Stmt>),
    If { condition: Expr, then_branch: Box<Stmt>, else_branch: Option<Box<Stmt>> },
    While { condition: Expr, body: Box<Stmt> },
    Function { name: String, params: Vec<String>, body: Vec<Stmt> },
    Return(Option<Expr>),
    Class { name: String, methods: Vec<Stmt> },
}

/// The mathematical view of an [`Expr`].
#[verifier::ext_equal]
pub enum ExprV {
    Literal(ValueV),
    Unary { operator: TokenType, right: Box<ExprV> },
    Binary { left: Box<ExprV>, operator: TokenType, right: Box<ExprV> },
    Logical { left: Box<ExprV>, operator: TokenType, right: Box<ExprV> },
    Grouping(Box<ExprV>),
    Variable(Seq<char>),
    Assign { name: Seq<char>, value: Box<ExprV> },
    Array(Seq<ExprV>),
    Index { array: Box<ExprV>, index: Box<ExprV> },
    Call { callee: Box<ExprV>, paren: TokenType, arguments: Seq<ExprV> },
    Get { object: Box<ExprV>, name: Seq<char> },
    SetProp { object: Box<ExprV>, name: Seq<char>, value: Box<ExprV> },
    This,
}

/// The mathematical view of a [`Stmt`].
#[verifier::ext_equal]
pub enum StmtV {
    Expression(ExprV),
    Var { name: Seq<char>, initializer: Option<ExprV> },
    Block(Seq<StmtV>),
    If { condition: ExprV, then_branch: Box<StmtV>, else_branch: Option<Box<StmtV>> },
    While { condition: ExprV, body: Box<StmtV> },
    Function { name: Seq<char>, params: Seq<Seq<char>>, body: Seq<StmtV> },
    Return(Option<ExprV>),
    Class { name: Seq<char>, methods: Seq<StmtV> },
}

/// Elementwise view of a sequence of parameter names.
pub open spec fn strs_view(s: Seq<String>) -> Seq<Seq<char>> {
    Seq::new(s.len(), |i: int| s[i]@)
}

/// The view of an expression.
pub open spec fn expr_view(e: Expr) -> ExprV
    decreases e,
{
    match e {
        Expr::Literal(v) => ExprV::Literal(value_view(v)),
        Expr::Unary { operator, right } => ExprV::Unary {
            operator,
            right: Box::new(expr_view(*right)),
        },
        Expr::Binary { left, operator, right } => ExprV::Binary {
            left: Box::new(expr_view(*left)),
            operator,
            right: Box::new(expr_view(*right)),
        },
        Expr::Logical { left, operator, right } => ExprV::Logical {
            left: Box::new(expr_view(*left)),
            operator,
            right: Box::new(expr_view(*right)),
        },
        Expr::Grouping(inner) => ExprV::Grouping(Box::new(expr_view(*inner))),
        Expr::Variable(name) => ExprV::Variable(name@),
        Expr::Assign { name, value } => ExprV::Assign {
            name: name@,
            value: Box::new(expr_view(*value)),
        },
        Expr::Array(items) => ExprV::Array(exprs_view(items@)),
        Expr::Index { array, index } => ExprV::Index {
            array: Box::new(expr_view(*array)),
            index: Box::new(expr_view(*index)),
        },
        Expr::Call { callee, paren, arguments } => ExprV::Call {
            callee: Box::new(expr_view(*callee)),
            paren,
            arguments: exprs_view(arguments@),
        },
        Expr::Get { object, name } => ExprV::Get { object: Box::new(expr_view(*object)), name: name@ },
        Expr::SetProp { object, name, value } => ExprV::SetProp {
            object: Box::new(expr_view(*object)),
            name: name@,
            value: Box::new(expr_view(*value)),
        },
        Expr::This => ExprV::This,
    }
}

/// Elementwise view of an expression sequence.
pub open spec fn exprs_view(s: Seq<Expr>) -> Seq<ExprV>
    decreases s,
{
    if s.len() == 0 {
        Seq::empty()
    } else {
        exprs_view(s.subrange(0, s.len() - 1)).push(expr_view(s[s.len() - 1]))
    }
}

/// The view of a statement.
pub open spec fn stmt_view(s: Stmt) -> StmtV
    decreases s,
{
    match s {
        Stmt::Expression(e) => StmtV::Expression(expr_view(e)),
        Stmt::Var { name, initializer } => StmtV::Var {
            name: name@,
            initializer: match initializer {
                Some(e) => Some(expr_view(e)),
                None => None,
            },
        },
        Stmt::Block(stmts) => StmtV::Block(stmts_view(stmts@)),
        Stmt::If { condition, then_branch, else_branch } => StmtV::If {
            condition: expr_view(condition),
            then_branch: Box::new(stmt_view(*then_branch)),
            else_branch: match else_branch {
                Some(b) => Some(Box::new(stmt_view(*b))),
                None => None,
            },
        },
        Stmt::While { condition, body } => StmtV::While {
            condition: expr_view(condition),
            body: Box::new(stmt_view(*body)),
        },
        Stmt::Function { name, params, body } => StmtV::Function {
            name: name@,
            params: strs_view(params@),
            body: stmts_view(body@),
        },
        Stmt::Return(e) => StmtV::Return(
            match e {
                Some(e) => Some(expr_view(e)),
                None => None,
            },
        ),
        Stmt::Class { name, methods } => StmtV::Class {
            name: name@,
            methods: stmts_view(methods@),
        },
    }
}

/// Elementwise view of a statement sequence.
pub open spec fn stmts_view(s: Seq<Stmt>) -> Seq<StmtV>
    decreases s,
{
    if s.len() == 0 {
        Seq::empty()
    } else {
        stmts_view(s.subrange(0, s.len() - 1)).push(stmt_view(s[s.len() - 1]))
    }
}

/// `exprs_view` maps the sequence pointwise.
pub proof fn lemma_exprs_view(s: Seq<Expr>)
    ensures
        exprs_view(s).len() == s.len(),
        forall|i: int| 0 <= i < s.len() ==> #[trigger] exprs_view(s)[i] == expr_view(s[i]),
    decreases s.len(),
{
    if s.len() > 0 {
        lemma_exprs_view(s.subrange(0, s.len() - 1));
        assert forall|i: int| 0 <= i < s.len() implies #[trigger] exprs_view(s)[i] == expr_view(
            s[i],
        ) by {
            if i < s.len() - 1 {
                assert(s.subrange(0, s.len() - 1)[i] == s[i]);
            }
        }
    }
}

/// `stmts_view` maps the sequence pointwise.
pub proof fn lemma_stmts_view(s: Seq<Stmt>)
    ensures
        stmts_view(s).len() == s.len(),
        forall|i: int| 0 <= i < s.len() ==> #[trigger] stmts_view(s)[i] == stmt_view(s[i]),
    decreases s.len(),
{
    if s.len() > 0 {
        lemma_stmts_view(s.subrange(0, s.len() - 1));
        assert forall|i: int| 0 <= i < s.len() implies #[trigger] stmts_view(s)[i] == stmt_view(
            s[i],
        ) by {
            if i < s.len() - 1 {
                assert(s.subrange(0, s.len() - 1)[i] == s[i]);
            }
        }
    }
}

/// The result of one parse step: a tree and the next position, or the
/// message of an `InvalidExpression` error.
pub enum PRes<T> {
    Found { v: T, next: int },
    Fail(Seq<char>),
}

/// Well-formed token sequences: nonempty, ending in `Eof`, with no `Eof`
/// before the end.  The lexer produces exactly such sequences.
pub open spec fn wf_tokens(toks: Seq<Token>) -> bool {
    &&& toks.len() >= 1
    &&& toks[toks.len() - 1].tty == TokenType::Eof
    &&& forall|i: int| 0 <= i < toks.len() - 1 ==> (#[trigger] toks[i].tty) != TokenType::Eof
}

/// Whether the token at `pos` has kind `tty` (never true of `Eof`, which
/// only marks the end).
pub open spec fn sp_check(toks: Seq<Token>, pos: int, tty: TokenType) -> bool {
    toks[pos].tty == tty && toks[pos].tty != TokenType::Eof
}

/// The identifier name carried by the token at `pos`, if any.
pub open spec fn ident_name(toks: Seq<Token>, pos: int) -> Option<Seq<char>> {
    match value_view(toks[pos].value) {
        ValueV::Str(s) => Some(s),
        _ => None,
    }
}

/// The message reported when the recursion budget runs out.
pub open spec fn nesting_msg() -> Seq<char> {
    "Too deeply nested"@
}

/// The model of `declaration`.
pub open spec fn sp_declaration(toks: Seq<Token>, pos: int, fuel: nat) -> PRes<StmtV>
    decreases fuel,
{
    if fuel == 0 {
        PRes::Fail(nesting_msg())
    } else if sp_check(toks, pos, TokenType::Class) {
        sp_class_declaration(toks, pos + 1, (fuel - 1) as nat)
    } else if sp_check(toks, pos, TokenType::Fun) {
        sp_function(toks, pos + 1, (fuel - 1) as nat)
    } else if sp_check(toks, pos, TokenType::Let) {
        sp_var_declaration(toks, pos + 1, (fuel - 1) as nat)
    } else {
        sp_statement(toks, pos, (fuel - 1) as nat)
    }
}

/// The model of `class_declaration` (after the `class` keyword).
pub open spec fn sp_class_declaration(toks: Seq<Token>, pos: int, fuel: nat) -> PRes<StmtV>
    decreases fuel,
{
    if fuel == 0 {
        PRes::Fail(nesting_msg())
    } else if !sp_check(toks, pos, TokenType::Identifier) {
        PRes::Fail("Expected class name"@)
    } else {
        match ident_name(toks, pos) {
            None => PRes::Fail("Expected identifier"@),
            Some(name) => {
                if !sp_check(toks, pos + 1, TokenType::LeftBrace) {
                    PRes::Fail("Expect '{' before class body"@)
                } else {
                    match sp_class_methods(toks, pos + 2, (fuel - 1) as nat) {
                        PRes::Fail(m) => PRes::Fail(m),
                        PRes::Found { v: methods, next } => {
                            if !sp_check(toks, next, TokenType::RightBrace) {
                                PRes::Fail("Expect '}' after class body"@)
                            } else {
                                PRes::Found { v: StmtV::Class { name, methods }, next: next + 1 }
                            }
                        }
                    }
                }
            }
        }
    }
}

/// The model of the method list of a class body.
pub open spec fn sp_class_methods(toks: Seq<Token>, pos: int, fuel: nat) -> PRes<Seq<StmtV>>
    decreases fuel,
{
    if fuel == 0 {
        PRes::Fail(nesting_msg())
    } else if sp_check(toks, pos, TokenType::RightBrace) || toks[pos].tty == TokenType::Eof {
        PRes::Found { v: Seq::empty(), next: pos }
    } else if !sp_check(toks, pos, TokenType::Fun) {
        PRes::Fail("Expect 'fun' before method"@)
    } else {
        match sp_function(toks, pos + 1, (fuel - 1) as nat) {
            PRes::Fail(m) => PRes::Fail(m),
            PRes::Found { v: m, next } => match sp_class_methods(toks, next, (fuel - 1) as nat) {
                PRes::Fail(msg) => PRes::Fail(msg),
                PRes::Found { v: rest, next: n2 } => PRes::Found {
                    v: seq![m] + rest,
                    next: n2,
                },
            },
        }
    }
}

/// The model of `function` (after the `fun` keyword, or after `fun` in a
/// class body).
pub open spec fn sp_function(toks: Seq<Token>, pos: int, fuel: nat) -> PRes<StmtV>
    decreases fuel,
{
    if fuel == 0 {
        PRes::Fail(nesting_msg())
    } else if !sp_check(toks, pos, TokenType::Identifier) {
        PRes::Fail("Expected function name"@)
    } else {
        match ident_name(toks, pos) {
            None => PRes::Fail("Expected identifier"@),
            Some(name) => {
                if !sp_check(toks, pos + 1, TokenType::LeftParen) {
                    PRes::Fail("Expect '(' after function name"@)
                } else {
                    let params_res: PRes<Seq<Seq<char>>> = if sp_check(
                        toks,
                        pos + 2,
                        TokenType::RightParen,
                    ) {
                        PRes::Found { v: Seq::empty(), next: pos + 2 }
                    } else {
                        sp_params(toks, pos + 2, (fuel - 1) as nat)
                    };
                    match params_res {
                        PRes::Fail(m) => PRes::Fail(m),
                        PRes::Found { v: params, next } => {
                            if !sp_check(toks, next, TokenType::RightParen) {
                                PRes::Fail("Expect ')' after parameters"@)
                            } else if !sp_check(toks, next + 1, TokenType::LeftBrace) {
                                PRes::Fail("Expect '{' before function body"@)
                            } else {
                                match sp_block(toks, next + 2, (fuel - 1) as nat) {
                                    PRes::Fail(m) => PRes::Fail(m),
                                    PRes::Found { v: body, next: n2 } => PRes::Found {
                                        v: StmtV::Function { name, params, body },
                                        next: n2,
                                    },
                                }
                            }
                        }
                    }
                }
            }
        }
    }
}

/// The model of the parameter list (at least one name).
pub open spec fn sp_params(toks: Seq<Token>, pos: int, fuel: nat) -> PRes<Seq<Seq<char>>>
    decreases fuel,
{
    if fuel == 0 {
        PRes::Fail(nesting_msg())
    } else if !sp_check(toks, pos, TokenType::Identifier) {
        PRes::Fail("Expect parameter name"@)
    } else {
        match ident_name(toks, pos) {
            None => PRes::Fail("Expected identifier"@),
            Some(name) => {
                if sp_check(toks, pos + 1, TokenType::Comma) {
                    match sp_params(toks, pos + 2, (fuel - 1) as nat) {
                        PRes::Fail(m) => PRes::Fail(m),
                        PRes::Found { v: rest, next } => PRes::Found {
                            v: seq![name] + rest,
                            next,
                        },
                    }
                } else {
                    PRes::Found { v: seq![name], next: pos + 1 }
                }
            }
        }
    }
}

/// The model of `var_declaration` (after the `let` keyword).
pub open spec fn sp_var_declaration(toks: Seq<Token>, pos: int, fuel: nat) -> PRes<StmtV>
    decreases fuel,
{
    if fuel == 0 {
        PRes::Fail(nesting_msg())
    } else if !sp_check(toks, pos, TokenType::Identifier) {
        PRes::Fail("Expected variable name"@)
    } else {
        match ident_name(toks, pos) {
            None => PRes::Fail("Expected identifier"@),
            Some(name) => {
                let init_res: PRes<Option<ExprV>> = if sp_check(toks, pos + 1, TokenType::Equal) {
                    match sp_expression(toks, pos + 2, (fuel - 1) as nat) {
                        PRes::Fail(m) => PRes::Fail(m),
                        PRes::Found { v, next } => PRes::Found { v: Some(v), next },
                    }
                } else {
                    PRes::Found { v: None, next: pos + 1 }
                };
                match init_res {
                    PRes::Fail(m) => PRes::Fail(m),
                    PRes::Found { v: initializer, next } => {
                        if !sp_check(toks, next, TokenType::Semicolon) {
                            PRes::Fail("Expect ';' after variable declaration"@)
                        } else {
                            PRes::Found {
                                v: StmtV::Var { name, initializer },
                                next: next + 1,
                            }
                        }
                    }
                }
            }
        }
    }
}

/// The model of `statement`.
pub open spec fn sp_statement(toks: Seq<Token>, pos: int, fuel: nat) -> PRes<StmtV>
    decreases fuel,
{
    if fuel == 0 {
        PRes::Fail(nesting_msg())
    } else if sp_check(toks, pos, TokenType::If) {
        sp_if_statement(toks, pos + 1, (fuel - 1) as nat)
    } else if sp_check(toks, pos, TokenType::While) {
        sp_while_statement(toks, pos + 1, (fuel - 1) as nat)
    } else if sp_check(toks, pos, TokenType::For) {
        sp_for_statement(toks, pos + 1, (fuel - 1) as nat)
    } else if sp_check(toks, pos, TokenType::Return) {
        sp_return_statement(toks, pos + 1, (fuel - 1) as nat)
    } else if sp_check(toks, pos, TokenType::LeftBrace) {
        match sp_block(toks, pos + 1, (fuel - 1) as nat) {
            PRes::Fail(m) => PRes::Fail(m),
            PRes::Found { v, next } => PRes::Found { v: StmtV::Block(v), next },
        }
    } else {
        sp_expression_statement(toks, pos, (fuel - 1) as nat)
    }
}

/// The model of `if_statement` (after the `if` keyword).
pub open spec fn sp_if_statement(toks: Seq<Token>, pos: int, fuel: nat) -> PRes<StmtV>
    decreases fuel,
{
    if fuel == 0 {
        PRes::Fail(nesting_msg())
    } else if !sp_check(toks, pos, TokenType::LeftParen) {
        PRes::Fail("Expect '(' after 'if'"@)
    } else {
        match sp_expression(toks, pos + 1, (fuel - 1) as nat) {
            PRes::Fail(m) => PRes::Fail(m),
            PRes::Found { v: condition, next } => {
                if !sp_check(toks, next, TokenType::RightParen) {
                    PRes::Fail("Expect ')' after if condition"@)
                } else {
                    match sp_statement(toks, next + 1, (fuel - 1) as nat) {
                        PRes::Fail(m) => PRes::Fail(m),
                        PRes::Found { v: then_b, next: n2 } => {
                            if sp_check(toks, n2, TokenType::Else) {
                                match sp_statement(toks, n2 + 1, (fuel - 1) as nat) {
                                    PRes::Fail(m) => PRes::Fail(m),
                                    PRes::Found { v: else_b, next: n3 } => PRes::Found {
                                        v: StmtV::If {
                                            condition,
                                            then_branch: Box::new(then_b),
                                            else_branch: Some(Box::new(else_b)),
                                        },
                                        next: n3,
                                    },
                                }
                            } else {
                                PRes::Found {
                                    v: StmtV::If {
                                        condition,
                                        then_branch: Box::new(then_b),
                                        else_branch: None,
                                    },
                                    next: n2,
                                }
                            }
                        }
                    }
                }
            }
        }
    }
}

/// The model of `while_statement` (after the `while` keyword).
pub open spec fn sp_while_statement(toks: Seq<Token>, pos: int, fuel: nat) -> PRes<StmtV>
    decreases fuel,
{
    if fuel == 0 {
        PRes::Fail(nesting_msg())
    } else if !sp_check(toks, pos, TokenType::LeftParen) {
        PRes::Fail("Expect '(' after 'while'"@)
    } else {
        match sp_expression(toks, pos + 1, (fuel - 1) as nat) {
            PRes::Fail(m) => PRes::Fail(m),
            PRes::Found { v: condition, next } => {
                if !sp_check(toks, next, TokenType::RightParen) {
                    PRes::Fail("Expect ')' after condition'"@)
                } else {
                    match sp_statement(toks, next + 1, (fuel - 1) as nat) {
                        PRes::Fail(m) => PRes::Fail(m),
                        PRes::Found { v: body, next: n2 } => PRes::Found {
                            v: StmtV::While { condition, body: Box::new(body) },
                            next: n2,
                        },
                    }
                }
            }
        }
    }
}

/// The model of `for_statement` (after the `for` keyword): the opening
/// parenthesis and the initializer clause; the rest is [`sp_for_tail`].
pub open spec fn sp_for_statement(toks: Seq<Token>, pos: int, fuel: nat) -> PRes<StmtV>
    decreases fuel, 1int,
{
    if fuel == 0 {
        PRes::Fail(nesting_msg())
    } else if !sp_check(toks, pos, TokenType::LeftParen) {
        PRes::Fail("Expect '(' after 'for'"@)
    } else {
        let init_res: PRes<Option<StmtV>> = if sp_check(toks, pos + 1, TokenType::Semicolon) {
            PRes::Found { v: None, next: pos + 2 }
        } else if sp_check(toks, pos + 1, TokenType::Let) {
            match sp_var_declaration(toks, pos + 2, (fuel - 1) as nat) {
                PRes::Fail(m) => PRes::Fail(m),
                PRes::Found { v, next } => PRes::Found { v: Some(v), next },
            }
        } else {
            match sp_expression_statement(toks, pos + 1, (fuel - 1) as nat) {
                PRes::Fail(m) => PRes::Fail(m),
                PRes::Found { v, next } => PRes::Found { v: Some(v), next },
            }
        };
        match init_res {
            PRes::Fail(m) => PRes::Fail(m),
            PRes::Found { v: initializer, next } => sp_for_tail(toks, initializer, next, fuel),
        }
    }
}

/// The model of a `for` statement after its initializer clause: condition,
/// increment, body, and the desugaring into a `While`.
pub open spec fn sp_for_tail(toks: Seq<Token>, initializer: Option<StmtV>, pos: int, fuel: nat) -> PRes<StmtV>
    decreases fuel, 0int,
{
    if fuel == 0 {
        PRes::Fail(nesting_msg())
    } else {
        let cond_res: PRes<ExprV> = if !sp_check(toks, pos, TokenType::Semicolon) {
            sp_expression(toks, pos, (fuel - 1) as nat)
        } else {
            PRes::Found { v: ExprV::Literal(ValueV::Bool(true)), next: pos }
        };
        match cond_res {
            PRes::Fail(m) => PRes::Fail(m),
            PRes::Found { v: condition, next: n2 } => {
                if !sp_check(toks, n2, TokenType::Semicolon) {
                    PRes::Fail("Expect ';' after loop condition"@)
                } else {
                    let inc_res: PRes<Option<ExprV>> = if !sp_check(
                        toks,
                        n2 + 1,
                        TokenType::RightParen,
                    ) {
                        match sp_expression(toks, n2 + 1, (fuel - 1) as nat) {
                            PRes::Fail(m) => PRes::Fail(m),
                            PRes::Found { v, next: n3 } => PRes::Found { v: Some(v), next: n3 },
                        }
                    } else {
                        PRes::Found { v: None, next: n2 + 1 }
                    };
                    match inc_res {
                        PRes::Fail(m) => PRes::Fail(m),
                        PRes::Found { v: increment, next: n3 } => {
                            if !sp_check(toks, n3, TokenType::RightParen) {
                                PRes::Fail("Expect ')' after for clauses"@)
                            } else {
                                match sp_statement(toks, n3 + 1, (fuel - 1) as nat) {
                                    PRes::Fail(m) => PRes::Fail(m),
                                    PRes::Found { v: body, next: n4 } => PRes::Found {
                                        v: sp_desugar_for(initializer, condition, increment, body),
                                        next: n4,
                                    },
                                }
                            }
                        }
                    }
                }
            }
        }
    }
}

/// The desugaring of a `for` statement: the body followed by the
/// increment, inside a `While` on the condition, preceded by the
/// initializer.
pub open spec fn sp_desugar_for(
    initializer: Option<StmtV>,
    condition: ExprV,
    increment: Option<ExprV>,
    body: StmtV,
) -> StmtV {
    let body1 = match increment {
        Some(inc) => StmtV::Block(seq![body, StmtV::Expression(inc)]),
        None => body,
    };
    let looped = StmtV::While { condition, body: Box::new(body1) };
    match initializer {
        Some(init) => StmtV::Block(seq![init, looped]),
        None => looped,
    }
}

/// The view of an optional expression.
pub open spec fn opt_expr_view(e: Option<Expr>) -> Option<ExprV> {
    match e {
        Some(x) => Some(expr_view(x)),
        None => None,
    }
}

/// The view of an optional boxed statement.
pub open spec fn opt_box_stmt_view(s: Option<Box<Stmt>>) -> Option<Box<StmtV>> {
    match s {
        Some(b) => Some(Box::new(stmt_view(*b))),
        None => None,
    }
}

/// The view of an optional statement.
pub open spec fn opt_stmt_view(s: Option<Stmt>) -> Option<StmtV> {
    match s {
        Some(st) => Some(stmt_view(st)),
        None => None,
    }
}

/// The model of `return_statement` (after the `return` keyword).
pub open spec fn sp_return_statement(toks: Seq<Token>, pos: int, fuel: nat) -> PRes<StmtV>
    decreases fuel,
{
    if fuel == 0 {
        PRes::Fail(nesting_msg())
    } else {
        let val_res: PRes<Option<ExprV>> = if !sp_check(toks, pos, TokenType::Semicolon) {
            match sp_expression(toks, pos, (fuel - 1) as nat) {
                PRes::Fail(m) => PRes::Fail(m),
                PRes::Found { v, next } => PRes::Found { v: Some(v), next },
            }
        } else {
            PRes::Found { v: None, next: pos }
        };
        match val_res {
            PRes::Fail(m) => PRes::Fail(m),
            PRes::Found { v, next } => {
                if !sp_check(toks, next, TokenType::Semicolon) {
                    PRes::Fail("Expect ';' after return value"@)
                } else {
                    PRes::Found { v: StmtV::Return(v), next: next + 1 }
                }
            }
        }
    }
}

/// The model of a block's statement list together with its closing brace.
pub open spec fn sp_block(toks: Seq<Token>, pos: int, fuel: nat) -> PRes<Seq<StmtV>>
    decreases fuel,
{
    if fuel == 0 {
        PRes::Fail(nesting_msg())
    } else if sp_check(toks, pos, TokenType::RightBrace) {
        PRes::Found { v: Seq::empty(), next: pos + 1 }
    } else if toks[pos].tty == TokenType::Eof {
        PRes::Fail("Expect '}' after block"@)
    } else {
        match sp_declaration(toks, pos, (fuel - 1) as nat) {
            PRes::Fail(m) => PRes::Fail(m),
            PRes::Found { v: s, next } => match sp_block(toks, next, (fuel - 1) as nat) {
                PRes::Fail(m) => PRes::Fail(m),
                PRes::Found { v: rest, next: n2 } => PRes::Found { v: seq![s] + rest, next: n2 },
            },
        }
    }
}

/// The model of `expression_statement`.
pub open spec fn sp_expression_statement(toks: Seq<Token>, pos: int, fuel: nat) -> PRes<StmtV>
    decreases fuel,
{
    if fuel == 0 {
        PRes::Fail(nesting_msg())
    } else {
        match sp_expression(toks, pos, (fuel - 1) as nat) {
            PRes::Fail(m) => PRes::Fail(m),
            PRes::Found { v, next } => {
                if !sp_check(toks, next, TokenType::Semicolon) {
                    PRes::Fail("Expect ';' after expression"@)
                } else {
                    PRes::Found { v: StmtV::Expression(v), next: next + 1 }
                }
            }
        }
    }
}

/// The model of `expression`.
pub open spec fn sp_expression(toks: Seq<Token>, pos: int, fuel: nat) -> PRes<ExprV>
    decreases fuel,
{
    if fuel == 0 {
        PRes::Fail(nesting_msg())
    } else {
        sp_assignment(toks, pos, (fuel - 1) as nat)
    }
}

/// The model of `assignment` (right-associative; an assignment target must
/// be a variable or a property access).
pub open spec fn sp_assignment(toks: Seq<Token>, pos: int, fuel: nat) -> PRes<ExprV>
    decreases fuel,
{
    if fuel == 0 {
        PRes::Fail(nesting_msg())
    } else {
        match sp_or(toks, pos, (fuel - 1) as nat) {
            PRes::Fail(m) => PRes::Fail(m),
            PRes::Found { v: e, next } => {
                if sp_check(toks, next, TokenType::Equal) {
                    match sp_assignment(toks, next + 1, (fuel - 1) as nat) {
                        PRes::Fail(m) => PRes::Fail(m),
                        PRes::Found { v: value, next: n2 } => match e {
                            ExprV::Variable(name) => PRes::Found {
                                v: ExprV::Assign { name, value: Box::new(value) },
                                next: n2,
                            },
                            ExprV::Get { object, name } => PRes::Found {
                                v: ExprV::SetProp { object, name, value: Box::new(value) },
                                next: n2,
                            },
                            _ => PRes::Fail("Invalid assignment target"@),
                        },
                    }
                } else {
                    PRes::Found { v: e, next }
                }
            }
        }
    }
}

/// The model of `logic_or`.
pub open spec fn sp_or(toks: Seq<Token>, pos: int, fuel: nat) -> PRes<ExprV>
    decreases fuel,
{
    if fuel == 0 {
        PRes::Fail(nesting_msg())
    } else {
        match sp_and(toks, pos, (fuel - 1) as nat) {
            PRes::Fail(m) => PRes::Fail(m),
            PRes::Found { v, next } => sp_or_rest(toks, v, next, (fuel - 1) as nat),
        }
    }
}

/// The left-associative chain of `or` operators.
pub open spec fn sp_or_rest(toks: Seq<Token>, left: ExprV, pos: int, fuel: nat) -> PRes<ExprV>
    decreases fuel,
{
    if fuel == 0 {
        PRes::Fail(nesting_msg())
    } else if sp_check(toks, pos, TokenType::Or) {
        match sp_and(toks, pos + 1, (fuel - 1) as nat) {
            PRes::Fail(m) => PRes::Fail(m),
            PRes::Found { v: right, next } => sp_or_rest(
                toks,
                ExprV::Logical {
                    left: Box::new(left),
                    operator: TokenType::Or,
                    right: Box::new(right),
                },
                next,
                (fuel - 1) as nat,
            ),
        }
    } else {
        PRes::Found { v: left, next: pos }
    }
}

/// The model of `logic_and`.
pub open spec fn sp_and(toks: Seq<Token>, pos: int, fuel: nat) -> PRes<ExprV>
    decreases fuel,
{
    if fuel == 0 {
        PRes::Fail(nesting_msg())
    } else {
        match sp_equality(toks, pos, (fuel - 1) as nat) {
            PRes::Fail(m) => PRes::Fail(m),
            PRes::Found { v, next } => sp_and_rest(toks, v, next, (fuel - 1) as nat),
        }
    }
}

/// The left-associative chain of `and` operators.
pub open spec fn sp_and_rest(toks: Seq<Token>, left: ExprV, pos: int, fuel: nat) -> PRes<ExprV>
    decreases fuel,
{
    if fuel == 0 {
        PRes::Fail(nesting_msg())
    } else if sp_check(toks, pos, TokenType::And) {
        match sp_equality(toks, pos + 1, (fuel - 1) as nat) {
            PRes::Fail(m) => PRes::Fail(m),
            PRes::Found { v: right, next } => sp_and_rest(
                toks,
                ExprV::Logical {
                    left: Box::new(left),
                    operator: TokenType::And,
                    right: Box::new(right),
                },
                next,
                (fuel - 1) as nat,
            ),
        }
    } else {
        PRes::Found { v: left, next: pos }
    }
}

/// The model of `equality`.
pub open spec fn sp_equality(toks: Seq<Token>, pos: int, fuel: nat) -> PRes<ExprV>
    decreases fuel,
{
    if fuel == 0 {
        PRes::Fail(nesting_msg())
    } else {
        match sp_comparison(toks, pos, (fuel - 1) as nat) {
            PRes::Fail(m) => PRes::Fail(m),
            PRes::Found { v, next } => sp_equality_rest(toks, v, next, (fuel - 1) as nat),
        }
    }
}

/// The left-associative chain of `==` and `!=`.
pub open spec fn sp_equality_rest(toks: Seq<Token>, left: ExprV, pos: int, fuel: nat) -> PRes<
    ExprV,
>
    decreases fuel,
{
    if fuel == 0 {
        PRes::Fail(nesting_msg())
    } else if sp_check(toks, pos, TokenType::EqualEqual) || sp_check(
        toks,
        pos,
        TokenType::NotEqual,
    ) {
        match sp_comparison(toks, pos + 1, (fuel - 1) as nat) {
            PRes::Fail(m) => PRes::Fail(m),
            PRes::Found { v: right, next } => sp_equality_rest(
                toks,
                ExprV::Binary {
                    left: Box::new(left),
                    operator: toks[pos].tty,
                    right: Box::new(right),
                },
                next,
                (fuel - 1) as nat,
            ),
        }
    } else {
        PRes::Found { v: left, next: pos }
    }
}

/// The model of `comparison`.
pub open spec fn sp_comparison(toks: Seq<Token>, pos: int, fuel: nat) -> PRes<ExprV>
    decreases fuel,
{
    if fuel == 0 {
        PRes::Fail(nesting_msg())
    } else {
        match sp_term(toks, pos, (fuel - 1) as nat) {
            PRes::Fail(m) => PRes::Fail(m),
            PRes::Found { v, next } => sp_comparison_rest(toks, v, next, (fuel - 1) as nat),
        }
    }
}

/// The left-associative chain of `>`, `>=`, `<`, `<=`.
pub open spec fn sp_comparison_rest(toks: Seq<Token>, left: ExprV, pos: int, fuel: nat) -> PRes<
    ExprV,
>
    decreases fuel,
{
    if fuel == 0 {
        PRes::Fail(nesting_msg())
    } else if sp_check(toks, pos, TokenType::Greater) || sp_check(toks, pos, TokenType::GreaterEqual)
        || sp_check(toks, pos, TokenType::Less) || sp_check(toks, pos, TokenType::LessEqual) {
        match sp_term(toks, pos + 1, (fuel - 1) as nat) {
            PRes::Fail(m) => PRes::Fail(m),
            PRes::Found { v: right, next } => sp_comparison_rest(
                toks,
                ExprV::Binary {
                    left: Box::new(left),
                    operator: toks[pos].tty,
                    right: Box::new(right),
                },
                next,
                (fuel - 1) as nat,
            ),
        }
    } else {
        PRes::Found { v: left, next: pos }
    }
}

/// The model of `term`.
pub open spec fn sp_term(toks: Seq<Token>, pos: int, fuel: nat) -> PRes<ExprV>
    decreases fuel,
{
    if fuel == 0 {
        PRes::Fail(nesting_msg())
    } else {
        match sp_factor(toks, pos, (fuel - 1) as nat) {
            PRes::Fail(m) => PRes::Fail(m),
            PRes::Found { v, next } => sp_term_rest(toks, v, next, (fuel - 1) as nat),
        }
    }
}

/// The left-associative chain of `+` and `-`.
pub open spec fn sp_term_rest(toks: Seq<Token>, left: ExprV, pos: int, fuel: nat) -> PRes<ExprV>
    decreases fuel,
{
    if fuel == 0 {
        PRes::Fail(nesting_msg())
    } else if sp_check(toks, pos, TokenType::Plus) || sp_check(toks, pos, TokenType::Minus) {
        match sp_factor(toks, pos + 1, (fuel - 1) as nat) {
            PRes::Fail(m) => PRes::Fail(m),
            PRes::Found { v: right, next } => sp_term_rest(
                toks,
                ExprV::Binary {
                    left: Box::new(left),
                    operator: toks[pos].tty,
                    right: Box::new(right),
                },
                next,
                (fuel - 1) as nat,
            ),
        }
    } else {
        PRes::Found { v: left, next: pos }
    }
}

/// The model of `factor`.
pub open spec fn sp_factor(toks: Seq<Token>, pos: int, fuel: nat) -> PRes<ExprV>
    decreases fuel,
{
    if fuel == 0 {
        PRes::Fail(nesting_msg())
    } else {
        match sp_unary(toks, pos, (fuel - 1) as nat) {
            PRes::Fail(m) => PRes::Fail(m),
            PRes::Found { v, next } => sp_factor_rest(toks, v, next, (fuel - 1) as nat),
        }
    }
}

/// The left-associative chain of `*`, `/`, `%`.
pub open spec fn sp_factor_rest(toks: Seq<Token>, left: ExprV, pos: int, fuel: nat) -> PRes<ExprV>
    decreases fuel,
{
    if fuel == 0 {
        PRes::Fail(nesting_msg())
    } else if sp_check(toks, pos, TokenType::Star) || sp_check(toks, pos, TokenType::Slash)
        || sp_check(toks, pos, TokenType::Modulo) {
        match sp_unary(toks, pos + 1, (fuel - 1) as nat) {
            PRes::Fail(m) => PRes::Fail(m),
            PRes::Found { v: right, next } => sp_factor_rest(
                toks,
                ExprV::Binary {
                    left: Box::new(left),
                    operator: toks[pos].tty,
                    right: Box::new(right),
                },
                next,
                (fuel - 1) as nat,
            ),
        }
    } else {
        PRes::Found { v: left, next: pos }
    }
}

/// The model of `unary`.
pub open spec fn sp_unary(toks: Seq<Token>, pos: int, fuel: nat) -> PRes<ExprV>
    decreases fuel,
{
    if fuel == 0 {
        PRes::Fail(nesting_msg())
    } else if sp_check(toks, pos, TokenType::Not) || sp_check(toks, pos, TokenType::Minus) {
        match sp_unary(toks, pos + 1, (fuel - 1) as nat) {
            PRes::Fail(m) => PRes::Fail(m),
            PRes::Found { v: right, next } => PRes::Found {
                v: ExprV::Unary { operator: toks[pos].tty, right: Box::new(right) },
                next,
            },
        }
    } else {
        sp_call(toks, pos, (fuel - 1) as nat)
    }
}

/// The model of `call`.
pub open spec fn sp_call(toks: Seq<Token>, pos: int, fuel: nat) -> PRes<ExprV>
    decreases fuel,
{
    if fuel == 0 {
        PRes::Fail(nesting_msg())
    } else {
        match sp_primary(toks, pos, (fuel - 1) as nat) {
            PRes::Fail(m) => PRes::Fail(m),
            PRes::Found { v, next } => sp_call_rest(toks, v, next, (fuel - 1) as nat),
        }
    }
}

/// The chain of call, index and property suffixes.
pub open spec fn sp_call_rest(toks: Seq<Token>, callee: ExprV, pos: int, fuel: nat) -> PRes<ExprV>
    decreases fuel,
{
    if fuel == 0 {
        PRes::Fail(nesting_msg())
    } else if sp_check(toks, pos, TokenType::LeftParen) {
        let args_res: PRes<Seq<ExprV>> = if sp_check(toks, pos + 1, TokenType::RightParen) {
            PRes::Found { v: Seq::empty(), next: pos + 1 }
        } else {
            sp_args(toks, pos + 1, (fuel - 1) as nat)
        };
        match args_res {
            PRes::Fail(m) => PRes::Fail(m),
            PRes::Found { v: arguments, next } => {
                if !sp_check(toks, next, TokenType::RightParen) {
                    PRes::Fail("Expect ')' after arguments"@)
                } else {
                    sp_call_rest(
                        toks,
                        ExprV::Call {
                            callee: Box::new(callee),
                            paren: TokenType::RightParen,
                            arguments,
                        },
                        next + 1,
                        (fuel - 1) as nat,
                    )
                }
            }
        }
    } else if sp_check(toks, pos, TokenType::LeftBracket) {
        match sp_expression(toks, pos + 1, (fuel - 1) as nat) {
            PRes::Fail(m) => PRes::Fail(m),
            PRes::Found { v: index, next } => {
                if !sp_check(toks, next, TokenType::RightBracket) {
                    PRes::Fail("Expect ']' after index expression"@)
                } else {
                    sp_call_rest(
                        toks,
                        ExprV::Index { array: Box::new(callee), index: Box::new(index) },
                        next + 1,
                        (fuel - 1) as nat,
                    )
                }
            }
        }
    } else if sp_check(toks, pos, TokenType::Dot) {
        if !sp_check(toks, pos + 1, TokenType::Identifier) {
            PRes::Fail("Expect property name after '.'"@)
        } else {
            match ident_name(toks, pos + 1) {
                None => PRes::Fail("Expected identifier"@),
                Some(name) => sp_call_rest(
                    toks,
                    ExprV::Get { object: Box::new(callee), name },
                    pos + 2,
                    (fuel - 1) as nat,
                ),
            }
        }
    } else {
        PRes::Found { v: callee, next: pos }
    }
}

/// The model of the argument list (at least one expression).
pub open spec fn sp_args(toks: Seq<Token>, pos: int, fuel: nat) -> PRes<Seq<ExprV>>
    decreases fuel,
{
    if fuel == 0 {
        PRes::Fail(nesting_msg())
    } else {
        match sp_expression(toks, pos, (fuel - 1) as nat) {
            PRes::Fail(m) => PRes::Fail(m),
            PRes::Found { v, next } => {
                if sp_check(toks, next, TokenType::Comma) {
                    match sp_args(toks, next + 1, (fuel - 1) as nat) {
                        PRes::Fail(m) => PRes::Fail(m),
                        PRes::Found { v: rest, next: n2 } => PRes::Found {
                            v: seq![v] + rest,
                            next: n2,
                        },
                    }
                } else {
                    PRes::Found { v: seq![v], next }
                }
            }
        }
    }
}

/// The model of the array-literal element list (at least one expression).
pub open spec fn sp_array_elems(toks: Seq<Token>, pos: int, fuel: nat) -> PRes<Seq<ExprV>>
    decreases fuel,
{
    if fuel == 0 {
        PRes::Fail(nesting_msg())
    } else {
        match sp_expression(toks, pos, (fuel - 1) as nat) {
            PRes::Fail(m) => PRes::Fail(m),
            PRes::Found { v, next } => {
                if sp_check(toks, next, TokenType::Comma) {
                    match sp_array_elems(toks, next + 1, (fuel - 1) as nat) {
                        PRes::Fail(m) => PRes::Fail(m),
                        PRes::Found { v: rest, next: n2 } => PRes::Found {
                            v: seq![v] + rest,
                            next: n2,
                        },
                    }
                } else {
                    PRes::Found { v: seq![v], next }
                }
            }
        }
    }
}

/// The model of `primary`.
pub open spec fn sp_primary(toks: Seq<Token>, pos: int, fuel: nat) -> PRes<ExprV>
    decreases fuel,
{
    if fuel == 0 {
        PRes::Fail(nesting_msg())
    } else if sp_check(toks, pos, TokenType::Boolean) {
        match value_view(toks[pos].value) {
            ValueV::Bool(b) => PRes::Found { v: ExprV::Literal(ValueV::Bool(b)), next: pos + 1 },
            _ => PRes::Fail("Expected expression"@),
        }
    } else if sp_check(toks, pos, TokenType::Number) {
        match value_view(toks[pos].value) {
            ValueV::Num(n) => PRes::Found { v: ExprV::Literal(ValueV::Num(n)), next: pos + 1 },
            _ => PRes::Fail("Expected expression"@),
        }
    } else if sp_check(toks, pos, TokenType::String) {
        match value_view(toks[pos].value) {
            ValueV::Str(s) => PRes::Found { v: ExprV::Literal(ValueV::Str(s)), next: pos + 1 },
            _ => PRes::Fail("Expected expression"@),
        }
    } else if sp_check(toks, pos, TokenType::Null) {
        PRes::Found { v: ExprV::Literal(ValueV::Null), next: pos + 1 }
    } else if sp_check(toks, pos, TokenType::Identifier) {
        match ident_name(toks, pos) {
            Some(name) => PRes::Found { v: ExprV::Variable(name), next: pos + 1 },
            None => PRes::Fail("Expected expression"@),
        }
    } else if sp_check(toks, pos, TokenType::This) {
        PRes::Found { v: ExprV::This, next: pos + 1 }
    } else if sp_check(toks, pos, TokenType::LeftParen) {
        match sp_expression(toks, pos + 1, (fuel - 1) as nat) {
            PRes::Fail(m) => PRes::Fail(m),
            PRes::Found { v, next } => {
                if !sp_check(toks, next, TokenType::RightParen) {
                    PRes::Fail("Expect ')' after expression"@)
                } else {
                    PRes::Found { v: ExprV::Grouping(Box::new(v)), next: next + 1 }
                }
            }
        }
    } else if sp_check(toks, pos, TokenType::LeftBracket) {
        let elems_res: PRes<Seq<ExprV>> = if sp_check(toks, pos + 1, TokenType::RightBracket) {
            PRes::Found { v: Seq::empty(), next: pos + 1 }
        } else {
            sp_array_elems(toks, pos + 1, (fuel - 1) as nat)
        };
        match elems_res {
            PRes::Fail(m) => PRes::Fail(m),
            PRes::Found { v: elements, next } => {
                if !sp_check(toks, next, TokenType::RightBracket) {
                    PRes::Fail("Expect ']' after array literal"@)
                } else {
                    PRes::Found { v: ExprV::Array(elements), next: next + 1 }
                }
            }
        }
    } else {
        PRes::Fail("Expected expression"@)
    }
}

/// The model of the whole program: declarations until `Eof`.
pub open spec fn sp_program(toks: Seq<Token>, pos: int, fuel: nat) -> PRes<Seq<StmtV>>
    decreases fuel,
{
    if fuel == 0 {
        PRes::Fail(nesting_msg())
    } else if toks[pos].tty == TokenType::Eof {
        PRes::Found { v: Seq::empty(), next: pos }
    } else {
        match sp_declaration(toks, pos, (fuel - 1) as nat) {
            PRes::Fail(m) => PRes::Fail(m),
            PRes::Found { v: s, next } => match sp_program(toks, next, (fuel - 1) as nat) {
                PRes::Fail(m) => PRes::Fail(m),
                PRes::Found { v: rest, next: n2 } => PRes::Found { v: seq![s] + rest, next: n2 },
            },
        }
    }
}

/// The recursion budget of a single parse: deeper nesting is rejected.
pub const PARSE_BUDGET: u64 = 0xFFFF_FFFF_FFFF_FFFF;

/// Whether `e` is an `InvalidExpression` parser error with message `m`.
pub open spec fn parse_err_is(e: VeonError, m: Seq<char>) -> bool {
    &&& e matches VeonError::ParserError(pe)
    &&& e matches VeonError::ParserError(pe) ==> pe.tty == ParserErrorType::InvalidExpression
        && pe.msg@ == m
}

/// How an executable expression result relates to the model's.
pub open spec fn expr_res_matches(sp: PRes<ExprV>, r: Result<Expr, VeonError>, post: int) -> bool {
    match (r, sp) {
        (Ok(e), PRes::Found { v, next }) => expr_view(e) == v && post == next,
        (Err(e), PRes::Fail(m)) => parse_err_is(e, m),
        _ => false,
    }
}

/// How an executable statement result relates to the model's.
pub open spec fn stmt_res_matches(sp: PRes<StmtV>, r: Result<Stmt, VeonError>, post: int) -> bool {
    match (r, sp) {
        (Ok(s), PRes::Found { v, next }) => stmt_view(s) == v && post == next,
        (Err(e), PRes::Fail(m)) => parse_err_is(e, m),
        _ => false,
    }
}

/// How an executable statement-list result relates to the model's.
pub open spec fn stmts_res_matches(
    sp: PRes<Seq<StmtV>>,
    r: Result<Vec<Stmt>, VeonError>,
    post: int,
) -> bool {
    match (r, sp) {
        (Ok(ss), PRes::Found { v, next }) => stmts_view(ss@) == v && post == next,
        (Err(e), PRes::Fail(m)) => parse_err_is(e, m),
        _ => false,
    }
}

/// Prepending one element to each success of a list result.
pub open spec fn cons_step<T>(x: T, r: PRes<Seq<T>>) -> PRes<Seq<T>> {
    match r {
        PRes::Found { v, next } => PRes::Found { v: seq![x] + v, next },
        PRes::Fail(m) => PRes::Fail(m),
    }
}

/// The loop bookkeeping for list productions: the whole result equals the
/// prefix parsed so far joined with the rest.
pub open spec fn pres_cons<T>(whole: PRes<Seq<T>>, prefix: Seq<T>, rest: PRes<Seq<T>>) -> bool {
    match rest {
        PRes::Found { v, next } => whole == (PRes::Found { v: prefix + v, next }),
        PRes::Fail(m) => whole == (PRes::Fail::<Seq<T>>(m)),
    }
}

/// At the start of a list, the whole result is its own rest.
pub proof fn lemma_pres_cons_init<T>(w: PRes<Seq<T>>)
    ensures
        pres_cons(w, Seq::empty(), w),
{
    match w {
        PRes::Found { v, next } => {
            assert(Seq::<T>::empty() + v =~= v);
        }
        PRes::Fail(_) => {}
    }
}

/// Moving one parsed element from the rest into the prefix.
pub proof fn lemma_pres_cons_snoc<T>(whole: PRes<Seq<T>>, prefix: Seq<T>, x: T, r2: PRes<Seq<T>>)
    requires
        pres_cons(whole, prefix, cons_step(x, r2)),
    ensures
        pres_cons(whole, prefix.push(x), r2),
{
    match r2 {
        PRes::Found { v, next } => {
            assert(prefix + (seq![x] + v) =~= prefix.push(x) + v);
        }
        PRes::Fail(_) => {}
    }
}

/// Views of a pushed statement sequence.
pub proof fn lemma_stmts_view_push(s: Seq<Stmt>, t: Stmt)
    ensures
        stmts_view(s.push(t)) =~= stmts_view(s).push(stmt_view(t)),
{
    assert(s.push(t).subrange(0, s.len() as int) =~= s);
}

/// Views of a pushed expression sequence.
pub proof fn lemma_exprs_view_push(s: Seq<Expr>, t: Expr)
    ensures
        exprs_view(s.push(t)) =~= exprs_view(s).push(expr_view(t)),
{
    assert(s.push(t).subrange(0, s.len() as int) =~= s);
}

/// Views of a pushed name sequence.
pub proof fn lemma_strs_view_push(s: Seq<String>, t: String)
    ensures
        strs_view(s.push(t)) =~= strs_view(s).push(t@),
{
}

/// The parser state: the token sequence and the read position.
pub struct Parser {
    pub tokens: Vec<Token>,
    pub current: usize,
}

impl Parser {
    /// A fresh parser over `tokens`.
    pub fn new(tokens: Vec<Token>) -> (r: Parser)
        ensures
            r.tokens == tokens,
            r.current == 0,
    {
        Parser { tokens, current: 0 }
    }

    /// An `InvalidExpression` error with the given message.
    fn error(message: &str) -> (r: VeonError)
        ensures
            parse_err_is(r, message@),
    {
        VeonError::ParserError(
            ParserError { msg: String::from_str(message), tty: ParserErrorType::InvalidExpression },
        )
    }

    /// The error reported when the recursion budget runs out.
    fn budget_error() -> (r: VeonError)
        ensures
            parse_err_is(r, nesting_msg()),
    {
        Self::error("Too deeply nested")
    }

    /// Whether the read position is at the final `Eof` token.
    fn is_at_end(&self) -> (r: bool)
        requires
            self.current < self.tokens@.len(),
        ensures
            r == (self.tokens@[self.current as int].tty == TokenType::Eof),
    {
        self.tokens[self.current].tty == TokenType::Eof
    }

    /// The kind of the token at the read position.
    fn peek_tty(&self) -> (r: TokenType)
        requires
            self.current < self.tokens@.len(),
        ensures
            r == self.tokens@[self.current as int].tty,
    {
        self.tokens[self.current].tty
    }

    /// Whether the token at the read position has kind `tty`.
    fn check(&self, tty: TokenType) -> (r: bool)
        requires
            self.current < self.tokens@.len(),
        ensures
            r == sp_check(self.tokens@, self.current as int, tty),
    {
        let t = self.tokens[self.current].tty;
        if t == TokenType::Eof {
            false
        } else {
            t == tty
        }
    }

    /// Moves past the current token, unless it is the final `Eof`.
    fn advance(&mut self)
        requires
            wf_tokens(old(self).tokens@),
            old(self).current < old(self).tokens@.len(),
        ensures
            final(self).tokens == old(self).tokens,
            final(self).current as int == if old(self).tokens@[old(self).current as int].tty
                == TokenType::Eof {
                old(self).current as int
            } else {
                old(self).current + 1
            },
            final(self).current < final(self).tokens@.len(),
    {
        if !self.is_at_end() {
            proof {
                vstd::std_specs::vec::axiom_spec_len(&self.tokens);
            }
            self.current = self.current + 1;
        }
    }

    /// Consumes the current token if it has kind `tty`.
    fn matches(&mut self, tty: TokenType) -> (r: bool)
        requires
            wf_tokens(old(self).tokens@),
            old(self).current < old(self).tokens@.len(),
        ensures
            final(self).tokens == old(self).tokens,
            r == sp_check(old(self).tokens@, old(self).current as int, tty),
            final(self).current as int == if r {
                old(self).current + 1
            } else {
                old(self).current as int
            },
            final(self).current < final(self).tokens@.len(),
    {
        if self.check(tty) {
            self.advance();
            true
        } else {
            false
        }
    }

    /// Consumes a token of kind `tty` or fails with `message`.
    fn consume(&mut self, tty: TokenType, message: &str) -> (r: Result<(), VeonError>)
        requires
            wf_tokens(old(self).tokens@),
            old(self).current < old(self).tokens@.len(),
        ensures
            final(self).tokens == old(self).tokens,
            final(self).current < final(self).tokens@.len(),
            (match r {
                Ok(_) => sp_check(old(self).tokens@, old(self).current as int, tty)
                    && final(self).current == old(self).current + 1,
                Err(e) => !sp_check(old(self).tokens@, old(self).current as int, tty)
                    && parse_err_is(e, message@) && final(self).current == old(self).current,
            }),
    {
        if self.check(tty) {
            self.advance();
            Ok(())
        } else {
            Err(Self::error(message))
        }
    }

    /// The identifier name of the token just consumed, or an error when it
    /// carries none.
    fn previous_identifier(&self) -> (r: Result<String, VeonError>)
        requires
            1 <= self.current < self.tokens@.len(),
        ensures
            (match r {
                Ok(s) => ident_name(self.tokens@, self.current - 1) == Some(s@),
                Err(e) => ident_name(self.tokens@, self.current - 1) is None && parse_err_is(
                    e,
                    "Expected identifier"@,
                ),
            }),
    {
        match &self.tokens[self.current - 1].value {
            Value::String(name) => Ok(name.clone()),
            _ => Err(Self::error("Expected identifier")),
        }
    }

    /// Parses the whole program: declarations until `Eof`, as the model
    /// [`sp_program`] says, with the budget [`PARSE_BUDGET`].
    #[verifier::loop_isolation(false)]
    pub fn parse(&mut self) -> (r: Result<Vec<Stmt>, VeonError>)
        requires
            wf_tokens(old(self).tokens@),
            old(self).current < old(self).tokens@.len(),
        ensures
            final(self).tokens == old(self).tokens,
            stmts_res_matches(
                sp_program(old(self).tokens@, old(self).current as int, PARSE_BUDGET as nat),
                r,
                final(self).current as int,
            ),
    {
        let ghost toks = self.tokens@;
        let ghost whole = sp_program(toks, self.current as int, PARSE_BUDGET as nat);
        let mut statements: Vec<Stmt> = Vec::new();
        let mut f: u64 = PARSE_BUDGET;
        proof {
            lemma_pres_cons_init(whole);
            assert(stmts_view(statements@) =~= Seq::<StmtV>::empty());
        }
        loop
            invariant
                self.tokens == old(self).tokens,
                self.tokens@ == toks,
                self.current < toks.len(),
                pres_cons(
                    whole,
                    stmts_view(statements@),
                    sp_program(toks, self.current as int, f as nat),
                ),
            decreases f,
        {
            if self.is_at_end() {
                break;
            }
            if f == 0 {
                return Err(Self::budget_error());
            }
            let ghost prefix = stmts_view(statements@);
            let ghost cur = self.current as int;
            match self.declaration(f - 1) {
                Err(e) => {
                    return Err(e);
                }
                Ok(s) => {
                    proof {
                        assert(sp_program(toks, cur, f as nat) == cons_step(
                            stmt_view(s),
                            sp_program(toks, self.current as int, (f - 1) as nat),
                        ));
                        lemma_pres_cons_snoc(
                            whole,
                            prefix,
                            stmt_view(s),
                            sp_program(toks, self.current as int, (f - 1) as nat),
                        );
                        lemma_stmts_view_push(statements@, s);
                    }
                    statements.push(s);
                    f = f - 1;
                }
            }
        }
        proof {
            if f == 0 {
            }
        }
        if f == 0 {
            return Err(Self::budget_error());
        }
        Ok(statements)
    }

    /// Parses one declaration, as [`sp_declaration`] says.
    fn declaration(&mut self, fuel: u64) -> (r: Result<Stmt, VeonError>)
        requires
            wf_tokens(old(self).tokens@),
            old(self).current < old(self).tokens@.len(),
        ensures
            final(self).tokens == old(self).tokens,
            final(self).current < final(self).tokens@.len(),
            stmt_res_matches(
                sp_declaration(old(self).tokens@, old(self).current as int, fuel as nat),
                r,
                final(self).current as int,
            ),
        decreases fuel,
    {
        if fuel == 0 {
            return Err(Self::budget_error());
        }
        if self.matches(TokenType::Class) {
            self.class_declaration(fuel - 1)
        } else if self.matches(TokenType::Fun) {
            self.function(fuel - 1)
        } else if self.matches(TokenType::Let) {
            self.var_declaration(fuel - 1)
        } else {
            self.statement(fuel - 1)
        }
    }

    /// Parses a class declaration, as [`sp_class_declaration`] says.
    #[verifier::loop_isolation(false)]
    #[verifier::rlimit(50)]
    fn class_declaration(&mut self, fuel: u64) -> (r: Result<Stmt, VeonError>)
        requires
            wf_tokens(old(self).tokens@),
            old(self).current < old(self).tokens@.len(),
        ensures
            final(self).tokens == old(self).tokens,
            final(self).current < final(self).tokens@.len(),
            stmt_res_matches(
                sp_class_declaration(old(self).tokens@, old(self).current as int, fuel as nat),
                r,
                final(self).current as int,
            ),
        decreases fuel,
    {
        if fuel == 0 {
            return Err(Self::budget_error());
        }
        let ghost toks = self.tokens@;
        match self.consume(TokenType::Identifier, "Expected class name") {
            Err(e) => {
                return Err(e);
            }
            Ok(_) => {}
        }
        let name = match self.previous_identifier() {
            Ok(n) => n,
            Err(e) => {
                return Err(e);
            }
        };
        match self.consume(TokenType::LeftBrace, "Expect '{' before class body") {
            Err(e) => {
                return Err(e);
            }
            Ok(_) => {}
        }
        let ghost whole = sp_class_methods(toks, self.current as int, (fuel - 1) as nat);
        let mut methods: Vec<Stmt> = Vec::new();
        let mut f: u64 = fuel - 1;
        proof {
            lemma_pres_cons_init(whole);
            assert(stmts_view(methods@) =~= Seq::<StmtV>::empty());
        }
        loop
            invariant
                self.tokens == old(self).tokens,
                self.tokens@ == toks,
                self.current < toks.len(),
                f < fuel,
                pres_cons(
                    whole,
                    stmts_view(methods@),
                    sp_class_methods(toks, self.current as int, f as nat),
                ),
            decreases f,
        {
            if self.check(TokenType::RightBrace) || self.is_at_end() {
                break;
            }
            if f == 0 {
                return Err(Self::budget_error());
            }
            match self.consume(TokenType::Fun, "Expect 'fun' before method") {
                Err(e) => {
                    return Err(e);
                }
                Ok(_) => {}
            }
            let ghost prefix = stmts_view(methods@);
            let ghost cur = self.current as int;
            match self.function(f - 1) {
                Err(e) => {
                    return Err(e);
                }
                Ok(m) => {
                    proof {
                        assert(sp_class_methods(toks, cur - 1, f as nat) == cons_step(
                            stmt_view(m),
                            sp_class_methods(toks, self.current as int, (f - 1) as nat),
                        ));
                        lemma_pres_cons_snoc(
                            whole,
                            prefix,
                            stmt_view(m),
                            sp_class_methods(toks, self.current as int, (f - 1) as nat),
                        );
                        lemma_stmts_view_push(methods@, m);
                    }
                    methods.push(m);
                    f = f - 1;
                }
            }
        }
        if f == 0 {
            return Err(Self::budget_error());
        }
        match self.consume(TokenType::RightBrace, "Expect '}' after class body") {
            Err(e) => {
                return Err(e);
            }
            Ok(_) => {}
        }
        Ok(Stmt::Class { name, methods })
    }

    /// Parses a function (after its `fun`), as [`sp_function`] says.
    #[verifier::loop_isolation(false)]
    #[verifier::rlimit(50)]
    fn function(&mut self, fuel: u64) -> (r: Result<Stmt, VeonError>)
        requires
            wf_tokens(old(self).tokens@),
            old(self).current < old(self).tokens@.len(),
        ensures
            final(self).tokens == old(self).tokens,
            final(self).current < final(self).tokens@.len(),
            stmt_res_matches(
                sp_function(old(self).tokens@, old(self).current as int, fuel as nat),
                r,
                final(self).current as int,
            ),
        decreases fuel,
    {
        if fuel == 0 {
            return Err(Self::budget_error());
        }
        let ghost toks = self.tokens@;
        match self.consume(TokenType::Identifier, "Expected function name") {
            Err(e) => {
                return Err(e);
            }
            Ok(_) => {}
        }
        let name = match self.previous_identifier() {
            Ok(n) => n,
            Err(e) => {
                return Err(e);
            }
        };
        match self.consume(TokenType::LeftParen, "Expect '(' after function name") {
            Err(e) => {
                return Err(e);
            }
            Ok(_) => {}
        }
        let ghost pstart = self.current as int;
        let ghost pres: PRes<Seq<Seq<char>>> = if sp_check(toks, pstart, TokenType::RightParen) {
            PRes::Found { v: Seq::empty(), next: pstart }
        } else {
            sp_params(toks, pstart, (fuel - 1) as nat)
        };
        let mut params: Vec<String> = Vec::new();
        if !self.check(TokenType::RightParen) {
            let ghost whole = sp_params(toks, pstart, (fuel - 1) as nat);
            let mut f: u64 = fuel - 1;
            let mut done: bool = false;
            proof {
                lemma_pres_cons_init(whole);
                assert(strs_view(params@) =~= Seq::<Seq<char>>::empty());
            }
            while !done
                invariant
                    self.tokens == old(self).tokens,
                    self.tokens@ == toks,
                    self.current < toks.len(),
                    f < fuel,
                    (if done {
                        whole == (PRes::Found {
                            v: strs_view(params@),
                            next: self.current as int,
                        })
                    } else {
                        pres_cons(
                            whole,
                            strs_view(params@),
                            sp_params(toks, self.current as int, f as nat),
                        )
                    }),
                decreases f,
            {
                if f == 0 {
                    proof {
                        assert(whole == PRes::Fail::<Seq<Seq<char>>>(nesting_msg()));
                    }
                    return Err(Self::budget_error());
                }
                match self.consume(TokenType::Identifier, "Expect parameter name") {
                    Err(e) => {
                        return Err(e);
                    }
                    Ok(_) => {}
                }
                let p = match self.previous_identifier() {
                    Ok(n) => n,
                    Err(e) => {
                        return Err(e);
                    }
                };
                let ghost prefix = strs_view(params@);
                let ghost cur = self.current as int;
                let more = self.matches(TokenType::Comma);
                proof {
                    lemma_strs_view_push(params@, p);
                }
                if more {
                    proof {
                        assert(sp_params(toks, cur - 1, f as nat) == cons_step(
                            p@,
                            sp_params(toks, self.current as int, (f - 1) as nat),
                        ));
                        lemma_pres_cons_snoc(
                            whole,
                            prefix,
                            p@,
                            sp_params(toks, self.current as int, (f - 1) as nat),
                        );
                    }
                    params.push(p);
                } else {
                    proof {
                        assert(sp_params(toks, cur - 1, f as nat) == (PRes::Found {
                            v: seq![p@],
                            next: cur,
                        }));
                        assert(prefix + seq![p@] =~= prefix.push(p@));
                    }
                    params.push(p);
                    done = true;
                }
                f = f - 1;
            }
        }
        proof {
            if sp_check(toks, pstart, TokenType::RightParen) {
                assert(strs_view(params@) =~= Seq::<Seq<char>>::empty());
            }
        }
        match self.consume(TokenType::RightParen, "Expect ')' after parameters") {
            Err(e) => {
                return Err(e);
            }
            Ok(_) => {}
        }
        match self.consume(TokenType::LeftBrace, "Expect '{' before function body") {
            Err(e) => {
                return Err(e);
            }
            Ok(_) => {}
        }
        match self.block(fuel - 1) {
            Err(e) => {
                return Err(e);
            }
            Ok(body) => Ok(Stmt::Function { name, params, body }),
        }
    }

    /// Parses a variable declaration (after `let`), as
    /// [`sp_var_declaration`] says.
    fn var_declaration(&mut self, fuel: u64) -> (r: Result<Stmt, VeonError>)
        requires
            wf_tokens(old(self).tokens@),
            old(self).current < old(self).tokens@.len(),
        ensures
            final(self).tokens == old(self).tokens,
            final(self).current < final(self).tokens@.len(),
            stmt_res_matches(
                sp_var_declaration(old(self).tokens@, old(self).current as int, fuel as nat),
                r,
                final(self).current as int,
            ),
        decreases fuel,
    {
        if fuel == 0 {
            return Err(Self::budget_error());
        }
        match self.consume(TokenType::Identifier, "Expected variable name") {
            Err(e) => {
                return Err(e);
            }
            Ok(_) => {}
        }
        let var_name = match self.previous_identifier() {
            Ok(n) => n,
            Err(e) => {
                return Err(e);
            }
        };
        let initializer = if self.matches(TokenType::Equal) {
            match self.expression(fuel - 1) {
                Ok(e) => Some(e),
                Err(e) => {
                    return Err(e);
                }
            }
        } else {
            None
        };
        match self.consume(TokenType::Semicolon, "Expect ';' after variable declaration") {
            Err(e) => {
                return Err(e);
            }
            Ok(_) => {}
        }
        Ok(Stmt::Var { name: var_name, initializer })
    }

    /// Parses one statement, as [`sp_statement`] says.
    fn statement(&mut self, fuel: u64) -> (r: Result<Stmt, VeonError>)
        requires
            wf_tokens(old(self).tokens@),
            old(self).current < old(self).tokens@.len(),
        ensures
            final(self).tokens == old(self).tokens,
            final(self).current < final(self).tokens@.len(),
            stmt_res_matches(
                sp_statement(old(self).tokens@, old(self).current as int, fuel as nat),
                r,
                final(self).current as int,
            ),
        decreases fuel,
    {
        if fuel == 0 {
            return Err(Self::budget_error());
        }
        if self.matches(TokenType::If) {
            self.if_statement(fuel - 1)
        } else if self.matches(TokenType::While) {
            self.while_statement(fuel - 1)
        } else if self.matches(TokenType::For) {
            self.for_statement(fuel - 1)
        } else if self.matches(TokenType::Return) {
            self.return_statement(fuel - 1)
        } else if self.matches(TokenType::LeftBrace) {
            match self.block(fuel - 1) {
                Ok(stmts) => Ok(Stmt::Block(stmts)),
                Err(e) => Err(e),
            }
        } else {
            self.expression_statement(fuel - 1)
        }
    }

    /// Parses an `if` statement (after `if`), as [`sp_if_statement`] says.
    fn if_statement(&mut self, fuel: u64) -> (r: Result<Stmt, VeonError>)
        requires
            wf_tokens(old(self).tokens@),
            old(self).current < old(self).tokens@.len(),
        ensures
            final(self).tokens == old(self).tokens,
            final(self).current < final(self).tokens@.len(),
            stmt_res_matches(
                sp_if_statement(old(self).tokens@, old(self).current as int, fuel as nat),
                r,
                final(self).current as int,
            ),
        decreases fuel,
    {
        if fuel == 0 {
            return Err(Self::budget_error());
        }
        match self.consume(TokenType::LeftParen, "Expect '(' after 'if'") {
            Err(e) => {
                return Err(e);
            }
            Ok(_) => {}
        }
        let condition = match self.expression(fuel - 1) {
            Ok(e) => e,
            Err(e) => {
                return Err(e);
            }
        };
        match self.consume(TokenType::RightParen, "Expect ')' after if condition") {
            Err(e) => {
                return Err(e);
            }
            Ok(_) => {}
        }
        let then_branch = match self.statement(fuel - 1) {
            Ok(s) => Box::new(s),
            Err(e) => {
                return Err(e);
            }
        };
        let else_branch = if self.matches(TokenType::Else) {
            match self.statement(fuel - 1) {
                Ok(s) => Some(Box::new(s)),
                Err(e) => {
                    return Err(e);
                }
            }
        } else {
            None
        };
        Ok(Stmt::If { condition, then_branch, else_branch })
    }

    /// Parses a `while` statement (after `while`), as
    /// [`sp_while_statement`] says.
    fn while_statement(&mut self, fuel: u64) -> (r: Result<Stmt, VeonError>)
        requires
            wf_tokens(old(self).tokens@),
            old(self).current < old(self).tokens@.len(),
        ensures
            final(self).tokens == old(self).tokens,
            final(self).current < final(self).tokens@.len(),
            stmt_res_matches(
                sp_while_statement(old(self).tokens@, old(self).current as int, fuel as nat),
                r,
                final(self).current as int,
            ),
        decreases fuel,
    {
        if fuel == 0 {
            return Err(Self::budget_error());
        }
        match self.consume(TokenType::LeftParen, "Expect '(' after 'while'") {
            Err(e) => {
                return Err(e);
            }
            Ok(_) => {}
        }
        let condition = match self.expression(fuel - 1) {
            Ok(e) => e,
            Err(e) => {
                return Err(e);
            }
        };
        match self.consume(TokenType::RightParen, "Expect ')' after condition'") {
            Err(e) => {
                return Err(e);
            }
            Ok(_) => {}
        }
        match self.statement(fuel - 1) {
            Ok(body) => Ok(Stmt::While { condition, body: Box::new(body) }),
            Err(e) => Err(e),
        }
    }

    /// Parses a `for` statement (after `for`) and desugars it, as
    /// [`sp_for_statement`] says.
    #[verifier::rlimit(100)]
    fn for_statement(&mut self, fuel: u64) -> (r: Result<Stmt, VeonError>)
        requires
            wf_tokens(old(self).tokens@),
            old(self).current < old(self).tokens@.len(),
        ensures
            final(self).tokens == old(self).tokens,
            final(self).current < final(self).tokens@.len(),
            stmt_res_matches(
                sp_for_statement(old(self).tokens@, old(self).current as int, fuel as nat),
                r,
                final(self).current as int,
            ),
        decreases fuel, 1int,
    {
        if fuel == 0 {
            return Err(Self::budget_error());
        }
        match self.consume(TokenType::LeftParen, "Expect '(' after 'for'") {
            Err(e) => {
                return Err(e);
            }
            Ok(_) => {}
        }
        let initializer = if self.matches(TokenType::Semicolon) {
            None
        } else if self.matches(TokenType::Let) {
            match self.var_declaration(fuel - 1) {
                Ok(s) => Some(s),
                Err(e) => {
                    return Err(e);
                }
            }
        } else {
            match self.expression_statement(fuel - 1) {
                Ok(s) => Some(s),
                Err(e) => {
                    return Err(e);
                }
            }
        };
        self.for_tail(initializer, fuel)
    }

    /// Parses the rest of a `for` statement and desugars it, as
    /// [`sp_for_tail`] says.
    #[verifier::rlimit(100)]
    fn for_tail(&mut self, initializer: Option<Stmt>, fuel: u64) -> (r: Result<Stmt, VeonError>)
        requires
            wf_tokens(old(self).tokens@),
            old(self).current < old(self).tokens@.len(),
        ensures
            final(self).tokens == old(self).tokens,
            final(self).current < final(self).tokens@.len(),
            stmt_res_matches(
                sp_for_tail(
                    old(self).tokens@,
                    opt_stmt_view(initializer),
                    old(self).current as int,
                    fuel as nat,
                ),
                r,
                final(self).current as int,
            ),
        decreases fuel, 0int,
    {
        if fuel == 0 {
            return Err(Self::budget_error());
        }
        let condition = if !self.check(TokenType::Semicolon) {
            match self.expression(fuel - 1) {
                Ok(e) => e,
                Err(e) => {
                    return Err(e);
                }
            }
        } else {
            Expr::Literal(Value::Boolean(true))
        };
        match self.consume(TokenType::Semicolon, "Expect ';' after loop condition") {
            Err(e) => {
                return Err(e);
            }
            Ok(_) => {}
        }
        let increment = if !self.check(TokenType::RightParen) {
            match self.expression(fuel - 1) {
                Ok(e) => Some(e),
                Err(e) => {
                    return Err(e);
                }
            }
        } else {
            None
        };
        match self.consume(TokenType::RightParen, "Expect ')' after for clauses") {
            Err(e) => {
                return Err(e);
            }
            Ok(_) => {}
        }
        let body = match self.statement(fuel - 1) {
            Ok(s) => s,
            Err(e) => {
                return Err(e);
            }
        };
        Ok(Self::desugar_for(initializer, condition, increment, body))
    }

    /// Builds the desugared form of a `for` statement, as
    /// [`sp_desugar_for`] says.
    fn desugar_for(
        initializer: Option<Stmt>,
        condition: Expr,
        increment: Option<Expr>,
        body: Stmt,
    ) -> (r: Stmt)
        ensures
            stmt_view(r) == sp_desugar_for(
                opt_stmt_view(initializer),
                expr_view(condition),
                match increment {
                    Some(e) => Some(expr_view(e)),
                    None => None,
                },
                stmt_view(body),
            ),
    {
        let ghost bv = stmt_view(body);
        let ghost incv: Option<ExprV> = (match &increment {
            Some(e) => Some(expr_view(*e)),
            None => None,
        });
        let ghost b1v: StmtV = (match incv {
            Some(iv) => StmtV::Block(seq![bv, StmtV::Expression(iv)]),
            None => bv,
        });
        let mut body1 = body;
        if let Some(inc) = increment {
            let mut block: Vec<Stmt> = Vec::new();
            block.push(body1);
            block.push(Stmt::Expression(inc));
            proof {
                lemma_stmts_view(block@);
                assert(stmts_view(block@) =~= seq![bv, StmtV::Expression(expr_view(inc))]);
            }
            body1 = Stmt::Block(block);
        }
        proof {
            assert(stmt_view(body1) == b1v);
        }
        let looped = Stmt::While { condition, body: Box::new(body1) };
        let ghost lv = StmtV::While { condition: expr_view(condition), body: Box::new(b1v) };
        proof {
            assert(stmt_view(looped) == lv);
        }
        if let Some(init) = initializer {
            let mut block: Vec<Stmt> = Vec::new();
            block.push(init);
            block.push(looped);
            proof {
                lemma_stmts_view(block@);
                assert(stmts_view(block@) =~= seq![stmt_view(init), lv]);
            }
            Stmt::Block(block)
        } else {
            looped
        }
    }

    /// Parses a `return` statement (after `return`), as
    /// [`sp_return_statement`] says.
    fn return_statement(&mut self, fuel: u64) -> (r: Result<Stmt, VeonError>)
        requires
            wf_tokens(old(self).tokens@),
            old(self).current < old(self).tokens@.len(),
        ensures
            final(self).tokens == old(self).tokens,
            final(self).current < final(self).tokens@.len(),
            stmt_res_matches(
                sp_return_statement(old(self).tokens@, old(self).current as int, fuel as nat),
                r,
                final(self).current as int,
            ),
        decreases fuel,
    {
        if fuel == 0 {
            return Err(Self::budget_error());
        }
        let value = if !self.check(TokenType::Semicolon) {
            match self.expression(fuel - 1) {
                Ok(e) => Some(e),
                Err(e) => {
                    return Err(e);
                }
            }
        } else {
            None
        };
        match self.consume(TokenType::Semicolon, "Expect ';' after return value") {
            Err(e) => {
                return Err(e);
            }
            Ok(_) => {}
        }
        Ok(Stmt::Return(value))
    }

    /// Parses a block's statements and its closing brace, as [`sp_block`]
    /// says.
    #[verifier::loop_isolation(false)]
    #[verifier::rlimit(50)]
    fn block(&mut self, fuel: u64) -> (r: Result<Vec<Stmt>, VeonError>)
        requires
            wf_tokens(old(self).tokens@),
            old(self).current < old(self).tokens@.len(),
        ensures
            final(self).tokens == old(self).tokens,
            final(self).current < final(self).tokens@.len(),
            stmts_res_matches(
                sp_block(old(self).tokens@, old(self).current as int, fuel as nat),
                r,
                final(self).current as int,
            ),
        decreases fuel,
    {
        let ghost toks = self.tokens@;
        let ghost whole = sp_block(toks, self.current as int, fuel as nat);
        let mut statements: Vec<Stmt> = Vec::new();
        let mut f: u64 = fuel;
        proof {
            lemma_pres_cons_init(whole);
            assert(stmts_view(statements@) =~= Seq::<StmtV>::empty());
        }
        loop
            invariant
                self.tokens == old(self).tokens,
                self.tokens@ == toks,
                self.current < toks.len(),
                f <= fuel,
                pres_cons(
                    whole,
                    stmts_view(statements@),
                    sp_block(toks, self.current as int, f as nat),
                ),
            decreases f,
        {
            if f == 0 {
                return Err(Self::budget_error());
            }
            if self.check(TokenType::RightBrace) {
                break;
            }
            if self.is_at_end() {
                return Err(Self::error("Expect '}' after block"));
            }
            let ghost prefix = stmts_view(statements@);
            let ghost cur = self.current as int;
            match self.declaration(f - 1) {
                Err(e) => {
                    return Err(e);
                }
                Ok(s) => {
                    proof {
                        assert(sp_block(toks, cur, f as nat) == cons_step(
                            stmt_view(s),
                            sp_block(toks, self.current as int, (f - 1) as nat),
                        ));
                        lemma_pres_cons_snoc(
                            whole,
                            prefix,
                            stmt_view(s),
                            sp_block(toks, self.current as int, (f - 1) as nat),
                        );
                        lemma_stmts_view_push(statements@, s);
                    }
                    statements.push(s);
                    f = f - 1;
                }
            }
        }
        self.advance();
        Ok(statements)
    }

    /// Parses an expression statement, as [`sp_expression_statement`] says.
    fn expression_statement(&mut self, fuel: u64) -> (r: Result<Stmt, VeonError>)
        requires
            wf_tokens(old(self).tokens@),
            old(self).current < old(self).tokens@.len(),
        ensures
            final(self).tokens == old(self).tokens,
            final(self).current < final(self).tokens@.len(),
            stmt_res_matches(
                sp_expression_statement(old(self).tokens@, old(self).current as int, fuel as nat),
                r,
                final(self).current as int,
            ),
        decreases fuel,
    {
        if fuel == 0 {
            return Err(Self::budget_error());
        }
        let expr = match self.expression(fuel - 1) {
            Ok(e) => e,
            Err(e) => {
                return Err(e);
            }
        };
        match self.consume(TokenType::Semicolon, "Expect ';' after expression") {
            Err(e) => {
                return Err(e);
            }
            Ok(_) => {}
        }
        Ok(Stmt::Expression(expr))
    }

    /// Parses one expression, as [`sp_expression`] says.
    fn expression(&mut self, fuel: u64) -> (r: Result<Expr, VeonError>)
        requires
            wf_tokens(old(self).tokens@),
            old(self).current < old(self).tokens@.len(),
        ensures
            final(self).tokens == old(self).tokens,
            final(self).current < final(self).tokens@.len(),
            expr_res_matches(
                sp_expression(old(self).tokens@, old(self).current as int, fuel as nat),
                r,
                final(self).current as int,
            ),
        decreases fuel,
    {
        if fuel == 0 {
            return Err(Self::budget_error());
        }
        self.assignment(fuel - 1)
    }

    /// Parses an assignment, as [`sp_assignment`] says.
    fn assignment(&mut self, fuel: u64) -> (r: Result<Expr, VeonError>)
        requires
            wf_tokens(old(self).tokens@),
            old(self).current < old(self).tokens@.len(),
        ensures
            final(self).tokens == old(self).tokens,
            final(self).current < final(self).tokens@.len(),
            expr_res_matches(
                sp_assignment(old(self).tokens@, old(self).current as int, fuel as nat),
                r,
                final(self).current as int,
            ),
        decreases fuel,
    {
        if fuel == 0 {
            return Err(Self::budget_error());
        }
        let expr = match self.or(fuel - 1) {
            Ok(e) => e,
            Err(e) => {
                return Err(e);
            }
        };
        if self.matches(TokenType::Equal) {
            let value = match self.assignment(fuel - 1) {
                Ok(v) => v,
                Err(e) => {
                    return Err(e);
                }
            };
            match expr {
                Expr::Variable(name) => Ok(Expr::Assign { name, value: Box::new(value) }),
                Expr::Get { object, name } => Ok(
                    Expr::SetProp { object, name, value: Box::new(value) },
                ),
                _ => Err(Self::error("Invalid assignment target")),
            }
        } else {
            Ok(expr)
        }
    }

    /// Parses an `or` chain, as [`sp_or`] says.
    #[verifier::loop_isolation(false)]
    #[verifier::rlimit(50)]
    fn or(&mut self, fuel: u64) -> (r: Result<Expr, VeonError>)
        requires
            wf_tokens(old(self).tokens@),
            old(self).current < old(self).tokens@.len(),
        ensures
            final(self).tokens == old(self).tokens,
            final(self).current < final(self).tokens@.len(),
            expr_res_matches(
                sp_or(old(self).tokens@, old(self).current as int, fuel as nat),
                r,
                final(self).current as int,
            ),
        decreases fuel,
    {
        if fuel == 0 {
            return Err(Self::budget_error());
        }
        let ghost toks = self.tokens@;
        let mut expr = match self.and(fuel - 1) {
            Ok(e) => e,
            Err(e) => {
                return Err(e);
            }
        };
        let ghost whole = sp_or_rest(toks, expr_view(expr), self.current as int, (fuel - 1) as nat);
        let mut f: u64 = fuel - 1;
        loop
            invariant
                self.tokens == old(self).tokens,
                self.tokens@ == toks,
                self.current < toks.len(),
                f < fuel,
                whole == sp_or_rest(toks, expr_view(expr), self.current as int, f as nat),
            decreases f,
        {
            if f == 0 {
                return Err(Self::budget_error());
            }
            if !self.check(TokenType::Or) {
                break;
            }
            self.advance();
            let right = match self.and(f - 1) {
                Ok(e) => e,
                Err(e) => {
                    return Err(e);
                }
            };
            expr = Expr::Logical {
                left: Box::new(expr),
                operator: TokenType::Or,
                right: Box::new(right),
            };
            f = f - 1;
        }
        Ok(expr)
    }

    /// Parses an `and` chain, as [`sp_and`] says.
    #[verifier::loop_isolation(false)]
    #[verifier::rlimit(100)]
    fn and(&mut self, fuel: u64) -> (r: Result<Expr, VeonError>)
        requires
            wf_tokens(old(self).tokens@),
            old(self).current < old(self).tokens@.len(),
        ensures
            final(self).tokens == old(self).tokens,
            final(self).current < final(self).tokens@.len(),
            expr_res_matches(
                sp_and(old(self).tokens@, old(self).current as int, fuel as nat),
                r,
                final(self).current as int,
            ),
        decreases fuel,
    {
        if fuel == 0 {
            return Err(Self::budget_error());
        }
        let ghost toks = self.tokens@;
        let mut expr = match self.equality(fuel - 1) {
            Ok(e) => e,
            Err(e) => {
                return Err(e);
            }
        };
        let ghost whole = sp_and_rest(
            toks,
            expr_view(expr),
            self.current as int,
            (fuel - 1) as nat,
        );
        let mut f: u64 = fuel - 1;
        loop
            invariant
                self.tokens == old(self).tokens,
                self.tokens@ == toks,
                self.current < toks.len(),
                f < fuel,
                whole == sp_and_rest(toks, expr_view(expr), self.current as int, f as nat),
            decreases f,
        {
            if f == 0 {
                return Err(Self::budget_error());
            }
            if !self.check(TokenType::And) {
                break;
            }
            self.advance();
            let right = match self.equality(f - 1) {
                Ok(e) => e,
                Err(e) => {
                    return Err(e);
                }
            };
            expr = Expr::Logical {
                left: Box::new(expr),
                operator: TokenType::And,
                right: Box::new(right),
            };
            f = f - 1;
        }
        Ok(expr)
    }

    /// Parses an equality chain, as [`sp_equality`] says.
    #[verifier::loop_isolation(false)]
    #[verifier::rlimit(50)]
    fn equality(&mut self, fuel: u64) -> (r: Result<Expr, VeonError>)
        requires
            wf_tokens(old(self).tokens@),
            old(self).current < old(self).tokens@.len(),
        ensures
            final(self).tokens == old(self).tokens,
            final(self).current < final(self).tokens@.len(),
            expr_res_matches(
                sp_equality(old(self).tokens@, old(self).current as int, fuel as nat),
                r,
                final(self).current as int,
            ),
        decreases fuel,
    {
        if fuel == 0 {
            return Err(Self::budget_error());
        }
        let ghost toks = self.tokens@;
        let mut expr = match self.comparison(fuel - 1) {
            Ok(e) => e,
            Err(e) => {
                return Err(e);
            }
        };
        let ghost whole = sp_equality_rest(
            toks,
            expr_view(expr),
            self.current as int,
            (fuel - 1) as nat,
        );
        let mut f: u64 = fuel - 1;
        loop
            invariant
                self.tokens == old(self).tokens,
                self.tokens@ == toks,
                self.current < toks.len(),
                f < fuel,
                whole == sp_equality_rest(toks, expr_view(expr), self.current as int, f as nat),
            decreases f,
        {
            if f == 0 {
                return Err(Self::budget_error());
            }
            if !(self.check(TokenType::EqualEqual) || self.check(TokenType::NotEqual)) {
                break;
            }
            let operator = self.peek_tty();
            self.advance();
            let right = match self.comparison(f - 1) {
                Ok(e) => e,
                Err(e) => {
                    return Err(e);
                }
            };
            expr = Expr::Binary { left: Box::new(expr), operator, right: Box::new(right) };
            f = f - 1;
        }
        Ok(expr)
    }

    /// Parses a comparison chain, as [`sp_comparison`] says.
    #[verifier::loop_isolation(false)]
    #[verifier::rlimit(50)]
    fn comparison(&mut self, fuel: u64) -> (r: Result<Expr, VeonError>)
        requires
            wf_tokens(old(self).tokens@),
            old(self).current < old(self).tokens@.len(),
        ensures
            final(self).tokens == old(self).tokens,
            final(self).current < final(self).tokens@.len(),
            expr_res_matches(
                sp_comparison(old(self).tokens@, old(self).current as int, fuel as nat),
                r,
                final(self).current as int,
            ),
        decreases fuel,
    {
        if fuel == 0 {
            return Err(Self::budget_error());
        }
        let ghost toks = self.tokens@;
        let mut expr = match self.term(fuel - 1) {
            Ok(e) => e,
            Err(e) => {
                return Err(e);
            }
        };
        let ghost whole = sp_comparison_rest(
            toks,
            expr_view(expr),
            self.current as int,
            (fuel - 1) as nat,
        );
        let mut f: u64 = fuel - 1;
        loop
            invariant
                self.tokens == old(self).tokens,
                self.tokens@ == toks,
                self.current < toks.len(),
                f < fuel,
                whole == sp_comparison_rest(toks, expr_view(expr), self.current as int, f as nat),
            decreases f,
        {
            if f == 0 {
                return Err(Self::budget_error());
            }
            if !(self.check(TokenType::Greater) || self.check(TokenType::GreaterEqual)
                || self.check(TokenType::Less) || self.check(TokenType::LessEqual)) {
                break;
            }
            let operator = self.peek_tty();
            self.advance();
            let right = match self.term(f - 1) {
                Ok(e) => e,
                Err(e) => {
                    return Err(e);
                }
            };
            expr = Expr::Binary { left: Box::new(expr), operator, right: Box::new(right) };
            f = f - 1;
        }
        Ok(expr)
    }

    /// Parses a term chain, as [`sp_term`] says.
    #[verifier::loop_isolation(false)]
    #[verifier::rlimit(50)]
    fn term(&mut self, fuel: u64) -> (r: Result<Expr, VeonError>)
        requires
            wf_tokens(old(self).tokens@),
            old(self).current < old(self).tokens@.len(),
        ensures
            final(self).tokens == old(self).tokens,
            final(self).current < final(self).tokens@.len(),
            expr_res_matches(
                sp_term(old(self).tokens@, old(self).current as int, fuel as nat),
                r,
                final(self).current as int,
            ),
        decreases fuel,
    {
        if fuel == 0 {
            return Err(Self::budget_error());
        }
        let ghost toks = self.tokens@;
        let mut expr = match self.factor(fuel - 1) {
            Ok(e) => e,
            Err(e) => {
                return Err(e);
            }
        };
        let ghost whole = sp_term_rest(
            toks,
            expr_view(expr),
            self.current as int,
            (fuel - 1) as nat,
        );
        let mut f: u64 = fuel - 1;
        loop
            invariant
                self.tokens == old(self).tokens,
                self.tokens@ == toks,
                self.current < toks.len(),
                f < fuel,
                whole == sp_term_rest(toks, expr_view(expr), self.current as int, f as nat),
            decreases f,
        {
            if f == 0 {
                return Err(Self::budget_error());
            }
            if !(self.check(TokenType::Plus) || self.check(TokenType::Minus)) {
                break;
            }
            let operator = self.peek_tty();
            self.advance();
            let right = match self.factor(f - 1) {
                Ok(e) => e,
                Err(e) => {
                    return Err(e);
                }
            };
            expr = Expr::Binary { left: Box::new(expr), operator, right: Box::new(right) };
            f = f - 1;
        }
        Ok(expr)
    }

    /// Parses a factor chain, as [`sp_factor`] says.
    #[verifier::loop_isolation(false)]
    #[verifier::rlimit(50)]
    fn factor(&mut self, fuel: u64) -> (r: Result<Expr, VeonError>)
        requires
            wf_tokens(old(self).tokens@),
            old(self).current < old(self).tokens@.len(),
        ensures
            final(self).tokens == old(self).tokens,
            final(self).current < final(self).tokens@.len(),
            expr_res_matches(
                sp_factor(old(self).tokens@, old(self).current as int, fuel as nat),
                r,
                final(self).current as int,
            ),
        decreases fuel,
    {
        if fuel == 0 {
            return Err(Self::budget_error());
        }
        let ghost toks = self.tokens@;
        let mut expr = match self.unary(fuel - 1) {
            Ok(e) => e,
            Err(e) => {
                return Err(e);
            }
        };
        let ghost whole = sp_factor_rest(
            toks,
            expr_view(expr),
            self.current as int,
            (fuel - 1) as nat,
        );
        let mut f: u64 = fuel - 1;
        loop
            invariant
                self.tokens == old(self).tokens,
                self.tokens@ == toks,
                self.current < toks.len(),
                f < fuel,
                whole == sp_factor_rest(toks, expr_view(expr), self.current as int, f as nat),
            decreases f,
        {
            if f == 0 {
                return Err(Self::budget_error());
            }
            if !(self.check(TokenType::Star) || self.check(TokenType::Slash) || self.check(
                TokenType::Modulo,
            )) {
                break;
            }
            let operator = self.peek_tty();
            self.advance();
            let right = match self.unary(f - 1) {
                Ok(e) => e,
                Err(e) => {
                    return Err(e);
                }
            };
            expr = Expr::Binary { left: Box::new(expr), operator, right: Box::new(right) };
            f = f - 1;
        }
        Ok(expr)
    }

    /// Parses a unary expression, as [`sp_unary`] says.
    fn unary(&mut self, fuel: u64) -> (r: Result<Expr, VeonError>)
        requires
            wf_tokens(old(self).tokens@),
            old(self).current < old(self).tokens@.len(),
        ensures
            final(self).tokens == old(self).tokens,
            final(self).current < final(self).tokens@.len(),
            expr_res_matches(
                sp_unary(old(self).tokens@, old(self).current as int, fuel as nat),
                r,
                final(self).current as int,
            ),
        decreases fuel,
    {
        if fuel == 0 {
            return Err(Self::budget_error());
        }
        if self.check(TokenType::Not) || self.check(TokenType::Minus) {
            let operator = self.peek_tty();
            self.advance();
            match self.unary(fuel - 1) {
                Ok(right) => Ok(Expr::Unary { operator, right: Box::new(right) }),
                Err(e) => Err(e),
            }
        } else {
            self.call(fuel - 1)
        }
    }

    /// Parses a call/index/property chain, as [`sp_call`] says.
    #[verifier::loop_isolation(false)]
    #[verifier::rlimit(100)]
    fn call(&mut self, fuel: u64) -> (r: Result<Expr, VeonError>)
        requires
            wf_tokens(old(self).tokens@),
            old(self).current < old(self).tokens@.len(),
        ensures
            final(self).tokens == old(self).tokens,
            final(self).current < final(self).tokens@.len(),
            expr_res_matches(
                sp_call(old(self).tokens@, old(self).current as int, fuel as nat),
                r,
                final(self).current as int,
            ),
        decreases fuel,
    {
        if fuel == 0 {
            return Err(Self::budget_error());
        }
        let ghost toks = self.tokens@;
        let mut expr = match self.primary(fuel - 1) {
            Ok(e) => e,
            Err(e) => {
                return Err(e);
            }
        };
        let ghost whole = sp_call_rest(
            toks,
            expr_view(expr),
            self.current as int,
            (fuel - 1) as nat,
        );
        let mut f: u64 = fuel - 1;
        loop
            invariant
                self.tokens == old(self).tokens,
                self.tokens@ == toks,
                self.current < toks.len(),
                f < fuel,
                whole == sp_call_rest(toks, expr_view(expr), self.current as int, f as nat),
            decreases f,
        {
            if f == 0 {
                return Err(Self::budget_error());
            }
            if self.matches(TokenType::LeftParen) {
                let ghost astart = self.current as int;
                let mut arguments: Vec<Expr> = Vec::new();
                if !self.check(TokenType::RightParen) {
                    let ghost awhole = sp_args(toks, astart, (f - 1) as nat);
                    let mut af: u64 = f - 1;
                    let mut adone: bool = false;
                    proof {
                        lemma_pres_cons_init(awhole);
                        assert(exprs_view(arguments@) =~= Seq::<ExprV>::empty());
                    }
                    while !adone
                        invariant
                            self.tokens == old(self).tokens,
                            self.tokens@ == toks,
                            self.current < toks.len(),
                            af < fuel,
                            (if adone {
                                awhole == (PRes::Found {
                                    v: exprs_view(arguments@),
                                    next: self.current as int,
                                })
                            } else {
                                pres_cons(
                                    awhole,
                                    exprs_view(arguments@),
                                    sp_args(toks, self.current as int, af as nat),
                                )
                            }),
                        decreases af,
                    {
                        if af == 0 {
                            return Err(Self::budget_error());
                        }
                        let ghost prefix = exprs_view(arguments@);
                        let ghost cur = self.current as int;
                        let a = match self.expression(af - 1) {
                            Ok(e) => e,
                            Err(e) => {
                                return Err(e);
                            }
                        };
                        let more = self.matches(TokenType::Comma);
                        proof {
                            lemma_exprs_view_push(arguments@, a);
                        }
                        if more {
                            proof {
                                assert(sp_args(toks, cur, af as nat) == cons_step(
                                    expr_view(a),
                                    sp_args(toks, self.current as int, (af - 1) as nat),
                                ));
                                lemma_pres_cons_snoc(
                                    awhole,
                                    prefix,
                                    expr_view(a),
                                    sp_args(toks, self.current as int, (af - 1) as nat),
                                );
                            }
                            arguments.push(a);
                        } else {
                            proof {
                                assert(sp_args(toks, cur, af as nat) == (PRes::Found {
                                    v: seq![expr_view(a)],
                                    next: self.current as int,
                                }));
                                assert(prefix + seq![expr_view(a)] =~= prefix.push(expr_view(a)));
                            }
                            arguments.push(a);
                            adone = true;
                        }
                        af = af - 1;
                    }
                }
                match self.consume(TokenType::RightParen, "Expect ')' after arguments") {
                    Err(e) => {
                        return Err(e);
                    }
                    Ok(_) => {}
                }
                expr = Expr::Call {
                    callee: Box::new(expr),
                    paren: TokenType::RightParen,
                    arguments,
                };
                f = f - 1;
            } else if self.matches(TokenType::LeftBracket) {
                let index = match self.expression(f - 1) {
                    Ok(e) => e,
                    Err(e) => {
                        return Err(e);
                    }
                };
                match self.consume(TokenType::RightBracket, "Expect ']' after index expression") {
                    Err(e) => {
                        return Err(e);
                    }
                    Ok(_) => {}
                }
                expr = Expr::Index { array: Box::new(expr), index: Box::new(index) };
                f = f - 1;
            } else if self.matches(TokenType::Dot) {
                match self.consume(TokenType::Identifier, "Expect property name after '.'") {
                    Err(e) => {
                        return Err(e);
                    }
                    Ok(_) => {}
                }
                let name = match self.previous_identifier() {
                    Ok(n) => n,
                    Err(e) => {
                        return Err(e);
                    }
                };
                expr = Expr::Get { object: Box::new(expr), name };
                f = f - 1;
            } else {
                break;
            }
        }
        Ok(expr)
    }

    /// Parses a primary expression, as [`sp_primary`] says.
    #[verifier::loop_isolation(false)]
    #[verifier::rlimit(50)]
    fn primary(&mut self, fuel: u64) -> (r: Result<Expr, VeonError>)
        requires
            wf_tokens(old(self).tokens@),
            old(self).current < old(self).tokens@.len(),
        ensures
            final(self).tokens == old(self).tokens,
            final(self).current < final(self).tokens@.len(),
            expr_res_matches(
                sp_primary(old(self).tokens@, old(self).current as int, fuel as nat),
                r,
                final(self).current as int,
            ),
        decreases fuel,
    {
        if fuel == 0 {
            return Err(Self::budget_error());
        }
        let ghost toks = self.tokens@;
        if self.matches(TokenType::Boolean) {
            return match &self.tokens[self.current - 1].value {
                Value::Boolean(b) => Ok(Expr::Literal(Value::Boolean(*b))),
                _ => Err(Self::error("Expected expression")),
            };
        }
        if self.matches(TokenType::Number) {
            return match &self.tokens[self.current - 1].value {
                Value::Number(n) => Ok(Expr::Literal(Value::Number(*n))),
                _ => Err(Self::error("Expected expression")),
            };
        }
        if self.matches(TokenType::String) {
            return match &self.tokens[self.current - 1].value {
                Value::String(s) => Ok(Expr::Literal(Value::String(s.clone()))),
                _ => Err(Self::error("Expected expression")),
            };
        }
        if self.matches(TokenType::Null) {
            return Ok(Expr::Literal(Value::Null));
        }
        if self.matches(TokenType::Identifier) {
            return match &self.tokens[self.current - 1].value {
                Value::String(name) => Ok(Expr::Variable(name.clone())),
                _ => Err(Self::error("Expected expression")),
            };
        }
        if self.matches(TokenType::This) {
            return Ok(Expr::This);
        }
        if self.matches(TokenType::LeftParen) {
            let expr = match self.expression(fuel - 1) {
                Ok(e) => e,
                Err(e) => {
                    return Err(e);
                }
            };
            return match self.consume(TokenType::RightParen, "Expect ')' after expression") {
                Err(e) => Err(e),
                Ok(_) => Ok(Expr::Grouping(Box::new(expr))),
            };
        }
        if self.matches(TokenType::LeftBracket) {
            let ghost estart = self.current as int;
            let mut elements: Vec<Expr> = Vec::new();
            if !self.check(TokenType::RightBracket) {
                let ghost ewhole = sp_array_elems(toks, estart, (fuel - 1) as nat);
                let mut ef: u64 = fuel - 1;
                let mut edone: bool = false;
                proof {
                    lemma_pres_cons_init(ewhole);
                    assert(exprs_view(elements@) =~= Seq::<ExprV>::empty());
                }
                while !edone
                    invariant
                        self.tokens == old(self).tokens,
                        self.tokens@ == toks,
                        self.current < toks.len(),
                        ef < fuel,
                        (if edone {
                            ewhole == (PRes::Found {
                                v: exprs_view(elements@),
                                next: self.current as int,
                            })
                        } else {
                            pres_cons(
                                ewhole,
                                exprs_view(elements@),
                                sp_array_elems(toks, self.current as int, ef as nat),
                            )
                        }),
                    decreases ef,
                {
                    if ef == 0 {
                        return Err(Self::budget_error());
                    }
                    let ghost prefix = exprs_view(elements@);
                    let ghost cur = self.current as int;
                    let a = match self.expression(ef - 1) {
                        Ok(e) => e,
                        Err(e) => {
                            return Err(e);
                        }
                    };
                    let more = self.matches(TokenType::Comma);
                    proof {
                        lemma_exprs_view_push(elements@, a);
                    }
                    if more {
                        proof {
                            assert(sp_array_elems(toks, cur, ef as nat) == cons_step(
                                expr_view(a),
                                sp_array_elems(toks, self.current as int, (ef - 1) as nat),
                            ));
                            lemma_pres_cons_snoc(
                                ewhole,
                                prefix,
                                expr_view(a),
                                sp_array_elems(toks, self.current as int, (ef - 1) as nat),
                            );
                        }
                        elements.push(a);
                    } else {
                        proof {
                            assert(sp_array_elems(toks, cur, ef as nat) == (PRes::Found {
                                v: seq![expr_view(a)],
                                next: self.current as int,
                            }));
                            assert(prefix + seq![expr_view(a)] =~= prefix.push(expr_view(a)));
                        }
                        elements.push(a);
                        edone = true;
                    }
                    ef = ef - 1;
                }
            }
            return match self.consume(TokenType::RightBracket, "Expect ']' after array literal") {
                Err(e) => Err(e),
                Ok(_) => Ok(Expr::Array(elements)),
            };
        }
        Err(Self::error("Expected expression"))
    }
}


/// Structural size of an expression, a termination measure for clones.
pub open spec fn expr_size(e: Expr) -> nat
    decreases e,
{
    match e {
        Expr::Unary { operator, right } => 1 + expr_size(*right),
        Expr::Binary { left, operator, right } => 1 + expr_size(*left) + expr_size(*right),
        Expr::Logical { left, operator, right } => 1 + expr_size(*left) + expr_size(*right),
        Expr::Grouping(inner) => 1 + expr_size(*inner),
        Expr::Assign { name, value } => 1 + expr_size(*value),
        Expr::Array(items) => 1 + exprs_size(items@),
        Expr::Index { array, index } => 1 + expr_size(*array) + expr_size(*index),
        Expr::Call { callee, paren, arguments } => 1 + expr_size(*callee) + exprs_size(arguments@),
        Expr::Get { object, name } => 1 + expr_size(*object),
        Expr::SetProp { object, name, value } => 1 + expr_size(*object) + expr_size(*value),
        _ => 1,
    }
}

/// Total structural size of an expression sequence.
pub open spec fn exprs_size(s: Seq<Expr>) -> nat
    decreases s,
{
    if s.len() == 0 {
        0
    } else {
        exprs_size(s.subrange(0, s.len() - 1)) + expr_size(s[s.len() - 1])
    }
}

/// Structural size of a statement.
pub open spec fn stmt_size(s: Stmt) -> nat
    decreases s,
{
    match s {
        Stmt::Expression(e) => 1 + expr_size(e),
        Stmt::Var { name, initializer } => 1 + (match initializer {
            Some(e) => expr_size(e),
            None => 0,
        }),
        Stmt::Block(stmts) => 1 + stmts_size(stmts@),
        Stmt::If { condition, then_branch, else_branch } => 1 + expr_size(condition) + stmt_size(
            *then_branch,
        ) + (match else_branch {
            Some(b) => stmt_size(*b),
            None => 0,
        }),
        Stmt::While { condition, body } => 1 + expr_size(condition) + stmt_size(*body),
        Stmt::Function { name, params, body } => 1 + stmts_size(body@),
        Stmt::Return(e) => 1 + (match e {
            Some(e) => expr_size(e),
            None => 0,
        }),
        Stmt::Class { name, methods } => 1 + stmts_size(methods@),
    }
}

/// Total structural size of a statement sequence.
pub open spec fn stmts_size(s: Seq<Stmt>) -> nat
    decreases s,
{
    if s.len() == 0 {
        0
    } else {
        stmts_size(s.subrange(0, s.len() - 1)) + stmt_size(s[s.len() - 1])
    }
}

/// An element weighs no more than the whole sequence.
pub proof fn lemma_exprs_size_element(s: Seq<Expr>, i: int)
    requires
        0 <= i < s.len(),
    ensures
        expr_size(s[i]) <= exprs_size(s),
    decreases s.len(),
{
    if i == s.len() - 1 {
    } else {
        lemma_exprs_size_element(s.subrange(0, s.len() - 1), i);
        assert(s.subrange(0, s.len() - 1)[i] == s[i]);
    }
}

/// An element weighs no more than the whole sequence.
pub proof fn lemma_stmts_size_element(s: Seq<Stmt>, i: int)
    requires
        0 <= i < s.len(),
    ensures
        stmt_size(s[i]) <= stmts_size(s),
    decreases s.len(),
{
    if i == s.len() - 1 {
    } else {
        lemma_stmts_size_element(s.subrange(0, s.len() - 1), i);
        assert(s.subrange(0, s.len() - 1)[i] == s[i]);
    }
}

/// Structural clone of an expression: the clone has the same view.
#[verifier::loop_isolation(false)]
pub fn clone_expr(e: &Expr) -> (r: Expr)
    ensures
        expr_view(r) == expr_view(*e),
    decreases expr_size(*e), 0int,
{
    match e {
        Expr::Literal(v) => Expr::Literal(crate::token::clone_value(v)),
        Expr::Unary { operator, right } => Expr::Unary {
            operator: *operator,
            right: Box::new(clone_expr(right)),
        },
        Expr::Binary { left, operator, right } => Expr::Binary {
            left: Box::new(clone_expr(left)),
            operator: *operator,
            right: Box::new(clone_expr(right)),
        },
        Expr::Logical { left, operator, right } => Expr::Logical {
            left: Box::new(clone_expr(left)),
            operator: *operator,
            right: Box::new(clone_expr(right)),
        },
        Expr::Grouping(inner) => Expr::Grouping(Box::new(clone_expr(inner))),
        Expr::Variable(name) => Expr::Variable(name.clone()),
        Expr::Assign { name, value } => Expr::Assign {
            name: name.clone(),
            value: Box::new(clone_expr(value)),
        },
        Expr::Array(items) => Expr::Array(clone_exprs(items)),
        Expr::Index { array, index } => Expr::Index {
            array: Box::new(clone_expr(array)),
            index: Box::new(clone_expr(index)),
        },
        Expr::Call { callee, paren, arguments } => Expr::Call {
            callee: Box::new(clone_expr(callee)),
            paren: *paren,
            arguments: clone_exprs(arguments),
        },
        Expr::Get { object, name } => Expr::Get {
            object: Box::new(clone_expr(object)),
            name: name.clone(),
        },
        Expr::SetProp { object, name, value } => Expr::SetProp {
            object: Box::new(clone_expr(object)),
            name: name.clone(),
            value: Box::new(clone_expr(value)),
        },
        Expr::This => Expr::This,
    }
}

/// Structural clone of an expression list.
#[verifier::loop_isolation(false)]
pub fn clone_exprs(items: &Vec<Expr>) -> (r: Vec<Expr>)
    ensures
        exprs_view(r@) == exprs_view(items@),
    decreases exprs_size(items@), 1int,
{
    let mut out: Vec<Expr> = Vec::new();
    let mut j: usize = 0;
    while j < items.len()
        invariant
            j <= items.len(),
            out@.len() == j as int,
            forall|k: int| 0 <= k < j ==> expr_view(out@[k]) == expr_view(#[trigger] items@[k]),
        decreases items.len() - j,
    {
        proof {
            lemma_exprs_size_element(items@, j as int);
        }
        let c = clone_expr(&items[j]);
        out.push(c);
        j = j + 1;
    }
    proof {
        lemma_exprs_view(out@);
        lemma_exprs_view(items@);
        assert(exprs_view(out@) =~= exprs_view(items@));
    }
    out
}

/// Structural clone of a statement: the clone has the same view.
#[verifier::loop_isolation(false)]
pub fn clone_stmt(s: &Stmt) -> (r: Stmt)
    ensures
        stmt_view(r) == stmt_view(*s),
    decreases stmt_size(*s), 0int,
{
    match s {
        Stmt::Expression(e) => Stmt::Expression(clone_expr(e)),
        Stmt::Var { name, initializer } => Stmt::Var {
            name: name.clone(),
            initializer: match initializer {
                Some(e) => Some(clone_expr(e)),
                None => None,
            },
        },
        Stmt::Block(stmts) => Stmt::Block(clone_stmts(stmts)),
        Stmt::If { condition, then_branch, else_branch } => Stmt::If {
            condition: clone_expr(condition),
            then_branch: Box::new(clone_stmt(then_branch)),
            else_branch: match else_branch {
                Some(b) => Some(Box::new(clone_stmt(b))),
                None => None,
            },
        },
        Stmt::While { condition, body } => Stmt::While {
            condition: clone_expr(condition),
            body: Box::new(clone_stmt(body)),
        },
        Stmt::Function { name, params, body } => Stmt::Function {
            name: name.clone(),
            params: clone_strings(params),
            body: clone_stmts(body),
        },
        Stmt::Return(e) => Stmt::Return(
            match e {
                Some(e) => Some(clone_expr(e)),
                None => None,
            },
        ),
        Stmt::Class { name, methods } => Stmt::Class {
            name: name.clone(),
            methods: clone_stmts(methods),
        },
    }
}

/// Structural clone of a statement list.
#[verifier::loop_isolation(false)]
pub fn clone_stmts(stmts: &Vec<Stmt>) -> (r: Vec<Stmt>)
    ensures
        stmts_view(r@) == stmts_view(stmts@),
    decreases stmts_size(stmts@), 1int,
{
    let mut out: Vec<Stmt> = Vec::new();
    let mut j: usize = 0;
    while j < stmts.len()
        invariant
            j <= stmts.len(),
            out@.len() == j as int,
            forall|k: int| 0 <= k < j ==> stmt_view(out@[k]) == stmt_view(#[trigger] stmts@[k]),
        decreases stmts.len() - j,
    {
        proof {
            lemma_stmts_size_element(stmts@, j as int);
        }
        let c = clone_stmt(&stmts[j]);
        out.push(c);
        j = j + 1;
    }
    proof {
        lemma_stmts_view(out@);
        lemma_stmts_view(stmts@);
        assert(stmts_view(out@) =~= stmts_view(stmts@));
    }
    out
}

/// Clone of a list of names.
#[verifier::loop_isolation(false)]
pub fn clone_strings(items: &Vec<String>) -> (r: Vec<String>)
    ensures
        strs_view(r@) == strs_view(items@),
{
    let mut out: Vec<String> = Vec::new();
    let mut j: usize = 0;
    while j < items.len()
        invariant
            j <= items.len(),
            out@.len() == j as int,
            forall|k: int| 0 <= k < j ==> out@[k]@ == #[trigger] items@[k]@,
        decreases items.len() - j,
    {
        let c = items[j].clone();
        out.push(c);
        j = j + 1;
    }
    proof {
        assert(strs_view(out@) =~= strs_view(items@));
    }
    out
}

} // verus!
