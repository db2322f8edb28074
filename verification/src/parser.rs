//! The parser: tokens to AST, by Pratt (operator-precedence) parsing
//! for expressions and recursive descent for statements and blocks.
//!
//! The executable [`Parser`] is proved equal to a spec-level parser
//! ([`spec_parse_program`] and its helpers): pure functions from the
//! token sequence, a position, the errors so far and a recursion
//! budget to the node produced, the new position and the new errors.
//! The budget only bounds recursion depth; the parser hands itself a
//! budget larger than any input can consume, so the budget-exhausted
//! branch exists to make the functions total, and every run is a pure
//! function of the tokens alone.
//!
//! Malformed input never faults: it yields `None` for the subtree and
//! a message in the error list, and callers propagate the absence.

use vstd::prelude::*;
use vstd::string::StringExecFns;
use crate::ast::BlockStatement;
use crate::ast::Boolean;
use crate::ast::CallExpression;
use crate::ast::ExprV;
use crate::ast::Expression;
use crate::ast::ExpressionStmt;
use crate::ast::FunctionLiteral;
use crate::ast::Identifier;
use crate::ast::InfixExpression;
use crate::ast::IntegerLiteral;
use crate::ast::IfExpression;
use crate::ast::LetStatement;
use crate::ast::PrefixExpression;
use crate::ast::Program;
use crate::ast::ReturnStatement;
use crate::ast::Statement;
use crate::ast::StmtV;
use crate::ast::lemma_stmts_view_push;
use crate::ast::stmts_view;
use crate::lexer::Lexer;
use crate::lexer::Token;
use crate::lexer::TokenType;
use crate::lexer::TokenV;
use crate::lexer::lemma_next_token_bounds;
use crate::lexer::spec_next_token;

verus! {

/// The whole token stream that a lexer state still yields, ending with
/// the end-of-input token.
pub open spec fn spec_tokens(input: Seq<u8>, pos: int) -> Seq<TokenV>
    decreases input.len() - pos,
    when 0 <= pos <= input.len()
    via spec_tokens_decreases
{
    let step = spec_next_token(input, pos);
    if step.tok.tk_type == TokenType::Eof {
        seq![step.tok]
    } else {
        seq![step.tok] + spec_tokens(input, step.pos)
    }
}

#[via_fn]
proof fn spec_tokens_decreases(input: Seq<u8>, pos: int) {
    lemma_next_token_bounds(input, pos);
}

/// The binding strength of each infix operator, strictly ordered.
#[derive(Debug, PartialEq, Eq, Copy, Clone, Structural)]
pub enum Precedence {
    Lowest,
    Equals,
    LessGreater,
    Sum,
    Product,
    Prefix,
    Call,
}

pub open spec fn prec_val(p: Precedence) -> int {
    match p {
        Precedence::Lowest => 0,
        Precedence::Equals => 1,
        Precedence::LessGreater => 2,
        Precedence::Sum => 3,
        Precedence::Product => 4,
        Precedence::Prefix => 5,
        Precedence::Call => 6,
    }
}

/// Whether `a` binds strictly less tightly than `b`.
pub open spec fn prec_lt(a: Precedence, b: Precedence) -> bool {
    prec_val(a) < prec_val(b)
}

/// The precedence table: equality operators bind at `Equals`,
/// comparisons at `LessGreater`, additive operators at `Sum`,
/// multiplicative ones at `Product`, and a call's `(` at `Call`; every
/// other token binds at `Lowest`.
pub open spec fn prec_of(t: TokenType) -> Precedence {
    match t {
        TokenType::Eq => Precedence::Equals,
        TokenType::NotEq => Precedence::Equals,
        TokenType::Lt => Precedence::LessGreater,
        TokenType::Gt => Precedence::LessGreater,
        TokenType::Plus => Precedence::Sum,
        TokenType::Minus => Precedence::Sum,
        TokenType::Slash => Precedence::Product,
        TokenType::Asterisk => Precedence::Product,
        TokenType::Lparen => Precedence::Call,
        _ => Precedence::Lowest,
    }
}

fn prec_value(p: Precedence) -> (v: u8)
    ensures
        v as int == prec_val(p),
{
    match p {
        Precedence::Lowest => 0,
        Precedence::Equals => 1,
        Precedence::LessGreater => 2,
        Precedence::Sum => 3,
        Precedence::Product => 4,
        Precedence::Prefix => 5,
        Precedence::Call => 6,
    }
}

fn precedence_of(t: TokenType) -> (p: Precedence)
    ensures
        p == prec_of(t),
{
    match t {
        TokenType::Eq => Precedence::Equals,
        TokenType::NotEq => Precedence::Equals,
        TokenType::Lt => Precedence::LessGreater,
        TokenType::Gt => Precedence::LessGreater,
        TokenType::Plus => Precedence::Sum,
        TokenType::Minus => Precedence::Sum,
        TokenType::Slash => Precedence::Product,
        TokenType::Asterisk => Precedence::Product,
        TokenType::Lparen => Precedence::Call,
        _ => Precedence::Lowest,
    }
}

/// The token at `pos`; past the end of the stream, the end-of-input
/// token.
pub open spec fn tok_at(toks: Seq<TokenV>, pos: int) -> TokenV {
    if 0 <= pos < toks.len() {
        toks[pos]
    } else {
        TokenV { tk_type: TokenType::Eof, literal: Seq::empty() }
    }
}

/// Advancing by one token; the position never leaves the stream.
pub open spec fn next_pos(toks: Seq<TokenV>, pos: int) -> int {
    if pos + 1 < toks.len() {
        pos + 1
    } else {
        pos
    }
}

/// The name of a token type, as error messages print it.
pub open spec fn tt_name(t: TokenType) -> Seq<char> {
    match t {
        TokenType::Illegal => "Illegal"@,
        TokenType::Eof => "Eof"@,
        TokenType::Ident => "Ident"@,
        TokenType::Int => "Int"@,
        TokenType::Assign => "Assign"@,
        TokenType::Plus => "Plus"@,
        TokenType::Minus => "Minus"@,
        TokenType::Bang => "Bang"@,
        TokenType::Asterisk => "Asterisk"@,
        TokenType::Slash => "Slash"@,
        TokenType::Lt => "Lt"@,
        TokenType::Gt => "Gt"@,
        TokenType::Comma => "Comma"@,
        TokenType::Semicolon => "Semicolon"@,
        TokenType::Lparen => "Lparen"@,
        TokenType::Rparen => "Rparen"@,
        TokenType::Lbrace => "Lbrace"@,
        TokenType::Rbrace => "Rbrace"@,
        TokenType::Function => "Function"@,
        TokenType::Let => "Let"@,
        TokenType::If => "If"@,
        TokenType::Else => "Else"@,
        TokenType::True => "True"@,
        TokenType::False => "False"@,
        TokenType::Return => "Return"@,
        TokenType::Eq => "Eq"@,
        TokenType::NotEq => "NotEq"@,
    }
}

fn token_type_name(t: TokenType) -> (s: String)
    ensures
        s@ == tt_name(t),
{
    match t {
        TokenType::Illegal => String::from_str("Illegal"),
        TokenType::Eof => String::from_str("Eof"),
        TokenType::Ident => String::from_str("Ident"),
        TokenType::Int => String::from_str("Int"),
        TokenType::Assign => String::from_str("Assign"),
        TokenType::Plus => String::from_str("Plus"),
        TokenType::Minus => String::from_str("Minus"),
        TokenType::Bang => String::from_str("Bang"),
        TokenType::Asterisk => String::from_str("Asterisk"),
        TokenType::Slash => String::from_str("Slash"),
        TokenType::Lt => String::from_str("Lt"),
        TokenType::Gt => String::from_str("Gt"),
        TokenType::Comma => String::from_str("Comma"),
        TokenType::Semicolon => String::from_str("Semicolon"),
        TokenType::Lparen => String::from_str("Lparen"),
        TokenType::Rparen => String::from_str("Rparen"),
        TokenType::Lbrace => String::from_str("Lbrace"),
        TokenType::Rbrace => String::from_str("Rbrace"),
        TokenType::Function => String::from_str("Function"),
        TokenType::Let => String::from_str("Let"),
        TokenType::If => String::from_str("If"),
        TokenType::Else => String::from_str("Else"),
        TokenType::True => String::from_str("True"),
        TokenType::False => String::from_str("False"),
        TokenType::Return => String::from_str("Return"),
        TokenType::Eq => String::from_str("Eq"),
        TokenType::NotEq => String::from_str("NotEq"),
    }
}

/// The message recorded when the next token is not the expected one.
pub open spec fn peek_error_msg(expected: TokenType, got: TokenType) -> Seq<char> {
    "expected next token to be "@ + tt_name(expected) + ", got "@ + tt_name(got) + " instead"@
}

/// The message recorded when no prefix rule handles a token.
pub open spec fn no_prefix_msg(t: TokenType) -> Seq<char> {
    "no prefix parse function for "@ + tt_name(t) + " found"@
}

/// The message recorded when an integer literal does not fit.
pub open spec fn int_error_msg(lit: Seq<char>) -> Seq<char> {
    "could not parse "@ + lit + " as integer"@
}

/// The message recorded when the recursion budget runs out.
pub open spec fn depth_msg() -> Seq<char> {
    "expression nesting is too deep"@
}

/// A decimal digit character.
pub open spec fn is_digit_char(c: char) -> bool {
    '0' <= c && c <= '9'
}

/// The value of a digit string, most significant digit first.
pub open spec fn digits_val(s: Seq<char>) -> int
    decreases s.len(),
{
    if s.len() == 0 {
        0
    } else {
        digits_val(s.drop_last()) * 10 + (s.last() as int - 48)
    }
}

pub open spec fn all_digits(s: Seq<char>) -> bool {
    s.len() > 0 && forall|i: int| 0 <= i < s.len() ==> is_digit_char(s[i])
}

/// What parsing an integer literal yields: its value when the text is
/// all digits and fits a 64-bit signed integer, nothing otherwise.
pub open spec fn spec_parse_i64(s: Seq<char>) -> Option<i64> {
    if all_digits(s) && digits_val(s) <= i64::MAX {
        Some(digits_val(s) as i64)
    } else {
        None
    }
}

/// Result of checking the next token: whether it matched (and was
/// consumed), the new position, and the errors after the check.
pub struct ExpectRes {
    pub ok: bool,
    pub pos: int,
    pub errs: Seq<Seq<char>>,
}

pub struct ExprRes {
    pub expr: Option<ExprV>,
    pub pos: int,
    pub errs: Seq<Seq<char>>,
}

pub struct StmtRes {
    pub stmt: Option<StmtV>,
    pub pos: int,
    pub errs: Seq<Seq<char>>,
}

pub struct BlockRes {
    pub stmts: Seq<StmtV>,
    pub pos: int,
    pub errs: Seq<Seq<char>>,
}

pub struct ParamsRes {
    pub params: Seq<Seq<char>>,
    pub pos: int,
    pub errs: Seq<Seq<char>>,
}

pub struct ArgsRes {
    pub args: Seq<ExprV>,
    pub pos: int,
    pub errs: Seq<Seq<char>>,
}

pub struct ProgRes {
    pub stmts: Seq<StmtV>,
    pub pos: int,
    pub errs: Seq<Seq<char>>,
}

/// If the next token has type `t`, consume it; otherwise record an
/// error and stay.
pub open spec fn spec_expect(toks: Seq<TokenV>, pos: int, errs: Seq<Seq<char>>, t: TokenType) -> ExpectRes {
    let peek = tok_at(toks, pos + 1);
    if peek.tk_type == t {
        ExpectRes { ok: true, pos: next_pos(toks, pos), errs }
    } else {
        ExpectRes { ok: false, pos, errs: errs.push(peek_error_msg(t, peek.tk_type)) }
    }
}

/// The position after the `let` statement's trailing tokens: everything
/// up to and including nothing, stopping at a semicolon or the end.
pub open spec fn skip_to_semicolon(toks: Seq<TokenV>, pos: int) -> int
    decreases toks.len() - pos,
{
    if 0 <= pos && pos + 1 < toks.len() && tok_at(toks, pos).tk_type != TokenType::Semicolon
        && tok_at(toks, pos).tk_type != TokenType::Eof {
        skip_to_semicolon(toks, pos + 1)
    } else {
        pos
    }
}

/// Parses the whole program: statements until the end of input,
/// appended to `acc`.
pub open spec fn spec_parse_program(
    toks: Seq<TokenV>,
    pos: int,
    errs: Seq<Seq<char>>,
    acc: Seq<StmtV>,
    fuel: nat,
) -> ProgRes
    decreases fuel,
{
    if fuel == 0 {
        ProgRes { stmts: acc, pos, errs: errs.push(depth_msg()) }
    } else if tok_at(toks, pos).tk_type == TokenType::Eof {
        ProgRes { stmts: acc, pos, errs }
    } else {
        let r = spec_parse_statement(toks, pos, errs, (fuel - 1) as nat);
        let acc2 = match r.stmt {
            Some(s) => acc.push(s),
            None => acc,
        };
        spec_parse_program(toks, next_pos(toks, r.pos), r.errs, acc2, (fuel - 1) as nat)
    }
}

/// Parses one statement: `let`, `return`, or an expression statement.
pub open spec fn spec_parse_statement(
    toks: Seq<TokenV>,
    pos: int,
    errs: Seq<Seq<char>>,
    fuel: nat,
) -> StmtRes
    decreases fuel,
{
    if fuel == 0 {
        StmtRes { stmt: None, pos, errs: errs.push(depth_msg()) }
    } else {
        match tok_at(toks, pos).tk_type {
            TokenType::Let => spec_parse_let(toks, pos, errs, (fuel - 1) as nat),
            TokenType::Return => spec_parse_return(toks, pos, errs, (fuel - 1) as nat),
            _ => spec_parse_expression_statement(toks, pos, errs, (fuel - 1) as nat),
        }
    }
}

/// Parses `let <ident> = <expr>;`, then skips to the semicolon.
pub open spec fn spec_parse_let(toks: Seq<TokenV>, pos: int, errs: Seq<Seq<char>>, fuel: nat) -> StmtRes
    decreases fuel,
{
    if fuel == 0 {
        StmtRes { stmt: None, pos, errs: errs.push(depth_msg()) }
    } else {
        let e1 = spec_expect(toks, pos, errs, TokenType::Ident);
        if !e1.ok {
            StmtRes { stmt: None, pos: e1.pos, errs: e1.errs }
        } else {
            let name = tok_at(toks, e1.pos).literal;
            let e2 = spec_expect(toks, e1.pos, e1.errs, TokenType::Assign);
            if !e2.ok {
                StmtRes { stmt: None, pos: e2.pos, errs: e2.errs }
            } else {
                let pos3 = next_pos(toks, e2.pos);
                let v = spec_parse_expression(toks, pos3, e2.errs, Precedence::Lowest, (fuel - 1) as nat);
                match v.expr {
                    None => StmtRes { stmt: None, pos: v.pos, errs: v.errs },
                    Some(value) => StmtRes {
                        stmt: Some(StmtV::Let { name, value }),
                        pos: skip_to_semicolon(toks, v.pos),
                        errs: v.errs,
                    },
                }
            }
        }
    }
}

/// Parses `return <expr>;`.
pub open spec fn spec_parse_return(toks: Seq<TokenV>, pos: int, errs: Seq<Seq<char>>, fuel: nat) -> StmtRes
    decreases fuel,
{
    if fuel == 0 {
        StmtRes { stmt: None, pos, errs: errs.push(depth_msg()) }
    } else {
        let pos1 = next_pos(toks, pos);
        let v = spec_parse_expression(toks, pos1, errs, Precedence::Lowest, (fuel - 1) as nat);
        match v.expr {
            None => StmtRes { stmt: None, pos: v.pos, errs: v.errs },
            Some(value) => {
                let pos2 = if tok_at(toks, v.pos + 1).tk_type == TokenType::Semicolon {
                    next_pos(toks, v.pos)
                } else {
                    v.pos
                };
                StmtRes { stmt: Some(StmtV::Ret { value }), pos: pos2, errs: v.errs }
            },
        }
    }
}

/// Parses a bare expression as a statement; a trailing semicolon is
/// consumed.
pub open spec fn spec_parse_expression_statement(
    toks: Seq<TokenV>,
    pos: int,
    errs: Seq<Seq<char>>,
    fuel: nat,
) -> StmtRes
    decreases fuel,
{
    if fuel == 0 {
        StmtRes { stmt: None, pos, errs: errs.push(depth_msg()) }
    } else {
        let v = spec_parse_expression(toks, pos, errs, Precedence::Lowest, (fuel - 1) as nat);
        match v.expr {
            None => StmtRes { stmt: None, pos: v.pos, errs: v.errs },
            Some(value) => {
                let pos2 = if tok_at(toks, v.pos + 1).tk_type == TokenType::Semicolon {
                    next_pos(toks, v.pos)
                } else {
                    v.pos
                };
                StmtRes { stmt: Some(StmtV::Expr { value }), pos: pos2, errs: v.errs }
            },
        }
    }
}

/// Pratt parsing: a prefix rule for the current token gives the left
/// operand, then infix and call continuations are absorbed while the
/// next operator binds more tightly than `min_prec`. Passing each
/// operator's own precedence down is what makes `a - b - c` associate
/// left and `a + b * c` nest the product.
pub open spec fn spec_parse_expression(
    toks: Seq<TokenV>,
    pos: int,
    errs: Seq<Seq<char>>,
    min_prec: Precedence,
    fuel: nat,
) -> ExprRes
    decreases fuel,
{
    if fuel == 0 {
        ExprRes { expr: None, pos, errs: errs.push(depth_msg()) }
    } else {
        let cur = tok_at(toks, pos);
        let prefix = match cur.tk_type {
            TokenType::Ident => ExprRes { expr: Some(ExprV::Ident { name: cur.literal }), pos, errs },
            TokenType::Int => match spec_parse_i64(cur.literal) {
                Some(v) => ExprRes {
                    expr: Some(ExprV::IntLit { lit: cur.literal, value: v }),
                    pos,
                    errs,
                },
                None => ExprRes { expr: None, pos, errs: errs.push(int_error_msg(cur.literal)) },
            },
            TokenType::Bang => spec_parse_prefix(toks, pos, errs, (fuel - 1) as nat),
            TokenType::Minus => spec_parse_prefix(toks, pos, errs, (fuel - 1) as nat),
            TokenType::True => ExprRes { expr: Some(ExprV::BoolLit { value: true }), pos, errs },
            TokenType::False => ExprRes { expr: Some(ExprV::BoolLit { value: false }), pos, errs },
            TokenType::Lparen => spec_parse_grouped(toks, pos, errs, (fuel - 1) as nat),
            TokenType::If => spec_parse_if(toks, pos, errs, (fuel - 1) as nat),
            TokenType::Function => spec_parse_function(toks, pos, errs, (fuel - 1) as nat),
            _ => ExprRes { expr: None, pos, errs: errs.push(no_prefix_msg(cur.tk_type)) },
        };
        match prefix.expr {
            None => prefix,
            Some(left) => spec_infix_loop(
                toks,
                prefix.pos,
                prefix.errs,
                left,
                min_prec,
                (fuel - 1) as nat,
            ),
        }
    }
}

/// The Pratt loop: while the peeked token is an infix or call operator
/// binding more tightly than `min_prec`, absorb it into `left`.
pub open spec fn spec_infix_loop(
    toks: Seq<TokenV>,
    pos: int,
    errs: Seq<Seq<char>>,
    left: ExprV,
    min_prec: Precedence,
    fuel: nat,
) -> ExprRes
    decreases fuel,
{
    if fuel == 0 {
        ExprRes { expr: None, pos, errs: errs.push(depth_msg()) }
    } else {
        let peek = tok_at(toks, pos + 1);
        if peek.tk_type == TokenType::Semicolon || !prec_lt(min_prec, prec_of(peek.tk_type)) {
            ExprRes { expr: Some(left), pos, errs }
        } else {
            match peek.tk_type {
                TokenType::Plus | TokenType::Minus | TokenType::Slash | TokenType::Asterisk
                    | TokenType::Eq | TokenType::NotEq | TokenType::Lt | TokenType::Gt => {
                    let pos1 = next_pos(toks, pos);
                    let r = spec_parse_infix(toks, pos1, errs, left, (fuel - 1) as nat);
                    match r.expr {
                        None => ExprRes { expr: None, pos: r.pos, errs: r.errs },
                        Some(e2) => spec_infix_loop(
                            toks,
                            r.pos,
                            r.errs,
                            e2,
                            min_prec,
                            (fuel - 1) as nat,
                        ),
                    }
                },
                TokenType::Lparen => {
                    let pos1 = next_pos(toks, pos);
                    let r = spec_parse_call(toks, pos1, errs, left, (fuel - 1) as nat);
                    match r.expr {
                        None => ExprRes { expr: None, pos: r.pos, errs: r.errs },
                        Some(e2) => spec_infix_loop(
                            toks,
                            r.pos,
                            r.errs,
                            e2,
                            min_prec,
                            (fuel - 1) as nat,
                        ),
                    }
                },
                _ => ExprRes { expr: Some(left), pos, errs },
            }
        }
    }
}

/// Parses the right operand of the infix operator at the current
/// position, passing the operator's own precedence as the new floor.
pub open spec fn spec_parse_infix(
    toks: Seq<TokenV>,
    pos: int,
    errs: Seq<Seq<char>>,
    left: ExprV,
    fuel: nat,
) -> ExprRes
    decreases fuel,
{
    if fuel == 0 {
        ExprRes { expr: None, pos, errs: errs.push(depth_msg()) }
    } else {
        let cur = tok_at(toks, pos);
        let pos1 = next_pos(toks, pos);
        let r = spec_parse_expression(toks, pos1, errs, prec_of(cur.tk_type), (fuel - 1) as nat);
        match r.expr {
            None => ExprRes { expr: None, pos: r.pos, errs: r.errs },
            Some(right) => ExprRes {
                expr: Some(ExprV::Infix {
                    left: Box::new(left),
                    op: cur.literal,
                    right: Box::new(right),
                }),
                pos: r.pos,
                errs: r.errs,
            },
        }
    }
}

/// Parses a unary `!` or `-`: the operand binds at `Prefix` strength.
pub open spec fn spec_parse_prefix(toks: Seq<TokenV>, pos: int, errs: Seq<Seq<char>>, fuel: nat) -> ExprRes
    decreases fuel,
{
    if fuel == 0 {
        ExprRes { expr: None, pos, errs: errs.push(depth_msg()) }
    } else {
        let cur = tok_at(toks, pos);
        let pos1 = next_pos(toks, pos);
        let r = spec_parse_expression(toks, pos1, errs, Precedence::Prefix, (fuel - 1) as nat);
        match r.expr {
            None => ExprRes { expr: None, pos: r.pos, errs: r.errs },
            Some(right) => ExprRes {
                expr: Some(ExprV::Prefix { op: cur.literal, right: Box::new(right) }),
                pos: r.pos,
                errs: r.errs,
            },
        }
    }
}

/// Parses `( <expr> )`: re-enters the expression parser at the lowest
/// floor and requires the closing parenthesis.
pub open spec fn spec_parse_grouped(toks: Seq<TokenV>, pos: int, errs: Seq<Seq<char>>, fuel: nat) -> ExprRes
    decreases fuel,
{
    if fuel == 0 {
        ExprRes { expr: None, pos, errs: errs.push(depth_msg()) }
    } else {
        let pos1 = next_pos(toks, pos);
        let r = spec_parse_expression(toks, pos1, errs, Precedence::Lowest, (fuel - 1) as nat);
        let e = spec_expect(toks, r.pos, r.errs, TokenType::Rparen);
        if !e.ok {
            ExprRes { expr: None, pos: e.pos, errs: e.errs }
        } else {
            ExprRes { expr: r.expr, pos: e.pos, errs: e.errs }
        }
    }
}

/// Parses `if ( <expr> ) { ... }` with an optional `else { ... }`.
pub open spec fn spec_parse_if(toks: Seq<TokenV>, pos: int, errs: Seq<Seq<char>>, fuel: nat) -> ExprRes
    decreases fuel,
{
    if fuel == 0 {
        ExprRes { expr: None, pos, errs: errs.push(depth_msg()) }
    } else {
        let e1 = spec_expect(toks, pos, errs, TokenType::Lparen);
        if !e1.ok {
            ExprRes { expr: None, pos: e1.pos, errs: e1.errs }
        } else {
            let pos2 = next_pos(toks, e1.pos);
            let c = spec_parse_expression(toks, pos2, e1.errs, Precedence::Lowest, (fuel - 1) as nat);
            match c.expr {
                None => ExprRes { expr: None, pos: c.pos, errs: c.errs },
                Some(cond) => {
                    let e2 = spec_expect(toks, c.pos, c.errs, TokenType::Rparen);
                    if !e2.ok {
                        ExprRes { expr: None, pos: e2.pos, errs: e2.errs }
                    } else {
                        let e3 = spec_expect(toks, e2.pos, e2.errs, TokenType::Lbrace);
                        if !e3.ok {
                            ExprRes { expr: None, pos: e3.pos, errs: e3.errs }
                        } else {
                            let b = spec_parse_block(toks, e3.pos, e3.errs, (fuel - 1) as nat);
                            if tok_at(toks, b.pos + 1).tk_type == TokenType::Else {
                                let pos4 = next_pos(toks, b.pos);
                                let e4 = spec_expect(toks, pos4, b.errs, TokenType::Lbrace);
                                if !e4.ok {
                                    ExprRes { expr: None, pos: e4.pos, errs: e4.errs }
                                } else {
                                    let b2 = spec_parse_block(toks, e4.pos, e4.errs, (fuel - 1) as nat);
                                    ExprRes {
                                        expr: Some(ExprV::If {
                                            cond: Box::new(cond),
                                            cons: b.stmts,
                                            alt: Some(b2.stmts),
                                        }),
                                        pos: b2.pos,
                                        errs: b2.errs,
                                    }
                                }
                            } else {
                                ExprRes {
                                    expr: Some(ExprV::If {
                                        cond: Box::new(cond),
                                        cons: b.stmts,
                                        alt: None,
                                    }),
                                    pos: b.pos,
                                    errs: b.errs,
                                }
                            }
                        }
                    }
                },
            }
        }
    }
}

/// Parses a block: the current token is `{`, and statements follow
/// until `}` or the end of input.
pub open spec fn spec_parse_block(toks: Seq<TokenV>, pos: int, errs: Seq<Seq<char>>, fuel: nat) -> BlockRes
    decreases fuel,
{
    if fuel == 0 {
        BlockRes { stmts: Seq::empty(), pos, errs: errs.push(depth_msg()) }
    } else {
        spec_block_loop(toks, next_pos(toks, pos), errs, Seq::empty(), (fuel - 1) as nat)
    }
}

pub open spec fn spec_block_loop(
    toks: Seq<TokenV>,
    pos: int,
    errs: Seq<Seq<char>>,
    acc: Seq<StmtV>,
    fuel: nat,
) -> BlockRes
    decreases fuel,
{
    if fuel == 0 {
        BlockRes { stmts: acc, pos, errs: errs.push(depth_msg()) }
    } else if tok_at(toks, pos).tk_type == TokenType::Rbrace || tok_at(toks, pos).tk_type
        == TokenType::Eof {
        BlockRes { stmts: acc, pos, errs }
    } else {
        let r = spec_parse_statement(toks, pos, errs, (fuel - 1) as nat);
        let acc2 = match r.stmt {
            Some(s) => acc.push(s),
            None => acc,
        };
        spec_block_loop(toks, next_pos(toks, r.pos), r.errs, acc2, (fuel - 1) as nat)
    }
}

/// Parses `fn ( <params> ) { ... }`.
pub open spec fn spec_parse_function(toks: Seq<TokenV>, pos: int, errs: Seq<Seq<char>>, fuel: nat) -> ExprRes
    decreases fuel,
{
    if fuel == 0 {
        ExprRes { expr: None, pos, errs: errs.push(depth_msg()) }
    } else {
        let e1 = spec_expect(toks, pos, errs, TokenType::Lparen);
        if !e1.ok {
            ExprRes { expr: None, pos: e1.pos, errs: e1.errs }
        } else {
            let p = spec_parse_params(toks, e1.pos, e1.errs);
            let e2 = spec_expect(toks, p.pos, p.errs, TokenType::Lbrace);
            if !e2.ok {
                ExprRes { expr: None, pos: e2.pos, errs: e2.errs }
            } else {
                let b = spec_parse_block(toks, e2.pos, e2.errs, (fuel - 1) as nat);
                ExprRes {
                    expr: Some(ExprV::Func { params: p.params, body: b.stmts }),
                    pos: b.pos,
                    errs: b.errs,
                }
            }
        }
    }
}

/// Parses a comma-separated parameter list; the current token is `(`.
/// A malformed list yields no parameters at all.
pub open spec fn spec_parse_params(toks: Seq<TokenV>, pos: int, errs: Seq<Seq<char>>) -> ParamsRes {
    if tok_at(toks, pos + 1).tk_type == TokenType::Rparen {
        ParamsRes { params: Seq::empty(), pos: next_pos(toks, pos), errs }
    } else {
        let pos1 = next_pos(toks, pos);
        let r = spec_params_loop(toks, pos1, seq![tok_at(toks, pos1).literal]);
        let e = spec_expect(toks, r.0, errs, TokenType::Rparen);
        if !e.ok {
            ParamsRes { params: Seq::empty(), pos: e.pos, errs: e.errs }
        } else {
            ParamsRes { params: r.1, pos: e.pos, errs: e.errs }
        }
    }
}

/// Absorbs `, <ident>` pairs; returns the position of the last
/// parameter and the names gathered.
pub open spec fn spec_params_loop(toks: Seq<TokenV>, pos: int, acc: Seq<Seq<char>>) -> (int, Seq<Seq<char>>)
    decreases toks.len() - pos,
{
    if tok_at(toks, pos + 1).tk_type == TokenType::Comma {
        let p2 = next_pos(toks, next_pos(toks, pos));
        spec_params_loop(toks, p2, acc.push(tok_at(toks, p2).literal))
    } else {
        (pos, acc)
    }
}

/// Parses a call's argument list; the current token is `(`. A
/// malformed list yields a call with no arguments.
pub open spec fn spec_parse_args(toks: Seq<TokenV>, pos: int, errs: Seq<Seq<char>>, fuel: nat) -> ArgsRes
    decreases fuel,
{
    if fuel == 0 {
        ArgsRes { args: Seq::empty(), pos, errs: errs.push(depth_msg()) }
    } else if tok_at(toks, pos + 1).tk_type == TokenType::Rparen {
        ArgsRes { args: Seq::empty(), pos: next_pos(toks, pos), errs }
    } else {
        let pos1 = next_pos(toks, pos);
        let r = spec_parse_expression(toks, pos1, errs, Precedence::Lowest, (fuel - 1) as nat);
        match r.expr {
            None => ArgsRes { args: Seq::empty(), pos: r.pos, errs: r.errs },
            Some(a0) => spec_args_loop(toks, r.pos, r.errs, seq![a0], (fuel - 1) as nat),
        }
    }
}

pub open spec fn spec_args_loop(
    toks: Seq<TokenV>,
    pos: int,
    errs: Seq<Seq<char>>,
    acc: Seq<ExprV>,
    fuel: nat,
) -> ArgsRes
    decreases fuel,
{
    if fuel == 0 {
        ArgsRes { args: Seq::empty(), pos, errs: errs.push(depth_msg()) }
    } else if tok_at(toks, pos + 1).tk_type == TokenType::Comma {
        let pos1 = next_pos(toks, next_pos(toks, pos));
        let r = spec_parse_expression(toks, pos1, errs, Precedence::Lowest, (fuel - 1) as nat);
        match r.expr {
            None => ArgsRes { args: Seq::empty(), pos: r.pos, errs: r.errs },
            Some(a) => spec_args_loop(toks, r.pos, r.errs, acc.push(a), (fuel - 1) as nat),
        }
    } else {
        let e = spec_expect(toks, pos, errs, TokenType::Rparen);
        if !e.ok {
            ArgsRes { args: Seq::empty(), pos: e.pos, errs: e.errs }
        } else {
            ArgsRes { args: acc, pos: e.pos, errs: e.errs }
        }
    }
}

/// Builds the call node around the callee; the current token is `(`.
pub open spec fn spec_parse_call(
    toks: Seq<TokenV>,
    pos: int,
    errs: Seq<Seq<char>>,
    left: ExprV,
    fuel: nat,
) -> ExprRes
    decreases fuel,
{
    if fuel == 0 {
        ExprRes { expr: None, pos, errs: errs.push(depth_msg()) }
    } else {
        let a = spec_parse_args(toks, pos, errs, (fuel - 1) as nat);
        ExprRes {
            expr: Some(ExprV::Call { func: Box::new(left), args: a.args }),
            pos: a.pos,
            errs: a.errs,
        }
    }
}

} // verus!
verus! {

/// The views of a token list.
pub open spec fn toks_of(s: Seq<Token>) -> Seq<TokenV> {
    s.map(|i: int, t: Token| t@)
}

/// The views of an error list.
pub open spec fn errors_view(s: Seq<String>) -> Seq<Seq<char>> {
    s.map(|i: int, x: String| x@)
}

pub open spec fn opt_stmt_view(r: Option<Statement>) -> Option<StmtV> {
    match r {
        Some(s) => Some(s@),
        None => None,
    }
}

pub open spec fn opt_expr_view(r: Option<Expression>) -> Option<ExprV> {
    match r {
        Some(e) => Some(e@),
        None => None,
    }
}

/// More recursion budget than any token stream can consume: the parser
/// consumes a token before every recursive descent, so a run that
/// exhausts this would need more tokens than a machine can hold.
pub const PARSE_FUEL: u64 = 0xffff_ffff_ffff_ffff;

pub proof fn lemma_digits_val_nonneg(s: Seq<char>)
    requires
        forall|i: int| 0 <= i < s.len() ==> is_digit_char(s[i]),
    ensures
        digits_val(s) >= 0,
    decreases s.len(),
{
    if s.len() > 0 {
        lemma_digits_val_nonneg(s.drop_last());
    }
}

pub proof fn lemma_digits_val_take(s: Seq<char>, k: int)
    requires
        forall|i: int| 0 <= i < s.len() ==> is_digit_char(s[i]),
        0 <= k <= s.len(),
    ensures
        digits_val(s) >= digits_val(s.take(k)),
        digits_val(s.take(k)) >= 0,
    decreases s.len() - k,
{
    lemma_digits_val_nonneg(s.take(k));
    if k < s.len() {
        lemma_digits_val_take(s, k + 1);
        assert(s.take(k + 1).drop_last() =~= s.take(k));
        assert(digits_val(s.take(k + 1)) == digits_val(s.take(k)) * 10 + (s[k] as int - 48));
    } else {
        assert(s.take(k) =~= s);
    }
}

pub struct Parser {
    tokens: Vec<Token>,
    pos: usize,
    errors: Vec<String>,
}

impl Parser {
    /// The token stream being parsed.
    pub closed spec fn toks(&self) -> Seq<TokenV> {
        toks_of(self.tokens@)
    }

    /// The position of the current token.
    pub closed spec fn spec_pos(&self) -> int {
        self.pos as int
    }

    /// The error messages recorded so far.
    pub closed spec fn errs(&self) -> Seq<Seq<char>> {
        errors_view(self.errors@)
    }

    /// The parser's state is consistent: the position is on a token.
    pub closed spec fn wf(&self) -> bool {
        self.pos < self.tokens@.len()
    }

    /// Drains the lexer into a token list ending with the end-of-input
    /// token, and starts at the first token.
    pub fn new(lex: Lexer) -> (p: Parser)
        requires
            lex.wf(),
        ensures
            p.wf(),
            p.spec_pos() == 0,
            p.errs() == Seq::<Seq<char>>::empty(),
            p.toks() == spec_tokens(lex.spec_input(), lex.spec_pos()),
    {
        let ghost input = lex.spec_input();
        let ghost pos0 = lex.spec_pos();
        proof {
            crate::lexer::lemma_lexer_wf(lex);
        }
        let mut l = lex;
        let mut tokens: Vec<Token> = Vec::new();
        let mut done = false;
        proof {
            assert(toks_of(tokens@) =~= Seq::<TokenV>::empty());
            assert(spec_tokens(input, pos0) =~= toks_of(tokens@) + spec_tokens(input, pos0));
        }
        while !done
            invariant
                l.wf(),
                l.spec_input() == input,
                0 <= pos0 <= input.len(),
                !done ==> spec_tokens(input, pos0) == toks_of(tokens@) + spec_tokens(
                    input,
                    l.spec_pos(),
                ),
                done ==> spec_tokens(input, pos0) == toks_of(tokens@),
                done ==> tokens@.len() >= 1,
            decreases (if done {
                0int
            } else {
                1int
            }), input.len() - l.spec_pos(),
        {
            let ghost prev = l.spec_pos();
            let ghost prev_toks = tokens@;
            proof {
                crate::lexer::lemma_lexer_wf(l);
                lemma_next_token_bounds(input, prev);
            }
            let t = l.next_token();
            let is_eof = match t.tk_type {
                TokenType::Eof => true,
                _ => false,
            };
            tokens.push(t);
            proof {
                assert(toks_of(tokens@) =~= toks_of(prev_toks).push(
                    spec_next_token(input, prev).tok,
                ));
            }
            if is_eof {
                done = true;
                proof {
                    assert(spec_tokens(input, prev) =~= seq![spec_next_token(input, prev).tok]);
                    assert(spec_tokens(input, pos0) =~= toks_of(tokens@));
                }
            } else {
                proof {
                    assert(spec_tokens(input, prev) =~= seq![spec_next_token(input, prev).tok]
                        + spec_tokens(input, l.spec_pos()));
                    assert(spec_tokens(input, pos0) =~= toks_of(tokens@) + spec_tokens(
                        input,
                        l.spec_pos(),
                    ));
                }
            }
        }
        Parser { tokens, pos: 0, errors: Vec::new() }
    }

    fn next_token(&mut self)
        requires
            old(self).wf(),
        ensures
            final(self).wf(),
            final(self).toks() == old(self).toks(),
            final(self).errs() == old(self).errs(),
            final(self).spec_pos() == next_pos(old(self).toks(), old(self).spec_pos()),
    {
        let n = self.tokens.len();
        if self.pos + 1 < n {
            self.pos = self.pos + 1;
        }
    }

    fn cur_token(&self) -> (t: &Token)
        requires
            self.wf(),
        ensures
            t@ == tok_at(self.toks(), self.spec_pos()),
    {
        &self.tokens[self.pos]
    }

    fn cur_type(&self) -> (t: TokenType)
        requires
            self.wf(),
        ensures
            t == tok_at(self.toks(), self.spec_pos()).tk_type,
    {
        self.tokens[self.pos].tk_type
    }

    fn peek_type(&self) -> (t: TokenType)
        requires
            self.wf(),
        ensures
            t == tok_at(self.toks(), self.spec_pos() + 1).tk_type,
    {
        let n = self.tokens.len();
        if self.pos + 1 < n {
            self.tokens[self.pos + 1].tk_type
        } else {
            TokenType::Eof
        }
    }

    fn cur_token_is(&self, t: TokenType) -> (r: bool)
        requires
            self.wf(),
        ensures
            r == (tok_at(self.toks(), self.spec_pos()).tk_type == t),
    {
        self.cur_type() == t
    }

    fn peek_token_is(&self, t: TokenType) -> (r: bool)
        requires
            self.wf(),
        ensures
            r == (tok_at(self.toks(), self.spec_pos() + 1).tk_type == t),
    {
        self.peek_type() == t
    }

    fn peek_error(&mut self, t: TokenType)
        requires
            old(self).wf(),
        ensures
            final(self).wf(),
            final(self).toks() == old(self).toks(),
            final(self).spec_pos() == old(self).spec_pos(),
            final(self).errs() == old(self).errs().push(
                peek_error_msg(t, tok_at(old(self).toks(), old(self).spec_pos() + 1).tk_type),
            ),
    {
        let ghost prev = self.errors@;
        let got = self.peek_type();
        let mut msg = String::from_str("expected next token to be ");
        let en = token_type_name(t);
        msg.append(en.as_str());
        msg.append(", got ");
        let gn = token_type_name(got);
        msg.append(gn.as_str());
        msg.append(" instead");
        self.errors.push(msg);
        proof {
            assert(errors_view(self.errors@) =~= errors_view(prev).push(
                peek_error_msg(t, tok_at(self.toks(), self.spec_pos() + 1).tk_type),
            ));
        }
    }

    fn no_prefix_parse_fn_error(&mut self, t: TokenType)
        requires
            old(self).wf(),
        ensures
            final(self).wf(),
            final(self).toks() == old(self).toks(),
            final(self).spec_pos() == old(self).spec_pos(),
            final(self).errs() == old(self).errs().push(no_prefix_msg(t)),
    {
        let ghost prev = self.errors@;
        let mut msg = String::from_str("no prefix parse function for ");
        let tn = token_type_name(t);
        msg.append(tn.as_str());
        msg.append(" found");
        self.errors.push(msg);
        proof {
            assert(errors_view(self.errors@) =~= errors_view(prev).push(no_prefix_msg(t)));
        }
    }

    fn depth_error(&mut self)
        requires
            old(self).wf(),
        ensures
            final(self).wf(),
            final(self).toks() == old(self).toks(),
            final(self).spec_pos() == old(self).spec_pos(),
            final(self).errs() == old(self).errs().push(depth_msg()),
    {
        let ghost prev = self.errors@;
        self.errors.push(String::from_str("expression nesting is too deep"));
        proof {
            assert(errors_view(self.errors@) =~= errors_view(prev).push(depth_msg()));
        }
    }

    fn expect_peek(&mut self, t: TokenType) -> (r: bool)
        requires
            old(self).wf(),
        ensures
            final(self).wf(),
            final(self).toks() == old(self).toks(),
            r == spec_expect(old(self).toks(), old(self).spec_pos(), old(self).errs(), t).ok,
            final(self).spec_pos() == spec_expect(
                old(self).toks(),
                old(self).spec_pos(),
                old(self).errs(),
                t,
            ).pos,
            final(self).errs() == spec_expect(
                old(self).toks(),
                old(self).spec_pos(),
                old(self).errs(),
                t,
            ).errs,
    {
        if self.peek_token_is(t) {
            self.next_token();
            true
        } else {
            self.peek_error(t);
            false
        }
    }

    /// The error messages recorded while parsing.
    pub fn get_errors(&self) -> (r: &Vec<String>)
        ensures
            errors_view(r@) == self.errs(),
    {
        &self.errors
    }

    fn peek_precedence(&self) -> (p: Precedence)
        requires
            self.wf(),
        ensures
            p == prec_of(tok_at(self.toks(), self.spec_pos() + 1).tk_type),
    {
        precedence_of(self.peek_type())
    }

    fn cur_precedence(&self) -> (p: Precedence)
        requires
            self.wf(),
        ensures
            p == prec_of(tok_at(self.toks(), self.spec_pos()).tk_type),
    {
        precedence_of(self.cur_type())
    }
}

} // verus!
verus! {

impl Parser {
    /// Parses the whole token stream into a program. Parsing never
    /// fails as a whole: malformed pieces are skipped and reported in
    /// the error list, which callers must consult before trusting the
    /// program.
    pub fn parse_program(&mut self) -> (r: Option<Program>)
        requires
            old(self).wf(),
        ensures
            final(self).wf(),
            final(self).toks() == old(self).toks(),
            r is Some,
            (match r {
                Some(p) => p@ == spec_parse_program(
                    old(self).toks(),
                    old(self).spec_pos(),
                    old(self).errs(),
                    Seq::empty(),
                    PARSE_FUEL as nat,
                ).stmts,
                None => false,
            }),
            final(self).spec_pos() == spec_parse_program(
                old(self).toks(),
                old(self).spec_pos(),
                old(self).errs(),
                Seq::empty(),
                PARSE_FUEL as nat,
            ).pos,
            final(self).errs() == spec_parse_program(
                old(self).toks(),
                old(self).spec_pos(),
                old(self).errs(),
                Seq::empty(),
                PARSE_FUEL as nat,
            ).errs,
    {
        let mut fuel: u64 = PARSE_FUEL;
        let mut statements: Vec<Statement> = Vec::new();
        proof {
            assert(stmts_view(statements@) =~= Seq::<StmtV>::empty());
        }
        loop
            invariant
                self.wf(),
                self.toks() == old(self).toks(),
                spec_parse_program(
                    old(self).toks(),
                    old(self).spec_pos(),
                    old(self).errs(),
                    Seq::empty(),
                    PARSE_FUEL as nat,
                ) == spec_parse_program(
                    self.toks(),
                    self.spec_pos(),
                    self.errs(),
                    stmts_view(statements@),
                    fuel as nat,
                ),
            decreases fuel,
        {
            if fuel == 0 {
                self.depth_error();
                return Some(Program { statements });
            }
            if self.cur_token_is(TokenType::Eof) {
                return Some(Program { statements });
            }
            let stmt = self.parse_statement(fuel - 1);
            match stmt {
                Some(s) => {
                    proof {
                        lemma_stmts_view_push(statements@, s);
                    }
                    statements.push(s);
                },
                None => {},
            }
            self.next_token();
            fuel = fuel - 1;
        }
    }

    fn parse_statement(&mut self, fuel: u64) -> (r: Option<Statement>)
        requires
            old(self).wf(),
        ensures
            final(self).wf(),
            final(self).toks() == old(self).toks(),
            opt_stmt_view(r) == spec_parse_statement(
                old(self).toks(),
                old(self).spec_pos(),
                old(self).errs(),
                fuel as nat,
            ).stmt,
            final(self).spec_pos() == spec_parse_statement(
                old(self).toks(),
                old(self).spec_pos(),
                old(self).errs(),
                fuel as nat,
            ).pos,
            final(self).errs() == spec_parse_statement(
                old(self).toks(),
                old(self).spec_pos(),
                old(self).errs(),
                fuel as nat,
            ).errs,
        decreases fuel,
    {
        if fuel == 0 {
            self.depth_error();
            return None;
        }
        match self.cur_type() {
            TokenType::Let => self.parse_let_statement(fuel - 1),
            TokenType::Return => self.parse_return_statement(fuel - 1),
            _ => self.parse_expression_statement(fuel - 1),
        }
    }

    #[verifier::rlimit(60)]
    fn parse_let_statement(&mut self, fuel: u64) -> (r: Option<Statement>)
        requires
            old(self).wf(),
        ensures
            final(self).wf(),
            final(self).toks() == old(self).toks(),
            opt_stmt_view(r) == spec_parse_let(
                old(self).toks(),
                old(self).spec_pos(),
                old(self).errs(),
                fuel as nat,
            ).stmt,
            final(self).spec_pos() == spec_parse_let(
                old(self).toks(),
                old(self).spec_pos(),
                old(self).errs(),
                fuel as nat,
            ).pos,
            final(self).errs() == spec_parse_let(
                old(self).toks(),
                old(self).spec_pos(),
                old(self).errs(),
                fuel as nat,
            ).errs,
        decreases fuel,
    {
        if fuel == 0 {
            self.depth_error();
            return None;
        }
        let token = self.cur_token().clone();
        if !self.expect_peek(TokenType::Ident) {
            return None;
        }
        let name_token = self.cur_token().clone();
        let name_value = name_token.literal.clone();
        if !self.expect_peek(TokenType::Assign) {
            return None;
        }
        self.next_token();
        let value = match self.parse_expression(Precedence::Lowest, fuel - 1) {
            None => {
                return None;
            },
            Some(v) => v,
        };
        let stmt = LetStatement {
            token,
            name: Identifier { token: name_token, value: name_value },
            value: Box::new(value),
        };
        let ghost vpos = self.spec_pos();
        let ghost verrs = self.errs();
        loop
            invariant
                self.wf(),
                self.toks() == old(self).toks(),
                self.errs() == verrs,
                skip_to_semicolon(self.toks(), self.spec_pos()) == skip_to_semicolon(
                    self.toks(),
                    vpos,
                ),
            ensures
                self.wf(),
                self.toks() == old(self).toks(),
                self.errs() == verrs,
                self.spec_pos() == skip_to_semicolon(self.toks(), vpos),
            decreases self.toks().len() - self.spec_pos(),
        {
            let ct = self.cur_type();
            let stop = match ct {
                TokenType::Semicolon => true,
                TokenType::Eof => true,
                _ => false,
            };
            if stop {
                break ;
            }
            let n = self.tokens.len();
            if self.pos + 1 >= n {
                break ;
            }
            self.next_token();
        }
        Some(Statement::Let(stmt))
    }

    fn parse_return_statement(&mut self, fuel: u64) -> (r: Option<Statement>)
        requires
            old(self).wf(),
        ensures
            final(self).wf(),
            final(self).toks() == old(self).toks(),
            opt_stmt_view(r) == spec_parse_return(
                old(self).toks(),
                old(self).spec_pos(),
                old(self).errs(),
                fuel as nat,
            ).stmt,
            final(self).spec_pos() == spec_parse_return(
                old(self).toks(),
                old(self).spec_pos(),
                old(self).errs(),
                fuel as nat,
            ).pos,
            final(self).errs() == spec_parse_return(
                old(self).toks(),
                old(self).spec_pos(),
                old(self).errs(),
                fuel as nat,
            ).errs,
        decreases fuel,
    {
        if fuel == 0 {
            self.depth_error();
            return None;
        }
        let token = self.cur_token().clone();
        self.next_token();
        let return_value = match self.parse_expression(Precedence::Lowest, fuel - 1) {
            None => {
                return None;
            },
            Some(v) => v,
        };
        let stmt = ReturnStatement { token, return_value: Box::new(return_value) };
        if self.peek_token_is(TokenType::Semicolon) {
            self.next_token();
        }
        Some(Statement::Return(stmt))
    }

    fn parse_expression_statement(&mut self, fuel: u64) -> (r: Option<Statement>)
        requires
            old(self).wf(),
        ensures
            final(self).wf(),
            final(self).toks() == old(self).toks(),
            opt_stmt_view(r) == spec_parse_expression_statement(
                old(self).toks(),
                old(self).spec_pos(),
                old(self).errs(),
                fuel as nat,
            ).stmt,
            final(self).spec_pos() == spec_parse_expression_statement(
                old(self).toks(),
                old(self).spec_pos(),
                old(self).errs(),
                fuel as nat,
            ).pos,
            final(self).errs() == spec_parse_expression_statement(
                old(self).toks(),
                old(self).spec_pos(),
                old(self).errs(),
                fuel as nat,
            ).errs,
        decreases fuel,
    {
        if fuel == 0 {
            self.depth_error();
            return None;
        }
        let token = self.cur_token().clone();
        let expression = match self.parse_expression(Precedence::Lowest, fuel - 1) {
            None => {
                return None;
            },
            Some(v) => v,
        };
        let stmt = ExpressionStmt { token, expression: Box::new(expression) };
        if self.peek_token_is(TokenType::Semicolon) {
            self.next_token();
        }
        Some(Statement::Expression(stmt))
    }

    fn parse_expression(&mut self, precedence: Precedence, fuel: u64) -> (r: Option<Expression>)
        requires
            old(self).wf(),
        ensures
            final(self).wf(),
            final(self).toks() == old(self).toks(),
            opt_expr_view(r) == spec_parse_expression(
                old(self).toks(),
                old(self).spec_pos(),
                old(self).errs(),
                precedence,
                fuel as nat,
            ).expr,
            final(self).spec_pos() == spec_parse_expression(
                old(self).toks(),
                old(self).spec_pos(),
                old(self).errs(),
                precedence,
                fuel as nat,
            ).pos,
            final(self).errs() == spec_parse_expression(
                old(self).toks(),
                old(self).spec_pos(),
                old(self).errs(),
                precedence,
                fuel as nat,
            ).errs,
        decreases fuel,
    {
        if fuel == 0 {
            self.depth_error();
            return None;
        }
        let ct = self.cur_type();
        let left_exp: Option<Expression> = match ct {
            TokenType::Ident => self.parse_identifier(),
            TokenType::Int => self.parse_integer_literal(),
            TokenType::Bang => self.parse_prefix_expression(fuel - 1),
            TokenType::Minus => self.parse_prefix_expression(fuel - 1),
            TokenType::True => self.parse_boolean(),
            TokenType::False => self.parse_boolean(),
            TokenType::Lparen => self.parse_grouped_expression(fuel - 1),
            TokenType::If => self.parse_if_expression(fuel - 1),
            TokenType::Function => self.parse_function_literal(fuel - 1),
            _ => {
                self.no_prefix_parse_fn_error(ct);
                return None;
            },
        };
        match left_exp {
            None => None,
            Some(left) => self.parse_infix_loop(left, precedence, fuel - 1),
        }
    }

    fn parse_infix_loop(&mut self, left: Expression, min_prec: Precedence, fuel: u64) -> (r:
        Option<Expression>)
        requires
            old(self).wf(),
        ensures
            final(self).wf(),
            final(self).toks() == old(self).toks(),
            opt_expr_view(r) == spec_infix_loop(
                old(self).toks(),
                old(self).spec_pos(),
                old(self).errs(),
                left@,
                min_prec,
                fuel as nat,
            ).expr,
            final(self).spec_pos() == spec_infix_loop(
                old(self).toks(),
                old(self).spec_pos(),
                old(self).errs(),
                left@,
                min_prec,
                fuel as nat,
            ).pos,
            final(self).errs() == spec_infix_loop(
                old(self).toks(),
                old(self).spec_pos(),
                old(self).errs(),
                left@,
                min_prec,
                fuel as nat,
            ).errs,
        decreases fuel,
    {
        if fuel == 0 {
            self.depth_error();
            return None;
        }
        let pt = self.peek_type();
        let semi = match pt {
            TokenType::Semicolon => true,
            _ => false,
        };
        let pp = self.peek_precedence();
        let pv = prec_value(min_prec);
        let ppv = prec_value(pp);
        if semi || !(pv < ppv) {
            return Some(left);
        }
        match pt {
            TokenType::Plus | TokenType::Minus | TokenType::Slash | TokenType::Asterisk
                | TokenType::Eq | TokenType::NotEq | TokenType::Lt | TokenType::Gt => {
                self.next_token();
                let r = self.parse_infix_expression(left, fuel - 1);
                match r {
                    None => None,
                    Some(e2) => self.parse_infix_loop(e2, min_prec, fuel - 1),
                }
            },
            TokenType::Lparen => {
                self.next_token();
                let r = self.parse_call_expression(left, fuel - 1);
                match r {
                    None => None,
                    Some(e2) => self.parse_infix_loop(e2, min_prec, fuel - 1),
                }
            },
            _ => Some(left),
        }
    }

    fn parse_identifier(&mut self) -> (r: Option<Expression>)
        requires
            old(self).wf(),
        ensures
            *final(self) == *old(self),
            opt_expr_view(r) == Some(ExprV::Ident {
                name: tok_at(old(self).toks(), old(self).spec_pos()).literal,
            }),
    {
        let token = self.cur_token().clone();
        let value = token.literal.clone();
        Some(Expression::Identifier(Identifier { token, value }))
    }

    fn parse_boolean(&mut self) -> (r: Option<Expression>)
        requires
            old(self).wf(),
        ensures
            *final(self) == *old(self),
            opt_expr_view(r) == Some(ExprV::BoolLit {
                value: tok_at(old(self).toks(), old(self).spec_pos()).tk_type == TokenType::True,
            }),
    {
        let token = self.cur_token().clone();
        let value = self.cur_token_is(TokenType::True);
        Some(Expression::Boolean(Boolean { token, value }))
    }

    fn parse_integer_literal(&mut self) -> (r: Option<Expression>)
        requires
            old(self).wf(),
        ensures
            final(self).wf(),
            final(self).toks() == old(self).toks(),
            final(self).spec_pos() == old(self).spec_pos(),
            opt_expr_view(r) == (match spec_parse_i64(
                tok_at(old(self).toks(), old(self).spec_pos()).literal,
            ) {
                Some(v) => Some(ExprV::IntLit {
                    lit: tok_at(old(self).toks(), old(self).spec_pos()).literal,
                    value: v,
                }),
                None => None,
            }),
            final(self).errs() == (match spec_parse_i64(
                tok_at(old(self).toks(), old(self).spec_pos()).literal,
            ) {
                Some(v) => old(self).errs(),
                None => old(self).errs().push(
                    int_error_msg(tok_at(old(self).toks(), old(self).spec_pos()).literal),
                ),
            }),
    {
        let token = self.cur_token().clone();
        let ghost lit = token.literal@;
        let n = token.literal.as_str().unicode_len();
        let mut ok = n > 0;
        let mut acc: u64 = 0;
        let mut i: usize = 0;
        proof {
            assert(lit.take(0) =~= Seq::<char>::empty());
            if n == 0 {
                assert(!all_digits(lit));
                assert(spec_parse_i64(lit) is None);
            }
        }
        while ok && i < n
            invariant
                lit == token.literal@,
                n == lit.len(),
                i <= n,
                ok ==> forall|j: int| 0 <= j < i ==> is_digit_char(lit[j]),
                ok ==> acc as int == digits_val(lit.take(i as int)),
                ok ==> acc <= 9_223_372_036_854_775_807u64,
                ok ==> n > 0,
                !ok ==> spec_parse_i64(lit) is None,
            decreases n - i, (if ok {
                1int
            } else {
                0int
            }),
        {
            let c = token.literal.as_str().get_char(i);
            if !('0' <= c && c <= '9') {
                proof {
                    assert(!is_digit_char(lit[i as int]));
                    assert(!all_digits(lit));
                }
                ok = false;
            } else {
                let d: u64 = (c as u32 - 48) as u64;
                if acc > (9_223_372_036_854_775_807u64 - d) / 10 {
                    proof {
                        let m = 9_223_372_036_854_775_807int;
                        assert(lit.take(i as int + 1).drop_last() =~= lit.take(i as int));
                        assert(digits_val(lit.take(i as int + 1)) == digits_val(lit.take(i as int))
                            * 10 + (c as int - 48));
                        assert(digits_val(lit.take(i as int + 1)) > m);
                        if all_digits(lit) {
                            lemma_digits_val_take(lit, i as int + 1);
                        }
                        assert(spec_parse_i64(lit) is None);
                    }
                    ok = false;
                } else {
                    proof {
                        assert(lit.take(i as int + 1).drop_last() =~= lit.take(i as int));
                        assert(digits_val(lit.take(i as int + 1)) == digits_val(lit.take(i as int))
                            * 10 + (c as int - 48));
                    }
                    acc = acc * 10 + d;
                    i = i + 1;
                }
            }
        }
        if ok {
            proof {
                assert(lit.take(n as int) =~= lit);
                assert(all_digits(lit));
                assert(spec_parse_i64(lit) == Some(acc as i64));
            }
            Some(Expression::IntegerLiteral(IntegerLiteral { token, value: acc as i64 }))
        } else {
            let ghost prev = self.errors@;
            let mut msg = String::from_str("could not parse ");
            msg.append(token.literal.as_str());
            msg.append(" as integer");
            self.errors.push(msg);
            proof {
                assert(errors_view(self.errors@) =~= errors_view(prev).push(int_error_msg(lit)));
            }
            None
        }
    }

    fn parse_prefix_expression(&mut self, fuel: u64) -> (r: Option<Expression>)
        requires
            old(self).wf(),
        ensures
            final(self).wf(),
            final(self).toks() == old(self).toks(),
            opt_expr_view(r) == spec_parse_prefix(
                old(self).toks(),
                old(self).spec_pos(),
                old(self).errs(),
                fuel as nat,
            ).expr,
            final(self).spec_pos() == spec_parse_prefix(
                old(self).toks(),
                old(self).spec_pos(),
                old(self).errs(),
                fuel as nat,
            ).pos,
            final(self).errs() == spec_parse_prefix(
                old(self).toks(),
                old(self).spec_pos(),
                old(self).errs(),
                fuel as nat,
            ).errs,
        decreases fuel,
    {
        if fuel == 0 {
            self.depth_error();
            return None;
        }
        let token = self.cur_token().clone();
        let operator = token.literal.clone();
        self.next_token();
        let right = match self.parse_expression(Precedence::Prefix, fuel - 1) {
            None => {
                return None;
            },
            Some(v) => v,
        };
        Some(Expression::Prefix(PrefixExpression { token, operator, right: Box::new(right) }))
    }

    fn parse_infix_expression(&mut self, left: Expression, fuel: u64) -> (r: Option<Expression>)
        requires
            old(self).wf(),
        ensures
            final(self).wf(),
            final(self).toks() == old(self).toks(),
            opt_expr_view(r) == spec_parse_infix(
                old(self).toks(),
                old(self).spec_pos(),
                old(self).errs(),
                left@,
                fuel as nat,
            ).expr,
            final(self).spec_pos() == spec_parse_infix(
                old(self).toks(),
                old(self).spec_pos(),
                old(self).errs(),
                left@,
                fuel as nat,
            ).pos,
            final(self).errs() == spec_parse_infix(
                old(self).toks(),
                old(self).spec_pos(),
                old(self).errs(),
                left@,
                fuel as nat,
            ).errs,
        decreases fuel,
    {
        if fuel == 0 {
            self.depth_error();
            return None;
        }
        let token = self.cur_token().clone();
        let operator = token.literal.clone();
        let precedence = self.cur_precedence();
        self.next_token();
        let right = match self.parse_expression(precedence, fuel - 1) {
            None => {
                return None;
            },
            Some(v) => v,
        };
        Some(Expression::Infix(InfixExpression {
            token,
            left: Box::new(left),
            operator,
            right: Box::new(right),
        }))
    }

    fn parse_grouped_expression(&mut self, fuel: u64) -> (r: Option<Expression>)
        requires
            old(self).wf(),
        ensures
            final(self).wf(),
            final(self).toks() == old(self).toks(),
            opt_expr_view(r) == spec_parse_grouped(
                old(self).toks(),
                old(self).spec_pos(),
                old(self).errs(),
                fuel as nat,
            ).expr,
            final(self).spec_pos() == spec_parse_grouped(
                old(self).toks(),
                old(self).spec_pos(),
                old(self).errs(),
                fuel as nat,
            ).pos,
            final(self).errs() == spec_parse_grouped(
                old(self).toks(),
                old(self).spec_pos(),
                old(self).errs(),
                fuel as nat,
            ).errs,
        decreases fuel,
    {
        if fuel == 0 {
            self.depth_error();
            return None;
        }
        self.next_token();
        let exp = self.parse_expression(Precedence::Lowest, fuel - 1);
        if !self.expect_peek(TokenType::Rparen) {
            None
        } else {
            exp
        }
    }

    fn parse_if_expression(&mut self, fuel: u64) -> (r: Option<Expression>)
        requires
            old(self).wf(),
        ensures
            final(self).wf(),
            final(self).toks() == old(self).toks(),
            opt_expr_view(r) == spec_parse_if(
                old(self).toks(),
                old(self).spec_pos(),
                old(self).errs(),
                fuel as nat,
            ).expr,
            final(self).spec_pos() == spec_parse_if(
                old(self).toks(),
                old(self).spec_pos(),
                old(self).errs(),
                fuel as nat,
            ).pos,
            final(self).errs() == spec_parse_if(
                old(self).toks(),
                old(self).spec_pos(),
                old(self).errs(),
                fuel as nat,
            ).errs,
        decreases fuel,
    {
        if fuel == 0 {
            self.depth_error();
            return None;
        }
        let token = self.cur_token().clone();
        if !self.expect_peek(TokenType::Lparen) {
            return None;
        }
        self.next_token();
        let condition = match self.parse_expression(Precedence::Lowest, fuel - 1) {
            None => {
                return None;
            },
            Some(v) => v,
        };
        if !self.expect_peek(TokenType::Rparen) {
            return None;
        }
        if !self.expect_peek(TokenType::Lbrace) {
            return None;
        }
        let consequence = self.parse_block_statement(fuel - 1);
        if self.peek_token_is(TokenType::Else) {
            self.next_token();
            if !self.expect_peek(TokenType::Lbrace) {
                return None;
            }
            let alternative = self.parse_block_statement(fuel - 1);
            Some(Expression::If(IfExpression {
                token,
                condition: Box::new(condition),
                consequence,
                alternative: Some(alternative),
            }))
        } else {
            Some(Expression::If(IfExpression {
                token,
                condition: Box::new(condition),
                consequence,
                alternative: None,
            }))
        }
    }

    #[verifier::rlimit(60)]
    fn parse_block_statement(&mut self, fuel: u64) -> (b: BlockStatement)
        requires
            old(self).wf(),
        ensures
            final(self).wf(),
            final(self).toks() == old(self).toks(),
            b@ == spec_parse_block(
                old(self).toks(),
                old(self).spec_pos(),
                old(self).errs(),
                fuel as nat,
            ).stmts,
            final(self).spec_pos() == spec_parse_block(
                old(self).toks(),
                old(self).spec_pos(),
                old(self).errs(),
                fuel as nat,
            ).pos,
            final(self).errs() == spec_parse_block(
                old(self).toks(),
                old(self).spec_pos(),
                old(self).errs(),
                fuel as nat,
            ).errs,
        decreases fuel,
    {
        let token = self.cur_token().clone();
        let mut statements: Vec<Statement> = Vec::new();
        proof {
            assert(stmts_view(statements@) =~= Seq::<StmtV>::empty());
        }
        if fuel == 0 {
            self.depth_error();
            return BlockStatement { token, statements };
        }
        self.next_token();
        let mut lfuel: u64 = fuel - 1;
        loop
            invariant
                self.wf(),
                self.toks() == old(self).toks(),
                lfuel < fuel,
                spec_parse_block(
                    old(self).toks(),
                    old(self).spec_pos(),
                    old(self).errs(),
                    fuel as nat,
                ) == spec_block_loop(
                    self.toks(),
                    self.spec_pos(),
                    self.errs(),
                    stmts_view(statements@),
                    lfuel as nat,
                ),
            decreases lfuel,
        {
            if lfuel == 0 {
                self.depth_error();
                return BlockStatement { token, statements };
            }
            let ct = self.cur_type();
            let stop = match ct {
                TokenType::Rbrace => true,
                TokenType::Eof => true,
                _ => false,
            };
            if stop {
                return BlockStatement { token, statements };
            }
            let stmt = self.parse_statement(lfuel - 1);
            match stmt {
                Some(s) => {
                    proof {
                        lemma_stmts_view_push(statements@, s);
                    }
                    statements.push(s);
                },
                None => {},
            }
            self.next_token();
            lfuel = lfuel - 1;
        }
    }

    fn parse_function_literal(&mut self, fuel: u64) -> (r: Option<Expression>)
        requires
            old(self).wf(),
        ensures
            final(self).wf(),
            final(self).toks() == old(self).toks(),
            opt_expr_view(r) == spec_parse_function(
                old(self).toks(),
                old(self).spec_pos(),
                old(self).errs(),
                fuel as nat,
            ).expr,
            final(self).spec_pos() == spec_parse_function(
                old(self).toks(),
                old(self).spec_pos(),
                old(self).errs(),
                fuel as nat,
            ).pos,
            final(self).errs() == spec_parse_function(
                old(self).toks(),
                old(self).spec_pos(),
                old(self).errs(),
                fuel as nat,
            ).errs,
        decreases fuel,
    {
        if fuel == 0 {
            self.depth_error();
            return None;
        }
        let token = self.cur_token().clone();
        if !self.expect_peek(TokenType::Lparen) {
            return None;
        }
        let parameters = self.parse_function_parameters();
        if !self.expect_peek(TokenType::Lbrace) {
            return None;
        }
        let body = self.parse_block_statement(fuel - 1);
        Some(Expression::FunctionLiteral(FunctionLiteral {
            token,
            parameters: std::rc::Rc::new(parameters),
            body: std::rc::Rc::new(body),
        }))
    }

    fn parse_function_parameters(&mut self) -> (r: Vec<Identifier>)
        requires
            old(self).wf(),
        ensures
            final(self).wf(),
            final(self).toks() == old(self).toks(),
            crate::ast::idents_view(r@) == spec_parse_params(
                old(self).toks(),
                old(self).spec_pos(),
                old(self).errs(),
            ).params,
            final(self).spec_pos() == spec_parse_params(
                old(self).toks(),
                old(self).spec_pos(),
                old(self).errs(),
            ).pos,
            final(self).errs() == spec_parse_params(
                old(self).toks(),
                old(self).spec_pos(),
                old(self).errs(),
            ).errs,
    {
        let mut identifiers: Vec<Identifier> = Vec::new();
        proof {
            assert(crate::ast::idents_view(identifiers@) =~= Seq::<Seq<char>>::empty());
        }
        if self.peek_token_is(TokenType::Rparen) {
            self.next_token();
            return identifiers;
        }
        self.next_token();
        let token = self.cur_token().clone();
        let value = token.literal.clone();
        let first = Identifier { token, value };
        proof {
            crate::ast::lemma_idents_view_push(identifiers@, first);
        }
        identifiers.push(first);
        let ghost p1 = self.spec_pos();
        proof {
            assert(crate::ast::idents_view(identifiers@) =~= seq![
                tok_at(self.toks(), p1).literal,
            ]);
        }
        loop
            invariant
                self.wf(),
                self.toks() == old(self).toks(),
                self.errs() == old(self).errs(),
                spec_params_loop(self.toks(), p1, seq![tok_at(self.toks(), p1).literal])
                    == spec_params_loop(
                    self.toks(),
                    self.spec_pos(),
                    crate::ast::idents_view(identifiers@),
                ),
            ensures
                self.wf(),
                self.toks() == old(self).toks(),
                self.errs() == old(self).errs(),
                spec_params_loop(self.toks(), p1, seq![tok_at(self.toks(), p1).literal]) == (
                    self.spec_pos(),
                    crate::ast::idents_view(identifiers@),
                ),
            decreases self.toks().len() - self.spec_pos(),
        {
            if self.peek_token_is(TokenType::Comma) {
                self.next_token();
                self.next_token();
                let token2 = self.cur_token().clone();
                let value2 = token2.literal.clone();
                let next = Identifier { token: token2, value: value2 };
                proof {
                    crate::ast::lemma_idents_view_push(identifiers@, next);
                }
                identifiers.push(next);
            } else {
                break ;
            }
        }
        if !self.expect_peek(TokenType::Rparen) {
            let empty: Vec<Identifier> = Vec::new();
            proof {
                assert(crate::ast::idents_view(empty@) =~= Seq::<Seq<char>>::empty());
            }
            return empty;
        }
        identifiers
    }

    fn parse_call_expression(&mut self, function: Expression, fuel: u64) -> (r: Option<Expression>)
        requires
            old(self).wf(),
        ensures
            final(self).wf(),
            final(self).toks() == old(self).toks(),
            opt_expr_view(r) == spec_parse_call(
                old(self).toks(),
                old(self).spec_pos(),
                old(self).errs(),
                function@,
                fuel as nat,
            ).expr,
            final(self).spec_pos() == spec_parse_call(
                old(self).toks(),
                old(self).spec_pos(),
                old(self).errs(),
                function@,
                fuel as nat,
            ).pos,
            final(self).errs() == spec_parse_call(
                old(self).toks(),
                old(self).spec_pos(),
                old(self).errs(),
                function@,
                fuel as nat,
            ).errs,
        decreases fuel,
    {
        if fuel == 0 {
            self.depth_error();
            return None;
        }
        let token = self.cur_token().clone();
        let arguments = self.parse_call_arguments(fuel - 1);
        Some(Expression::Call(CallExpression { token, function: Box::new(function), arguments }))
    }

    #[verifier::rlimit(60)]
    fn parse_call_arguments(&mut self, fuel: u64) -> (r: Vec<Expression>)
        requires
            old(self).wf(),
        ensures
            final(self).wf(),
            final(self).toks() == old(self).toks(),
            crate::ast::exprs_view(r@) == spec_parse_args(
                old(self).toks(),
                old(self).spec_pos(),
                old(self).errs(),
                fuel as nat,
            ).args,
            final(self).spec_pos() == spec_parse_args(
                old(self).toks(),
                old(self).spec_pos(),
                old(self).errs(),
                fuel as nat,
            ).pos,
            final(self).errs() == spec_parse_args(
                old(self).toks(),
                old(self).spec_pos(),
                old(self).errs(),
                fuel as nat,
            ).errs,
        decreases fuel,
    {
        let empty_start: Vec<Expression> = Vec::new();
        proof {
            assert(crate::ast::exprs_view(empty_start@) =~= Seq::<ExprV>::empty());
        }
        let mut args: Vec<Expression> = empty_start;
        if fuel == 0 {
            self.depth_error();
            let empty: Vec<Expression> = Vec::new();
            proof {
                assert(crate::ast::exprs_view(empty@) =~= Seq::<ExprV>::empty());
            }
            return empty;
        }
        if self.peek_token_is(TokenType::Rparen) {
            self.next_token();
            return args;
        }
        self.next_token();
        let a0 = match self.parse_expression(Precedence::Lowest, fuel - 1) {
            None => {
                let empty: Vec<Expression> = Vec::new();
                proof {
                    assert(crate::ast::exprs_view(empty@) =~= Seq::<ExprV>::empty());
                }
                return empty;
            },
            Some(v) => v,
        };
        proof {
            crate::ast::lemma_exprs_view_push(args@, a0);
        }
        args.push(a0);
        let mut lfuel: u64 = fuel - 1;
        proof {
            assert(crate::ast::exprs_view(args@) =~= seq![a0@]);
        }
        loop
            invariant
                self.wf(),
                self.toks() == old(self).toks(),
                lfuel < fuel,
                spec_parse_args(
                    old(self).toks(),
                    old(self).spec_pos(),
                    old(self).errs(),
                    fuel as nat,
                ) == spec_args_loop(
                    self.toks(),
                    self.spec_pos(),
                    self.errs(),
                    crate::ast::exprs_view(args@),
                    lfuel as nat,
                ),
            decreases lfuel,
        {
            if lfuel == 0 {
                self.depth_error();
                let empty: Vec<Expression> = Vec::new();
                proof {
                    assert(crate::ast::exprs_view(empty@) =~= Seq::<ExprV>::empty());
                }
                return empty;
            }
            if self.peek_token_is(TokenType::Comma) {
                self.next_token();
                self.next_token();
                let a = match self.parse_expression(Precedence::Lowest, lfuel - 1) {
                    None => {
                        let empty: Vec<Expression> = Vec::new();
                        proof {
                            assert(crate::ast::exprs_view(empty@) =~= Seq::<ExprV>::empty());
                        }
                        return empty;
                    },
                    Some(v) => v,
                };
                proof {
                    crate::ast::lemma_exprs_view_push(args@, a);
                }
                args.push(a);
                lfuel = lfuel - 1;
            } else {
                if !self.expect_peek(TokenType::Rparen) {
                    let empty: Vec<Expression> = Vec::new();
                    proof {
                        assert(crate::ast::exprs_view(empty@) =~= Seq::<ExprV>::empty());
                    }
                    return empty;
                }
                return args;
            }
        }
    }
}

} // verus!
verus! {

/// Parsing is idempotent and free of side effects on its input: it is
/// a pure function of the token stream, so parsing the same token
/// stream twice yields programs that render to identical text and
/// record identical error messages. Together with
/// [`Parser::parse_program`]'s contract, which pins each run to
/// [`spec_parse_program`] and leaves the token stream unchanged, this
/// covers any two runs over equal streams.
pub proof fn lemma_parse_idempotent(toks1: Seq<TokenV>, toks2: Seq<TokenV>)
    requires
        toks1 == toks2,
    ensures
        crate::ast::render_program(
            spec_parse_program(toks1, 0, Seq::empty(), Seq::empty(), PARSE_FUEL as nat).stmts,
        ) == crate::ast::render_program(
            spec_parse_program(toks2, 0, Seq::empty(), Seq::empty(), PARSE_FUEL as nat).stmts,
        ),
        spec_parse_program(toks1, 0, Seq::empty(), Seq::empty(), PARSE_FUEL as nat).errs
            == spec_parse_program(toks2, 0, Seq::empty(), Seq::empty(), PARSE_FUEL as nat).errs,
{
}

} // verus!
