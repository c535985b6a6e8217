//! Parser: recursive descent for statements, precedence climbing for
//! expressions. The first error ends the parse.
use vstd::prelude::*;

use crate::ast::{BinOp, Expr, Program, Stmt, UnaryOp};
use crate::chars::{alpha, blank, is_alphabetic, is_numeric, is_uppercase, num, upper};
use crate::lexer::{before, lemma_line_col_bounds, lemma_positions_increase, line_col, token_matches, trivia_end, Lexer};
use crate::symbols::{block_decls, block_texts, declaration_span, names, texts, texts_ok, SymbolTable};
use crate::text::{decimal, decimal_string};
use crate::token::{describe_token, token_text, Token};

verus! {

/// A parse failure, with the position where it was found.
#[derive(Debug, PartialEq)]
pub enum ParseError {
    UnexpectedToken { expected: String, found: Token, line: usize, column: usize },
    UnexpectedEOF { line: usize, column: usize },
    InvalidNumber(String),
    InvalidExpression { message: String, line: usize, column: usize },
    InvalidStatement { message: String, line: usize, column: usize },
    InvalidIdentifier { name: String, reason: String, line: usize, column: usize },
}

/// A token with where it starts and whether whitespace preceded it.
#[derive(Debug)]
pub struct Lexeme {
    pub token: Token,
    pub line: usize,
    pub column: usize,
    pub had_whitespace: bool,
}

/// A declaration name (after `Set`, `Func`, `Generator`, `Lazy`): it does
/// not start with a digit, and every character is an uppercase letter, a
/// digit or `_`.
pub open spec fn declaration_name(s: Seq<char>) -> bool {
    &&& s.len() > 0 ==> !num(s[0])
    &&& forall|k: int| 0 <= k < s.len() ==> upper(#[trigger] s[k]) || num(s[k]) || s[k] == '_'
}

/// A parameter or lambda binder name: it does not start with a digit, and
/// every character is a letter of either case, a digit or `_`.
pub open spec fn binder_name(s: Seq<char>) -> bool {
    &&& s.len() > 0 ==> !num(s[0])
    &&& forall|k: int| 0 <= k < s.len() ==> alpha(#[trigger] s[k]) || num(s[k]) || s[k] == '_'
}

/// A token stream as the scanner hands it over: it ends with `EOF`.
pub open spec fn stream_ok(t: Seq<Lexeme>) -> bool {
    t.len() >= 1 && t.last().token is EOF
}

/// The parse produced a value and stopped at a later token of the stream.
pub open spec fn advanced<A>(t: Seq<Lexeme>, i: int, r: Result<(A, usize), ParseError>) -> bool {
    r is Ok ==> i < r->Ok_0.1 < t.len()
}

/// The parse stopped at a token at or after `i`.
pub open spec fn kept_in<A>(t: Seq<Lexeme>, i: int, r: Result<(A, usize), ParseError>) -> bool {
    r is Ok ==> i <= r->Ok_0.1 < t.len()
}

/// Binding power of a token in infix position; zero where no infix form
/// exists.
pub open spec fn precedence(t: Token) -> u8 {
    match t {
        Token::Or => 1,
        Token::And => 2,
        Token::Equal | Token::NotEqual => 3,
        Token::Less | Token::LessEqual | Token::Greater | Token::GreaterEqual => 4,
        Token::Plus | Token::Minus => 5,
        Token::Multiply | Token::Divide | Token::Modulo => 6,
        Token::LeftParen => 8,
        Token::LeftBracket => 9,
        _ => 0,
    }
}

const LOWEST: u8 = 0;

const PREFIX: u8 = 7;

/// Binding power of `t` in infix position.
fn precedence_of(t: &Token) -> (r: u8)
    ensures
        r == precedence(*t),
{
    match t {
        Token::Or => 1,
        Token::And => 2,
        Token::Equal | Token::NotEqual => 3,
        Token::Less | Token::LessEqual | Token::Greater | Token::GreaterEqual => 4,
        Token::Plus | Token::Minus => 5,
        Token::Multiply | Token::Divide | Token::Modulo => 6,
        Token::LeftParen => 8,
        Token::LeftBracket => 9,
        _ => 0,
    }
}

/// The binary operator an infix token stands for.
pub open spec fn binop_of(t: Token) -> Option<BinOp> {
    match t {
        Token::Plus => Some(BinOp::Add),
        Token::Minus => Some(BinOp::Subtract),
        Token::Multiply => Some(BinOp::Multiply),
        Token::Divide => Some(BinOp::Divide),
        Token::Modulo => Some(BinOp::Modulo),
        Token::Equal => Some(BinOp::Equal),
        Token::NotEqual => Some(BinOp::NotEqual),
        Token::Less => Some(BinOp::Less),
        Token::LessEqual => Some(BinOp::LessEqual),
        Token::Greater => Some(BinOp::Greater),
        Token::GreaterEqual => Some(BinOp::GreaterEqual),
        Token::And => Some(BinOp::And),
        Token::Or => Some(BinOp::Or),
        _ => None,
    }
}

/// A copy of `t`.
fn copy_token(t: &Token) -> (r: Token)
    ensures
        r == *t,
{
    match t {
        Token::Number(s) => Token::Number(s.clone()),
        Token::BigInteger(s) => Token::BigInteger(s.clone()),
        Token::String(s) => Token::String(s.clone()),
        Token::Identifier(s) => Token::Identifier(s.clone()),
        Token::Boolean(b) => Token::Boolean(*b),
        Token::Illegal(c) => Token::Illegal(*c),
        Token::SetKw => Token::SetKw,
        Token::Func => Token::Func,
        Token::Return => Token::Return,
        Token::If => Token::If,
        Token::Elif => Token::Elif,
        Token::Else => Token::Else,
        Token::While => Token::While,
        Token::For => Token::For,
        Token::In => Token::In,
        Token::Break => Token::Break,
        Token::Continue => Token::Continue,
        Token::Generator => Token::Generator,
        Token::Yield => Token::Yield,
        Token::Lazy => Token::Lazy,
        Token::Force => Token::Force,
        Token::Switch => Token::Switch,
        Token::Case => Token::Case,
        Token::Default => Token::Default,
        Token::Import => Token::Import,
        Token::Export => Token::Export,
        Token::From => Token::From,
        Token::As => Token::As,
        Token::Lambda => Token::Lambda,
        Token::Throw => Token::Throw,
        Token::Try => Token::Try,
        Token::Catch => Token::Catch,
        Token::Null => Token::Null,
        Token::Plus => Token::Plus,
        Token::Minus => Token::Minus,
        Token::Multiply => Token::Multiply,
        Token::Divide => Token::Divide,
        Token::Modulo => Token::Modulo,
        Token::Assign => Token::Assign,
        Token::Equal => Token::Equal,
        Token::NotEqual => Token::NotEqual,
        Token::Greater => Token::Greater,
        Token::GreaterEqual => Token::GreaterEqual,
        Token::Less => Token::Less,
        Token::LessEqual => Token::LessEqual,
        Token::And => Token::And,
        Token::Or => Token::Or,
        Token::Not => Token::Not,
        Token::Arrow => Token::Arrow,
        Token::LeftParen => Token::LeftParen,
        Token::RightParen => Token::RightParen,
        Token::LeftBracket => Token::LeftBracket,
        Token::RightBracket => Token::RightBracket,
        Token::LeftBrace => Token::LeftBrace,
        Token::RightBrace => Token::RightBrace,
        Token::Comma => Token::Comma,
        Token::Colon => Token::Colon,
        Token::Semicolon => Token::Semicolon,
        Token::Newline => Token::Newline,
        Token::EOF => Token::EOF,
    }
}

/// Why `name` is refused: it starts with a digit, or (for a binder) holds a
/// character other than a letter, digit or `_`, or (for a declaration) one
/// other than an uppercase letter, digit or `_`.
pub open spec fn name_reason(name: Seq<char>, is_param: bool) -> Seq<char> {
    if name.len() > 0 && num(name[0]) {
        "标识符不能以数字开头"@
    } else if is_param {
        "参数名只能包含字母、数字和下划线"@
    } else {
        "变量名和函数名必须使用全大写字母和下划线（例如：MY_VAR, CALCULATE_SUM）"@
    }
}

/// Check a declared name (`is_param == false`) or a binder name
/// (`is_param == true`); the error carries the name and the given position.
pub fn validate_identifier(name: &String, is_param: bool, line: usize, column: usize) -> (r: Result<
    (),
    ParseError,
>)
    ensures
        r is Ok <==> (if is_param {
            binder_name(name@)
        } else {
            declaration_name(name@)
        }),
        r matches Err(ParseError::InvalidIdentifier { name: n, line: l, column: c, reason }) ==> n@
            == name@ && l == line && c == column && reason@ == name_reason(name@, is_param),
        r is Err ==> r->Err_0 is InvalidIdentifier,
        r is Err ==> error_position(r->Err_0) == (line, column),
{
    let s = name.as_str();
    let n = s.unicode_len();
    if n > 0 && is_numeric(s.get_char(0)) {
        return Err(
            ParseError::InvalidIdentifier {
                name: name.clone(),
                reason: "标识符不能以数字开头".to_string(),
                line,
                column,
            },
        );
    }
    let mut i: usize = 0;
    while i < n
        invariant
            n == name@.len(),
            s@ == name@,
            i <= n,
            n > 0 ==> !num(name@[0]),
            forall|k: int|
                0 <= k < i ==> (if is_param {
                    alpha(#[trigger] name@[k]) || num(name@[k]) || name@[k] == '_'
                } else {
                    upper(name@[k]) || num(name@[k]) || name@[k] == '_'
                }),
        decreases n - i,
    {
        let c = s.get_char(i);
        let ok = if is_param {
            c == '_' || is_alphabetic(c) || is_numeric(c)
        } else {
            c == '_' || is_uppercase(c) || is_numeric(c)
        };
        if !ok {
            let reason = if is_param {
                "参数名只能包含字母、数字和下划线".to_string()
            } else {
                "变量名和函数名必须使用全大写字母和下划线（例如：MY_VAR, CALCULATE_SUM）".to_string()
            };
            return Err(ParseError::InvalidIdentifier { name: name.clone(), reason, line, column });
        }
        i = i + 1;
    }
    Ok(())
}

/// The error's position is where some token of `t` starts.
pub open spec fn at_token(t: Seq<Lexeme>, e: ParseError) -> bool {
    exists|k: int| 0 <= k < t.len() && error_position(e) == (#[trigger] t[k].line, t[k].column)
}

/// Closing and separating tokens that the grammar asks for by name.
#[derive(Clone, Copy)]
enum Delim {
    LeftParen,
    RightParen,
    LeftBrace,
    RightBrace,
    RightBracket,
    Colon,
    In,
    From,
    Arrow,
}

spec fn is_delim(t: Token, d: Delim) -> bool {
    match d {
        Delim::LeftParen => t is LeftParen,
        Delim::RightParen => t is RightParen,
        Delim::LeftBrace => t is LeftBrace,
        Delim::RightBrace => t is RightBrace,
        Delim::RightBracket => t is RightBracket,
        Delim::Colon => t is Colon,
        Delim::In => t is In,
        Delim::From => t is From,
        Delim::Arrow => t is Arrow,
    }
}

/// The index of the token after `i`; the final `EOF` is never passed.
fn step(toks: &Vec<Lexeme>, i: usize) -> (j: usize)
    requires
        stream_ok(toks@),
        i < toks@.len(),
    ensures
        i <= j < toks@.len(),
        !(toks@[i as int].token is EOF) ==> j == i + 1,
{
    if i < toks.len() - 1 {
        i + 1
    } else {
        i
    }
}

/// The first token at or after `i` that is not a newline.
pub open spec fn skip_nl(t: Seq<Lexeme>, i: int) -> int
    decreases t.len() - i,
{
    if 0 <= i < t.len() - 1 && t[i].token is Newline {
        skip_nl(t, i + 1)
    } else {
        i
    }
}

/// Skip newline tokens.
fn skip_newlines(toks: &Vec<Lexeme>, i: usize) -> (j: usize)
    requires
        stream_ok(toks@),
        i < toks@.len(),
    ensures
        i <= j < toks@.len(),
        !(toks@[j as int].token is Newline),
        !(toks@[i as int].token is Newline) ==> j == i,
        j == skip_nl(toks@, i as int),
{
    let mut j = i;
    while matches!(toks[j].token, Token::Newline)
        invariant
            stream_ok(toks@),
            i <= j < toks@.len(),
            !(toks@[i as int].token is Newline) ==> j == i,
            skip_nl(toks@, j as int) == skip_nl(toks@, i as int),
        decreases toks@.len() - j,
    {
        j = step(toks, j);
    }
    j
}

/// Where a statement that ends before token `j` stops: past one newline or
/// `;` there.
pub open spec fn after_end(t: Seq<Lexeme>, j: int) -> int {
    if 0 <= j < t.len() && (t[j].token is Newline || t[j].token is Semicolon) && j + 1 < t.len() {
        j + 1
    } else {
        j
    }
}

/// Consume an optional statement terminator (newline or `;`).
fn end_statement(toks: &Vec<Lexeme>, i: usize) -> (j: usize)
    requires
        stream_ok(toks@),
        i < toks@.len(),
    ensures
        i <= j < toks@.len(),
        j == after_end(toks@, i as int),
{
    if matches!(toks[i].token, Token::Newline) || matches!(toks[i].token, Token::Semicolon) {
        step(toks, i)
    } else {
        i
    }
}

/// The error for finding token `i` where `expected` was due.
fn unexpected(toks: &Vec<Lexeme>, i: usize, expected: &str) -> (e: ParseError)
    requires
        i < toks@.len(),
    ensures
        e is UnexpectedToken,
        error_position(e) == (toks@[i as int].line, toks@[i as int].column),
{
    ParseError::UnexpectedToken {
        expected: expected.to_string(),
        found: copy_token(&toks[i].token),
        line: toks[i].line,
        column: toks[i].column,
    }
}

/// Consume the token `d`, or fail.
fn expect(toks: &Vec<Lexeme>, i: usize, d: Delim) -> (r: Result<usize, ParseError>)
    requires
        stream_ok(toks@),
        i < toks@.len(),
    ensures
        r is Err ==> at_token(toks@, r->Err_0),
        r is Ok <==> is_delim(toks@[i as int].token, d),
        r is Ok ==> r->Ok_0 == i + 1 && r->Ok_0 < toks@.len(),
        r is Err ==> r->Err_0 is UnexpectedToken,
{
    let t = &toks[i].token;
    let (ok, name) = match d {
        Delim::LeftParen => (matches!(t, Token::LeftParen), "LeftParen"),
        Delim::RightParen => (matches!(t, Token::RightParen), "RightParen"),
        Delim::LeftBrace => (matches!(t, Token::LeftBrace), "LeftBrace"),
        Delim::RightBrace => (matches!(t, Token::RightBrace), "RightBrace"),
        Delim::RightBracket => (matches!(t, Token::RightBracket), "RightBracket"),
        Delim::Colon => (matches!(t, Token::Colon), "Colon"),
        Delim::In => (matches!(t, Token::In), "In"),
        Delim::From => (matches!(t, Token::From), "From"),
        Delim::Arrow => (matches!(t, Token::Arrow), "Arrow"),
    };
    if ok {
        Ok(step(toks, i))
    } else {
        Err(unexpected(toks, i, name))
    }
}

/// The text of identifier token `i`, or an error naming what was due.
fn identifier_at(toks: &Vec<Lexeme>, i: usize) -> (r: Result<String, ParseError>)
    requires
        i < toks@.len(),
    ensures
        r is Err ==> at_token(toks@, r->Err_0),
        r is Ok <==> toks@[i as int].token is Identifier,
        r is Ok ==> r->Ok_0 == toks@[i as int].token->Identifier_0,
        r is Err ==> r->Err_0 is UnexpectedToken,
{
    match &toks[i].token {
        Token::Identifier(n) => Ok(n.clone()),
        _ => Err(unexpected(toks, i, "identifier")),
    }
}

/// Every declaration in `s` and in everything nested in it carries a valid
/// name: `Set`, `Func`, `Generator` and `Lazy` names are declaration names,
/// and parameters and lambda binders are binder names.
pub open spec fn stmt_well_named(s: Stmt) -> bool
    decreases s, 0nat,
{
    match s {
        Stmt::SetVar { name, value } => declaration_name(name@) && expr_well_named(value),
        Stmt::SetIndex { object, index, value } => expr_well_named(*object) && expr_well_named(
            *index,
        ) && expr_well_named(value),
        Stmt::FuncDef { name, params, body } => declaration_name(name@) && all_binders(params@)
            && block_well_named(body@),
        Stmt::GeneratorDef { name, params, body } => declaration_name(name@) && all_binders(
            params@,
        ) && block_well_named(body@),
        Stmt::LazyDef { name, expr } => declaration_name(name@) && expr_well_named(expr),
        Stmt::Return(e) => expr_well_named(e),
        Stmt::Yield(e) => expr_well_named(e),
        Stmt::Throw(e) => expr_well_named(e),
        Stmt::Expression(e) => expr_well_named(e),
        Stmt::While { condition, body } => expr_well_named(condition) && block_well_named(body@),
        Stmt::For { iterable, body, .. } => expr_well_named(iterable) && block_well_named(body@),
        Stmt::ForIndexed { iterable, body, .. } => expr_well_named(iterable) && block_well_named(
            body@,
        ),
        Stmt::Switch { expr, cases, default } => expr_well_named(expr) && branches_well_named(
            cases@,
        ) && match default {
            Some(d) => block_well_named(d@),
            None => true,
        },
        _ => true,
    }
}

/// Every statement of `b` is well named.
pub open spec fn block_well_named(b: Seq<Stmt>) -> bool
    decreases b, 0nat,
{
    b.len() > 0 ==> block_well_named(b.drop_last()) && stmt_well_named(b.last())
}

/// Every condition and body of `c` is well named.
pub open spec fn branches_well_named(c: Seq<(Expr, Vec<Stmt>)>) -> bool
    decreases c, 0nat,
{
    c.len() > 0 ==> branches_well_named(c.drop_last()) && expr_well_named(c.last().0)
        && block_well_named(c.last().1@)
}

/// Every expression of `v` is well named.
pub open spec fn exprs_well_named(v: Seq<Expr>) -> bool
    decreases v, 0nat,
{
    v.len() > 0 ==> exprs_well_named(v.drop_last()) && expr_well_named(v.last())
}

/// Every value of `v` is well named.
pub open spec fn pairs_well_named(v: Seq<(String, Expr)>) -> bool
    decreases v, 0nat,
{
    v.len() > 0 ==> pairs_well_named(v.drop_last()) && expr_well_named(v.last().1)
}

/// Every declaration nested in `e` carries a valid name.
pub open spec fn expr_well_named(e: Expr) -> bool
    decreases e, 0nat,
{
    match e {
        Expr::Array(v) => exprs_well_named(v@),
        Expr::Dict(v) => pairs_well_named(v@),
        Expr::Binary { left, right, .. } => expr_well_named(*left) && expr_well_named(*right),
        Expr::Unary { expr, .. } => expr_well_named(*expr),
        Expr::Call { func, args } => expr_well_named(*func) && exprs_well_named(args@),
        Expr::Index { object, index } => expr_well_named(*object) && expr_well_named(*index),
        Expr::If { condition, then_branch, elif_branches, else_branch } => expr_well_named(
            *condition,
        ) && block_well_named(then_branch@) && branches_well_named(elif_branches@)
            && match else_branch {
            Some(b) => block_well_named(b@),
            None => true,
        },
        Expr::Lambda { params, body } => all_binders(params@) && block_well_named(body@),
        _ => true,
    }
}

/// Where the statement after the one at token `i` starts.
pub open spec fn prog_next(t: Seq<Lexeme>, i: int) -> int {
    skip_nl(t, top_end(t, i))
}

/// From token `i` on: statements whose trees are fixed by their tokens,
/// separated by newlines, up to the end of input.
pub open spec fn program_ok(t: Seq<Lexeme>, i: int) -> bool
    decreases t.len() - i,
{
    &&& 0 <= i < t.len()
    &&& (t[i].token is EOF || (top_known(t, i) && i < prog_next(t, i) < t.len() && program_ok(
        t,
        prog_next(t, i),
    )))
}

/// Where the statements from token `i` start, in order.
pub open spec fn program_starts(t: Seq<Lexeme>, i: int) -> Seq<int>
    decreases t.len() - i,
{
    if 0 <= i < t.len() && !(t[i].token is EOF) && i < prog_next(t, i) < t.len() {
        seq![i] + program_starts(t, prog_next(t, i))
    } else {
        Seq::empty()
    }
}

/// What parsing the token stream `t` as a program gives, as far as it is
/// fixed here: a well-named tree whose first statement has the kind its first
/// token opens; an empty program for an empty stream; the one statement of a
/// stream of known statements; the invalid-identifier error,
/// naming it, for a program that opens with a badly named declaration.
pub open spec fn program_outcome(t: Seq<Lexeme>, r: Result<Program, ParseError>) -> bool {
    &&& r matches Ok(p) ==> block_well_named(p@)
    &&& r matches Ok(p) ==> (!(t[0].token is Newline) && !(t[0].token is EOF) ==> p@.len() > 0
        && leads_with(t, 0, p@[0]))
    &&& t[0].token is EOF ==> (r matches Ok(p) && p@.len() == 0)
    &&& program_ok(t, skip_nl(t, 0)) ==> (r matches Ok(p) && p@.len() == program_starts(
        t,
        skip_nl(t, 0),
    ).len() && forall|k: int|
        0 <= k < p@.len() ==> is_top_stmt(t, program_starts(t, skip_nl(t, 0))[k], #[trigger] p@[k]))
    &&& bad_declaration(t, 0) ==> (r matches Err(e) && names_bad_identifier(t, 0, e))
    &&& r is Err ==> at_token(t, r->Err_0)
}

/// A whole program: statements up to the end of input.
fn parse_statements(toks: &Vec<Lexeme>) -> (r: Result<Program, ParseError>)
    requires
        stream_ok(toks@),
    ensures
        r is Err ==> at_token(toks@, r->Err_0),
        program_outcome(toks@, r),
{
    let mut statements: Vec<Stmt> = Vec::new();
    let mut i = skip_newlines(toks, 0);
    let ghost first = i;
    let ghost mut done: Seq<int> = Seq::empty();
    proof {
        assert(done + program_starts(toks@, i as int) =~= program_starts(toks@, i as int));
    }
    while !matches!(toks[i].token, Token::EOF)
        invariant
            first == skip_nl(toks@, 0),
            program_ok(toks@, first as int) ==> {
                &&& program_ok(toks@, i as int)
                &&& done + program_starts(toks@, i as int) == program_starts(toks@, first as int)
                &&& statements@.len() == done.len()
                &&& forall|k: int|
                    0 <= k < done.len() ==> is_top_stmt(toks@, done[k], #[trigger] statements@[k])
            },
            bad_declaration(toks@, 0) ==> statements@.len() == 0 && i == 0,
            toks@[0].token is EOF ==> statements@.len() == 0 && i == 0,
            statements@.len() > 0 ==> leads_with(toks@, first as int, statements@[0]),
            statements@.len() == 0 ==> i == first,
            !(toks@[0].token is Newline) ==> first == 0,
            block_well_named(statements@),
            stream_ok(toks@),
            i < toks@.len(),
        decreases toks@.len() - i,
    {
        let (stmt, j) = match parse_statement(toks, i) {
            Ok(v) => v,
            Err(e) => {
                return Err(e);
            },
        };
        let ghost prev = statements@;
        let ghost i0 = i;
        statements.push(stmt);
        proof {
            assert(statements@.drop_last() =~= prev);
            if prev.len() == 0 {
                assert(statements@ =~= seq![stmt]);
            }
        }
        i = skip_newlines(toks, j);
        proof {
            if program_ok(toks@, first as int) {
                let t = toks@;
                assert(program_starts(t, i0 as int) == seq![i0 as int] + program_starts(t, i as int));
                assert(done.push(i0 as int) + program_starts(t, i as int) =~= done + program_starts(
                    t,
                    i0 as int,
                ));
                assert forall|k: int| 0 <= k < done.len() + 1 implies is_top_stmt(
                    t,
                    done.push(i0 as int)[k],
                    #[trigger] statements@[k],
                ) by {
                    if k < done.len() {
                        assert(statements@[k] == prev[k]);
                    }
                }
            }
            done = done.push(i0 as int);
        }
    }
    proof {
        if toks@[0].token is EOF {
            assert(first == 0);
        }
        if program_ok(toks@, first as int) {
            assert(program_starts(toks@, i as int) == Seq::<int>::empty());
            assert(done =~= program_starts(toks@, first as int));
        }
    }
    Ok(statements)
}

/// Where the statement after the known statement at token `i` starts.
pub open spec fn block_next(t: Seq<Lexeme>, i: int) -> int {
    skip_nl(t, stmt_end(t, i))
}

/// From token `i` on: known statements separated by newlines, up to `}`.
pub open spec fn block_from(t: Seq<Lexeme>, i: int) -> bool
    decreases t.len() - i,
{
    &&& 0 <= i < t.len()
    &&& (t[i].token is RightBrace || (stmt_known(t, i) && i < block_next(t, i) < t.len()
        && block_from(t, block_next(t, i))))
}

/// Where the statements of the block from token `i` start, in order.
pub open spec fn block_starts(t: Seq<Lexeme>, i: int) -> Seq<int>
    decreases t.len() - i,
{
    if 0 <= i < t.len() && !(t[i].token is RightBrace) && i < block_next(t, i) < t.len() {
        seq![i] + block_starts(t, block_next(t, i))
    } else {
        Seq::empty()
    }
}

/// The `}` that ends the block from token `i`.
pub open spec fn block_close_from(t: Seq<Lexeme>, i: int) -> int
    decreases t.len() - i,
{
    if 0 <= i < t.len() && !(t[i].token is RightBrace) && i < block_next(t, i) < t.len() {
        block_close_from(t, block_next(t, i))
    } else {
        i
    }
}

/// From token `i` on: newlines, then known statements separated by
/// newlines, up to `}`.
pub open spec fn known_block(t: Seq<Lexeme>, i: int) -> bool {
    0 <= i < t.len() && block_from(t, skip_nl(t, i))
}

/// The `}` that closes the block from token `i`.
pub open spec fn block_close(t: Seq<Lexeme>, i: int) -> int {
    block_close_from(t, skip_nl(t, i))
}

/// `b` holds the statements of the block from token `i`, in order.
pub open spec fn block_body(t: Seq<Lexeme>, i: int, b: Seq<Stmt>) -> bool {
    &&& b.len() == block_starts(t, skip_nl(t, i)).len()
    &&& forall|k: int|
        0 <= k < b.len() ==> is_known_stmt(t, block_starts(t, skip_nl(t, i))[k], #[trigger] b[k])
}

/// From token `i` on: newlines, then `{`, a known block and `}`.
pub open spec fn known_braced(t: Seq<Lexeme>, i: int) -> bool {
    &&& 0 <= skip_nl(t, i) && skip_nl(t, i) + 1 < t.len()
    &&& t[skip_nl(t, i)].token is LeftBrace
    &&& known_block(t, skip_nl(t, i) + 1)
}

/// `body` is the body of the braced block from token `i`.
pub open spec fn braced_body(t: Seq<Lexeme>, i: int, body: Seq<Stmt>) -> bool {
    block_body(t, skip_nl(t, i) + 1, body)
}

/// Where the braced block from token `i` ends: past its `}`.
pub open spec fn braced_end(t: Seq<Lexeme>, i: int) -> int {
    block_close(t, skip_nl(t, i) + 1) + 1
}

/// Statements up to a closing `}` or the end of input.
fn parse_block(toks: &Vec<Lexeme>, i: usize) -> (r: Result<(Vec<Stmt>, usize), ParseError>)
    requires
        stream_ok(toks@),
        i < toks@.len(),
    ensures
        known_block(toks@, i as int) ==> (r matches Ok((b, w)) && block_body(toks@, i as int, b@)
            && w == block_close(toks@, i as int) && toks@[w as int].token is RightBrace),
        r is Err ==> at_token(toks@, r->Err_0),
        toks@[i as int].token is RightBrace ==> (r matches Ok((b, w)) && b@.len() == 0 && w == i),
        r matches Ok((b, _)) ==> block_well_named(b@),
        kept_in(toks@, i as int, r),
        r is Ok ==> (toks@[r->Ok_0.1 as int].token is RightBrace || toks@[r->Ok_0.1 as int].token is EOF),
    decreases toks@.len() - i, 6nat,
{
    let mut statements: Vec<Stmt> = Vec::new();
    let mut j = skip_newlines(toks, i);
    let ghost mut done: Seq<int> = Seq::empty();
    proof {
        assert(done + block_starts(toks@, j as int) =~= block_starts(toks@, j as int));
    }
    while !matches!(toks[j].token, Token::RightBrace) && !matches!(toks[j].token, Token::EOF)
        invariant
            known_block(toks@, i as int) ==> {
                &&& block_from(toks@, j as int)
                &&& done + block_starts(toks@, j as int) == block_starts(toks@, skip_nl(toks@, i as int))
                &&& block_close_from(toks@, j as int) == block_close(toks@, i as int)
                &&& statements@.len() == done.len()
                &&& forall|k: int|
                    0 <= k < done.len() ==> is_known_stmt(toks@, done[k], #[trigger] statements@[k])
            },
            toks@[i as int].token is RightBrace ==> j == i && statements@.len() == 0,
            block_well_named(statements@),
            stream_ok(toks@),
            i <= j < toks@.len(),
        decreases toks@.len() - j,
    {
        let ghost j0 = j;
        let (stmt, k) = parse_statement(toks, j)?;
        let ghost prev = statements@;
        statements.push(stmt);
        proof {
            assert(statements@.drop_last() =~= prev);
        }
        j = skip_newlines(toks, k);
        proof {
            if known_block(toks@, i as int) {
                let t = toks@;
                assert(block_starts(t, j0 as int) == seq![j0 as int] + block_starts(t, j as int));
                assert(done.push(j0 as int) + block_starts(t, j as int) =~= done + block_starts(
                    t,
                    j0 as int,
                ));
                assert forall|m: int| 0 <= m < done.len() + 1 implies is_known_stmt(
                    t,
                    done.push(j0 as int)[m],
                    #[trigger] statements@[m],
                ) by {
                    if m < done.len() {
                        assert(statements@[m] == prev[m]);
                    }
                }
            }
            done = done.push(j0 as int);
        }
    }
    proof {
        if known_block(toks@, i as int) {
            assert(block_from(toks@, j as int));
            assert(toks@[j as int].token is RightBrace);
            assert(block_starts(toks@, j as int) == Seq::<int>::empty());
            assert(done =~= block_starts(toks@, skip_nl(toks@, i as int)));
        }
    }
    Ok((statements, j))
}

/// `{ statements }`, after optional newlines.
fn parse_braced(toks: &Vec<Lexeme>, i: usize) -> (r: Result<(Vec<Stmt>, usize), ParseError>)
    requires
        stream_ok(toks@),
        i < toks@.len(),
    ensures
        known_braced(toks@, i as int) ==> (r matches Ok((b, w)) && braced_body(
            toks@,
            i as int,
            b@,
        ) && w == braced_end(toks@, i as int)),
        r is Err ==> at_token(toks@, r->Err_0),
        i + 1 < toks@.len() && toks@[i as int].token is LeftBrace && toks@[i + 1].token is RightBrace
            ==> (r matches Ok((b, w)) && b@.len() == 0 && w == i + 2),
        r matches Ok((b, _)) ==> block_well_named(b@),
        advanced(toks@, i as int, r),
    decreases toks@.len() - i, 7nat,
{
    let j = skip_newlines(toks, i);
    let j = expect(toks, j, Delim::LeftBrace)?;
    let (body, k) = parse_block(toks, j)?;
    let k = expect(toks, k, Delim::RightBrace)?;
    Ok((body, k))
}

/// The kind of statement that a statement's first token opens.
pub open spec fn opens(t: Token, st: Stmt) -> bool {
    match t {
        Token::SetKw => st is SetVar || st is SetIndex,
        Token::Func => st is FuncDef,
        Token::Generator => st is GeneratorDef,
        Token::Lazy => st is LazyDef,
        Token::Return => st is Return,
        Token::Yield => st is Yield,
        Token::Break => st is Break,
        Token::Continue => st is Continue,
        Token::While => st is While,
        Token::For => st is For || st is ForIndexed,
        Token::Switch => st is Switch,
        Token::Import => st is Import,
        Token::Export => st is Export,
        Token::Throw => st is Throw,
        _ => st is Expression,
    }
}

/// What a statement opened by `Set` at token `i` is: a value assignment,
/// unless `[` follows the name with no whitespace before it, which makes an
/// index assignment.
pub open spec fn set_shape(t: Seq<Lexeme>, i: int, st: Stmt) -> bool {
    t[i].token is SetKw ==> {
        ||| st is SetVar && (t[i + 2].token is LeftBracket ==> t[i + 2].had_whitespace)
        ||| st is SetIndex && t[i + 2].token is LeftBracket && !t[i + 2].had_whitespace
    }
}

/// The first statement of a program whose first token `t[i]` is not a
/// newline has the kind that token opens, and a `Set` follows the spacing
/// rule.
pub open spec fn leads_with(t: Seq<Lexeme>, i: int, st: Stmt) -> bool {
    opens(t[i].token, st) && set_shape(t, i, st)
}

/// Tokens `i..i+6` are `Set NAME[atom] atom` with a valid name and no
/// whitespace before the `[`, and the next token starts no infix form.
pub open spec fn set_index_line(t: Seq<Lexeme>, i: int) -> bool {
    &&& 0 <= i && i + 6 < t.len()
    &&& t[i].token is SetKw
    &&& t[i + 1].token is Identifier
    &&& declaration_name(ident_text(t[i + 1].token))
    &&& t[i + 2].token is LeftBracket && !t[i + 2].had_whitespace
    &&& is_atom(t[i + 3].token)
    &&& t[i + 4].token is RightBracket
    &&& is_atom(t[i + 5].token)
    &&& precedence(t[i + 6].token) == 0
}

/// Tokens from `i` are `Set NAME e` with a valid name and a known
/// expression `e` (plain or a call), which does not open with `[`.
pub open spec fn set_plain(t: Seq<Lexeme>, i: int) -> bool {
    &&& 0 <= i && i + 2 < t.len()
    &&& t[i].token is SetKw
    &&& t[i + 1].token is Identifier
    &&& declaration_name(ident_text(t[i + 1].token))
    &&& expr_known(t, i + 2)
}

/// Tokens from `i` are `Set NAME [atoms]` with a valid name and whitespace
/// before the `[`.
pub open spec fn set_array(t: Seq<Lexeme>, i: int) -> bool {
    &&& 0 <= i && i + 2 < t.len()
    &&& t[i].token is SetKw
    &&& t[i + 1].token is Identifier
    &&& declaration_name(ident_text(t[i + 1].token))
    &&& t[i + 2].had_whitespace
    &&& array_at(t, i + 2, 0)
}

/// A statement whose whole tree is fixed by its tokens alone starts at
/// token `i`: `Set NAME e` for a plain expression `e`, `Set NAME [atoms]`,
/// `Set NAME[atom] atom`, a plain expression, or a call `f(atoms)`.
pub open spec fn stmt_known(t: Seq<Lexeme>, i: int) -> bool {
    ||| set_plain(t, i)
    ||| set_array(t, i)
    ||| set_index_line(t, i)
    ||| (0 <= i < t.len() && (is_atom(t[i].token) || t[i].token is LeftParen) && plain_at(t, i, 0))
    ||| call_at(t, i, 0)
    ||| return_plain(t, i)
}

/// Tokens from `i` are `Return e` for a known expression `e`.
pub open spec fn return_plain(t: Seq<Lexeme>, i: int) -> bool {
    &&& 0 <= i && i + 1 < t.len()
    &&& t[i].token is Return
    &&& expr_known(t, i + 1)
}

/// `st` is the known statement at token `i`.
pub open spec fn is_known_stmt(t: Seq<Lexeme>, i: int, st: Stmt) -> bool {
    if set_plain(t, i) {
        st matches Stmt::SetVar { name, value } && name == t[i + 1].token->Identifier_0
            && is_known_expr(t, i + 2, value)
    } else if set_array(t, i) {
        st matches Stmt::SetVar { name, value: Expr::Array(v) } && name == t[i + 1].token->Identifier_0
            && v@ == atom_list(t, i + 3)
    } else if set_index_line(t, i) {
        st == Stmt::SetIndex {
            object: Box::new(Expr::Identifier(t[i + 1].token->Identifier_0)),
            index: Box::new(atom_expr(t[i + 3].token)),
            value: atom_expr(t[i + 5].token),
        }
    } else if call_at(t, i, 0) {
        st matches Stmt::Expression(Expr::Call { func: f, args }) && *f == atom_expr(t[i].token)
            && args@ == atom_list(t, i + 2)
    } else if return_plain(t, i) {
        st matches Stmt::Return(e) && is_known_expr(t, i + 1, e)
    } else {
        st == Stmt::Expression(plain_expr(t, i, 0))
    }
}

/// Where the known statement at token `i` stops (past one newline or `;`).
pub open spec fn stmt_end(t: Seq<Lexeme>, i: int) -> int {
    if set_plain(t, i) {
        after_end(t, expr_end(t, i + 2))
    } else if set_array(t, i) {
        after_end(t, atom_list_end(t, i + 3) + 1)
    } else if set_index_line(t, i) {
        after_end(t, i + 6)
    } else if call_at(t, i, 0) {
        after_end(t, atom_list_end(t, i + 2) + 1)
    } else if return_plain(t, i) {
        after_end(t, expr_end(t, i + 1))
    } else {
        after_end(t, plain_end(t, i, 0))
    }
}

/// `For V In e { s }` from token `i`: a known iterable and a one-statement
/// body.
pub open spec fn for_at(t: Seq<Lexeme>, i: int) -> bool {
    &&& 0 <= i && i + 3 < t.len()
    &&& t[i].token is For
    &&& t[i + 1].token is Identifier
    &&& t[i + 2].token is In
    &&& expr_known(t, i + 3)
    &&& known_braced(t, expr_end(t, i + 3))
}

/// `For I, V In e { s }` from token `i`.
pub open spec fn for_indexed_at(t: Seq<Lexeme>, i: int) -> bool {
    &&& 0 <= i && i + 5 < t.len()
    &&& t[i].token is For
    &&& t[i + 1].token is Identifier
    &&& t[i + 2].token is Comma
    &&& t[i + 3].token is Identifier
    &&& t[i + 4].token is In
    &&& expr_known(t, i + 5)
    &&& known_braced(t, expr_end(t, i + 5))
}

/// `Func NAME (params) { s }` (or `Generator`) from token `i`, with a valid
/// name, valid parameters and a one-statement body.
pub open spec fn func_at(t: Seq<Lexeme>, i: int) -> bool {
    &&& 0 <= i && i + 3 < t.len()
    &&& (t[i].token is Func || t[i].token is Generator)
    &&& t[i + 1].token is Identifier
    &&& declaration_name(ident_text(t[i + 1].token))
    &&& t[i + 2].token is LeftParen
    &&& params_ok(t, i + 3)
    &&& 0 <= params_end(t, i + 3) < t.len()
    &&& t[params_end(t, i + 3)].token is RightParen
    &&& known_braced(t, params_end(t, i + 3) + 1)
}

/// `Import { items } From "path"` from token `i`, with no newlines in the
/// list.
pub open spec fn import_braced_at(t: Seq<Lexeme>, i: int) -> bool {
    &&& 0 <= i && i + 2 < t.len()
    &&& t[i].token is Import
    &&& t[i + 1].token is LeftBrace
    &&& !(t[i + 2].token is Newline)
    &&& import_items_ok(t, i + 2)
    &&& import_items_end(t, i + 2) + 2 < t.len()
    &&& t[import_items_end(t, i + 2) + 1].token is From
    &&& t[import_items_end(t, i + 2) + 2].token is String
}

/// A statement whose tree is fixed by its tokens: a known flat statement, a
/// function or generator definition, a `For` loop, a `Switch`, a braced
/// `Import`, or a conditional expression statement, each body holding one
/// known statement.
pub open spec fn top_known(t: Seq<Lexeme>, i: int) -> bool {
    ||| stmt_known(t, i)
    ||| func_at(t, i)
    ||| for_at(t, i)
    ||| for_indexed_at(t, i)
    ||| switch_at(t, i)
    ||| import_braced_at(t, i)
    ||| (if_else_at(t, i) && 0 <= if_else_end(t, i) < t.len() && precedence(
        t[if_else_end(t, i)].token,
    ) == 0)
}

/// `st` is the statement at token `i`.
pub open spec fn is_top_stmt(t: Seq<Lexeme>, i: int, st: Stmt) -> bool {
    if stmt_known(t, i) {
        is_known_stmt(t, i, st)
    } else if func_at(t, i) {
        let pe = params_end(t, i + 3) + 1;
        if t[i].token is Func {
            st matches Stmt::FuncDef { name, params, body } && name == t[i + 1].token->Identifier_0
                && params@ == params_of(t, i + 3) && braced_body(t, pe, body@)
        } else {
            st matches Stmt::GeneratorDef { name, params, body } && name == t[i
                + 1].token->Identifier_0 && params@ == params_of(t, i + 3) && braced_body(
                t,
                pe,
                body@,
            )
        }
    } else if for_at(t, i) {
        st matches Stmt::For { var, iterable, body } && var == t[i + 1].token->Identifier_0
            && is_known_expr(t, i + 3, iterable) && braced_body(t, expr_end(t, i + 3), body@)
    } else if for_indexed_at(t, i) {
        st matches Stmt::ForIndexed { index_var, value_var, iterable, body } && index_var == t[i
            + 1].token->Identifier_0 && value_var == t[i + 3].token->Identifier_0 && is_known_expr(
            t,
            i + 5,
            iterable,
        ) && braced_body(t, expr_end(t, i + 5), body@)
    } else if switch_at(t, i) {
        st matches Stmt::Switch { expr, cases, default } && is_known_expr(t, i + 2, expr)
            && switch_match(t, switch_arms(t, i), cases@, default)
    } else if import_braced_at(t, i) {
        st matches Stmt::Import { names, path, aliases } && names@ == import_names(t, i + 2)
            && aliases@ == import_aliases(t, i + 2) && path == t[import_items_end(t, i + 2)
            + 2].token->String_0
    } else {
        st matches Stmt::Expression(e) && is_if_else(t, i, e)
    }
}

/// Where the statement at token `i` stops.
pub open spec fn top_end(t: Seq<Lexeme>, i: int) -> int {
    if stmt_known(t, i) {
        stmt_end(t, i)
    } else if func_at(t, i) {
        braced_end(t, params_end(t, i + 3) + 1)
    } else if for_at(t, i) {
        braced_end(t, expr_end(t, i + 3))
    } else if for_indexed_at(t, i) {
        braced_end(t, expr_end(t, i + 5))
    } else if switch_at(t, i) {
        switch_close(t, switch_arms(t, i)) + 1
    } else if import_braced_at(t, i) {
        after_end(t, import_items_end(t, i + 2) + 3)
    } else {
        after_end(t, if_else_end(t, i))
    }
}

/// Token `i` opens a declaration whose name token is an identifier that is
/// not a valid declaration name.
pub open spec fn bad_declaration(t: Seq<Lexeme>, i: int) -> bool {
    &&& 0 <= i && i + 1 < t.len()
    &&& (t[i].token is SetKw || t[i].token is Func || t[i].token is Generator || t[i].token is Lazy)
    &&& t[i + 1].token is Identifier
    &&& !declaration_name(ident_text(t[i + 1].token))
}

/// The error a bad declaration gives: an invalid identifier naming it.
pub open spec fn names_bad_identifier(t: Seq<Lexeme>, i: int, e: ParseError) -> bool {
    e matches ParseError::InvalidIdentifier { name, .. } && name@ == ident_text(t[i + 1].token)
}

/// One statement, dispatched on its first token.
fn parse_statement(toks: &Vec<Lexeme>, i: usize) -> (r: Result<(Stmt, usize), ParseError>)
    requires
        stream_ok(toks@),
        i < toks@.len(),
    ensures
        top_known(toks@, i as int) ==> (r matches Ok((v, w)) && is_top_stmt(toks@, i as int, v) && w
            == top_end(toks@, i as int)),
        r is Err ==> at_token(toks@, r->Err_0),
        stmt_known(toks@, i as int) ==> (r matches Ok((v, w)) && is_known_stmt(toks@, i as int, v)
            && w == stmt_end(toks@, i as int)),
        bad_declaration(toks@, i as int) ==> (r matches Err(e) && names_bad_identifier(
            toks@,
            i as int,
            e,
        )),
        r matches Ok((st, _)) ==> set_shape(toks@, i as int, st),
        r matches Ok((st, _)) ==> opens(toks@[i as int].token, st),
        r matches Ok((st, _)) ==> stmt_well_named(st),
        advanced(toks@, i as int, r),
    decreases toks@.len() - i, 5nat,
{
    match &toks[i].token {
        Token::SetKw => parse_set_statement(toks, i),
        Token::Func => parse_func_definition(toks, i, false),
        Token::Generator => parse_func_definition(toks, i, true),
        Token::Lazy => parse_lazy_definition(toks, i),
        Token::Return => parse_return_statement(toks, i, false),
        Token::Yield => parse_return_statement(toks, i, true),
        Token::Break => Ok((Stmt::Break, end_statement(toks, step(toks, i)))),
        Token::Continue => Ok((Stmt::Continue, end_statement(toks, step(toks, i)))),
        Token::While => parse_while_statement(toks, i),
        Token::For => parse_for_statement(toks, i),
        Token::Switch => parse_switch_statement(toks, i),
        Token::Import => parse_import_statement(toks, i),
        Token::Export => {
            let j = step(toks, i);
            let name = identifier_at(toks, j)?;
            Ok((Stmt::Export(name), end_statement(toks, step(toks, j))))
        },
        Token::Throw => {
            let (e, j) = parse_expression(toks, step(toks, i), LOWEST)?;
            Ok((Stmt::Throw(e), end_statement(toks, j)))
        },
        _ => {
            let (e, j) = parse_expression(toks, i, LOWEST)?;
            Ok((Stmt::Expression(e), end_statement(toks, j)))
        },
    }
}

/// The identifier of token `t`, as characters.
pub open spec fn ident_text(t: Token) -> Seq<char> {
    t->Identifier_0@
}

/// `Set NAME value`, `Set NAME [array...]` or `Set NAME[index] value`: the
/// whitespace flag of a `[` right after the name decides between a value
/// and an index target.
fn parse_set_statement(toks: &Vec<Lexeme>, i: usize) -> (r: Result<(Stmt, usize), ParseError>)
    requires
        stream_ok(toks@),
        i < toks@.len(),
        toks@[i as int].token is SetKw,
    ensures
        r is Err ==> at_token(toks@, r->Err_0),
        i + 2 < toks@.len() && toks@[i + 1].token is Identifier && declaration_name(
            ident_text(toks@[i + 1].token),
        ) && toks@[i + 2].had_whitespace && array_at(toks@, i + 2, 0) ==> (r matches Ok((
            Stmt::SetVar { name, value: Expr::Array(v) },
            w,
        )) && name == toks@[i + 1].token->Identifier_0 && v@ == atom_list(toks@, i + 3) && w
            == after_end(toks@, atom_list_end(toks@, i + 3) + 1)),
        i + 6 < toks@.len() && toks@[i + 1].token is Identifier && declaration_name(
            ident_text(toks@[i + 1].token),
        ) && toks@[i + 2].token is LeftBracket && !toks@[i + 2].had_whitespace && is_atom(toks@[i
            + 3].token) && toks@[i + 4].token is RightBracket && is_atom(toks@[i + 5].token)
            && precedence(toks@[i + 6].token) == 0 ==> (r matches Ok((
            Stmt::SetIndex { object, index, value },
            w,
        )) && *object == Expr::Identifier(toks@[i + 1].token->Identifier_0) && *index == atom_expr(
            toks@[i + 3].token,
        ) && value == atom_expr(toks@[i + 5].token) && w == after_end(toks@, i + 6)),
        set_plain(toks@, i as int) ==> (r matches Ok((Stmt::SetVar { name, value }, w)) && name
            == toks@[i + 1].token->Identifier_0 && is_known_expr(toks@, i + 2, value) && w
            == after_end(toks@, expr_end(toks@, i + 2))),
        r matches Ok((st, _)) ==> set_shape(toks@, i as int, st),
        r matches Ok((st, _)) ==> stmt_well_named(st),
        advanced(toks@, i as int, r),
        !(toks@[i + 1].token is Identifier) ==> r is Err && r->Err_0 is UnexpectedToken,
        toks@[i + 1].token is Identifier && !declaration_name(ident_text(toks@[i + 1].token))
            ==> (r matches Err(ParseError::InvalidIdentifier { name, .. }) && name@ == ident_text(
            toks@[i + 1].token,
        )),
        r is Ok ==> toks@[i + 1].token is Identifier && declaration_name(
            ident_text(toks@[i + 1].token),
        ) && (r->Ok_0.0 is SetVar || r->Ok_0.0 is SetIndex),
        r matches Ok((Stmt::SetVar { name, .. }, _)) ==> name@ == ident_text(toks@[i + 1].token)
            && (toks@[i + 2].token is LeftBracket ==> toks@[i + 2].had_whitespace),
        r matches Ok((Stmt::SetIndex { object, .. }, _)) ==> toks@[i + 2].token is LeftBracket
            && !toks@[i + 2].had_whitespace && (*object) is Identifier && (
        *object)->Identifier_0@ == ident_text(toks@[i + 1].token),
    decreases toks@.len() - i, 4nat,
{
    let i1 = step(toks, i);
    let name = identifier_at(toks, i1)?;
    validate_identifier(&name, false, toks[i1].line, toks[i1].column)?;
    let i2 = step(toks, i1);
    if matches!(toks[i2].token, Token::LeftBracket) {
        if toks[i2].had_whitespace {
            let (value, j) = parse_expression(toks, i2, LOWEST)?;
            return Ok((Stmt::SetVar { name, value }, end_statement(toks, j)));
        }
        let i3 = step(toks, i2);
        let (index, j) = parse_expression(toks, i3, LOWEST)?;
        if !matches!(toks[j].token, Token::RightBracket) {
            return Err(unexpected(toks, j, "']' for index access"));
        }
        let (value, k) = parse_expression(toks, step(toks, j), LOWEST)?;
        return Ok(
            (
                Stmt::SetIndex {
                    object: Box::new(Expr::Identifier(name)),
                    index: Box::new(index),
                    value,
                },
                end_statement(toks, k),
            ),
        );
    }
    let (value, j) = parse_expression(toks, i2, LOWEST)?;
    Ok((Stmt::SetVar { name, value }, end_statement(toks, j)))
}

/// Every name in `v` is a valid binder name.
pub open spec fn all_binders(v: Seq<String>) -> bool {
    forall|k: int| 0 <= k < v.len() ==> binder_name(#[trigger] v[k]@)
}

/// Parameter names separated by commas, up to the first token that does not
/// continue the list; an empty list when `)` comes first.
fn parse_parameter_list(toks: &Vec<Lexeme>, i: usize) -> (r: Result<(Vec<String>, usize), ParseError>)
    requires
        stream_ok(toks@),
        i < toks@.len(),
    ensures
        params_ok(toks@, i as int) ==> (r matches Ok((ps, w)) && ps@ == params_of(toks@, i as int)
            && w == params_end(toks@, i as int)),
        r is Err ==> at_token(toks@, r->Err_0),
        kept_in(toks@, i as int, r),
        r is Ok ==> all_binders(r->Ok_0.0@),
        r is Err ==> r->Err_0 is InvalidIdentifier,
{
    let mut params: Vec<String> = Vec::new();
    let mut j = i;
    proof {
        assert(params@ + params_of(toks@, j as int) =~= params_of(toks@, j as int));
    }
    loop
        invariant_except_break
            params_ok(toks@, i as int) ==> params_ok(toks@, j as int) && params@ + params_of(
                toks@,
                j as int,
            ) == params_of(toks@, i as int) && params_end(toks@, j as int) == params_end(
                toks@,
                i as int,
            ),
        invariant
            stream_ok(toks@),
            i <= j < toks@.len(),
            all_binders(params@),
        ensures
            params_ok(toks@, i as int) ==> params@ == params_of(toks@, i as int) && j == params_end(
                toks@,
                i as int,
            ),
        decreases toks@.len() - j,
    {
        let name = match &toks[j].token {
            Token::Identifier(n) => n.clone(),
            _ => {
                break;
            },
        };
        validate_identifier(&name, true, toks[j].line, toks[j].column)?;
        let ghost j0 = j;
        let ghost prev = params@;
        params.push(name);
        j = step(toks, j);
        proof {
            if params_ok(toks@, i as int) {
                assert(params@ == prev.push(toks@[j0 as int].token->Identifier_0));
                if toks@[j0 + 1].token is Comma {
                    assert(params@ + params_of(toks@, j0 + 2) =~= prev + params_of(toks@, j0 as int));
                } else {
                    assert(params@ =~= prev + params_of(toks@, j0 as int));
                }
            }
        }
        if matches!(toks[j].token, Token::Comma) {
            j = step(toks, j);
        } else {
            proof {
                if params_ok(toks@, i as int) {
                    assert(params_of(toks@, j0 as int) == seq![toks@[j0 as int].token->Identifier_0]);
                }
            }
            break;
        }
    }
    Ok((params, j))
}

/// `Func NAME (params) { body }`, or with `Generator` in place of `Func`.
fn parse_func_definition(toks: &Vec<Lexeme>, i: usize, generator: bool) -> (r: Result<
    (Stmt, usize),
    ParseError,
>)
    requires
        stream_ok(toks@),
        i < toks@.len(),
        toks@[i as int].token is Func || toks@[i as int].token is Generator,
    ensures
        func_at(toks@, i as int) && (toks@[i as int].token is Generator) == generator ==> (r matches Ok(
            (v, w),
        ) && is_top_stmt(toks@, i as int, v) && w == top_end(toks@, i as int)),
        r is Err ==> at_token(toks@, r->Err_0),
        r matches Ok((st, _)) ==> stmt_well_named(st),
        advanced(toks@, i as int, r),
        !(toks@[i + 1].token is Identifier) ==> r is Err && r->Err_0 is UnexpectedToken,
        toks@[i + 1].token is Identifier && !declaration_name(ident_text(toks@[i + 1].token))
            ==> (r matches Err(ParseError::InvalidIdentifier { name, .. }) && name@ == ident_text(
            toks@[i + 1].token,
        )),
        r matches Ok((Stmt::FuncDef { name, params, .. }, _)) ==> !generator && name@ == ident_text(
            toks@[i + 1].token,
        ) && declaration_name(name@) && all_binders(params@),
        r matches Ok((Stmt::GeneratorDef { name, params, .. }, _)) ==> generator && name@
            == ident_text(toks@[i + 1].token) && declaration_name(name@) && all_binders(params@),
        r is Ok ==> (r->Ok_0.0 is FuncDef || r->Ok_0.0 is GeneratorDef),
    decreases toks@.len() - i, 4nat,
{
    let i1 = step(toks, i);
    let name = identifier_at(toks, i1)?;
    validate_identifier(&name, false, toks[i1].line, toks[i1].column)?;
    let j = expect(toks, step(toks, i1), Delim::LeftParen)?;
    let (params, j) = parse_parameter_list(toks, j)?;
    let j = expect(toks, j, Delim::RightParen)?;
    let (body, j) = parse_braced(toks, j)?;
    if generator {
        Ok((Stmt::GeneratorDef { name, params, body }, j))
    } else {
        Ok((Stmt::FuncDef { name, params, body }, j))
    }
}

/// `Lazy NAME (expr)`.
fn parse_lazy_definition(toks: &Vec<Lexeme>, i: usize) -> (r: Result<(Stmt, usize), ParseError>)
    requires
        stream_ok(toks@),
        i < toks@.len(),
        toks@[i as int].token is Lazy,
    ensures
        r is Err ==> at_token(toks@, r->Err_0),
        r matches Ok((st, _)) ==> stmt_well_named(st),
        advanced(toks@, i as int, r),
        toks@[i + 1].token is Identifier && !declaration_name(ident_text(toks@[i + 1].token))
            ==> (r matches Err(ParseError::InvalidIdentifier { name, .. }) && name@ == ident_text(
            toks@[i + 1].token,
        )),
        r matches Ok((Stmt::LazyDef { name, .. }, _)) ==> name@ == ident_text(toks@[i + 1].token)
            && declaration_name(name@),
        r is Ok ==> r->Ok_0.0 is LazyDef,
    decreases toks@.len() - i, 4nat,
{
    let i1 = step(toks, i);
    let name = identifier_at(toks, i1)?;
    validate_identifier(&name, false, toks[i1].line, toks[i1].column)?;
    let j = expect(toks, step(toks, i1), Delim::LeftParen)?;
    let (expr, j) = parse_expression(toks, j, LOWEST)?;
    let j = expect(toks, j, Delim::RightParen)?;
    Ok((Stmt::LazyDef { name, expr }, end_statement(toks, j)))
}

/// `Return [expr]` or `Yield [expr]`; a missing value is `Null`.
fn parse_return_statement(toks: &Vec<Lexeme>, i: usize, yielding: bool) -> (r: Result<
    (Stmt, usize),
    ParseError,
>)
    requires
        stream_ok(toks@),
        i < toks@.len(),
        toks@[i as int].token is Return || toks@[i as int].token is Yield,
    ensures
        !yielding && return_plain(toks@, i as int) ==> (r matches Ok((Stmt::Return(e), w))
            && is_known_expr(toks@, i + 1, e) && w == after_end(toks@, expr_end(toks@, i + 1))),
        r is Err ==> at_token(toks@, r->Err_0),
        r matches Ok((st, _)) ==> stmt_well_named(st),
        advanced(toks@, i as int, r),
        r is Ok ==> (if yielding {
            r->Ok_0.0 is Yield
        } else {
            r->Ok_0.0 is Return
        }),
    decreases toks@.len() - i, 4nat,
{
    let j = step(toks, i);
    let (expr, k) = if matches!(toks[j].token, Token::Newline) || matches!(
        toks[j].token,
        Token::RightBrace
    ) {
        (Expr::Null, j)
    } else {
        parse_expression(toks, j, LOWEST)?
    };
    let k = end_statement(toks, k);
    if yielding {
        Ok((Stmt::Yield(expr), k))
    } else {
        Ok((Stmt::Return(expr), k))
    }
}

/// `While (condition) { body }`.
fn parse_while_statement(toks: &Vec<Lexeme>, i: usize) -> (r: Result<(Stmt, usize), ParseError>)
    requires
        stream_ok(toks@),
        i < toks@.len(),
        toks@[i as int].token is While,
    ensures
        r is Err ==> at_token(toks@, r->Err_0),
        r matches Ok((st, _)) ==> stmt_well_named(st),
        advanced(toks@, i as int, r),
        r is Ok ==> r->Ok_0.0 is While,
    decreases toks@.len() - i, 4nat,
{
    let j = expect(toks, step(toks, i), Delim::LeftParen)?;
    let (condition, j) = parse_expression(toks, j, LOWEST)?;
    let j = expect(toks, j, Delim::RightParen)?;
    let (body, j) = parse_braced(toks, j)?;
    Ok((Stmt::While { condition, body }, j))
}

/// `For V In iterable { body }` or `For I, V In iterable { body }`: a comma
/// after the first name makes the indexed form.
fn parse_for_statement(toks: &Vec<Lexeme>, i: usize) -> (r: Result<(Stmt, usize), ParseError>)
    requires
        stream_ok(toks@),
        i < toks@.len(),
        toks@[i as int].token is For,
    ensures
        for_at(toks@, i as int) ==> (r matches Ok((v, w)) && is_top_stmt(toks@, i as int, v) && w
            == top_end(toks@, i as int)),
        for_indexed_at(toks@, i as int) ==> (r matches Ok((v, w)) && is_top_stmt(toks@, i as int, v)
            && w == top_end(toks@, i as int)),
        r is Err ==> at_token(toks@, r->Err_0),
        i + 6 < toks@.len() && toks@[i + 1].token is Identifier && toks@[i + 2].token is In
            && is_atom(toks@[i + 3].token) && toks@[i + 4].token is LeftBrace && toks@[i
            + 5].token is RightBrace ==> (r matches Ok((Stmt::For { var, iterable, body }, w))
            && var == toks@[i + 1].token->Identifier_0 && iterable == atom_expr(toks@[i + 3].token)
            && body@.len() == 0 && w == i + 6),
        i + 8 < toks@.len() && toks@[i + 1].token is Identifier && toks@[i + 2].token is Comma
            && toks@[i + 3].token is Identifier && toks@[i + 4].token is In && is_atom(toks@[i
            + 5].token) && toks@[i + 6].token is LeftBrace && toks@[i + 7].token is RightBrace ==> (
        r matches Ok((Stmt::ForIndexed { index_var, value_var, iterable, body }, w)) && index_var
            == toks@[i + 1].token->Identifier_0 && value_var == toks@[i + 3].token->Identifier_0
            && iterable == atom_expr(toks@[i + 5].token) && body@.len() == 0 && w == i + 8),
        r matches Ok((st, _)) ==> stmt_well_named(st),
        advanced(toks@, i as int, r),
        r is Ok ==> toks@[i + 1].token is Identifier,
        r matches Ok((Stmt::For { var, .. }, _)) ==> !(toks@[i + 2].token is Comma) && var@
            == ident_text(toks@[i + 1].token),
        r matches Ok((Stmt::ForIndexed { index_var, value_var, .. }, _)) ==> toks@[i
            + 2].token is Comma && index_var@ == ident_text(toks@[i + 1].token) && toks@[i
            + 3].token is Identifier && value_var@ == ident_text(toks@[i + 3].token),
        r is Ok ==> (r->Ok_0.0 is For || r->Ok_0.0 is ForIndexed),
    decreases toks@.len() - i, 4nat,
{
    let i1 = step(toks, i);
    let first = identifier_at(toks, i1)?;
    let i2 = step(toks, i1);
    if matches!(toks[i2].token, Token::Comma) {
        let i3 = step(toks, i2);
        let second = identifier_at(toks, i3)?;
        let j = expect(toks, step(toks, i3), Delim::In)?;
        let (iterable, j) = parse_expression(toks, j, LOWEST)?;
        let (body, j) = parse_braced(toks, j)?;
        return Ok(
            (Stmt::ForIndexed { index_var: first, value_var: second, iterable, body }, j),
        );
    }
    let j = expect(toks, i2, Delim::In)?;
    let (iterable, j) = parse_expression(toks, j, LOWEST)?;
    let (body, j) = parse_braced(toks, j)?;
    Ok((Stmt::For { var: first, iterable, body }, j))
}

/// Where the arm from token `i` stops: after newlines, its one statement
/// and more newlines.
pub open spec fn arm_end(t: Seq<Lexeme>, i: int) -> int {
    skip_nl(t, stmt_end(t, skip_nl(t, i)))
}

/// From token `i` on: a one-statement arm, ended by `}` (or, when `stop`,
/// by `Case` or `Default`).
pub open spec fn arm_ok(t: Seq<Lexeme>, i: int, stop: bool) -> bool {
    &&& 0 <= i < t.len()
    &&& stmt_known(t, skip_nl(t, i))
    &&& 0 <= stmt_end(t, skip_nl(t, i)) < t.len()
    &&& 0 <= arm_end(t, i) < t.len()
    &&& (t[arm_end(t, i)].token is RightBrace || (stop && (t[arm_end(t, i)].token is Case
        || t[arm_end(t, i)].token is Default)))
}

/// `b` is the body of the arm from token `i`.
pub open spec fn arm_body(t: Seq<Lexeme>, i: int, b: Seq<Stmt>) -> bool {
    b.len() == 1 && is_known_stmt(t, skip_nl(t, i), b[0])
}

/// Where the body of the `Case` at token `i` starts: after its value and `:`.
pub open spec fn case_body_at(t: Seq<Lexeme>, i: int) -> int {
    expr_end(t, i + 1) + 1
}

/// Where the `Case` at token `i`, with its arm, ends.
pub open spec fn case_next(t: Seq<Lexeme>, i: int) -> int {
    arm_end(t, case_body_at(t, i))
}

/// From token `i` on: `Case value: s` arms with known values and
/// one-statement bodies, an optional `Default: s`, then `}`.
pub open spec fn switch_ok(t: Seq<Lexeme>, i: int) -> bool
    decreases t.len() - i,
{
    &&& 0 <= i < t.len()
    &&& (t[i].token is RightBrace || (t[i].token is Default && i + 2 < t.len() && t[i
        + 1].token is Colon && arm_ok(t, i + 2, false)) || (t[i].token is Case && i + 1 < t.len()
        && expr_known(t, i + 1) && 0 <= expr_end(t, i + 1) < t.len() && t[expr_end(
        t,
        i + 1,
    )].token is Colon && arm_ok(t, case_body_at(t, i), true) && case_next(t, i) > i
        && switch_ok(t, case_next(t, i))))
}

/// The positions of the `Case` tokens from token `i`, in order.
pub open spec fn case_starts(t: Seq<Lexeme>, i: int) -> Seq<int>
    decreases t.len() - i,
{
    if 0 <= i < t.len() && t[i].token is Case && i < case_next(t, i) < t.len() {
        seq![i] + case_starts(t, case_next(t, i))
    } else {
        Seq::empty()
    }
}

/// The `Default` token, or the closing `}`, after the cases from token `i`.
pub open spec fn default_at(t: Seq<Lexeme>, i: int) -> int
    decreases t.len() - i,
{
    if 0 <= i < t.len() && t[i].token is Case && i < case_next(t, i) < t.len() {
        default_at(t, case_next(t, i))
    } else {
        i
    }
}

/// The closing `}` of the arms from token `i`.
pub open spec fn switch_close(t: Seq<Lexeme>, i: int) -> int {
    if 0 <= default_at(t, i) < t.len() && t[default_at(t, i)].token is Default {
        arm_end(t, default_at(t, i) + 2)
    } else {
        default_at(t, i)
    }
}

/// `c` is the case whose `Case` token is at `p`.
pub open spec fn case_ok(t: Seq<Lexeme>, p: int, c: (Expr, Vec<Stmt>)) -> bool {
    is_known_expr(t, p + 1, c.0) && arm_body(t, case_body_at(t, p), c.1@)
}

/// `cases` and `default` are the arms from token `i`, in source order.
pub open spec fn switch_match(
    t: Seq<Lexeme>,
    i: int,
    cases: Seq<(Expr, Vec<Stmt>)>,
    default: Option<Vec<Stmt>>,
) -> bool {
    &&& cases.len() == case_starts(t, i).len()
    &&& forall|k: int| 0 <= k < cases.len() ==> case_ok(t, case_starts(t, i)[k], #[trigger] cases[k])
    &&& if 0 <= default_at(t, i) < t.len() && t[default_at(t, i)].token is Default {
        default matches Some(d) && arm_body(t, default_at(t, i) + 2, d@)
    } else {
        default is None
    }
}

/// `Switch (e) { arms }` from token `i`, with a known scrutinee.
pub open spec fn switch_at(t: Seq<Lexeme>, i: int) -> bool {
    &&& 0 <= i && i + 2 < t.len()
    &&& t[i].token is Switch
    &&& t[i + 1].token is LeftParen
    &&& expr_known(t, i + 2)
    &&& 0 <= expr_end(t, i + 2) + 1 < t.len()
    &&& t[expr_end(t, i + 2)].token is RightParen
    &&& 0 <= skip_nl(t, expr_end(t, i + 2) + 1) + 1 < t.len()
    &&& t[skip_nl(t, expr_end(t, i + 2) + 1)].token is LeftBrace
    &&& switch_ok(t, switch_arms(t, i))
}

/// Where the arms of the switch at token `i` start.
pub open spec fn switch_arms(t: Seq<Lexeme>, i: int) -> int {
    skip_nl(t, skip_nl(t, expr_end(t, i + 2) + 1) + 1)
}

/// Statements of one `Case` or `Default` arm: up to the next `Case`,
/// `Default`, `}` or the end of input.
fn parse_arm(toks: &Vec<Lexeme>, i: usize, stop_at_case: bool) -> (r: Result<
    (Vec<Stmt>, usize),
    ParseError,
>)
    requires
        stream_ok(toks@),
        i < toks@.len(),
    ensures
        arm_ok(toks@, i as int, stop_at_case) ==> (r matches Ok((b, w)) && arm_body(
            toks@,
            i as int,
            b@,
        ) && w == arm_end(toks@, i as int)),
        r is Err ==> at_token(toks@, r->Err_0),
        r matches Ok((b, _)) ==> block_well_named(b@),
        kept_in(toks@, i as int, r),
    decreases toks@.len() - i, 6nat,
{
    let mut body: Vec<Stmt> = Vec::new();
    let mut j = skip_newlines(toks, i);
    while !(stop_at_case && (matches!(toks[j].token, Token::Case) || matches!(
        toks[j].token,
        Token::Default
    ))) && !matches!(toks[j].token, Token::RightBrace) && !matches!(toks[j].token, Token::EOF)
        invariant
            arm_ok(toks@, i as int, stop_at_case) ==> ((j == skip_nl(toks@, i as int) && body@.len()
                == 0) || (j == arm_end(toks@, i as int) && arm_body(toks@, i as int, body@))),
            block_well_named(body@),
            stream_ok(toks@),
            i <= j < toks@.len(),
        decreases toks@.len() - j,
    {
        let (stmt, k) = parse_statement(toks, j)?;
        let ghost prev = body@;
        body.push(stmt);
        proof {
            assert(body@.drop_last() =~= prev);
        }
        j = skip_newlines(toks, k);
    }
    Ok((body, j))
}

/// `Switch (expr) { Case value: ... Default: ... }`; tokens between arms
/// that open neither are skipped.
fn parse_switch_statement(toks: &Vec<Lexeme>, i: usize) -> (r: Result<(Stmt, usize), ParseError>)
    requires
        stream_ok(toks@),
        i < toks@.len(),
        toks@[i as int].token is Switch,
    ensures
        switch_at(toks@, i as int) ==> (r matches Ok((Stmt::Switch { expr, cases, default }, w))
            && is_known_expr(toks@, i + 2, expr) && switch_match(
            toks@,
            switch_arms(toks@, i as int),
            cases@,
            default,
        ) && w == switch_close(toks@, switch_arms(toks@, i as int)) + 1),
        r is Err ==> at_token(toks@, r->Err_0),
        i + 6 < toks@.len() && toks@[i + 1].token is LeftParen && is_atom(toks@[i + 2].token)
            && toks@[i + 3].token is RightParen && toks@[i + 4].token is LeftBrace && toks@[i
            + 5].token is RightBrace ==> (r matches Ok((Stmt::Switch { expr, cases, default }, w))
            && expr == atom_expr(toks@[i + 2].token) && cases@.len() == 0 && default is None && w
            == i + 6),
        r matches Ok((st, _)) ==> stmt_well_named(st),
        advanced(toks@, i as int, r),
        r is Ok ==> r->Ok_0.0 is Switch,
    decreases toks@.len() - i, 4nat,
{
    let j = expect(toks, step(toks, i), Delim::LeftParen)?;
    let (expr, j) = parse_expression(toks, j, LOWEST)?;
    let j = expect(toks, j, Delim::RightParen)?;
    let j = skip_newlines(toks, j);
    let j = expect(toks, j, Delim::LeftBrace)?;
    let mut j = skip_newlines(toks, j);
    let mut cases: Vec<(Expr, Vec<Stmt>)> = Vec::new();
    let mut default: Option<Vec<Stmt>> = None;
    let ghost first = j;
    let ghost mut done: Seq<int> = Seq::empty();
    proof {
        assert(done + case_starts(toks@, j as int) =~= case_starts(toks@, j as int));
    }
    while !matches!(toks[j].token, Token::RightBrace) && !matches!(toks[j].token, Token::EOF)
        invariant_except_break
            switch_at(toks@, i as int) ==> {
                &&& first == switch_arms(toks@, i as int)
                &&& switch_ok(toks@, j as int)
                &&& done + case_starts(toks@, j as int) == case_starts(toks@, first as int)
                &&& cases@.len() == done.len()
                &&& forall|k: int| 0 <= k < done.len() ==> case_ok(toks@, done[k], #[trigger] cases@[k])
                &&& default_at(toks@, j as int) == default_at(toks@, first as int)
                &&& switch_close(toks@, j as int) == switch_close(toks@, first as int)
                &&& default is None
            },
        invariant
            i + 6 < toks@.len() && toks@[i + 1].token is LeftParen && is_atom(toks@[i + 2].token)
                && toks@[i + 3].token is RightParen && toks@[i + 4].token is LeftBrace && toks@[i
                + 5].token is RightBrace ==> j == i + 5 && cases@.len() == 0 && default is None,
            default matches Some(d) ==> block_well_named(d@),
            branches_well_named(cases@),
            stream_ok(toks@),
            i < j < toks@.len(),
        ensures
            switch_at(toks@, i as int) ==> toks@[j as int].token is RightBrace && switch_match(
                toks@,
                first as int,
                cases@,
                default,
            ) && j == switch_close(toks@, first as int),
        decreases toks@.len() - j,
    {
        if matches!(toks[j].token, Token::Case) {
            let ghost j0 = j;
            let (value, k) = parse_expression(toks, step(toks, j), LOWEST)?;
            let k = expect(toks, k, Delim::Colon)?;
            let (body, k) = parse_arm(toks, k, true)?;
            let ghost prev = cases@;
            let ghost c = (value, body);
            cases.push((value, body));
            proof {
                assert(cases@.drop_last() =~= prev);
                if switch_at(toks@, i as int) {
                    let t = toks@;
                    assert(case_ok(t, j0 as int, c));
                    assert(case_starts(t, j0 as int) == seq![j0 as int] + case_starts(t, k as int));
                    assert(done.push(j0 as int) + case_starts(t, k as int) =~= done + case_starts(
                        t,
                        j0 as int,
                    ));
                    assert forall|m: int| 0 <= m < done.len() + 1 implies case_ok(
                        t,
                        done.push(j0 as int)[m],
                        #[trigger] cases@[m],
                    ) by {
                        if m < done.len() {
                            assert(cases@[m] == prev[m]);
                        }
                    }
                }
                done = done.push(j0 as int);
            }
            j = k;
        } else if matches!(toks[j].token, Token::Default) {
            let ghost j0 = j;
            let k = expect(toks, step(toks, j), Delim::Colon)?;
            let (body, k) = parse_arm(toks, k, false)?;
            default = Some(body);
            j = k;
            proof {
                if switch_at(toks@, i as int) {
                    assert(case_starts(toks@, j0 as int) == Seq::<int>::empty());
                    assert(done =~= case_starts(toks@, first as int));
                }
            }
            break;
        } else {
            j = step(toks, j);
        }
    }
    let j = expect(toks, j, Delim::RightBrace)?;
    Ok((Stmt::Switch { expr, cases, default }, j))
}

/// Where an optional `As ALIAS` that may start at token `j` ends.
pub open spec fn alias_end(t: Seq<Lexeme>, j: int) -> int {
    if 0 <= j < t.len() && t[j].token is As {
        if j + 1 < t.len() && t[j + 1].token is Identifier {
            j + 2
        } else {
            j + 1
        }
    } else {
        j
    }
}

/// The alias given by an `As ALIAS` at token `j`, if any.
pub open spec fn alias_of(t: Seq<Lexeme>, j: int) -> Option<String> {
    if 0 <= j && j + 1 < t.len() && t[j].token is As && t[j + 1].token is Identifier {
        Some(t[j + 1].token->Identifier_0)
    } else {
        None
    }
}

/// From token `i` on: `NAME [As ALIAS]` items separated by commas (a
/// trailing comma allowed, no newlines), up to `}`.
pub open spec fn import_items_ok(t: Seq<Lexeme>, i: int) -> bool
    decreases t.len() - i,
{
    &&& 0 <= i < t.len()
    &&& (t[i].token is RightBrace || (t[i].token is Identifier && 0 <= alias_end(t, i + 1) < t.len()
        && (t[alias_end(t, i + 1)].token is RightBrace || (t[alias_end(t, i + 1)].token is Comma
        && alias_end(t, i + 1) + 1 < t.len() && !(t[alias_end(t, i + 1) + 1].token is Newline)
        && import_items_ok(t, alias_end(t, i + 1) + 1)))))
}

/// The imported names of the items from token `i`, in order.
pub open spec fn import_names(t: Seq<Lexeme>, i: int) -> Seq<String>
    decreases t.len() - i,
{
    if 0 <= i < t.len() && t[i].token is Identifier {
        if 0 <= alias_end(t, i + 1) < t.len() && t[alias_end(t, i + 1)].token is Comma {
            seq![t[i].token->Identifier_0] + import_names(t, alias_end(t, i + 1) + 1)
        } else {
            seq![t[i].token->Identifier_0]
        }
    } else {
        Seq::empty()
    }
}

/// The aliases of the items from token `i`, index for index with the names.
pub open spec fn import_aliases(t: Seq<Lexeme>, i: int) -> Seq<Option<String>>
    decreases t.len() - i,
{
    if 0 <= i < t.len() && t[i].token is Identifier {
        if 0 <= alias_end(t, i + 1) < t.len() && t[alias_end(t, i + 1)].token is Comma {
            seq![alias_of(t, i + 1)] + import_aliases(t, alias_end(t, i + 1) + 1)
        } else {
            seq![alias_of(t, i + 1)]
        }
    } else {
        Seq::empty()
    }
}

/// The index of the `}` that closes the items from token `i`.
pub open spec fn import_items_end(t: Seq<Lexeme>, i: int) -> int
    decreases t.len() - i,
{
    if 0 <= i < t.len() && t[i].token is Identifier && 0 <= alias_end(t, i + 1) < t.len() {
        if t[alias_end(t, i + 1)].token is Comma {
            import_items_end(t, alias_end(t, i + 1) + 1)
        } else {
            alias_end(t, i + 1)
        }
    } else {
        i
    }
}

/// An optional `As ALIAS` after an imported name.
fn parse_alias(toks: &Vec<Lexeme>, i: usize) -> (r: (Option<String>, usize))
    requires
        stream_ok(toks@),
        i < toks@.len(),
    ensures
        toks@[i as int].token is As && i + 1 < toks@.len() && toks@[i + 1].token is Identifier ==> r.0
            == Some(toks@[i + 1].token->Identifier_0) && r.1 == i + 2,
        !(toks@[i as int].token is As) ==> r.0 is None && r.1 == i,
        r.0 == alias_of(toks@, i as int) && r.1 == alias_end(toks@, i as int),
        i <= r.1 < toks@.len(),
{
    if matches!(toks[i].token, Token::As) {
        let j = step(toks, i);
        match &toks[j].token {
            Token::Identifier(a) => (Some(a.clone()), step(toks, j)),
            _ => (None, j),
        }
    } else {
        (None, i)
    }
}

/// `Import NAME [As ALIAS] From "path"` or
/// `Import { NAME [As ALIAS], ... } From "path"`.
fn parse_import_statement(toks: &Vec<Lexeme>, i: usize) -> (r: Result<(Stmt, usize), ParseError>)
    requires
        stream_ok(toks@),
        i < toks@.len(),
        toks@[i as int].token is Import,
    ensures
        i + 2 < toks@.len() && toks@[i + 1].token is LeftBrace && !(toks@[i + 2].token is Newline)
            && import_items_ok(toks@, i + 2) && import_items_end(toks@, i + 2) + 2 < toks@.len()
            && toks@[import_items_end(toks@, i + 2) + 1].token is From && toks@[import_items_end(
            toks@,
            i + 2,
        ) + 2].token is String ==> (r matches Ok((Stmt::Import { names, path, aliases }, w))
            && names@ == import_names(toks@, i + 2) && aliases@ == import_aliases(toks@, i + 2)
            && path == toks@[import_items_end(toks@, i + 2) + 2].token->String_0 && w == after_end(
            toks@,
            import_items_end(toks@, i + 2) + 3,
        )),
        r is Err ==> at_token(toks@, r->Err_0),
        i + 4 < toks@.len() && toks@[i + 1].token is Identifier && toks@[i + 2].token is From
            && toks@[i + 3].token is String ==> (r matches Ok((Stmt::Import { names, path, aliases }, w))
            && names@ == seq![toks@[i + 1].token->Identifier_0] && aliases@ == seq![None::<String>]
            && path == toks@[i + 3].token->String_0 && w == after_end(toks@, i + 4)),
        i + 6 < toks@.len() && toks@[i + 1].token is Identifier && toks@[i + 2].token is As
            && toks@[i + 3].token is Identifier && toks@[i + 4].token is From && toks@[i
            + 5].token is String ==> (r matches Ok((Stmt::Import { names, path, aliases }, w))
            && names@ == seq![toks@[i + 1].token->Identifier_0] && aliases@ == seq![
            Some(toks@[i + 3].token->Identifier_0),
        ] && path == toks@[i + 5].token->String_0 && w == after_end(toks@, i + 6)),
        r matches Ok((st, _)) ==> stmt_well_named(st),
        advanced(toks@, i as int, r),
        r matches Ok((Stmt::Import { names, aliases, .. }, _)) ==> names@.len() == aliases@.len(),
        r is Ok ==> r->Ok_0.0 is Import,
    decreases toks@.len() - i, 4nat,
{
    let mut names: Vec<String> = Vec::new();
    let mut aliases: Vec<Option<String>> = Vec::new();
    let mut j = step(toks, i);
    if matches!(toks[j].token, Token::LeftBrace) {
        j = skip_newlines(toks, step(toks, j));
        proof {
            assert(names@ + import_names(toks@, j as int) =~= import_names(toks@, j as int));
            assert(aliases@ + import_aliases(toks@, j as int) =~= import_aliases(toks@, j as int));
        }
        while !matches!(toks[j].token, Token::RightBrace) && !matches!(toks[j].token, Token::EOF)
            invariant
                import_items_ok(toks@, i + 2) && !(toks@[i + 2].token is Newline) ==> import_items_ok(
                    toks@,
                    j as int,
                ) && names@ + import_names(toks@, j as int) == import_names(toks@, i + 2) && aliases@
                    + import_aliases(toks@, j as int) == import_aliases(toks@, i + 2)
                    && import_items_end(toks@, j as int) == import_items_end(toks@, i + 2),
                i + 1 < toks@.len() && toks@[i + 1].token is LeftBrace,
                stream_ok(toks@),
                i < j < toks@.len(),
                names@.len() == aliases@.len(),
            ensures
                import_items_ok(toks@, i + 2) && !(toks@[i + 2].token is Newline) ==> toks@[j as int].token is RightBrace
                    && names@ == import_names(toks@, i + 2) && aliases@ == import_aliases(toks@, i + 2)
                    && j == import_items_end(toks@, i + 2),
            decreases toks@.len() - j,
        {
            let ghost j0 = j;
            let name = identifier_at(toks, j)?;
            let (alias, k) = parse_alias(toks, step(toks, j));
            let ghost pn = names@;
            let ghost pa = aliases@;
            names.push(name);
            aliases.push(alias);
            proof {
                if import_items_ok(toks@, i + 2) && !(toks@[i + 2].token is Newline) {
                    let t = toks@;
                    if t[k as int].token is Comma {
                        assert(names@ + import_names(t, k + 1) =~= pn + import_names(t, j0 as int));
                        assert(aliases@ + import_aliases(t, k + 1) =~= pa + import_aliases(t, j0 as int));
                    } else {
                        assert(names@ =~= pn + import_names(t, j0 as int));
                        assert(aliases@ =~= pa + import_aliases(t, j0 as int));
                    }
                }
            }
            if matches!(toks[k].token, Token::Comma) {
                j = skip_newlines(toks, step(toks, k));
            } else {
                j = k;
                break;
            }
        }
        j = expect(toks, j, Delim::RightBrace)?;
    } else {
        let name = identifier_at(toks, j)?;
        let (alias, k) = parse_alias(toks, step(toks, j));
        names.push(name);
        aliases.push(alias);
        j = k;
    }
    let j = expect(toks, j, Delim::From)?;
    let path = match &toks[j].token {
        Token::String(p) => p.clone(),
        _ => {
            return Err(unexpected(toks, j, "string"));
        },
    };
    let j = end_statement(toks, step(toks, j));
    Ok((Stmt::Import { names, path, aliases }, j))
}

/// A token that is a whole expression by itself: a literal or a name.
pub open spec fn is_atom(t: Token) -> bool {
    t is Number || t is BigInteger || t is String || t is Boolean || t is Null || t is Identifier
}

/// The expression an atom token stands for.
pub open spec fn atom_expr(t: Token) -> Expr {
    match t {
        Token::Number(n) => Expr::Number(n),
        Token::BigInteger(n) => Expr::BigInteger(n),
        Token::String(v) => Expr::String(v),
        Token::Boolean(b) => Expr::Boolean(b),
        Token::Identifier(n) => Expr::Identifier(n),
        _ => Expr::Null,
    }
}

/// `l op r` as a tree, `op` being the operator of token `t`.
pub open spec fn bin(l: Expr, t: Token, r: Expr) -> Expr {
    Expr::Binary { left: Box::new(l), op: binop_of(t)->0, right: Box::new(r) }
}

/// Tokens `i..i+3` are `a op b` and token `i+3` binds no tighter than `min`.
pub open spec fn pair_at(t: Seq<Lexeme>, i: int, min: int) -> bool {
    &&& 0 <= i && i + 3 < t.len()
    &&& is_atom(t[i].token) && is_atom(t[i + 2].token)
    &&& binop_of(t[i + 1].token) is Some
    &&& min < precedence(t[i + 1].token)
    &&& precedence(t[i + 3].token) <= min
}

/// The tree of `a op b` at token `i`.
pub open spec fn pair_expr(t: Seq<Lexeme>, i: int) -> Expr {
    bin(atom_expr(t[i].token), t[i + 1].token, atom_expr(t[i + 2].token))
}

/// Tokens `i..i+5` are `a op1 b op2 c` with `op2` binding tighter than
/// `op1`, and token `i+5` binds no tighter than `min`.
pub open spec fn triple_at(t: Seq<Lexeme>, i: int, min: int) -> bool {
    &&& 0 <= i && i + 5 < t.len()
    &&& is_atom(t[i].token) && is_atom(t[i + 2].token) && is_atom(t[i + 4].token)
    &&& binop_of(t[i + 1].token) is Some && binop_of(t[i + 3].token) is Some
    &&& min < precedence(t[i + 1].token) < precedence(t[i + 3].token)
    &&& precedence(t[i + 5].token) <= min
}

/// The tree of `a op1 b op2 c` at token `i` when `op2` binds tighter: `b op2
/// c` groups first.
pub open spec fn triple_expr(t: Seq<Lexeme>, i: int) -> Expr {
    bin(atom_expr(t[i].token), t[i + 1].token, pair_expr(t, i + 2))
}

/// The token that closes a list: `)` when `paren`, else `]`.
pub open spec fn closes(t: Token, paren: bool) -> bool {
    if paren {
        t is RightParen
    } else {
        t is RightBracket
    }
}

/// From token `i` on: atoms separated by commas (a trailing comma allowed)
/// up to the closing token.
pub open spec fn atom_list_ok(t: Seq<Lexeme>, i: int, paren: bool) -> bool
    decreases t.len() - i,
{
    &&& 0 <= i < t.len()
    &&& (closes(t[i].token, paren) || (is_atom(t[i].token) && i + 1 < t.len() && (closes(
        t[i + 1].token,
        paren,
    ) || (t[i + 1].token is Comma && atom_list_ok(t, i + 2, paren)))))
}

/// The expressions of the atom list that starts at token `i`.
pub open spec fn atom_list(t: Seq<Lexeme>, i: int) -> Seq<Expr>
    decreases t.len() - i,
{
    if 0 <= i < t.len() && is_atom(t[i].token) {
        if i + 1 < t.len() && t[i + 1].token is Comma {
            seq![atom_expr(t[i].token)] + atom_list(t, i + 2)
        } else {
            seq![atom_expr(t[i].token)]
        }
    } else {
        Seq::empty()
    }
}

/// The index of the token that closes the atom list starting at token `i`.
pub open spec fn atom_list_end(t: Seq<Lexeme>, i: int) -> int
    decreases t.len() - i,
{
    if 0 <= i < t.len() && is_atom(t[i].token) && i + 1 < t.len() {
        if t[i + 1].token is Comma {
            atom_list_end(t, i + 2)
        } else {
            i + 1
        }
    } else {
        i
    }
}

/// Token `i` opens `[atoms]` and the token after the `]` binds no tighter
/// than `min`.
pub open spec fn array_at(t: Seq<Lexeme>, i: int, min: int) -> bool {
    &&& 0 <= i < t.len()
    &&& t[i].token is LeftBracket
    &&& atom_list_ok(t, i + 1, false)
    &&& atom_list_end(t, i + 1) + 1 < t.len()
    &&& precedence(t[atom_list_end(t, i + 1) + 1].token) <= min
}

/// Token `i` opens `(a op b)` and the token after the `)` binds no tighter
/// than `min`.
pub open spec fn grouped_pair_at(t: Seq<Lexeme>, i: int, min: int) -> bool {
    &&& 0 <= i && i + 5 < t.len()
    &&& t[i].token is LeftParen
    &&& pair_at(t, i + 1, 0)
    &&& t[i + 4].token is RightParen
    &&& precedence(t[i + 5].token) <= min
}

/// Tokens `i..i+5` are `a op1 b op2 c`, grouped either way, ending at a
/// token that binds no tighter than the lowest level.
pub open spec fn flat_at(t: Seq<Lexeme>, i: int) -> bool {
    triple_at(t, i, 0) || left_triple_at(t, i, 0)
}

/// The tree of the three-operand expression at token `i`.
pub open spec fn flat_expr(t: Seq<Lexeme>, i: int) -> Expr {
    if triple_at(t, i, 0) {
        triple_expr(t, i)
    } else {
        left_triple_expr(t, i)
    }
}

/// Token `i` opens `(a op1 b op2 c)` and the token after the `)` binds no
/// tighter than `min`.
pub open spec fn grouped_flat_at(t: Seq<Lexeme>, i: int, min: int) -> bool {
    &&& 0 <= i && i + 7 < t.len()
    &&& t[i].token is LeftParen
    &&& flat_at(t, i + 1)
    &&& t[i + 6].token is RightParen
    &&& precedence(t[i + 7].token) <= min
}

/// An expression whose tree is fixed by its tokens alone starts at token
/// `i` and ends before a token that binds no tighter than `min`: an atom,
/// `a op b`, `a op1 b op2 c`, or either of the last two in parentheses.
pub open spec fn plain_at(t: Seq<Lexeme>, i: int, min: int) -> bool {
    ||| (0 <= i && i + 1 < t.len() && is_atom(t[i].token) && precedence(t[i + 1].token) <= min)
    ||| pair_at(t, i, min)
    ||| triple_at(t, i, min)
    ||| left_triple_at(t, i, min)
    ||| grouped_pair_at(t, i, min)
    ||| grouped_flat_at(t, i, min)
}

/// The tree of the plain expression at token `i`.
pub open spec fn plain_expr(t: Seq<Lexeme>, i: int, min: int) -> Expr {
    if pair_at(t, i, min) {
        pair_expr(t, i)
    } else if triple_at(t, i, min) {
        triple_expr(t, i)
    } else if left_triple_at(t, i, min) {
        left_triple_expr(t, i)
    } else if grouped_pair_at(t, i, min) {
        pair_expr(t, i + 1)
    } else if grouped_flat_at(t, i, min) {
        flat_expr(t, i + 1)
    } else {
        atom_expr(t[i].token)
    }
}

/// Where the plain expression at token `i` ends.
pub open spec fn plain_end(t: Seq<Lexeme>, i: int, min: int) -> int {
    if pair_at(t, i, min) {
        i + 3
    } else if triple_at(t, i, min) || left_triple_at(t, i, min) {
        i + 5
    } else if grouped_pair_at(t, i, min) {
        i + 5
    } else if grouped_flat_at(t, i, min) {
        i + 7
    } else {
        i + 1
    }
}

/// Token `i` is an atom called with `(atoms)`, and the token after the `)`
/// binds no tighter than `min`.
pub open spec fn call_at(t: Seq<Lexeme>, i: int, min: int) -> bool {
    &&& 0 <= i && i + 1 < t.len()
    &&& is_atom(t[i].token)
    &&& t[i + 1].token is LeftParen
    &&& min < precedence(t[i + 1].token)
    &&& atom_list_ok(t, i + 2, true)
    &&& atom_list_end(t, i + 2) + 1 < t.len()
    &&& precedence(t[atom_list_end(t, i + 2) + 1].token) <= min
}

/// Tokens `i..i+5` are `a op1 b op2 c` with `op2` binding no tighter than
/// `op1`, and token `i+5` binds no tighter than `min`.
pub open spec fn left_triple_at(t: Seq<Lexeme>, i: int, min: int) -> bool {
    &&& 0 <= i && i + 5 < t.len()
    &&& is_atom(t[i].token) && is_atom(t[i + 2].token) && is_atom(t[i + 4].token)
    &&& binop_of(t[i + 1].token) is Some && binop_of(t[i + 3].token) is Some
    &&& min < precedence(t[i + 3].token) <= precedence(t[i + 1].token)
    &&& precedence(t[i + 5].token) <= min
}

/// The tree of `a op1 b op2 c` when `op2` binds no tighter: the operators
/// group from the left.
pub open spec fn left_triple_expr(t: Seq<Lexeme>, i: int) -> Expr {
    bin(pair_expr(t, i), t[i + 3].token, atom_expr(t[i + 4].token))
}

/// From token `i` on: binder names separated by commas (a trailing comma
/// allowed), ending at the first token that continues the list no further.
pub open spec fn params_ok(t: Seq<Lexeme>, i: int) -> bool
    decreases t.len() - i,
{
    &&& 0 <= i < t.len()
    &&& t[i].token is Identifier ==> (binder_name(ident_text(t[i].token)) && i + 1 < t.len() && (
    t[i + 1].token is Comma ==> params_ok(t, i + 2)))
}

/// The parameter names of the list from token `i`.
pub open spec fn params_of(t: Seq<Lexeme>, i: int) -> Seq<String>
    decreases t.len() - i,
{
    if 0 <= i < t.len() && t[i].token is Identifier {
        if i + 1 < t.len() && t[i + 1].token is Comma {
            seq![t[i].token->Identifier_0] + params_of(t, i + 2)
        } else {
            seq![t[i].token->Identifier_0]
        }
    } else {
        Seq::empty()
    }
}

/// Where the parameter list from token `i` ends.
pub open spec fn params_end(t: Seq<Lexeme>, i: int) -> int
    decreases t.len() - i,
{
    if 0 <= i < t.len() && t[i].token is Identifier && i + 1 < t.len() {
        if t[i + 1].token is Comma {
            params_end(t, i + 2)
        } else {
            i + 1
        }
    } else {
        i
    }
}

/// A plain expression or a call `f(atoms)` starts at token `i`.
pub open spec fn expr_known(t: Seq<Lexeme>, i: int) -> bool {
    plain_at(t, i, 0) || call_at(t, i, 0)
}

/// `e` is the known expression at token `i`.
pub open spec fn is_known_expr(t: Seq<Lexeme>, i: int, e: Expr) -> bool {
    if plain_at(t, i, 0) {
        e == plain_expr(t, i, 0)
    } else {
        e matches Expr::Call { func: f, args } && *f == atom_expr(t[i].token) && args@ == atom_list(
            t,
            i + 2,
        )
    }
}

/// Where the known expression at token `i` ends.
pub open spec fn expr_end(t: Seq<Lexeme>, i: int) -> int {
    if plain_at(t, i, 0) {
        plain_end(t, i, 0)
    } else {
        atom_list_end(t, i + 2) + 1
    }
}

/// `(cond) { s }` from token `i`: a known condition in parentheses and a
/// one-statement body.
pub open spec fn branch_at(t: Seq<Lexeme>, i: int) -> bool {
    &&& 0 <= i && i + 1 < t.len()
    &&& t[i].token is LeftParen
    &&& expr_known(t, i + 1)
    &&& 0 <= expr_end(t, i + 1) < t.len()
    &&& t[expr_end(t, i + 1)].token is RightParen
    &&& known_braced(t, expr_end(t, i + 1) + 1)
}

/// Where the body of the branch at token `i` starts looking for its `{`.
pub open spec fn branch_body(t: Seq<Lexeme>, i: int) -> int {
    expr_end(t, i + 1) + 1
}

/// The token after the `Elif` branch at token `e` and the newlines after it.
pub open spec fn elif_next(t: Seq<Lexeme>, e: int) -> int {
    skip_nl(t, braced_end(t, branch_body(t, e + 1)))
}

/// From token `e` on: `Elif (c) { ... }` branches with known conditions and
/// blocks, separated by newlines.
pub open spec fn elif_ok(t: Seq<Lexeme>, e: int) -> bool
    decreases t.len() - e,
{
    &&& 0 <= e < t.len()
    &&& t[e].token is Elif ==> (branch_at(t, e + 1) && e < elif_next(t, e) < t.len() && elif_ok(
        t,
        elif_next(t, e),
    ))
}

/// Where the `Elif` branches from token `e` start, in order.
pub open spec fn elif_starts(t: Seq<Lexeme>, e: int) -> Seq<int>
    decreases t.len() - e,
{
    if 0 <= e < t.len() && t[e].token is Elif && e < elif_next(t, e) < t.len() {
        seq![e] + elif_starts(t, elif_next(t, e))
    } else {
        Seq::empty()
    }
}

/// The token after the `Elif` branches from token `e`.
pub open spec fn elif_tail(t: Seq<Lexeme>, e: int) -> int
    decreases t.len() - e,
{
    if 0 <= e < t.len() && t[e].token is Elif && e < elif_next(t, e) < t.len() {
        elif_tail(t, elif_next(t, e))
    } else {
        e
    }
}

/// `c` is the `Elif` branch at token `p`.
pub open spec fn elif_branch_ok(t: Seq<Lexeme>, p: int, c: (Expr, Vec<Stmt>)) -> bool {
    is_known_expr(t, p + 2, c.0) && braced_body(t, branch_body(t, p + 1), c.1@)
}

/// `If (c) { ... }`, then any `Elif (c) { ... }` branches, then optionally
/// `Else { ... }`, from token `i`, with known conditions and blocks.
pub open spec fn if_else_at(t: Seq<Lexeme>, i: int) -> bool {
    &&& 0 <= i && i + 1 < t.len()
    &&& t[i].token is If
    &&& branch_at(t, i + 1)
    &&& elif_ok(t, else_at(t, i))
    &&& 0 <= elif_tail(t, else_at(t, i)) < t.len()
    &&& t[elif_tail(t, else_at(t, i))].token is Else ==> known_braced(
        t,
        elif_tail(t, else_at(t, i)) + 1,
    )
}

/// The token after the first body of the conditional at token `i` and the
/// newlines after it.
pub open spec fn else_at(t: Seq<Lexeme>, i: int) -> int {
    skip_nl(t, braced_end(t, branch_body(t, i + 1)))
}

/// `e` is the conditional at token `i`.
pub open spec fn is_if_else(t: Seq<Lexeme>, i: int, e: Expr) -> bool {
    let tail = elif_tail(t, else_at(t, i));
    e matches Expr::If { condition, then_branch, elif_branches, else_branch } && is_known_expr(
        t,
        i + 2,
        *condition,
    ) && braced_body(t, branch_body(t, i + 1), then_branch@) && elif_branches@.len()
        == elif_starts(t, else_at(t, i)).len() && (forall|k: int|
        0 <= k < elif_branches@.len() ==> elif_branch_ok(
            t,
            elif_starts(t, else_at(t, i))[k],
            #[trigger] elif_branches@[k],
        )) && (if t[tail].token is Else {
        else_branch matches Some(b) && braced_body(t, tail + 1, b@)
    } else {
        else_branch is None
    })
}

/// Where the conditional at token `i` ends.
pub open spec fn if_else_end(t: Seq<Lexeme>, i: int) -> int {
    let tail = elif_tail(t, else_at(t, i));
    if t[tail].token is Else {
        braced_end(t, tail + 1)
    } else {
        tail
    }
}

/// The key a dictionary key token stands for.
pub open spec fn key_of(t: Token) -> String {
    match t {
        Token::String(k) => k,
        _ => t->Identifier_0,
    }
}

/// From token `i` on: `key: atom` entries (identifier or string keys)
/// separated by commas (a trailing comma allowed, no newlines), up to `}`.
pub open spec fn dict_ok(t: Seq<Lexeme>, i: int) -> bool
    decreases t.len() - i,
{
    &&& 0 <= i < t.len()
    &&& (t[i].token is RightBrace || ((t[i].token is Identifier || t[i].token is String) && i + 3
        < t.len() && t[i + 1].token is Colon && is_atom(t[i + 2].token) && (t[i + 3].token is RightBrace
        || (t[i + 3].token is Comma && i + 4 < t.len() && !(t[i + 4].token is Newline) && dict_ok(
        t,
        i + 4,
    )))))
}

/// The entries of the dictionary from token `i`, in source order.
pub open spec fn dict_pairs(t: Seq<Lexeme>, i: int) -> Seq<(String, Expr)>
    decreases t.len() - i,
{
    if 0 <= i && i + 3 < t.len() && (t[i].token is Identifier || t[i].token is String) {
        let p = (key_of(t[i].token), atom_expr(t[i + 2].token));
        if t[i + 3].token is Comma {
            seq![p] + dict_pairs(t, i + 4)
        } else {
            seq![p]
        }
    } else {
        Seq::empty()
    }
}

/// The index of the `}` that closes the dictionary from token `i`.
pub open spec fn dict_end(t: Seq<Lexeme>, i: int) -> int
    decreases t.len() - i,
{
    if 0 <= i && i + 3 < t.len() && (t[i].token is Identifier || t[i].token is String) {
        if t[i + 3].token is Comma {
            dict_end(t, i + 4)
        } else {
            i + 3
        }
    } else {
        i
    }
}

/// Precedence climbing: a prefix expression, then infix forms whose binding
/// power exceeds `min`.
fn parse_expression(toks: &Vec<Lexeme>, i: usize, min: u8) -> (r: Result<(Expr, usize), ParseError>)
    requires
        stream_ok(toks@),
        i < toks@.len(),
    ensures
        if_else_at(toks@, i as int) && 0 <= if_else_end(toks@, i as int) < toks@.len() && precedence(
            toks@[if_else_end(toks@, i as int)].token,
        ) <= min ==> (r matches Ok((e, w)) && is_if_else(toks@, i as int, e) && w == if_else_end(
            toks@,
            i as int,
        )),
        plain_at(toks@, i as int, min as int) ==> (r matches Ok((v, w)) && v == plain_expr(
            toks@,
            i as int,
            min as int,
        ) && w == plain_end(toks@, i as int, min as int)),
        grouped_flat_at(toks@, i as int, min as int) ==> (r matches Ok((v, w)) && v == flat_expr(
            toks@,
            i + 1,
        ) && w == i + 7),
        r is Err ==> at_token(toks@, r->Err_0),
        left_triple_at(toks@, i as int, min as int) ==> (r matches Ok((v, w)) && v
            == left_triple_expr(toks@, i as int) && w == i + 5),
        call_at(toks@, i as int, min as int) ==> (r matches Ok((Expr::Call { func: f, args }, w))
            && *f == atom_expr(toks@[i as int].token) && args@ == atom_list(toks@, i + 2) && w
            == atom_list_end(toks@, i + 2) + 1),
        grouped_pair_at(toks@, i as int, min as int) ==> (r matches Ok((v, w)) && v == pair_expr(
            toks@,
            i + 1,
        ) && w == i + 5),
        array_at(toks@, i as int, min as int) ==> (r matches Ok((Expr::Array(v), w)) && v@
            == atom_list(toks@, i + 1) && w == atom_list_end(toks@, i + 1) + 1),
        r matches Ok((e, _)) ==> expr_well_named(e),
        advanced(toks@, i as int, r),
        r is Ok ==> precedence(toks@[r->Ok_0.1 as int].token) <= min,
        is_atom(toks@[i as int].token) && i + 1 < toks@.len() && precedence(toks@[i + 1].token)
            <= min ==> (r matches Ok((v, w)) && v == atom_expr(toks@[i as int].token) && w == i + 1),
        pair_at(toks@, i as int, min as int) ==> (r matches Ok((v, w)) && v == pair_expr(toks@, i as int) && w == i + 3),
        triple_at(toks@, i as int, min as int) ==> (r matches Ok((v, w)) && v == triple_expr(toks@, i as int) && w == i + 5),
    decreases toks@.len() - i, 3nat,
{
    let (mut left, mut j) = parse_prefix(toks, i)?;
    let ghost t = toks@;
    let ghost a = atom_expr(t[i as int].token);
    while min < precedence_of(&toks[j].token)
        invariant
            if_else_at(t, i as int) && 0 <= if_else_end(t, i as int) < t.len() && precedence(
                t[if_else_end(t, i as int)].token,
            ) <= min ==> j == if_else_end(t, i as int) && is_if_else(t, i as int, left),
            grouped_flat_at(t, i as int, min as int) ==> j == i + 7 && left == flat_expr(t, i + 1),
            left_triple_at(t, i as int, min as int) ==> (j == i + 1 || (j == i + 3 && left
                == pair_expr(t, i as int)) || (j == i + 5 && left == left_triple_expr(t, i as int))),
            call_at(t, i as int, min as int) ==> j == i + 1 || (j == atom_list_end(t, i + 2) + 1 && (
            left matches Expr::Call { func: f, args } && *f == a && args@ == atom_list(t, i + 2))),
            grouped_pair_at(t, i as int, min as int) ==> j == i + 5 && left == pair_expr(t, i + 1),
            array_at(t, i as int, min as int) ==> j == atom_list_end(t, i + 1) + 1 && (left matches Expr::Array(v) && v@ == atom_list(t, i + 1)),
            expr_well_named(left),
            stream_ok(toks@),
            i < j < toks@.len(),
            t == toks@,
            a == atom_expr(t[i as int].token),
            is_atom(t[i as int].token) && j == i + 1 ==> left == a,
            is_atom(t[i as int].token) && i + 1 < t.len() && precedence(t[i + 1].token) <= min
                ==> j == i + 1,
            pair_at(t, i as int, min as int) ==> (j == i + 1 || (j == i + 3 && left == pair_expr(t, i as int))),
            triple_at(t, i as int, min as int) ==> (j == i + 1 || (j == i + 5 && left
                == triple_expr(t, i as int))),
        decreases toks@.len() - j,
    {
        let ghost j0 = j;
        let ghost l0 = left;
        proof {
            if triple_at(t, i as int, min as int) && j0 == i + 1 {
                assert(pair_at(t, i + 2, precedence(t[i + 1].token) as int));
            }
            if left_triple_at(t, i as int, min as int) && j0 == i + 1 {
                assert(is_atom(toks@[j0 + 1].token));
                assert(precedence(toks@[j0 + 2].token) <= precedence(toks@[j0 as int].token));
            }
            if left_triple_at(t, i as int, min as int) && j0 == i + 3 {
                assert(is_atom(toks@[j0 + 1].token));
                assert(precedence(toks@[j0 + 2].token) <= precedence(toks@[j0 as int].token));
            }
            if pair_at(t, i as int, min as int) && j0 == i + 1 {
                assert(is_atom(toks@[j0 + 1].token));
                assert(precedence(toks@[j0 + 2].token) <= precedence(toks@[j0 as int].token));
            }
        }
        let (e, k) = parse_infix(toks, j, left)?;
        left = e;
        j = k;
        proof {
            if pair_at(t, i as int, min as int) && j0 == i + 1 {
                assert(left == bin(l0, t[i + 1].token, atom_expr(t[i + 2].token)));
                assert(j == i + 3);
                assert(left == pair_expr(t, i as int));
            }
            if triple_at(t, i as int, min as int) && j0 == i + 1 {
                assert(left == bin(l0, t[i + 1].token, pair_expr(t, i + 2)));
                assert(j == i + 5);
                assert(left == triple_expr(t, i as int));
            }
        }
    }
    Ok((left, j))
}

/// A literal, a name, or an expression that opens with its own token.
fn parse_prefix(toks: &Vec<Lexeme>, i: usize) -> (r: Result<(Expr, usize), ParseError>)
    requires
        stream_ok(toks@),
        i < toks@.len(),
    ensures
        if_else_at(toks@, i as int) ==> (r matches Ok((e, w)) && is_if_else(toks@, i as int, e) && w
            == if_else_end(toks@, i as int)),
        i + 6 < toks@.len() && toks@[i as int].token is LeftParen && flat_at(toks@, i + 1)
            && toks@[i + 6].token is RightParen ==> (r matches Ok((v, w)) && v == flat_expr(
            toks@,
            i + 1,
        ) && w == i + 7),
        r is Err ==> at_token(toks@, r->Err_0),
        i + 4 < toks@.len() && toks@[i as int].token is LeftParen && pair_at(toks@, i + 1, 0)
            && toks@[i + 4].token is RightParen ==> (r matches Ok((v, w)) && v == pair_expr(
            toks@,
            i + 1,
        ) && w == i + 5),
        toks@[i as int].token is LeftBracket && atom_list_ok(toks@, i + 1, false) ==> (r matches Ok((
            Expr::Array(v),
            w,
        )) && v@ == atom_list(toks@, i + 1) && w == atom_list_end(toks@, i + 1) + 1),
        r matches Ok((e, _)) ==> expr_well_named(e),
        advanced(toks@, i as int, r),
        toks@[i as int].token is Number ==> (r matches Ok((Expr::Number(n), _)) && n@
            == toks@[i as int].token->Number_0@),
        toks@[i as int].token is BigInteger ==> (r matches Ok((Expr::BigInteger(n), _)) && n@
            == toks@[i as int].token->BigInteger_0@),
        toks@[i as int].token is Identifier ==> (r matches Ok((Expr::Identifier(n), _)) && n@
            == toks@[i as int].token->Identifier_0@),
        toks@[i as int].token is String ==> (r matches Ok((Expr::String(v), _)) && v@
            == toks@[i as int].token->String_0@),
        toks@[i as int].token is Boolean ==> (r matches Ok((Expr::Boolean(b), _)) && b
            == toks@[i as int].token->Boolean_0),
        toks@[i as int].token is Null ==> (r matches Ok((Expr::Null, _))),
        toks@[i as int].token is EOF ==> r is Err,
        is_atom(toks@[i as int].token) ==> (r matches Ok((v, w)) && v == atom_expr(toks@[i as int].token) && w == i + 1),
    decreases toks@.len() - i, 2nat,
{
    let t = &toks[i].token;
    match t {
        Token::Number(n) => Ok((Expr::Number(n.clone()), step(toks, i))),
        Token::BigInteger(n) => Ok((Expr::BigInteger(n.clone()), step(toks, i))),
        Token::String(v) => Ok((Expr::String(v.clone()), step(toks, i))),
        Token::Boolean(b) => Ok((Expr::Boolean(*b), step(toks, i))),
        Token::Null => Ok((Expr::Null, step(toks, i))),
        Token::Identifier(n) => Ok((Expr::Identifier(n.clone()), step(toks, i))),
        Token::LeftParen => parse_grouped_expression(toks, i),
        Token::LeftBracket => parse_array_literal(toks, i),
        Token::LeftBrace => parse_dict_literal(toks, i),
        Token::Minus => parse_unary_expression(toks, i, UnaryOp::Minus),
        Token::Not => parse_unary_expression(toks, i, UnaryOp::Not),
        Token::If => parse_if_expression(toks, i),
        Token::Func => parse_lambda_expression(toks, i),
        Token::Lambda => parse_lambda_arrow_expression(toks, i),
        _ => Err(
            ParseError::InvalidExpression {
                message: "Unexpected token in expression".to_string(),
                line: toks[i].line,
                column: toks[i].column,
            },
        ),
    }
}

/// The infix form that token `i` opens, applied to `left`.
fn parse_infix(toks: &Vec<Lexeme>, i: usize, left: Expr) -> (r: Result<(Expr, usize), ParseError>)
    requires
        expr_well_named(left),
        stream_ok(toks@),
        i < toks@.len(),
        precedence(toks@[i as int].token) > 0,
    ensures
        r is Err ==> at_token(toks@, r->Err_0),
        toks@[i as int].token is LeftParen && atom_list_ok(toks@, i + 1, true) ==> (r matches Ok((
            Expr::Call { func: f, args },
            w,
        )) && *f == left && args@ == atom_list(toks@, i + 1) && w == atom_list_end(toks@, i + 1)
            + 1),
        r matches Ok((e, _)) ==> expr_well_named(e),
        advanced(toks@, i as int, r),
        (binop_of(toks@[i as int].token) is Some && r is Ok) ==> (r matches Ok((Expr::Binary { op, .. }, _))
            && op == binop_of(toks@[i as int].token)->0),
        binop_of(toks@[i as int].token) is Some && is_atom(toks@[i + 1].token) && i + 2 < toks@.len() && precedence(toks@[i + 2].token)
            <= precedence(toks@[i as int].token) ==> (r matches Ok((v, w)) && v == bin(left, toks@[i as int].token, atom_expr(toks@[i + 1].token)) && w == i + 2),
        binop_of(toks@[i as int].token) is Some && pair_at(toks@, i + 1, precedence(toks@[i as int].token) as int) ==> (r matches Ok((v, w)) && v == bin(left, toks@[i as int].token, pair_expr(toks@, i + 1)) && w == i + 4),
    decreases toks@.len() - i, 2nat,
{
    match &toks[i].token {
        Token::LeftParen => parse_call_expression(toks, i, left),
        Token::LeftBracket => parse_index_expression(toks, i, left),
        _ => parse_binary_expression(toks, i, left),
    }
}

/// `left op right`, where `right` binds tighter than `op`.
fn parse_binary_expression(toks: &Vec<Lexeme>, i: usize, left: Expr) -> (r: Result<
    (Expr, usize),
    ParseError,
>)
    requires
        expr_well_named(left),
        stream_ok(toks@),
        i < toks@.len(),
        precedence(toks@[i as int].token) > 0,
        !(toks@[i as int].token is LeftParen),
        !(toks@[i as int].token is LeftBracket),
    ensures
        r is Err ==> at_token(toks@, r->Err_0),
        r matches Ok((e, _)) ==> expr_well_named(e),
        advanced(toks@, i as int, r),
        r is Ok ==> (r matches Ok((Expr::Binary { op, .. }, _)) && op == binop_of(
            toks@[i as int].token,
        )->0),
        is_atom(toks@[i + 1].token) && i + 2 < toks@.len() && precedence(toks@[i + 2].token)
            <= precedence(toks@[i as int].token) ==> (r matches Ok((v, w)) && v == bin(left, toks@[i as int].token, atom_expr(toks@[i + 1].token)) && w == i + 2),
        pair_at(toks@, i + 1, precedence(toks@[i as int].token) as int) ==> (r matches Ok((v, w)) && v == bin(left, toks@[i as int].token, pair_expr(toks@, i + 1)) && w == i + 4),
    decreases toks@.len() - i, 1nat,
{
    let op = match &toks[i].token {
        Token::Plus => BinOp::Add,
        Token::Minus => BinOp::Subtract,
        Token::Multiply => BinOp::Multiply,
        Token::Divide => BinOp::Divide,
        Token::Modulo => BinOp::Modulo,
        Token::Equal => BinOp::Equal,
        Token::NotEqual => BinOp::NotEqual,
        Token::Less => BinOp::Less,
        Token::LessEqual => BinOp::LessEqual,
        Token::Greater => BinOp::Greater,
        Token::GreaterEqual => BinOp::GreaterEqual,
        Token::And => BinOp::And,
        _ => BinOp::Or,
    };
    let power = precedence_of(&toks[i].token);
    let (right, j) = parse_expression(toks, step(toks, i), power)?;
    Ok((Expr::binary(left, op, right), j))
}

/// `func(args...)`.
fn parse_call_expression(toks: &Vec<Lexeme>, i: usize, func: Expr) -> (r: Result<
    (Expr, usize),
    ParseError,
>)
    requires
        expr_well_named(func),
        stream_ok(toks@),
        i < toks@.len(),
        toks@[i as int].token is LeftParen,
    ensures
        r is Err ==> at_token(toks@, r->Err_0),
        atom_list_ok(toks@, i + 1, true) ==> (r matches Ok((Expr::Call { func: f, args }, w)) && *f
            == func && args@ == atom_list(toks@, i + 1) && w == atom_list_end(toks@, i + 1) + 1),
        r matches Ok((e, _)) ==> expr_well_named(e),
        advanced(toks@, i as int, r),
        r is Ok ==> r->Ok_0.0 is Call,
    decreases toks@.len() - i, 1nat,
{
    let mut args: Vec<Expr> = Vec::new();
    let mut j = skip_newlines(toks, step(toks, i));
    proof {
        assert(args@ + atom_list(toks@, j as int) =~= atom_list(toks@, j as int));
    }
    while !matches!(toks[j].token, Token::RightParen) && !matches!(toks[j].token, Token::EOF)
        invariant
            atom_list_ok(toks@, i + 1, true) ==> atom_list_ok(toks@, j as int, true) && args@
                + atom_list(toks@, j as int) == atom_list(toks@, i + 1) && atom_list_end(
                toks@,
                j as int,
            ) == atom_list_end(toks@, i + 1),
            exprs_well_named(args@),
            stream_ok(toks@),
            i < j < toks@.len(),
        ensures
            atom_list_ok(toks@, i + 1, true) ==> toks@[j as int].token is RightParen && args@
                + atom_list(toks@, j as int) == atom_list(toks@, i + 1) && atom_list_end(
                toks@,
                j as int,
            ) == atom_list_end(toks@, i + 1),
        decreases toks@.len() - j,
    {
        let ghost j0 = j;
        let (arg, k) = parse_expression(toks, j, LOWEST)?;
        let ghost prev = args@;
        args.push(arg);
        proof {
            assert(args@.drop_last() =~= prev);
            if atom_list_ok(toks@, i + 1, true) {
                assert(is_atom(toks@[j0 as int].token));
                assert(precedence(toks@[j0 + 1].token) == 0);
                assert(k == j0 + 1);
                assert(args@ == prev.push(atom_expr(toks@[j0 as int].token)));
                if toks@[j0 + 1].token is Comma {
                    assert(atom_list(toks@, j0 as int) == seq![atom_expr(toks@[j0 as int].token)]
                        + atom_list(toks@, j0 + 2));
                    assert(args@ + atom_list(toks@, j0 + 2) =~= prev + atom_list(toks@, j0 as int));
                    assert(atom_list_ok(toks@, j0 + 2, true));
                    assert(!(toks@[j0 + 2].token is Newline));
                } else {
                    assert(args@ + atom_list(toks@, j0 + 1) =~= prev + atom_list(toks@, j0 as int));
                }
            }
        }
        if matches!(toks[k].token, Token::Comma) {
            j = skip_newlines(toks, step(toks, k));
        } else {
            j = k;
            break;
        }
    }
    proof {
        if atom_list_ok(toks@, i + 1, true) {
            assert(atom_list(toks@, j as int) == Seq::<Expr>::empty());
            assert(args@ =~= atom_list(toks@, i + 1));
        }
    }
    let j = expect(toks, j, Delim::RightParen)?;
    Ok((Expr::call(func, args), j))
}

/// `object[index]`.
fn parse_index_expression(toks: &Vec<Lexeme>, i: usize, object: Expr) -> (r: Result<
    (Expr, usize),
    ParseError,
>)
    requires
        expr_well_named(object),
        stream_ok(toks@),
        i < toks@.len(),
        toks@[i as int].token is LeftBracket,
    ensures
        r is Err ==> at_token(toks@, r->Err_0),
        r matches Ok((e, _)) ==> expr_well_named(e),
        advanced(toks@, i as int, r),
        r is Ok ==> r->Ok_0.0 is Index,
    decreases toks@.len() - i, 1nat,
{
    let (index, j) = parse_expression(toks, step(toks, i), LOWEST)?;
    let j = expect(toks, j, Delim::RightBracket)?;
    Ok((Expr::index(object, index), j))
}

/// `(expr)`.
fn parse_grouped_expression(toks: &Vec<Lexeme>, i: usize) -> (r: Result<(Expr, usize), ParseError>)
    requires
        stream_ok(toks@),
        i < toks@.len(),
        toks@[i as int].token is LeftParen,
    ensures
        i + 6 < toks@.len() && flat_at(toks@, i + 1) && toks@[i + 6].token is RightParen ==> (
        r matches Ok((v, w)) && v == flat_expr(toks@, i + 1) && w == i + 7),
        r is Err ==> at_token(toks@, r->Err_0),
        i + 4 < toks@.len() && pair_at(toks@, i + 1, 0) && toks@[i + 4].token is RightParen ==> (
        r matches Ok((v, w)) && v == pair_expr(toks@, i + 1) && w == i + 5),
        r matches Ok((e, _)) ==> expr_well_named(e),
        advanced(toks@, i as int, r),
    decreases toks@.len() - i, 1nat,
{
    let (e, j) = parse_expression(toks, step(toks, i), LOWEST)?;
    if matches!(toks[j].token, Token::RightParen) {
        Ok((e, step(toks, j)))
    } else {
        Err(unexpected(toks, j, "RightParen"))
    }
}

/// `[e1, e2, ...]`, newlines allowed between elements.
fn parse_array_literal(toks: &Vec<Lexeme>, i: usize) -> (r: Result<(Expr, usize), ParseError>)
    requires
        stream_ok(toks@),
        i < toks@.len(),
        toks@[i as int].token is LeftBracket,
    ensures
        r is Err ==> at_token(toks@, r->Err_0),
        atom_list_ok(toks@, i + 1, false) ==> (r matches Ok((Expr::Array(v), w)) && v@ == atom_list(
            toks@,
            i + 1,
        ) && w == atom_list_end(toks@, i + 1) + 1),
        r matches Ok((e, _)) ==> expr_well_named(e),
        advanced(toks@, i as int, r),
        r is Ok ==> r->Ok_0.0 is Array,
    decreases toks@.len() - i, 1nat,
{
    let mut elements: Vec<Expr> = Vec::new();
    let mut j = skip_newlines(toks, step(toks, i));
    proof {
        assert(elements@ + atom_list(toks@, j as int) =~= atom_list(toks@, j as int));
    }
    while !matches!(toks[j].token, Token::RightBracket) && !matches!(toks[j].token, Token::EOF)
        invariant
            atom_list_ok(toks@, i + 1, false) ==> atom_list_ok(toks@, j as int, false) && elements@ + atom_list(
                toks@,
                j as int,
            ) == atom_list(toks@, i + 1) && atom_list_end(toks@, j as int) == atom_list_end(
                toks@,
                i + 1,
            ),
            exprs_well_named(elements@),
            stream_ok(toks@),
            i < j < toks@.len(),
        ensures
            atom_list_ok(toks@, i + 1, false) ==> toks@[j as int].token is RightBracket && elements@
                + atom_list(toks@, j as int) == atom_list(toks@, i + 1) && atom_list_end(
                toks@,
                j as int,
            ) == atom_list_end(toks@, i + 1),
        decreases toks@.len() - j,
    {
        let ghost j0 = j;
        let (e, k) = parse_expression(toks, j, LOWEST)?;
        let ghost prev = elements@;
        elements.push(e);
        proof {
            assert(elements@.drop_last() =~= prev);
            if atom_list_ok(toks@, i + 1, false) {
                assert(elements@ == prev.push(atom_expr(toks@[j0 as int].token)));
                if toks@[j0 + 1].token is Comma {
                    assert(atom_list(toks@, j0 as int) == seq![atom_expr(toks@[j0 as int].token)]
                        + atom_list(toks@, j0 + 2));
                    assert(elements@ + atom_list(toks@, j0 + 2) =~= prev + atom_list(toks@, j0 as int));
                } else {
                    assert(elements@ + atom_list(toks@, j0 + 1) =~= prev + atom_list(toks@, j0 as int));
                }
            }
        }
        proof {
            if atom_list_ok(toks@, i + 1, false) {
                assert(is_atom(toks@[j0 as int].token));
                assert(precedence(toks@[j0 + 1].token) == 0);
                assert(k == j0 + 1);
            }
        }
        let k = skip_newlines(toks, k);
        if matches!(toks[k].token, Token::Comma) {
            proof {
                if atom_list_ok(toks@, i + 1, false) {
                    assert(atom_list_ok(toks@, j0 + 2, false));
                    assert(!(toks@[j0 + 2].token is Newline));
                }
            }
            j = skip_newlines(toks, step(toks, k));
        } else {
            j = k;
            if matches!(toks[k].token, Token::RightBracket) {
                break;
            }
        }
    }
    proof {
        if atom_list_ok(toks@, i + 1, false) {
            assert(toks@[j as int].token is RightBracket);
            assert(atom_list(toks@, j as int) == Seq::<Expr>::empty());
            assert(elements@ =~= atom_list(toks@, i + 1));
        }
    }
    let j = expect(toks, j, Delim::RightBracket)?;
    Ok((Expr::Array(elements), j))
}

/// `{key: value, ...}` with identifier or string keys, in source order.
fn parse_dict_literal(toks: &Vec<Lexeme>, i: usize) -> (r: Result<(Expr, usize), ParseError>)
    requires
        stream_ok(toks@),
        i < toks@.len(),
        toks@[i as int].token is LeftBrace,
    ensures
        i + 1 < toks@.len() && !(toks@[i + 1].token is Newline) && dict_ok(toks@, i + 1) ==> (
        r matches Ok((Expr::Dict(v), w)) && v@ == dict_pairs(toks@, i + 1) && w == dict_end(
            toks@,
            i + 1,
        ) + 1),
        r is Err ==> at_token(toks@, r->Err_0),
        r matches Ok((e, _)) ==> expr_well_named(e),
        advanced(toks@, i as int, r),
        r is Ok ==> r->Ok_0.0 is Dict,
    decreases toks@.len() - i, 1nat,
{
    let mut pairs: Vec<(String, Expr)> = Vec::new();
    let mut j = skip_newlines(toks, step(toks, i));
    proof {
        assert(pairs@ + dict_pairs(toks@, j as int) =~= dict_pairs(toks@, j as int));
    }
    while !matches!(toks[j].token, Token::RightBrace) && !matches!(toks[j].token, Token::EOF)
        invariant
            dict_ok(toks@, i + 1) && !(toks@[i + 1].token is Newline) ==> dict_ok(toks@, j as int)
                && pairs@ + dict_pairs(toks@, j as int) == dict_pairs(toks@, i + 1) && dict_end(
                toks@,
                j as int,
            ) == dict_end(toks@, i + 1),
            pairs_well_named(pairs@),
            stream_ok(toks@),
            i < j < toks@.len(),
        ensures
            dict_ok(toks@, i + 1) && !(toks@[i + 1].token is Newline) ==> toks@[j as int].token is RightBrace
                && pairs@ == dict_pairs(toks@, i + 1) && j == dict_end(toks@, i + 1),
        decreases toks@.len() - j,
    {
        let ghost j0 = j;
        let key = match &toks[j].token {
            Token::Identifier(k) => k.clone(),
            Token::String(k) => k.clone(),
            _ => {
                return Err(unexpected(toks, j, "identifier or string"));
            },
        };
        let k = expect(toks, step(toks, j), Delim::Colon)?;
        let (value, k) = parse_expression(toks, k, LOWEST)?;
        let ghost prev = pairs@;
        pairs.push((key, value));
        proof {
            assert(pairs@.drop_last() =~= prev);
            if dict_ok(toks@, i + 1) && !(toks@[i + 1].token is Newline) {
                let t = toks@;
                assert(key == key_of(t[j0 as int].token));
                assert(precedence(t[j0 + 3].token) == 0);
                assert(k == j0 + 3);
                if t[j0 + 3].token is Comma {
                    assert(pairs@ + dict_pairs(t, j0 + 4) =~= prev + dict_pairs(t, j0 as int));
                } else {
                    assert(pairs@ =~= prev + dict_pairs(t, j0 as int));
                    assert(dict_pairs(t, j0 + 3) == Seq::<(String, Expr)>::empty());
                }
            }
        }
        let k = skip_newlines(toks, k);
        if matches!(toks[k].token, Token::Comma) {
            j = skip_newlines(toks, step(toks, k));
        } else {
            j = k;
            if matches!(toks[k].token, Token::RightBrace) {
                break;
            }
        }
    }
    let j = expect(toks, j, Delim::RightBrace)?;
    Ok((Expr::Dict(pairs), j))
}

/// `-expr` or `!expr`; the operand binds at prefix strength.
fn parse_unary_expression(toks: &Vec<Lexeme>, i: usize, op: UnaryOp) -> (r: Result<
    (Expr, usize),
    ParseError,
>)
    requires
        stream_ok(toks@),
        i < toks@.len(),
        toks@[i as int].token is Minus || toks@[i as int].token is Not,
    ensures
        r is Err ==> at_token(toks@, r->Err_0),
        r matches Ok((e, _)) ==> expr_well_named(e),
        advanced(toks@, i as int, r),
        r is Ok ==> (r matches Ok((Expr::Unary { op: o, .. }, _)) && o == op),
    decreases toks@.len() - i, 1nat,
{
    let (e, j) = parse_expression(toks, step(toks, i), PREFIX)?;
    Ok((Expr::unary(op, e), j))
}

/// `(cond) { ... }` after `If` or `Elif`.
fn parse_condition_branch(toks: &Vec<Lexeme>, i: usize) -> (r: Result<
    (Expr, Vec<Stmt>, usize),
    ParseError,
>)
    requires
        stream_ok(toks@),
        i < toks@.len(),
    ensures
        branch_at(toks@, i as int) ==> (r matches Ok((c, b, w)) && is_known_expr(toks@, i + 1, c)
            && braced_body(toks@, branch_body(toks@, i as int), b@) && w == braced_end(
            toks@,
            branch_body(toks@, i as int),
        )),
        r is Err ==> at_token(toks@, r->Err_0),
        r matches Ok((c, b, _)) ==> expr_well_named(c) && block_well_named(b@),
        r is Ok ==> i < r->Ok_0.2 < toks@.len(),
    decreases toks@.len() - i, 8nat,
{
    let j = expect(toks, i, Delim::LeftParen)?;
    let (condition, j) = parse_expression(toks, j, LOWEST)?;
    let j = expect(toks, j, Delim::RightParen)?;
    let (body, j) = parse_braced(toks, j)?;
    Ok((condition, body, j))
}

/// `If (cond) { ... } Elif (cond) { ... } ... Else { ... }` as an expression.
fn parse_if_expression(toks: &Vec<Lexeme>, i: usize) -> (r: Result<(Expr, usize), ParseError>)
    requires
        stream_ok(toks@),
        i < toks@.len(),
        toks@[i as int].token is If,
    ensures
        if_else_at(toks@, i as int) ==> (r matches Ok((e, w)) && is_if_else(toks@, i as int, e) && w
            == if_else_end(toks@, i as int)),
        r is Err ==> at_token(toks@, r->Err_0),
        r matches Ok((e, _)) ==> expr_well_named(e),
        advanced(toks@, i as int, r),
        r is Ok ==> r->Ok_0.0 is If,
    decreases toks@.len() - i, 1nat,
{
    let (condition, then_branch, j) = parse_condition_branch(toks, step(toks, i))?;
    let mut j = skip_newlines(toks, j);
    let mut elif_branches: Vec<(Expr, Vec<Stmt>)> = Vec::new();
    let ghost mut done: Seq<int> = Seq::empty();
    proof {
        assert(done + elif_starts(toks@, j as int) =~= elif_starts(toks@, j as int));
    }
    while matches!(toks[j].token, Token::Elif)
        invariant
            if_else_at(toks@, i as int) ==> {
                &&& elif_ok(toks@, j as int)
                &&& done + elif_starts(toks@, j as int) == elif_starts(toks@, else_at(toks@, i as int))
                &&& elif_tail(toks@, j as int) == elif_tail(toks@, else_at(toks@, i as int))
                &&& elif_branches@.len() == done.len()
                &&& forall|k: int|
                    0 <= k < done.len() ==> elif_branch_ok(toks@, done[k], #[trigger] elif_branches@[k])
            },
            branches_well_named(elif_branches@),
            stream_ok(toks@),
            i < j < toks@.len(),
        decreases toks@.len() - j,
    {
        let ghost j0 = j;
        let (c, body, k) = parse_condition_branch(toks, step(toks, j))?;
        let ghost prev = elif_branches@;
        let ghost pair = (c, body);
        elif_branches.push((c, body));
        proof {
            assert(elif_branches@.drop_last() =~= prev);
        }
        j = skip_newlines(toks, k);
        proof {
            if if_else_at(toks@, i as int) {
                let t = toks@;
                assert(elif_branch_ok(t, j0 as int, pair));
                assert(elif_starts(t, j0 as int) == seq![j0 as int] + elif_starts(t, j as int));
                assert(done.push(j0 as int) + elif_starts(t, j as int) =~= done + elif_starts(
                    t,
                    j0 as int,
                ));
                assert forall|m: int| 0 <= m < done.len() + 1 implies elif_branch_ok(
                    t,
                    done.push(j0 as int)[m],
                    #[trigger] elif_branches@[m],
                ) by {
                    if m < done.len() {
                        assert(elif_branches@[m] == prev[m]);
                    }
                }
            }
            done = done.push(j0 as int);
        }
    }
    proof {
        if if_else_at(toks@, i as int) {
            assert(elif_starts(toks@, j as int) == Seq::<int>::empty());
            assert(done =~= elif_starts(toks@, else_at(toks@, i as int)));
        }
    }
    let (else_branch, j) = if matches!(toks[j].token, Token::Else) {
        let (body, k) = parse_braced(toks, step(toks, j))?;
        (Some(body), k)
    } else {
        (None, j)
    };
    Ok(
        (
            Expr::If { condition: Box::new(condition), then_branch, elif_branches, else_branch },
            j,
        ),
    )
}

/// `Func(params) { body }` as an expression.
fn parse_lambda_expression(toks: &Vec<Lexeme>, i: usize) -> (r: Result<(Expr, usize), ParseError>)
    requires
        stream_ok(toks@),
        i < toks@.len(),
        toks@[i as int].token is Func,
    ensures
        r is Err ==> at_token(toks@, r->Err_0),
        r matches Ok((e, _)) ==> expr_well_named(e),
        advanced(toks@, i as int, r),
        r matches Ok((Expr::Lambda { params, .. }, _)) ==> all_binders(params@),
        r is Ok ==> r->Ok_0.0 is Lambda,
    decreases toks@.len() - i, 1nat,
{
    let j = expect(toks, step(toks, i), Delim::LeftParen)?;
    let (params, j) = parse_parameter_list(toks, j)?;
    let j = expect(toks, j, Delim::RightParen)?;
    let (body, j) = parse_braced(toks, j)?;
    Ok((Expr::Lambda { params, body }, j))
}

/// `Lambda X -> expr` or `Lambda (X, Y) -> expr`; the body is the single
/// statement `Return expr`.
fn parse_lambda_arrow_expression(toks: &Vec<Lexeme>, i: usize) -> (r: Result<
    (Expr, usize),
    ParseError,
>)
    requires
        stream_ok(toks@),
        i < toks@.len(),
        toks@[i as int].token is Lambda,
    ensures
        r is Err ==> at_token(toks@, r->Err_0),
        i + 7 < toks@.len() && toks@[i + 1].token is Identifier && binder_name(
            ident_text(toks@[i + 1].token),
        ) && toks@[i + 2].token is Arrow && grouped_pair_at(toks@, i + 3, 0) ==> (r matches Ok((
            Expr::Lambda { params, body },
            w,
        )) && params@ == seq![toks@[i + 1].token->Identifier_0] && body@ == seq![
            Stmt::Return(pair_expr(toks@, i + 4)),
        ] && w == i + 8),
        r matches Ok((e, _)) ==> expr_well_named(e),
        advanced(toks@, i as int, r),
        r matches Ok((Expr::Lambda { params, body }, _)) ==> all_binders(params@) && body@.len()
            == 1 && body@[0] is Return,
        r is Ok ==> r->Ok_0.0 is Lambda,
    decreases toks@.len() - i, 1nat,
{
    let j = step(toks, i);
    let (params, j) = if matches!(toks[j].token, Token::LeftParen) {
        let (params, k) = parse_parameter_list(toks, step(toks, j))?;
        let k = expect(toks, k, Delim::RightParen)?;
        (params, k)
    } else {
        let name = match &toks[j].token {
            Token::Identifier(n) => n.clone(),
            _ => {
                return Err(unexpected(toks, j, "identifier or '('"));
            },
        };
        validate_identifier(&name, true, toks[j].line, toks[j].column)?;
        let mut params: Vec<String> = Vec::new();
        params.push(name);
        proof {
            assert(params@ =~= seq![name]);
        }
        (params, step(toks, j))
    };
    let j = expect(toks, j, Delim::Arrow)?;
    let (e, j) = parse_expression(toks, j, LOWEST)?;
    let mut body: Vec<Stmt> = Vec::new();
    let ret = Stmt::Return(e);
    proof {
        assert(stmt_well_named(ret));
        assert(block_well_named(Seq::<Stmt>::empty()));
    }
    body.push(ret);
    proof {
        assert(body@.drop_last() =~= Seq::<Stmt>::empty());
        assert(body@.last() == ret);
        assert(block_well_named(body@));
        assert(all_binders(params@));
    }
    Ok((Expr::Lambda { params, body }, j))
}

/// The message prefix that locates an error.
pub open spec fn located(line: usize, column: usize) -> Seq<char> {
    "Parse error at line "@ + decimal(line as nat) + ", column "@ + decimal(column as nat) + ": "@
}

/// The human-readable text of an error.
pub open spec fn error_text(e: ParseError) -> Seq<char> {
    match e {
        ParseError::UnexpectedToken { expected, found, line, column } => located(line, column)
            + "Expected "@ + expected@ + ", found "@ + token_text(found),
        ParseError::UnexpectedEOF { line, column } => located(line, column)
            + "Unexpected end of file"@,
        ParseError::InvalidNumber(s) => "Parse error: Invalid number: "@ + s@,
        ParseError::InvalidExpression { message, line, column } => located(line, column)
            + "Invalid expression - "@ + message@,
        ParseError::InvalidStatement { message, line, column } => located(line, column)
            + "Invalid statement - "@ + message@,
        ParseError::InvalidIdentifier { name, reason, line, column } => located(line, column)
            + "Invalid identifier '"@ + name@ + "' - "@ + reason@,
    }
}

fn located_text(line: usize, column: usize) -> (r: String)
    ensures
        r@ == located(line, column),
{
    "Parse error at line ".to_string().concat(decimal_string(line).as_str()).concat(
        ", column ",
    ).concat(decimal_string(column).as_str()).concat(": ")
}

impl ParseError {
    /// The human-readable text of the error.
    pub fn message(&self) -> (r: String)
        ensures
            r@ == error_text(*self),
    {
        match self {
            ParseError::UnexpectedToken { expected, found, line, column } => located_text(
                *line,
                *column,
            ).concat("Expected ").concat(expected.as_str()).concat(", found ").concat(
                describe_token(found).as_str(),
            ),
            ParseError::UnexpectedEOF { line, column } => located_text(*line, *column).concat(
                "Unexpected end of file",
            ),
            ParseError::InvalidNumber(s) => "Parse error: Invalid number: ".to_string().concat(
                s.as_str(),
            ),
            ParseError::InvalidExpression { message, line, column } => located_text(
                *line,
                *column,
            ).concat("Invalid expression - ").concat(message.as_str()),
            ParseError::InvalidStatement { message, line, column } => located_text(
                *line,
                *column,
            ).concat("Invalid statement - ").concat(message.as_str()),
            ParseError::InvalidIdentifier { name, reason, line, column } => located_text(
                *line,
                *column,
            ).concat("Invalid identifier '").concat(name.as_str()).concat("' - ").concat(
                reason.as_str(),
            ),
        }
    }

    /// Where the error was found, as (line, column).
    pub fn position(&self) -> (r: (usize, usize))
        ensures
            r == error_position(*self),
    {
        match self {
            ParseError::UnexpectedToken { line, column, .. } => (*line, *column),
            ParseError::UnexpectedEOF { line, column } => (*line, *column),
            ParseError::InvalidNumber(_) => (0, 0),
            ParseError::InvalidExpression { line, column, .. } => (*line, *column),
            ParseError::InvalidStatement { line, column, .. } => (*line, *column),
            ParseError::InvalidIdentifier { line, column, .. } => (*line, *column),
        }
    }
}

/// The position an error carries; `(0, 0)` for one that carries none.
pub open spec fn error_position(e: ParseError) -> (usize, usize) {
    match e {
        ParseError::UnexpectedToken { line, column, .. } => (line, column),
        ParseError::UnexpectedEOF { line, column } => (line, column),
        ParseError::InvalidNumber(_) => (0, 0),
        ParseError::InvalidExpression { line, column, .. } => (line, column),
        ParseError::InvalidStatement { line, column, .. } => (line, column),
        ParseError::InvalidIdentifier { line, column, .. } => (line, column),
    }
}

/// Where lexeme `x` starts, as (line, column).
pub open spec fn start_of(x: Lexeme) -> (int, int) {
    (x.line as int, x.column as int)
}

/// Token `k` of `toks` was scanned from `s[starts[k]..ends[k]]`: the tokens
/// follow each other through the text, each reports the linear-scan line
/// and column of its first character, is what that text scans to, and is
/// marked as preceded by whitespace exactly when characters were skipped
/// before it and the last of them is a blank.
pub open spec fn scanned_at(
    s: Seq<char>,
    toks: Seq<Lexeme>,
    starts: Seq<int>,
    ends: Seq<int>,
    k: int,
) -> bool {
    let prev_end = if k == 0 {
        0
    } else {
        ends[k - 1]
    };
    &&& 0 <= prev_end <= starts[k] <= ends[k] <= s.len()
    &&& starts[k] == trivia_end(s, prev_end, 0)
    &&& start_of(toks[k]) == line_col(s, starts[k])
    &&& token_matches(s, starts[k], ends[k], toks[k].token)
    &&& toks[k].had_whitespace == (prev_end < starts[k] && blank(s[starts[k] - 1]))
}

/// Every token of `toks` was scanned from the text `s` at the given spans.
pub open spec fn scanned(s: Seq<char>, toks: Seq<Lexeme>, starts: Seq<int>, ends: Seq<int>) -> bool {
    &&& starts.len() == toks.len()
    &&& ends.len() == toks.len()
    &&& forall|k: int| 0 <= k < toks.len() ==> #[trigger] scanned_at(s, toks, starts, ends, k)
}

/// `toks` is what scanning `s` from its start gives: each token begins
/// where the blanks and comments after the previous one end, is what its
/// text scans to, and the stream stops at its first `EOF`.
pub open spec fn scans_to(s: Seq<char>, toks: Seq<Lexeme>) -> bool {
    &&& stream_ok(toks)
    &&& forall|k: int| 0 <= k < toks.len() - 1 ==> !(#[trigger] toks[k].token is EOF)
    &&& exists|starts: Seq<int>, ends: Seq<int>| scanned(s, toks, starts, ends)
}

/// Scan all of `input`. The stream ends with its only `EOF`, every token
/// starts strictly later in (line, column) order than the one before, and
/// each token is what its span of the text scans to.
pub fn tokenize(input: &str) -> (r: Vec<Lexeme>)
    requires
        input@.len() < usize::MAX,
    ensures
        stream_ok(r@),
        forall|k: int| 0 <= k < r@.len() - 1 ==> !(#[trigger] r@[k].token is EOF),
        forall|k: int|
            0 <= k < r@.len() - 1 ==> before(#[trigger] start_of(r@[k]), start_of(r@[k + 1])),
        scans_to(input@, r@),
{
    let mut lexer = Lexer::new(input);
    let mut toks: Vec<Lexeme> = Vec::new();
    let ghost mut last_start: int = 0;
    let ghost mut starts: Seq<int> = Seq::empty();
    let ghost mut ends: Seq<int> = Seq::empty();
    loop
        invariant_except_break
            toks@.len() > 0 ==> last_start < lexer.position() && start_of(toks@.last()) == line_col(
                input@,
                last_start,
            ),
            forall|k: int| 0 <= k < toks@.len() ==> !(#[trigger] toks@[k].token is EOF),
        invariant
            lexer.wf(),
            lexer.input_seq() == input@,
            lexer.position() <= input@.len(),
            0 <= last_start,
            forall|k: int|
                0 <= k < toks@.len() - 1 ==> before(
                    #[trigger] start_of(toks@[k]),
                    start_of(toks@[k + 1]),
                ),
            scanned(input@, toks@, starts, ends),
            toks@.len() > 0 ==> ends.last() == lexer.position(),
            toks@.len() == 0 ==> lexer.position() == 0,
        ensures
            stream_ok(toks@),
            forall|k: int| 0 <= k < toks@.len() - 1 ==> !(#[trigger] toks@[k].token is EOF),
            forall|k: int|
                0 <= k < toks@.len() - 1 ==> before(
                    #[trigger] start_of(toks@[k]),
                    start_of(toks@[k + 1]),
                ),
            scanned(input@, toks@, starts, ends),
        decreases input@.len() - lexer.position(),
    {
        let ghost old_pos = lexer.position();
        let token = lexer.next_token();
        let is_end = matches!(token, Token::EOF);
        let lexeme = Lexeme {
            token,
            line: lexer.line(),
            column: lexer.column(),
            had_whitespace: lexer.had_whitespace(),
        };
        proof {
            if toks@.len() > 0 {
                lemma_positions_increase(input@, last_start, lexer.token_start());
            }
            last_start = lexer.token_start();
        }
        let ghost before_push = toks@;
        let ghost old_starts = starts;
        let ghost old_ends = ends;
        toks.push(lexeme);
        proof {
            starts = starts.push(lexer.token_start());
            ends = ends.push(lexer.position());
            assert(toks@.drop_last() == before_push);
            assert forall|k: int| 0 <= k < toks@.len() - 1 implies before(
                #[trigger] start_of(toks@[k]),
                start_of(toks@[k + 1]),
            ) by {
                if k < toks@.len() - 2 {
                    assert(toks@[k] == before_push[k]);
                    assert(toks@[k + 1] == before_push[k + 1]);
                }
            }
            assert forall|k: int| 0 <= k < toks@.len() implies #[trigger] scanned_at(
                input@,
                toks@,
                starts,
                ends,
                k,
            ) by {
                if k < toks@.len() - 1 {
                    assert(toks@[k] == before_push[k]);
                    assert(scanned_at(input@, before_push, old_starts, old_ends, k));
                    if k > 0 {
                        assert(ends[k - 1] == old_ends[k - 1]);
                    }
                } else {
                    if k > 0 {
                        assert(ends[k - 1] == old_ends[k - 1]);
                        assert(old_ends[k - 1] == old_pos);
                    }
                }
            }
        }
        if is_end {
            break;
        }
    }
    toks
}

/// One parse failure, as editor tooling shows it.
#[derive(Debug, Clone)]
pub struct CompatParseError {
    pub message: String,
    pub line: usize,
    pub column: usize,
}

/// The outcome of parsing one document: its text, its syntax tree and
/// symbols, and at most one error. On failure the tree and the symbols are
/// empty.
#[derive(Debug)]
pub struct ParsedDocument {
    pub text: String,
    pub ast: Program,
    pub symbols: SymbolTable,
    pub errors: Vec<CompatParseError>,
}

/// A document either parsed completely, with every declaration well
/// named, its symbols indexed and no error, or failed with exactly one
/// error, no tree and no symbols.
pub open spec fn fail_fast(d: ParsedDocument) -> bool {
    ||| d.errors@.len() == 0 && block_well_named(d.ast@) && texts(d.symbols.variables@)
        == block_texts(d.ast@, false, d.text@) && texts(d.symbols.functions@) == block_texts(
        d.ast@,
        true,
        d.text@,
    ) && names(d.symbols.variables@) == block_decls(d.ast@, false)
        && names(d.symbols.functions@) == block_decls(d.ast@, true)
    ||| d.errors@.len() == 1 && d.ast@.len() == 0 && d.symbols.variables@.len() == 0
        && d.symbols.functions@.len() == 0
}

/// `d` reports the program parse `o`: its tree and no error on success, or
/// no tree and exactly the error's text and position on failure.
pub open spec fn reports(d: ParsedDocument, o: Result<Program, ParseError>) -> bool {
    match o {
        Ok(p) => d.errors@.len() == 0 && d.ast@ == p@,
        Err(e) => {
            &&& d.errors@.len() == 1
            &&& d.ast@.len() == 0
            &&& d.errors@[0].message@ == error_text(e)
            &&& (d.errors@[0].line, d.errors@[0].column) == error_position(e)
        },
    }
}

/// A parser over the tokens of one document.
pub struct Parser {
    pub input_text: String,
    tokens: Vec<Lexeme>,
}

impl Parser {
    /// The token stream being parsed.
    pub closed spec fn stream(&self) -> Seq<Lexeme> {
        self.tokens@
    }

    /// The document text.
    pub closed spec fn text(&self) -> Seq<char> {
        self.input_text@
    }

    /// A parser over `input`.
    pub fn new(input: &str) -> (r: Self)
        requires
            input@.len() < usize::MAX,
        ensures
            r.text() == input@,
            stream_ok(r.stream()),
            scans_to(input@, r.stream()),
    {
        Parser { input_text: input.to_string(), tokens: tokenize(input) }
    }

    /// Parse the whole document; the first error ends the parse.
    pub fn parse_program(&mut self) -> (r: Result<Program, ParseError>)
        requires
            stream_ok(old(self).stream()),
        ensures
            final(self).stream() == old(self).stream(),
            final(self).text() == old(self).text(),
            program_outcome(old(self).stream(), r),
    {
        parse_statements(&self.tokens)
    }

    /// Parse the whole document into a result for editor tooling.
    pub fn parse(&mut self) -> (r: ParsedDocument)
        requires
            stream_ok(old(self).stream()),
        ensures
            r.text@ == old(self).text(),
            fail_fast(r),
            texts_ok(r.symbols.variables@, r.symbols.functions@, old(self).text()),
            exists|o: Result<Program, ParseError>| program_outcome(old(self).stream(), o) && reports(
                r,
                o,
            ),
            forall|k: int|
                0 <= k < r.symbols.variables@.len() ==> (#[trigger] r.symbols.variables@[k]).range
                    == declaration_span(old(self).stream(), r.symbols.variables@[k].name@),
            forall|k: int|
                0 <= k < r.symbols.functions@.len() ==> (#[trigger] r.symbols.functions@[k]).range
                    == declaration_span(old(self).stream(), r.symbols.functions@[k].name@),
    {
        let outcome = self.parse_program();
        let ghost o = outcome;
        match outcome {
            Ok(ast) => {
                let symbols = SymbolTable::from_tokens(&ast, &self.tokens, self.input_text.as_str());
                let d = ParsedDocument {
                    text: self.input_text.clone(),
                    ast,
                    symbols,
                    errors: Vec::new(),
                };
                proof {
                    assert(reports(d, o));
                }
                d
            },
            Err(e) => {
                let (line, column) = e.position();
                let mut errors: Vec<CompatParseError> = Vec::new();
                errors.push(CompatParseError { message: e.message(), line, column });
                let d = ParsedDocument {
                    text: self.input_text.clone(),
                    ast: Vec::new(),
                    symbols: SymbolTable::new(),
                    errors,
                };
                proof {
                    assert(reports(d, o));
                }
                d
            },
        }
    }
}

/// Parse `text` into a result for editor tooling.
pub fn parse_document(text: &str) -> (r: ParsedDocument)
    requires
        text@.len() < usize::MAX,
    ensures
        r.text@ == text@,
        fail_fast(r),
        exists|toks: Seq<Lexeme>, o: Result<Program, ParseError>|
            scans_to(text@, toks) && program_outcome(toks, o) && reports(r, o),
        r.errors@.len() == 1 ==> r.errors@[0].line >= 1 && r.errors@[0].column >= 1,
{
    let mut parser = Parser::new(text);
    let ghost toks = parser.stream();
    let r = parser.parse();
    proof {
        if r.errors@.len() == 1 {
            let o = choose|o: Result<Program, ParseError>| program_outcome(toks, o) && reports(r, o);
            let e = o->Err_0;
            let k = choose|k: int| 0 <= k < toks.len() && error_position(e) == (
                #[trigger] toks[k].line,
                toks[k].column,
            );
            let (starts, ends) = choose|starts: Seq<int>, ends: Seq<int>| scanned(text@, toks, starts, ends);
            assert(scanned_at(text@, toks, starts, ends, k));
            lemma_line_col_bounds(text@, starts[k]);
        }
    }
    r
}

} // verus!
