//! Symbol index: variables and functions declared anywhere in a parsed
//! program, with position lookups over it.
use vstd::prelude::*;

use crate::ast::{Expr, Program, Stmt};
use crate::docs::{comment_for, find_comment_for_variable};
use crate::parser::{scans_to, tokenize, Lexeme};
use crate::token::Token;



verus! {

/// A 0-based position in a document.
#[derive(Debug, Clone, Copy, PartialEq, Eq, Structural)]
pub struct Position {
    pub line: u32,
    pub character: u32,
}

/// A span of a document, both ends included.
#[derive(Debug, Clone, Copy, PartialEq, Eq, Structural)]
pub struct Range {
    pub start: Position,
    pub end: Position,
}

/// What a symbol names.
#[derive(Debug, Clone, Copy, PartialEq, Eq, Structural)]
pub enum SymbolKind {
    Variable,
    Function,
}

/// One indexed symbol.
#[derive(Debug, Clone)]
pub struct SymbolInfo {
    pub name: String,
    pub kind: SymbolKind,
    pub range: Range,
    pub selection_range: Range,
    pub documentation: String,
    pub detail: Option<String>,
}

/// A range within a named document.
#[derive(Debug, Clone)]
pub struct Location {
    pub uri: String,
    pub range: Range,
}

/// A symbol as listed in a document outline.
#[derive(Debug, Clone)]
pub struct SymbolEntry {
    pub name: String,
    pub kind: SymbolKind,
    pub location: Location,
}

/// A replacement of the text of one range of a document.
#[derive(Debug, Clone)]
pub struct RenameEdit {
    pub uri: String,
    pub range: Range,
    pub new_text: String,
}

/// The variables and the functions (and generators) of a program, each in
/// the order the walk meets them.
#[derive(Debug, Clone)]
pub struct SymbolTable {
    pub variables: Vec<SymbolInfo>,
    pub functions: Vec<SymbolInfo>,
}

/// `p` lies within `r`.
pub open spec fn in_range(p: Position, r: Range) -> bool {
    &&& r.start.line <= p.line <= r.end.line
    &&& p.line == r.start.line ==> r.start.character <= p.character
    &&& p.line == r.end.line ==> p.character <= r.end.character
}

/// Whether `p` lies within `r`.
pub fn position_in_range(p: Position, r: Range) -> (b: bool)
    ensures
        b == in_range(p, r),
{
    if p.line < r.start.line || p.line > r.end.line {
        return false;
    }
    if p.line == r.start.line && p.character < r.start.character {
        return false;
    }
    if p.line == r.end.line && p.character > r.end.character {
        return false;
    }
    true
}

/// The names of `v`, in order.
pub open spec fn names(v: Seq<SymbolInfo>) -> Seq<Seq<char>> {
    v.map_values(|s: SymbolInfo| s.name@)
}

/// Names declared by `s` and by the statements nested in it, in walk order:
/// the functions and generators when `funcs`, else the variables (`Set` and
/// `Lazy` targets).
pub open spec fn stmt_decls(s: Stmt, funcs: bool) -> Seq<Seq<char>>
    decreases s, 0nat,
{
    match s {
        Stmt::SetVar { name, .. } => if funcs {
            Seq::empty()
        } else {
            seq![name@]
        },
        Stmt::LazyDef { name, .. } => if funcs {
            Seq::empty()
        } else {
            seq![name@]
        },
        Stmt::FuncDef { name, body, .. } => if funcs {
            seq![name@] + block_decls(body@, funcs)
        } else {
            block_decls(body@, funcs)
        },
        Stmt::GeneratorDef { name, body, .. } => if funcs {
            seq![name@] + block_decls(body@, funcs)
        } else {
            block_decls(body@, funcs)
        },
        Stmt::While { body, .. } => block_decls(body@, funcs),
        Stmt::For { body, .. } => block_decls(body@, funcs),
        Stmt::ForIndexed { body, .. } => block_decls(body@, funcs),
        Stmt::Switch { cases, default, .. } => cases_decls(cases@, funcs) + match default {
            Some(d) => block_decls(d@, funcs),
            None => Seq::empty(),
        },
        Stmt::Expression(e) => expr_decls(e, funcs),
        _ => Seq::empty(),
    }
}

/// Names declared in a statement list.
pub open spec fn block_decls(b: Seq<Stmt>, funcs: bool) -> Seq<Seq<char>>
    decreases b, 0nat,
{
    if b.len() == 0 {
        Seq::empty()
    } else {
        block_decls(b.drop_last(), funcs) + stmt_decls(b.last(), funcs)
    }
}

/// Names declared in the bodies of a list of branches.
pub open spec fn cases_decls(c: Seq<(Expr, Vec<Stmt>)>, funcs: bool) -> Seq<Seq<char>>
    decreases c, 0nat,
{
    if c.len() == 0 {
        Seq::empty()
    } else {
        cases_decls(c.drop_last(), funcs) + block_decls(c.last().1@, funcs)
    }
}

/// Names declared inside the branches of a conditional or the body of a
/// lambda.
pub open spec fn expr_decls(e: Expr, funcs: bool) -> Seq<Seq<char>>
    decreases e, 0nat,
{
    match e {
        Expr::Lambda { body, .. } => block_decls(body@, funcs),
        Expr::If { then_branch, elif_branches, else_branch, .. } => block_decls(
            then_branch@,
            funcs,
        ) + cases_decls(elif_branches@, funcs) + match else_branch {
            Some(b) => block_decls(b@, funcs),
            None => Seq::empty(),
        },
        _ => Seq::empty(),
    }
}

/// The (detail, documentation) texts of the symbols that `s` and the
/// statements nested in it declare, in walk order: of the functions and
/// generators when `funcs`, else of the variables.
pub open spec fn stmt_texts(s: Stmt, funcs: bool, text: Seq<char>) -> Seq<(Option<Seq<char>>, Seq<char>)>
    decreases s, 0nat,
{
    match s {
        Stmt::SetVar { name, .. } => if funcs {
            Seq::empty()
        } else {
            seq![(Some("Variable: "@ + name@), comment_for(text, name@))]
        },
        Stmt::LazyDef { name, .. } => if funcs {
            Seq::empty()
        } else {
            seq![(Some("Lazy: "@ + name@), Seq::<char>::empty())]
        },
        Stmt::FuncDef { name, params, body } => if funcs {
            seq![func_record("Function: "@, name@, params@)] + block_texts(body@, funcs, text)
        } else {
            block_texts(body@, funcs, text)
        },
        Stmt::GeneratorDef { name, params, body } => if funcs {
            seq![func_record("Generator: "@, name@, params@)] + block_texts(body@, funcs, text)
        } else {
            block_texts(body@, funcs, text)
        },
        Stmt::While { body, .. } => block_texts(body@, funcs, text),
        Stmt::For { body, .. } => block_texts(body@, funcs, text),
        Stmt::ForIndexed { body, .. } => block_texts(body@, funcs, text),
        Stmt::Switch { cases, default, .. } => cases_texts(cases@, funcs, text) + match default {
            Some(d) => block_texts(d@, funcs, text),
            None => Seq::empty(),
        },
        Stmt::Expression(e) => expr_texts(e, funcs, text),
        _ => Seq::empty(),
    }
}

/// Symbol texts of a statement list.
pub open spec fn block_texts(b: Seq<Stmt>, funcs: bool, text: Seq<char>) -> Seq<(Option<Seq<char>>, Seq<char>)>
    decreases b, 0nat,
{
    if b.len() == 0 {
        Seq::empty()
    } else {
        block_texts(b.drop_last(), funcs, text) + stmt_texts(b.last(), funcs, text)
    }
}

/// Symbol texts of the bodies of a list of branches.
pub open spec fn cases_texts(c: Seq<(Expr, Vec<Stmt>)>, funcs: bool, text: Seq<char>) -> Seq<(Option<Seq<char>>, Seq<char>)>
    decreases c, 0nat,
{
    if c.len() == 0 {
        Seq::empty()
    } else {
        cases_texts(c.drop_last(), funcs, text) + block_texts(c.last().1@, funcs, text)
    }
}

/// Symbol texts inside the branches of a conditional or the body of a
/// lambda.
pub open spec fn expr_texts(e: Expr, funcs: bool, text: Seq<char>) -> Seq<(Option<Seq<char>>, Seq<char>)>
    decreases e, 0nat,
{
    match e {
        Expr::Lambda { body, .. } => block_texts(body@, funcs, text),
        Expr::If { then_branch, elif_branches, else_branch, .. } => block_texts(
            then_branch@,
            funcs,
            text,
        ) + cases_texts(elif_branches@, funcs, text) + match else_branch {
            Some(b) => block_texts(b@, funcs, text),
            None => Seq::empty(),
        },
        _ => Seq::empty(),
    }
}

/// The texts of a function symbol: detail `LABEL NAME(PARAMS) { ... }` and
/// documentation `Function: NAME(PARAMS)`.
pub open spec fn func_record(label: Seq<char>, name: Seq<char>, params: Seq<String>) -> (
    Option<Seq<char>>,
    Seq<char>,
) {
    (
        Some(label + name + "("@ + joined(params) + ") { ... }"@),
        "Function: "@ + name + "("@ + joined(params) + ")"@,
    )
}

/// The (detail, documentation) texts of `v`, in order.
pub open spec fn texts(v: Seq<SymbolInfo>) -> Seq<(Option<Seq<char>>, Seq<char>)> {
    v.map_values(|s: SymbolInfo| (opt_view(s.detail), s.documentation@))
}

/// The characters of an optional string.
pub open spec fn opt_view(o: Option<String>) -> Option<Seq<char>> {
    match o {
        Some(d) => Some(d@),
        None => None,
    }
}

/// `items` joined with `", "` between them.
pub open spec fn joined(items: Seq<String>) -> Seq<char>
    decreases items.len(),
{
    if items.len() == 0 {
        Seq::empty()
    } else if items.len() == 1 {
        items[0]@
    } else {
        joined(items.drop_last()) + ", "@ + items.last()@
    }
}

/// The parameter names joined with `", "`.
pub fn join_params(params: &Vec<String>) -> (r: String)
    ensures
        r@ == joined(params@),
{
    let mut out = String::new();
    let mut k: usize = 0;
    while k < params.len()
        invariant
            k <= params@.len(),
            out@ == joined(params@.subrange(0, k as int)),
        decreases params@.len() - k,
    {
        proof {
            assert(params@.subrange(0, k + 1).drop_last() =~= params@.subrange(0, k as int));
        }
        if k == 0 {
            out = params[k].clone();
        } else {
            out = out.concat(", ").concat(params[k].as_str());
        }
        k = k + 1;
    }
    proof {
        assert(params@.subrange(0, params@.len() as int) =~= params@);
    }
    out
}

/// A 1-based count as a 0-based one, stopping at zero.
pub open spec fn zero_based(n: usize) -> u32 {
    if n == 0 {
        0
    } else {
        (n - 1) as u32
    }
}

/// The range of a name of `width` characters that starts at 1-based
/// `line` and `column`, on that one line (its end column saturates).
pub open spec fn name_range(line: usize, column: usize, width: nat) -> Range {
    let c = zero_based(column);
    Range {
        start: Position { line: zero_based(line), character: c },
        end: Position {
            line: zero_based(line),
            character: if c + width <= u32::MAX {
                (c + width) as u32
            } else {
                u32::MAX
            },
        },
    }
}

/// Token `k` of `toks` is `name`, right after `Set`, `Func`, `Generator` or
/// `Lazy`.
pub open spec fn declared_at(toks: Seq<Lexeme>, name: Seq<char>, k: int) -> bool {
    &&& 1 <= k < toks.len()
    &&& (toks[k - 1].token is SetKw || toks[k - 1].token is Func || toks[k - 1].token is Generator
        || toks[k - 1].token is Lazy)
    &&& toks[k].token is Identifier
    &&& toks[k].token->Identifier_0@ == name
}

/// The first token at or after `k` where `name` is declared.
pub open spec fn first_declaration(toks: Seq<Lexeme>, name: Seq<char>, k: int) -> Option<int>
    decreases toks.len() - k,
{
    if k < 0 || k >= toks.len() {
        None
    } else if declared_at(toks, name, k) {
        Some(k)
    } else {
        first_declaration(toks, name, k + 1)
    }
}

/// The source range of the first declaration of `name` in `toks`; an
/// empty-position range at the document start when there is none.
pub open spec fn declaration_span(toks: Seq<Lexeme>, name: Seq<char>) -> Range {
    match first_declaration(toks, name, 0) {
        Some(k) => name_range(toks[k].line, toks[k].column, name.len()),
        None => name_range(1, 1, name.len()),
    }
}

/// The range of `line`/`column` (1-based) spanning `width` characters.
fn make_range(line: usize, column: usize, width: usize) -> (r: Range)
    ensures
        r == name_range(line, column, width as nat),
{
    let l = if line == 0 {
        0
    } else {
        (line - 1) as u32
    };
    let c = if column == 0 {
        0
    } else {
        (column - 1) as u32
    };
    let end = if width > (u32::MAX - c) as usize {
        u32::MAX
    } else {
        c + width as u32
    };
    Range { start: Position { line: l, character: c }, end: Position { line: l, character: end } }
}

/// Where `name` is first declared in `toks`.
pub fn declaration_range(toks: &Vec<Lexeme>, name: &String) -> (r: Range)
    ensures
        r == declaration_span(toks@, name@),
{
    let width = name.as_str().unicode_len();
    let mut k: usize = 1;
    if toks.len() == 0 {
        return make_range(1, 1, width);
    }
    proof {
        assert(!declared_at(toks@, name@, 0));
        assert(first_declaration(toks@, name@, 0) == first_declaration(toks@, name@, 1));
    }
    while k < toks.len()
        invariant
            1 <= k <= toks@.len(),
            width == name@.len(),
            first_declaration(toks@, name@, 0) == first_declaration(toks@, name@, k as int),
        decreases toks@.len() - k,
    {
        let prev = &toks[k - 1].token;
        let declarer = matches!(prev, Token::SetKw) || matches!(prev, Token::Func) || matches!(
            prev,
            Token::Generator
        ) || matches!(prev, Token::Lazy);
        if declarer {
            match &toks[k].token {
                Token::Identifier(n) => {
                    if n.eq(name) {
                        return make_range(toks[k].line, toks[k].column, width);
                    }
                },
                _ => {},
            }
        }
        k = k + 1;
    }
    make_range(1, 1, width)
}

impl SymbolTable {
    /// An empty table.
    pub fn new() -> (r: Self)
        ensures
            r.variables@.len() == 0,
            r.functions@.len() == 0,
    {
        SymbolTable { variables: Vec::new(), functions: Vec::new() }
    }

    /// Append a variable with no documentation.
    pub fn add_variable(&mut self, name: String, range: Range, detail: Option<String>)
        ensures
            final(self).functions == old(self).functions,
            final(self).variables@.len() == old(self).variables@.len() + 1,
            final(self).variables@.drop_last() == old(self).variables@,
            final(self).variables@.last().name == name,
            final(self).variables@.last().kind == SymbolKind::Variable,
            final(self).variables@.last().range == range,
            final(self).variables@.last().selection_range == range,
            final(self).variables@.last().documentation@ == Seq::<char>::empty(),
            final(self).variables@.last().detail == detail,
    {
        self.variables.push(
            SymbolInfo {
                name,
                kind: SymbolKind::Variable,
                range,
                selection_range: range,
                documentation: String::new(),
                detail,
            },
        );
        proof {
            assert(self.variables@.drop_last() =~= old(self).variables@);
        }
    }

    /// Append a function whose parameters are already joined with `", "`;
    /// its documentation reads `Function: NAME(PARAMS)`.
    fn add_function_joined(
        &mut self,
        name: String,
        range: Range,
        params_text: String,
        detail: Option<String>,
    )
        ensures
            final(self).variables == old(self).variables,
            final(self).functions@.len() == old(self).functions@.len() + 1,
            final(self).functions@.drop_last() == old(self).functions@,
            final(self).functions@.last().name == name,
            final(self).functions@.last().kind == SymbolKind::Function,
            final(self).functions@.last().range == range,
            final(self).functions@.last().selection_range == range,
            final(self).functions@.last().documentation@ == "Function: "@ + name@ + "("@
                + params_text@ + ")"@,
            final(self).functions@.last().detail == detail,
    {
        let documentation = "Function: ".to_string().concat(name.as_str()).concat("(").concat(
            params_text.as_str(),
        ).concat(")");
        self.functions.push(
            SymbolInfo {
                name,
                kind: SymbolKind::Function,
                range,
                selection_range: range,
                documentation,
                detail,
            },
        );
        proof {
            assert(self.functions@.drop_last() =~= old(self).functions@);
        }
    }

    /// Append a function; its documentation reads `Function: NAME(P1, P2)`.
    pub fn add_function(
        &mut self,
        name: String,
        range: Range,
        params: Vec<String>,
        detail: Option<String>,
    )
        ensures
            final(self).variables == old(self).variables,
            final(self).functions@.len() == old(self).functions@.len() + 1,
            final(self).functions@.drop_last() == old(self).functions@,
            final(self).functions@.last().name == name,
            final(self).functions@.last().kind == SymbolKind::Function,
            final(self).functions@.last().range == range,
            final(self).functions@.last().selection_range == range,
            final(self).functions@.last().documentation@ == "Function: "@ + name@ + "("@ + joined(
                params@,
            ) + ")"@,
            final(self).functions@.last().detail == detail,
    {
        let documentation = "Function: ".to_string().concat(name.as_str()).concat("(").concat(
            join_params(&params).as_str(),
        ).concat(")");
        self.functions.push(
            SymbolInfo {
                name,
                kind: SymbolKind::Function,
                range,
                selection_range: range,
                documentation,
                detail,
            },
        );
        proof {
            assert(self.functions@.drop_last() =~= old(self).functions@);
        }
    }
}

/// Names of a table after one more symbol.
proof fn lemma_names_push(v: Seq<SymbolInfo>, x: SymbolInfo)
    ensures
        names(v.push(x)) == names(v) + seq![x.name@],
{
    assert(names(v.push(x)) =~= names(v) + seq![x.name@]);
}

/// Names after a table grew by exactly one symbol.
proof fn lemma_names_grow(old_v: Seq<SymbolInfo>, new_v: Seq<SymbolInfo>)
    requires
        new_v.len() == old_v.len() + 1,
        new_v.drop_last() == old_v,
    ensures
        names(new_v) == names(old_v) + seq![new_v.last().name@],
{
    assert(new_v =~= old_v.push(new_v.last()));
    lemma_names_push(old_v, new_v.last());
}

/// The texts of variable symbol `s`: for a `Set` target the detail
/// `Variable: NAME` and the comment above its first `Set` line, for a
/// `Lazy` target the detail `Lazy: NAME` and no documentation.
pub open spec fn var_text(s: SymbolInfo, text: Seq<char>) -> bool {
    &&& s.kind == SymbolKind::Variable
    &&& s.detail is Some
    &&& {
        ||| s.detail->0@ == "Variable: "@ + s.name@ && s.documentation@ == comment_for(text, s.name@)
        ||| s.detail->0@ == "Lazy: "@ + s.name@ && s.documentation@ == Seq::<char>::empty()
    }
}

/// The texts of function symbol `s`: documentation `Function: NAME(PARAMS)`
/// and detail `Function: NAME(PARAMS) { ... }` (or `Generator: ...`).
pub open spec fn func_text(s: SymbolInfo) -> bool {
    &&& s.kind == SymbolKind::Function
    &&& s.detail is Some
    &&& exists|ps: Seq<String>|
        {
            &&& s.documentation@ == "Function: "@ + s.name@ + "("@ + joined(ps) + ")"@
            &&& {
                ||| s.detail->0@ == "Function: "@ + s.name@ + "("@ + joined(ps) + ") { ... }"@
                ||| s.detail->0@ == "Generator: "@ + s.name@ + "("@ + joined(ps) + ") { ... }"@
            }
        }
}

/// Every variable and function symbol carries its texts.
pub open spec fn texts_ok(v: Seq<SymbolInfo>, f: Seq<SymbolInfo>, text: Seq<char>) -> bool {
    &&& forall|k: int| 0 <= k < v.len() ==> var_text(#[trigger] v[k], text)
    &&& forall|k: int| 0 <= k < f.len() ==> func_text(#[trigger] f[k])
}

/// Appending a symbol with its texts keeps every symbol's texts right.
proof fn lemma_texts_grow(
    old_v: Seq<SymbolInfo>,
    new_v: Seq<SymbolInfo>,
    old_f: Seq<SymbolInfo>,
    new_f: Seq<SymbolInfo>,
    text: Seq<char>,
)
    requires
        texts_ok(old_v, old_f, text),
        new_v == old_v || (new_v.len() == old_v.len() + 1 && new_v.drop_last() == old_v && var_text(
            new_v.last(),
            text,
        )),
        new_f == old_f || (new_f.len() == old_f.len() + 1 && new_f.drop_last() == old_f && func_text(
            new_f.last(),
        )),
    ensures
        texts_ok(new_v, new_f, text),
{
    assert forall|k: int| 0 <= k < new_v.len() implies var_text(#[trigger] new_v[k], text) by {
        if new_v != old_v && k < old_v.len() {
            assert(new_v[k] == new_v.drop_last()[k]);
        }
    }
    assert forall|k: int| 0 <= k < new_f.len() implies func_text(#[trigger] new_f[k]) by {
        if new_f != old_f && k < old_f.len() {
            assert(new_f[k] == new_f.drop_last()[k]);
        }
    }
}

/// `v` begins with every entry of `old_v`, unchanged.
pub open spec fn extends(v: Seq<SymbolInfo>, old_v: Seq<SymbolInfo>) -> bool {
    &&& old_v.len() <= v.len()
    &&& forall|k: int| 0 <= k < old_v.len() ==> #[trigger] v[k] == old_v[k]
}

/// Every symbol of `v` carries the range of its first declaration in `toks`.
pub open spec fn spans_ok(v: Seq<SymbolInfo>, toks: Seq<Lexeme>) -> bool {
    forall|k: int| 0 <= k < v.len() ==> (#[trigger] v[k]).range == declaration_span(toks, v[k].name@)
}

/// Appending a symbol that carries its declaration range keeps every range
/// right.
proof fn lemma_spans_grow(old_v: Seq<SymbolInfo>, new_v: Seq<SymbolInfo>, toks: Seq<Lexeme>)
    requires
        spans_ok(old_v, toks),
        new_v.len() == old_v.len() + 1,
        new_v.drop_last() == old_v,
        new_v.last().range == declaration_span(toks, new_v.last().name@),
    ensures
        spans_ok(new_v, toks),
{
    assert forall|k: int| 0 <= k < new_v.len() implies (#[trigger] new_v[k]).range
        == declaration_span(toks, new_v[k].name@) by {
        if k < old_v.len() {
            assert(new_v[k] == new_v.drop_last()[k]);
        }
    }
}

/// Index the declarations of a statement list, in order.
fn extract_symbols_from_block(body: &Vec<Stmt>, table: &mut SymbolTable, text: &str, toks: &Vec<Lexeme>)
    requires
        texts_ok(old(table).variables@, old(table).functions@, text@),
        spans_ok(old(table).variables@, toks@),
        spans_ok(old(table).functions@, toks@),
    ensures
        texts_ok(final(table).variables@, final(table).functions@, text@),
        extends(final(table).variables@, old(table).variables@),
        extends(final(table).functions@, old(table).functions@),
        spans_ok(final(table).variables@, toks@),
        spans_ok(final(table).functions@, toks@),
        names(final(table).variables@) == names(old(table).variables@) + block_decls(body@, false),
        texts(final(table).variables@) == texts(old(table).variables@) + block_texts(body@, false, text@),
        names(final(table).functions@) == names(old(table).functions@) + block_decls(body@, true),
        texts(final(table).functions@) == texts(old(table).functions@) + block_texts(body@, true, text@),
    decreases body,
{
    let mut k: usize = 0;
    while k < body.len()
        invariant
            texts_ok(table.variables@, table.functions@, text@),
            extends(table.variables@, old(table).variables@),
            extends(table.functions@, old(table).functions@),
            spans_ok(table.variables@, toks@),
            spans_ok(table.functions@, toks@),
            k <= body@.len(),
            names(table.variables@) == names(old(table).variables@) + block_decls(
                body@.subrange(0, k as int),
                false,
            ),
            texts(table.variables@) == texts(old(table).variables@) + block_texts(
                body@.subrange(0, k as int),
                false,
                text@,
            ),
            names(table.functions@) == names(old(table).functions@) + block_decls(
                body@.subrange(0, k as int),
                true,
            ),
            texts(table.functions@) == texts(old(table).functions@) + block_texts(
                body@.subrange(0, k as int),
                true,
                text@,
            ),
        decreases body@.len() - k,
    {
        proof {
            let sub = body@.subrange(0, k + 1);
            assert(sub.drop_last() =~= body@.subrange(0, k as int));
            assert(sub.last() == body@[k as int]);
        }
        extract_symbols_from_stmt(&body[k], table, text, toks);
        k = k + 1;
    }
    proof {
        assert(body@.subrange(0, body@.len() as int) =~= body@);
    }
}

/// Index the declarations in the bodies of a list of branches.
fn extract_symbols_from_cases(cases: &Vec<(Expr, Vec<Stmt>)>, table: &mut SymbolTable, text: &str, toks: &Vec<Lexeme>)
    requires
        texts_ok(old(table).variables@, old(table).functions@, text@),
        spans_ok(old(table).variables@, toks@),
        spans_ok(old(table).functions@, toks@),
    ensures
        texts_ok(final(table).variables@, final(table).functions@, text@),
        extends(final(table).variables@, old(table).variables@),
        extends(final(table).functions@, old(table).functions@),
        spans_ok(final(table).variables@, toks@),
        spans_ok(final(table).functions@, toks@),
        names(final(table).variables@) == names(old(table).variables@) + cases_decls(cases@, false),
        texts(final(table).variables@) == texts(old(table).variables@) + cases_texts(cases@, false, text@),
        names(final(table).functions@) == names(old(table).functions@) + cases_decls(cases@, true),
        texts(final(table).functions@) == texts(old(table).functions@) + cases_texts(cases@, true, text@),
    decreases cases,
{
    let mut k: usize = 0;
    while k < cases.len()
        invariant
            texts_ok(table.variables@, table.functions@, text@),
            extends(table.variables@, old(table).variables@),
            extends(table.functions@, old(table).functions@),
            spans_ok(table.variables@, toks@),
            spans_ok(table.functions@, toks@),
            k <= cases@.len(),
            names(table.variables@) == names(old(table).variables@) + cases_decls(
                cases@.subrange(0, k as int),
                false,
            ),
            texts(table.variables@) == texts(old(table).variables@) + cases_texts(
                cases@.subrange(0, k as int),
                false,
                text@,
            ),
            names(table.functions@) == names(old(table).functions@) + cases_decls(
                cases@.subrange(0, k as int),
                true,
            ),
            texts(table.functions@) == texts(old(table).functions@) + cases_texts(
                cases@.subrange(0, k as int),
                true,
                text@,
            ),
        decreases cases@.len() - k,
    {
        proof {
            let sub = cases@.subrange(0, k + 1);
            assert(sub.drop_last() =~= cases@.subrange(0, k as int));
            assert(sub.last() == cases@[k as int]);
        }
        extract_symbols_from_block(&cases[k].1, table, text, toks);
        k = k + 1;
    }
    proof {
        assert(cases@.subrange(0, cases@.len() as int) =~= cases@);
    }
}

/// Index the declarations of one statement and of the statements nested in
/// it: variables for `Set` and `Lazy`, functions for `Func` and
/// `Generator`.
fn extract_symbols_from_stmt(stmt: &Stmt, table: &mut SymbolTable, text: &str, toks: &Vec<Lexeme>)
    requires
        texts_ok(old(table).variables@, old(table).functions@, text@),
        spans_ok(old(table).variables@, toks@),
        spans_ok(old(table).functions@, toks@),
    ensures
        texts_ok(final(table).variables@, final(table).functions@, text@),
        extends(final(table).variables@, old(table).variables@),
        extends(final(table).functions@, old(table).functions@),
        spans_ok(final(table).variables@, toks@),
        spans_ok(final(table).functions@, toks@),
        names(final(table).variables@) == names(old(table).variables@) + stmt_decls(*stmt, false),
        texts(final(table).variables@) == texts(old(table).variables@) + stmt_texts(*stmt, false, text@),
        names(final(table).functions@) == names(old(table).functions@) + stmt_decls(*stmt, true),
        texts(final(table).functions@) == texts(old(table).functions@) + stmt_texts(*stmt, true, text@),
    decreases stmt,
{
    match stmt {
        Stmt::SetVar { name, .. } => {
            let range = declaration_range(toks, name);
            let symbol = SymbolInfo {
                name: name.clone(),
                kind: SymbolKind::Variable,
                range,
                selection_range: range,
                documentation: find_comment_for_variable(text, name.as_str()),
                detail: Some("Variable: ".to_string().concat(name.as_str())),
            };
            proof {
                lemma_names_push(table.variables@, symbol);
            }
            let ghost before = table.variables@;
            table.variables.push(symbol);
            proof {
                assert(table.variables@.drop_last() =~= before);
                lemma_spans_grow(before, table.variables@, toks@);
                lemma_texts_grow(before, table.variables@, table.functions@, table.functions@, text@);
                assert(names(table.functions@) =~= names(old(table).functions@) + Seq::<Seq<char>>::empty());
                assert(texts(table.functions@) =~= texts(old(table).functions@) + Seq::<(Option<Seq<char>>, Seq<char>)>::empty());
            }
        },
        Stmt::LazyDef { name, .. } => {
            let range = declaration_range(toks, name);
            table.add_variable(name.clone(), range, Some("Lazy: ".to_string().concat(name.as_str())));
            proof {
                lemma_names_grow(old(table).variables@, table.variables@);
                lemma_spans_grow(old(table).variables@, table.variables@, toks@);
                lemma_texts_grow(
                    old(table).variables@,
                    table.variables@,
                    table.functions@,
                    table.functions@,
                    text@,
                );
                assert(names(table.functions@) =~= names(old(table).functions@) + Seq::<Seq<char>>::empty());
                assert(texts(table.functions@) =~= texts(old(table).functions@) + Seq::<(Option<Seq<char>>, Seq<char>)>::empty());
            }
        },
        Stmt::FuncDef { name, params, body } | Stmt::GeneratorDef { name, params, body } => {
            let range = declaration_range(toks, name);
            let label = if matches!(stmt, Stmt::FuncDef { .. }) {
                "Function: "
            } else {
                "Generator: "
            };
            let joined_params = join_params(params);
            let detail = label.to_string().concat(name.as_str()).concat("(").concat(
                joined_params.as_str(),
            ).concat(") { ... }");
            let nm = name.clone();
            let ghost ps = params@;
            let ghost label_text = label@;
            proof {
                reveal_strlit("Function: ");
                reveal_strlit("Generator: ");
                assert(label_text == "Function: "@ || label_text == "Generator: "@);
            }
            table.add_function_joined(nm, range, joined_params, Some(detail));
            proof {
                lemma_names_grow(old(table).functions@, table.functions@);
                lemma_spans_grow(old(table).functions@, table.functions@, toks@);
                let s_new = table.functions@.last();
                assert(s_new.documentation@ == "Function: "@ + s_new.name@ + "("@ + joined(ps) + ")"@);
                assert(func_text(s_new));
                lemma_texts_grow(
                    old(table).variables@,
                    table.variables@,
                    old(table).functions@,
                    table.functions@,
                    text@,
                );
            }
            extract_symbols_from_block(body, table, text, toks);
            proof {
                assert(names(table.variables@) =~= names(old(table).variables@) + stmt_decls(*stmt, false));
                assert(texts(table.variables@) =~= texts(old(table).variables@) + stmt_texts(*stmt, false, text@));
                assert(names(table.functions@) =~= names(old(table).functions@) + stmt_decls(*stmt, true));
                assert(texts(table.functions@) =~= texts(old(table).functions@) + stmt_texts(*stmt, true, text@));
            }
        },
        Stmt::While { body, .. } | Stmt::For { body, .. } | Stmt::ForIndexed { body, .. } => {
            extract_symbols_from_block(body, table, text, toks);
        },
        Stmt::Switch { cases, default, .. } => {
            extract_symbols_from_cases(cases, table, text, toks);
            match default {
                Some(d) => {
                    extract_symbols_from_block(d, table, text, toks);
                },
                None => {},
            }
            proof {
                assert(names(table.variables@) =~= names(old(table).variables@) + stmt_decls(*stmt, false));
                assert(texts(table.variables@) =~= texts(old(table).variables@) + stmt_texts(*stmt, false, text@));
                assert(names(table.functions@) =~= names(old(table).functions@) + stmt_decls(*stmt, true));
                assert(texts(table.functions@) =~= texts(old(table).functions@) + stmt_texts(*stmt, true, text@));
            }
        },
        Stmt::Expression(e) => {
            extract_symbols_from_expr(e, table, text, toks);
        },
        _ => {
            proof {
                assert(names(table.variables@) =~= names(old(table).variables@) + stmt_decls(*stmt, false));
                assert(texts(table.variables@) =~= texts(old(table).variables@) + stmt_texts(*stmt, false, text@));
                assert(names(table.functions@) =~= names(old(table).functions@) + stmt_decls(*stmt, true));
                assert(texts(table.functions@) =~= texts(old(table).functions@) + stmt_texts(*stmt, true, text@));
            }
        },
    }
}

/// Index the declarations inside a lambda body or the branches of a
/// conditional.
#[verifier::rlimit(60)]
fn extract_symbols_from_expr(expr: &Expr, table: &mut SymbolTable, text: &str, toks: &Vec<Lexeme>)
    requires
        texts_ok(old(table).variables@, old(table).functions@, text@),
        spans_ok(old(table).variables@, toks@),
        spans_ok(old(table).functions@, toks@),
    ensures
        texts_ok(final(table).variables@, final(table).functions@, text@),
        extends(final(table).variables@, old(table).variables@),
        extends(final(table).functions@, old(table).functions@),
        spans_ok(final(table).variables@, toks@),
        spans_ok(final(table).functions@, toks@),
        names(final(table).variables@) == names(old(table).variables@) + expr_decls(*expr, false),
        texts(final(table).variables@) == texts(old(table).variables@) + expr_texts(*expr, false, text@),
        names(final(table).functions@) == names(old(table).functions@) + expr_decls(*expr, true),
        texts(final(table).functions@) == texts(old(table).functions@) + expr_texts(*expr, true, text@),
    decreases expr,
{
    match expr {
        Expr::Lambda { body, .. } => {
            extract_symbols_from_block(body, table, text, toks);
        },
        Expr::If { then_branch, elif_branches, else_branch, .. } => {
            extract_symbols_from_block(then_branch, table, text, toks);
            extract_symbols_from_cases(elif_branches, table, text, toks);
            match else_branch {
                Some(b) => {
                    extract_symbols_from_block(b, table, text, toks);
                },
                None => {},
            }
            proof {
                assert(names(table.variables@) =~= names(old(table).variables@) + expr_decls(*expr, false));
                assert(texts(table.variables@) =~= texts(old(table).variables@) + expr_texts(*expr, false, text@));
                assert(names(table.functions@) =~= names(old(table).functions@) + expr_decls(*expr, true));
                assert(texts(table.functions@) =~= texts(old(table).functions@) + expr_texts(*expr, true, text@));
            }
        },
        _ => {
            proof {
                assert(names(table.variables@) =~= names(old(table).variables@) + expr_decls(*expr, false));
                assert(texts(table.variables@) =~= texts(old(table).variables@) + expr_texts(*expr, false, text@));
                assert(names(table.functions@) =~= names(old(table).functions@) + expr_decls(*expr, true));
                assert(texts(table.functions@) =~= texts(old(table).functions@) + expr_texts(*expr, true, text@));
            }
        },
    }
}

/// Index of the first symbol of `v` whose range holds `p`.
pub open spec fn first_holding(v: Seq<SymbolInfo>, p: Position) -> Option<int>
    decreases v.len(),
{
    if v.len() == 0 {
        None
    } else {
        match first_holding(v.drop_last(), p) {
            Some(k) => Some(k),
            None => if in_range(p, v.last().range) {
                Some(v.len() - 1)
            } else {
                None
            },
        }
    }
}

/// Position of the first symbol of `v` whose range holds `p`.
fn find_in(v: &Vec<SymbolInfo>, p: Position) -> (r: Option<usize>)
    ensures
        r matches Some(k) ==> k < v@.len() && first_holding(v@, p) == Some(k as int),
        r is None ==> first_holding(v@, p) is None,
{
    let mut k: usize = 0;
    while k < v.len()
        invariant
            k <= v@.len(),
            first_holding(v@.subrange(0, k as int), p) is None,
        decreases v@.len() - k,
    {
        proof {
            assert(v@.subrange(0, k + 1).drop_last() =~= v@.subrange(0, k as int));
        }
        if position_in_range(p, v[k].range) {
            proof {
                lemma_first_holding_prefix(v@, p, k as int + 1);
            }
            return Some(k);
        }
        k = k + 1;
    }
    proof {
        assert(v@.subrange(0, v@.len() as int) =~= v@);
    }
    None
}

/// A match found in a prefix is the match of the whole sequence.
proof fn lemma_first_holding_prefix(v: Seq<SymbolInfo>, p: Position, n: int)
    requires
        0 <= n <= v.len(),
        first_holding(v.subrange(0, n), p) is Some,
    ensures
        first_holding(v, p) == first_holding(v.subrange(0, n), p),
    decreases v.len() - n,
{
    if n < v.len() {
        assert(v.subrange(0, n + 1).drop_last() =~= v.subrange(0, n));
        lemma_first_holding_prefix(v, p, n + 1);
    } else {
        assert(v.subrange(0, n) =~= v);
    }
}

/// The symbol an outline or a lookup reports for `p`: the first variable
/// holding it, else the first function holding it.
pub open spec fn symbol_at(t: SymbolTable, p: Position) -> Option<SymbolInfo> {
    match first_holding(t.variables@, p) {
        Some(k) => Some(t.variables@[k]),
        None => match first_holding(t.functions@, p) {
            Some(k) => Some(t.functions@[k]),
            None => None,
        },
    }
}

/// The document name that locations carry.
pub const DOCUMENT_URI: &'static str = "file:///dummy";

impl SymbolTable {
    /// The symbols declared anywhere in `ast`, in walk order; variable
    /// documentation comes from the comments above the `Set` line in `text`.
    pub fn from_ast(ast: &Program, text: &str) -> (r: Self)
        requires
            text@.len() < usize::MAX,
        ensures
            exists|toks: Seq<Lexeme>|
                scans_to(text@, toks) && spans_ok(r.variables@, toks) && spans_ok(r.functions@, toks),
            texts_ok(r.variables@, r.functions@, text@),
            names(r.variables@) == block_decls(ast@, false),
            texts(r.variables@) == block_texts(ast@, false, text@),
            names(r.functions@) == block_decls(ast@, true),
            texts(r.functions@) == block_texts(ast@, true, text@),
    {
        let toks = tokenize(text);
        let r = Self::from_tokens(ast, &toks, text);
        proof {
            assert(scans_to(text@, toks@) && spans_ok(r.variables@, toks@) && spans_ok(
                r.functions@,
                toks@,
            ));
        }
        r
    }

    /// The symbols declared anywhere in `ast`, in walk order, each with the
    /// range of its first declaration in `toks`, the tokens of `text`.
    pub fn from_tokens(ast: &Program, toks: &Vec<Lexeme>, text: &str) -> (r: Self)
        ensures
            texts_ok(r.variables@, r.functions@, text@),
            names(r.variables@) == block_decls(ast@, false),
            texts(r.variables@) == block_texts(ast@, false, text@),
            names(r.functions@) == block_decls(ast@, true),
            texts(r.functions@) == block_texts(ast@, true, text@),
            forall|k: int|
                0 <= k < r.variables@.len() ==> (#[trigger] r.variables@[k]).range
                    == declaration_span(toks@, r.variables@[k].name@),
            forall|k: int|
                0 <= k < r.functions@.len() ==> (#[trigger] r.functions@[k]).range
                    == declaration_span(toks@, r.functions@[k].name@),
    {
        let mut table = SymbolTable::new();
        proof {
            assert(names(table.variables@) =~= Seq::<Seq<char>>::empty());
            assert(texts(table.variables@) =~= Seq::<(Option<Seq<char>>, Seq<char>)>::empty());
            assert(names(table.functions@) =~= Seq::<Seq<char>>::empty());
            assert(texts(table.functions@) =~= Seq::<(Option<Seq<char>>, Seq<char>)>::empty());
        }
        extract_symbols_from_block(ast, &mut table, text, toks);
        proof {
            assert(names(table.variables@) =~= block_decls(ast@, false));
            assert(texts(table.variables@) =~= block_texts(ast@, false, text@));
            assert(names(table.functions@) =~= block_decls(ast@, true));
            assert(texts(table.functions@) =~= block_texts(ast@, true, text@));
        }
        table
    }

    /// The first variable whose range holds `position`, else the first such
    /// function.
    pub fn find_at_position(&self, position: Position) -> (r: Option<&SymbolInfo>)
        ensures
            r matches Some(s) ==> symbol_at(*self, position) == Some(*s),
            r is None ==> symbol_at(*self, position) is None,
    {
        match find_in(&self.variables, position) {
            Some(k) => Some(&self.variables[k]),
            None => match find_in(&self.functions, position) {
                Some(k) => Some(&self.functions[k]),
                None => None,
            },
        }
    }

    /// Where the symbol at `position` is defined.
    pub fn find_definition(&self, position: Position) -> (r: Option<Location>)
        ensures
            r is Some <==> symbol_at(*self, position) is Some,
            r matches Some(l) ==> l.range == symbol_at(*self, position)->0.range && l.uri@
                == DOCUMENT_URI@,
    {
        match self.find_at_position(position) {
            Some(symbol) => Some(Location { uri: DOCUMENT_URI.to_string(), range: symbol.range }),
            None => None,
        }
    }

    /// The outline: every variable, then every function, with its range.
    pub fn to_document_symbols(&self) -> (r: Vec<SymbolEntry>)
        ensures
            r@.len() == self.variables@.len() + self.functions@.len(),
            forall|k: int|
                0 <= k < self.variables@.len() ==> entry_of(#[trigger] r@[k], self.variables@[k]),
            forall|k: int|
                0 <= k < self.functions@.len() ==> entry_of(
                    #[trigger] r@[self.variables@.len() + k],
                    self.functions@[k],
                ),
    {
        let mut out: Vec<SymbolEntry> = Vec::new();
        let mut k: usize = 0;
        while k < self.variables.len()
            invariant
                k <= self.variables@.len(),
                out@.len() == k,
                forall|j: int| 0 <= j < k ==> entry_of(#[trigger] out@[j], self.variables@[j]),
            decreases self.variables@.len() - k,
        {
            out.push(entry(&self.variables[k]));
            k = k + 1;
        }
        let mut k: usize = 0;
        while k < self.functions.len()
            invariant
                k <= self.functions@.len(),
                out@.len() == self.variables@.len() + k,
                forall|j: int|
                    0 <= j < self.variables@.len() ==> entry_of(#[trigger] out@[j], self.variables@[j]),
                forall|j: int|
                    0 <= j < k ==> entry_of(
                        #[trigger] out@[self.variables@.len() + j],
                        self.functions@[j],
                    ),
            decreases self.functions@.len() - k,
        {
            out.push(entry(&self.functions[k]));
            k = k + 1;
        }
        out
    }

    /// Renaming is not offered: there is never an edit.
    pub fn rename_symbol(&self, position: Position, new_name: &str, uri: &str) -> (r: Option<
        RenameEdit,
    >)
        ensures
            r is None,
    {
        None
    }
}

/// `e` lists `s`: same name, kind and range.
pub open spec fn entry_of(e: SymbolEntry, s: SymbolInfo) -> bool {
    e.name@ == s.name@ && e.kind == s.kind && e.location.range == s.range && e.location.uri@
        == DOCUMENT_URI@
}

fn entry(s: &SymbolInfo) -> (e: SymbolEntry)
    ensures
        entry_of(e, *s),
{
    SymbolEntry {
        name: s.name.clone(),
        kind: s.kind,
        location: Location { uri: DOCUMENT_URI.to_string(), range: s.range },
    }
}

} // verus!
