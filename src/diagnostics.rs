//! Diagnostics: parse errors and naming-convention warnings, positioned
//! 0-based for editors.
use vstd::prelude::*;

use crate::parser::{scans_to, tokenize, CompatParseError, Lexeme, ParsedDocument};
use crate::symbols::{zero_based, Position, Range};
use crate::text::{contains_text, has_substring};
use crate::token::Token;

verus! {

/// How serious a diagnostic is.
#[derive(Debug, Clone, Copy, PartialEq, Eq, Structural)]
pub enum Severity {
    Error,
    Warning,
}

/// One positioned message for an editor.
#[derive(Debug, Clone)]
pub struct Diagnostic {
    pub range: Range,
    pub severity: Severity,
    pub code: String,
    pub source: String,
    pub message: String,
    /// A link that explains the code, if any.
    pub code_description: Option<String>,
}

/// Where naming-convention warnings point for an explanation.
pub const NAMING_HELP_URL: &'static str =
    "https://github.com/xiaozuhui/aether-lang/wiki/naming-conventions";

/// What std's `str::to_uppercase` makes of a string (full Unicode case
/// mapping).
pub uninterp spec fn upper_of(s: Seq<char>) -> Seq<char>;

/// Relies on `str::to_uppercase`: the result depends on the characters
/// alone.
#[verifier::external_body]
fn to_uppercase(s: &str) -> (r: String)
    ensures
        r@ == upper_of(s@),
{
    s.to_uppercase()
}

/// The code of a parse-error message, by the first marker it contains.
pub open spec fn code_of(message: Seq<char>) -> Seq<char> {
    if has_substring(message, "UPPER_SNAKE_CASE"@) {
        "E001"@
    } else if has_substring(message, "Unexpected token"@) {
        "E002"@
    } else if has_substring(message, "Expected"@) {
        "E003"@
    } else if has_substring(message, "Invalid expression"@) {
        "E004"@
    } else {
        "E000"@
    }
}

/// How many columns an error of this message is highlighted over.
pub open spec fn error_length(message: Seq<char>) -> u32 {
    if has_substring(message, "identifier"@) {
        10
    } else if has_substring(message, "Expected"@) {
        5
    } else if has_substring(message, "UPPER_SNAKE_CASE"@) {
        15
    } else {
        8
    }
}

/// A name in UPPER_SNAKE_CASE: non-empty, only ASCII uppercase letters,
/// digits and `_`, not starting with a digit.
pub open spec fn upper_snake(s: Seq<char>) -> bool {
    &&& s.len() > 0
    &&& forall|k: int|
        0 <= k < s.len() ==> ('A' <= #[trigger] s[k] <= 'Z' || s[k] == '_' || '0' <= s[k] <= '9')
    &&& !('0' <= s[0] <= '9')
}

/// The diagnostic for a parse error.
pub open spec fn error_diagnostic(e: CompatParseError, d: Diagnostic) -> bool {
    let start = Position { line: zero_based(e.line), character: zero_based(e.column) };
    &&& d.range.start == start
    &&& d.range.end.line == start.line
    &&& d.range.end.character as int == if start.character + error_length(e.message@)
        <= u32::MAX {
        start.character + error_length(e.message@)
    } else {
        u32::MAX as int
    }
    &&& d.severity == Severity::Error
    &&& d.code@ == code_of(e.message@)
    &&& d.source@ == "aether-parser"@
    &&& d.message@ == e.message@
    &&& d.code_description is None
}

/// The lint is told of one declaration keyword.
pub open spec fn declares(t: Token) -> bool {
    t is SetKw || t is Func || t is Generator || t is Lazy
}

/// `d` is the naming warning for `name` declared at 1-based `line` and
/// `column`.
pub open spec fn is_naming_warning(d: Diagnostic, name: Seq<char>, line: usize, column: usize) -> bool {
    &&& d.severity == Severity::Warning
    &&& d.code@ == "W001"@
    &&& d.source@ == "aether-lint"@
    &&& d.range.start == (Position { line: zero_based(line), character: zero_based(column) })
    &&& d.range.end.line == zero_based(line)
    &&& d.message@ == "变量名 '"@ + name + "' 应使用 UPPER_SNAKE_CASE 格式\n建议: "@ + upper_of(name)
    &&& d.code_description matches Some(u) && u@ == NAMING_HELP_URL@
}

/// Token `k` of `toks` is an identifier, directly after a declaring keyword,
/// that is not in UPPER_SNAKE_CASE.
pub open spec fn flagged_at(toks: Seq<Lexeme>, k: int) -> bool {
    &&& 1 <= k < toks.len()
    &&& declares(toks[k - 1].token)
    &&& toks[k].token is Identifier
    &&& !upper_snake(toks[k].token->Identifier_0@)
}

/// The indices of the flagged tokens of `toks`, in order.
pub open spec fn flagged(toks: Seq<Lexeme>) -> Seq<int>
    decreases toks.len(),
{
    if toks.len() == 0 {
        Seq::empty()
    } else if flagged_at(toks, toks.len() - 1) {
        flagged(toks.drop_last()).push(toks.len() - 1)
    } else {
        flagged(toks.drop_last())
    }
}

/// Flagging a token looks only at it and the token before it.
proof fn lemma_flagged_prefix(toks: Seq<Lexeme>, n: int)
    requires
        0 <= n <= toks.len(),
    ensures
        flagged(toks.subrange(0, n)) == flagged_prefix(toks, n),
    decreases n,
{
    if n > 0 {
        assert(toks.subrange(0, n).drop_last() =~= toks.subrange(0, n - 1));
        lemma_flagged_prefix(toks, n - 1);
        assert(flagged_at(toks.subrange(0, n), n - 1) == flagged_at(toks, n - 1));
    }
}

/// The indices below `n` of flagged tokens of `toks`, in order.
pub open spec fn flagged_prefix(toks: Seq<Lexeme>, n: int) -> Seq<int>
    decreases n,
{
    if n <= 0 {
        Seq::empty()
    } else if flagged_at(toks, n - 1) {
        flagged_prefix(toks, n - 1).push(n - 1)
    } else {
        flagged_prefix(toks, n - 1)
    }
}

/// `r` holds one naming warning per flagged token of `toks`, in order.
pub open spec fn warns_of(r: Seq<Diagnostic>, toks: Seq<Lexeme>) -> bool {
    &&& r.len() == flagged(toks).len()
    &&& forall|j: int|
        0 <= j < r.len() ==> is_naming_warning(
            #[trigger] r[j],
            toks[flagged(toks)[j]].token->Identifier_0@,
            toks[flagged(toks)[j]].line,
            toks[flagged(toks)[j]].column,
        )
}

pub struct DiagnosticEngine;

impl DiagnosticEngine {
    /// The parse errors of `parsed` as diagnostics; when there are none, the
    /// naming-convention warnings for `text`.
    pub fn analyze(parsed: &ParsedDocument, text: &str) -> (r: Vec<Diagnostic>)
        requires
            text@.len() < usize::MAX,
        ensures
            parsed.errors@.len() > 0 ==> r@.len() == parsed.errors@.len() && forall|k: int|
                0 <= k < r@.len() ==> error_diagnostic(parsed.errors@[k], #[trigger] r@[k]),
            parsed.errors@.len() == 0 ==> forall|k: int|
                0 <= k < r@.len() ==> (#[trigger] r@[k]).severity == Severity::Warning,
            parsed.errors@.len() == 0 ==> exists|toks: Seq<Lexeme>| scans_to(text@, toks) && warns_of(r@, toks),
    {
        if parsed.errors.len() > 0 {
            Self::parse_errors_to_diagnostics(&parsed.errors)
        } else {
            Self::check_naming_convention(text)
        }
    }

    /// One error diagnostic per parse error, in order.
    pub fn parse_errors_to_diagnostics(errors: &Vec<CompatParseError>) -> (r: Vec<Diagnostic>)
        ensures
            r@.len() == errors@.len(),
            forall|k: int| 0 <= k < r@.len() ==> error_diagnostic(errors@[k], #[trigger] r@[k]),
    {
        let mut out: Vec<Diagnostic> = Vec::new();
        let mut k: usize = 0;
        while k < errors.len()
            invariant
                k <= errors@.len(),
                out@.len() == k,
                forall|j: int| 0 <= j < k ==> error_diagnostic(errors@[j], #[trigger] out@[j]),
            decreases errors@.len() - k,
        {
            let e = &errors[k];
            let start = Position {
                line: if e.line == 0 {
                    0
                } else {
                    (e.line - 1) as u32
                },
                character: if e.column == 0 {
                    0
                } else {
                    (e.column - 1) as u32
                },
            };
            let length = Self::estimate_error_length(e.message.as_str());
            out.push(
                Diagnostic {
                    range: Range {
                        start,
                        end: Position {
                            line: start.line,
                            character: start.character.saturating_add(length),
                        },
                    },
                    severity: Severity::Error,
                    code: Self::error_code_from_message(e.message.as_str()),
                    source: "aether-parser".to_string(),
                    message: e.message.clone(),
                    code_description: None,
                },
            );
            k = k + 1;
        }
        out
    }

    /// How many columns to highlight for an error message.
    pub fn estimate_error_length(message: &str) -> (r: u32)
        ensures
            r == error_length(message@),
    {
        if contains_text(message, "identifier") {
            10
        } else if contains_text(message, "Expected") {
            5
        } else if contains_text(message, "UPPER_SNAKE_CASE") {
            15
        } else {
            8
        }
    }

    /// The code of a parse-error message.
    pub fn error_code_from_message(message: &str) -> (r: String)
        ensures
            r@ == code_of(message@),
    {
        if contains_text(message, "UPPER_SNAKE_CASE") {
            "E001".to_string()
        } else if contains_text(message, "Unexpected token") {
            "E002".to_string()
        } else if contains_text(message, "Expected") {
            "E003".to_string()
        } else if contains_text(message, "Invalid expression") {
            "E004".to_string()
        } else {
            "E000".to_string()
        }
    }

    /// Whether `name` is in UPPER_SNAKE_CASE.
    pub fn is_valid_aether_name(name: &str) -> (r: bool)
        ensures
            r == upper_snake(name@),
    {
        let n = name.unicode_len();
        if n == 0 {
            return false;
        }
        let first = name.get_char(0);
        if '0' <= first && first <= '9' {
            return false;
        }
        let mut i: usize = 0;
        while i < n
            invariant
                n == name@.len(),
                i <= n,
                forall|k: int|
                    0 <= k < i ==> ('A' <= #[trigger] name@[k] <= 'Z' || name@[k] == '_' || '0'
                        <= name@[k] <= '9'),
            decreases n - i,
        {
            let c = name.get_char(i);
            if !(('A' <= c && c <= 'Z') || c == '_' || ('0' <= c && c <= '9')) {
                return false;
            }
            i = i + 1;
        }
        true
    }

    /// The suggested rewrite of a name: the name in upper case.
    pub fn suggest_upper_snake_case(name: &str) -> (r: String)
        ensures
            r@ == upper_of(name@),
    {
        to_uppercase(name)
    }

    /// The warning for declared name `name` at 1-based `line`/`column`.
    pub fn naming_warning(name: &str, line: usize, column: usize) -> (d: Diagnostic)
        ensures
            is_naming_warning(d, name@, line, column),
    {
        let l = if line == 0 {
            0
        } else {
            (line - 1) as u32
        };
        let c = if column == 0 {
            0
        } else {
            (column - 1) as u32
        };
        let width = name.unicode_len();
        let end = if width > (u32::MAX - c) as usize {
            u32::MAX
        } else {
            c + width as u32
        };
        Diagnostic {
            range: Range {
                start: Position { line: l, character: c },
                end: Position { line: l, character: end },
            },
            severity: Severity::Warning,
            code: "W001".to_string(),
            source: "aether-lint".to_string(),
            message: "变量名 '".to_string().concat(name).concat(
                "' 应使用 UPPER_SNAKE_CASE 格式\n建议: ",
            ).concat(Self::suggest_upper_snake_case(name).as_str()),
            code_description: Some(NAMING_HELP_URL.to_string()),
        }
    }

    /// One warning per flagged token of `toks`: an identifier right after
    /// `Set`, `Func`, `Generator` or `Lazy` that is not in UPPER_SNAKE_CASE,
    /// placed at the identifier.
    pub fn naming_warnings(toks: &Vec<Lexeme>) -> (r: Vec<Diagnostic>)
        ensures
            warns_of(r@, toks@),
    {
        let mut out: Vec<Diagnostic> = Vec::new();
        let mut k: usize = 1;
        if toks.len() == 0 {
            return out;
        }
        proof {
            reveal_with_fuel(flagged_prefix, 2);
        }
        while k < toks.len()
            invariant
                1 <= k <= toks@.len(),
                out@.len() == flagged_prefix(toks@, k as int).len(),
                forall|j: int|
                    0 <= j < out@.len() ==> is_naming_warning(
                        #[trigger] out@[j],
                        toks@[flagged_prefix(toks@, k as int)[j]].token->Identifier_0@,
                        toks@[flagged_prefix(toks@, k as int)[j]].line,
                        toks@[flagged_prefix(toks@, k as int)[j]].column,
                    ),
            decreases toks@.len() - k,
        {
            let prev = &toks[k - 1].token;
            let declarer = matches!(prev, Token::SetKw) || matches!(prev, Token::Func) || matches!(
                prev,
                Token::Generator
            ) || matches!(prev, Token::Lazy);
            match &toks[k].token {
                Token::Identifier(name) => {
                    if declarer && !Self::is_valid_aether_name(name.as_str()) {
                        out.push(Self::naming_warning(name.as_str(), toks[k].line, toks[k].column));
                    }
                },
                _ => {},
            }
            k = k + 1;
        }
        proof {
            lemma_flagged_prefix(toks@, toks@.len() as int);
            assert(toks@.subrange(0, toks@.len() as int) =~= toks@);
        }
        out
    }

    /// Scan `text` again and warn of every identifier right after `Set`,
    /// `Func`, `Generator` or `Lazy` that is not in UPPER_SNAKE_CASE.
    pub fn check_naming_convention(text: &str) -> (r: Vec<Diagnostic>)
        requires
            text@.len() < usize::MAX,
        ensures
            forall|k: int|
                0 <= k < r@.len() ==> (#[trigger] r@[k]).severity == Severity::Warning && r@[k].code@
                    == "W001"@,
            exists|toks: Seq<Lexeme>| scans_to(text@, toks) && warns_of(r@, toks),
    {
        let toks = tokenize(text);
        let r = Self::naming_warnings(&toks);
        proof {
            assert(scans_to(text@, toks@) && warns_of(r@, toks@));
        }
        r
    }
}

} // verus!
