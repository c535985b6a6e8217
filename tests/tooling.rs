use aether_lsp::docs::word_at_position;
use aether_lsp::builtins::{find_builtin, get_builtin_functions};
use aether_lsp::completion::{builtin_detail, builtin_markdown, builtin_snippet};
use aether_lsp::completion::{keyword_entries, keyword_markdown};
use aether_lsp::text::decimal_string;
use aether_lsp::token::{describe_token, Token};
use aether_lsp::text::{contains_text, eq_literal};
use aether_lsp::diagnostics::{DiagnosticEngine, Severity};
use aether_lsp::parser::parse_document;
use aether_lsp::symbols::{Position, Range, SymbolKind, SymbolTable};

#[test]
fn parse_error_becomes_error_diagnostic() {
    let doc = parse_document("While X");
    let diags = DiagnosticEngine::analyze(&doc, "While X");
    assert_eq!(diags.len(), 1);
    let d = &diags[0];
    assert_eq!(d.severity, Severity::Error);
    assert_eq!(d.code, "E003");
    assert_eq!(d.source, "aether-parser");
    assert_eq!(d.range.start, Position { line: 0, character: 6 });
    assert_eq!(d.range.end, Position { line: 0, character: 11 });
}

#[test]
fn error_codes_follow_message_markers() {
    assert_eq!(DiagnosticEngine::error_code_from_message("use UPPER_SNAKE_CASE"), "E001");
    assert_eq!(DiagnosticEngine::error_code_from_message("Unexpected token here"), "E002");
    assert_eq!(DiagnosticEngine::error_code_from_message("Expected X"), "E003");
    assert_eq!(DiagnosticEngine::error_code_from_message("Invalid expression"), "E004");
    assert_eq!(DiagnosticEngine::error_code_from_message("other"), "E000");
    assert_eq!(DiagnosticEngine::estimate_error_length("bad identifier"), 10);
    assert_eq!(DiagnosticEngine::estimate_error_length("Expected X"), 5);
    assert_eq!(DiagnosticEngine::estimate_error_length("UPPER_SNAKE_CASE"), 15);
    assert_eq!(DiagnosticEngine::estimate_error_length("x"), 8);
}

#[test]
fn naming_lint_warns_only_after_declarers() {
    let text = "Func F(a) { Return a }\nPRINT(b)\nFor c In D { }";
    let diags = DiagnosticEngine::check_naming_convention(text);
    assert!(diags.is_empty());
    let text = "Set my_var 1";
    let diags = DiagnosticEngine::check_naming_convention(text);
    assert_eq!(diags.len(), 1);
    assert_eq!(diags[0].severity, Severity::Warning);
    assert_eq!(diags[0].code, "W001");
    assert_eq!(diags[0].range.start, Position { line: 0, character: 4 });
    assert_eq!(diags[0].range.end, Position { line: 0, character: 10 });
    assert!(diags[0].message.ends_with("MY_VAR"));
}

#[test]
fn upper_snake_case_names() {
    assert!(DiagnosticEngine::is_valid_aether_name("MY_VAR1"));
    assert!(!DiagnosticEngine::is_valid_aether_name("My_VAR"));
    assert!(!DiagnosticEngine::is_valid_aether_name("1ABC"));
    assert!(!DiagnosticEngine::is_valid_aether_name(""));
    assert_eq!(DiagnosticEngine::suggest_upper_snake_case("abc_d"), "ABC_D");
}

#[test]
fn symbols_cover_nested_declarations() {
    let text = "Func F(A, B) {\n  Set X 1\n  While (True) { Lazy L (2) }\n}\nGenerator G() { Yield 1 }\nSet Y If (True) { Set Z 1 } Else { Func H() { } }\n";
    let doc = parse_document(text);
    assert!(doc.errors.is_empty());
    let vars: Vec<&str> = doc.symbols.variables.iter().map(|s| s.name.as_str()).collect();
    let funcs: Vec<&str> = doc.symbols.functions.iter().map(|s| s.name.as_str()).collect();
    assert_eq!(vars, vec!["X", "L", "Y"]);
    assert_eq!(funcs, vec!["F", "G"]);
    assert_eq!(doc.symbols.variables[1].kind, SymbolKind::Variable);
    assert_eq!(doc.symbols.functions[0].documentation, "Function: F(A, B)");
    assert_eq!(
        doc.symbols.functions[1].detail.as_deref(),
        Some("Generator: G() { ... }")
    );
}

#[test]
fn variable_documentation_comes_from_comments_above() {
    let text = "// first\n// second\nSet A 1\n/* block */\nSet B 2\n/*\n multi\n*/\nSet C 3\n";
    let doc = parse_document(text);
    assert!(doc.errors.is_empty());
    assert_eq!(doc.symbols.variables[0].documentation, "first\nsecond");
    assert_eq!(doc.symbols.variables[1].documentation, "block");
    assert_eq!(doc.symbols.variables[2].documentation, "multi");
}

#[test]
fn lookups_by_position() {
    let mut table = SymbolTable::new();
    let r = Range {
        start: Position { line: 1, character: 2 },
        end: Position { line: 1, character: 5 },
    };
    table.add_variable("A".to_string(), r, None);
    table.add_function("F".to_string(), r, vec!["X".to_string()], None);
    let hit = table.find_at_position(Position { line: 1, character: 3 }).unwrap();
    assert_eq!(hit.name, "A");
    assert!(table.find_at_position(Position { line: 1, character: 6 }).is_none());
    assert!(table.find_at_position(Position { line: 0, character: 3 }).is_none());
    let loc = table.find_definition(Position { line: 1, character: 5 }).unwrap();
    assert_eq!(loc.range, r);
    let outline = table.to_document_symbols();
    assert_eq!(outline.len(), 2);
    assert_eq!(outline[1].name, "F");
    assert_eq!(outline[1].kind, SymbolKind::Function);
    assert!(table
        .rename_symbol(Position { line: 1, character: 3 }, "B", "file:///x")
        .is_none());
}

#[test]
fn word_under_cursor() {
    let text = "Set A PRINTLN(X_1)\nLEN(Y)";
    assert_eq!(word_at_position(text, 0, 8), Some("PRINTLN".to_string()));
    assert_eq!(word_at_position(text, 0, 6), Some("PRINTLN".to_string()));
    assert_eq!(word_at_position(text, 0, 17), Some("X_1".to_string()));
    assert_eq!(word_at_position(text, 1, 3), Some("LEN".to_string()));
    assert_eq!(word_at_position(text, 2, 0), None);
    assert_eq!(word_at_position(text, 1, 40), None);
    assert_eq!(word_at_position("a + b", 0, 2), None);
}

#[test]
fn builtin_catalog_lookup_and_text() {
    let catalog = get_builtin_functions();
    let k = find_builtin(&catalog, "PRINTLN").unwrap();
    assert_eq!(catalog[k].name, "PRINTLN");
    assert!(find_builtin(&catalog, "NO_SUCH_FUNCTION").is_none());
    let f = &catalog[k];
    assert_eq!(builtin_detail(f), "PRINTLN(value...) - IO");
    assert_eq!(builtin_snippet(f), "PRINTLN($1)");
    assert_eq!(
        builtin_markdown(f),
        "打印值到控制台并换行\n\n**分类**: IO\n\n**示例**:\n```aether\nPRINTLN(\"Hello World\")\nPRINTLN(MY_VAR, MY_VAR2)\n```"
    );
}

#[test]
fn keyword_completion_text() {
    let entries = keyword_entries();
    assert_eq!(entries.len(), 26);
    assert_eq!(entries[0].keyword, "Set");
    assert_eq!(
        keyword_markdown(&entries[0]),
        "**Set**\n\n变量赋值\n\n```aether\nSet VAR value\n```"
    );
}

#[test]
fn decimal_and_token_text() {
    assert_eq!(decimal_string(0), "0");
    assert_eq!(decimal_string(1207), "1207");
    assert_eq!(describe_token(&Token::SetKw), "Set");
    assert_eq!(describe_token(&Token::Illegal('&')), "Illegal('&')");
    assert_eq!(describe_token(&Token::Number("2.5".to_string())), "Number(2.5)");
}

#[test]
fn text_helpers() {
    assert!(contains_text("Parse error: Expected X", "Expected"));
    assert!(!contains_text("abc", "abd"));
    assert!(contains_text("abc", ""));
    assert!(eq_literal("Set", "Set"));
    assert!(!eq_literal("Set", "Sett"));
}

#[test]
fn symbol_ranges_point_at_declarations() {
    let doc = parse_document("Set A 1\n  Func FN() { }\nSet A 2");
    assert!(doc.errors.is_empty());
    let a = &doc.symbols.variables[0];
    assert_eq!(a.range.start, Position { line: 0, character: 4 });
    assert_eq!(a.range.end, Position { line: 0, character: 5 });
    let f = &doc.symbols.functions[0];
    assert_eq!(f.range.start, Position { line: 1, character: 7 });
    assert_eq!(f.range.end, Position { line: 1, character: 9 });
    let hit = doc
        .symbols
        .find_at_position(Position { line: 1, character: 8 })
        .unwrap();
    assert_eq!(hit.name, "FN");
    assert_eq!(doc.symbols.variables[1].range, a.range);
}

#[test]
fn builtin_catalog_names_in_order() {
    let catalog = get_builtin_functions();
    assert_eq!(catalog.len(), 53);
    assert_eq!(catalog[0].name, "PRINTLN");
    assert_eq!(catalog[1].name, "PRINT");
}
