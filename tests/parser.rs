use aether_lsp::ast::{BinOp, Expr, Stmt, UnaryOp};
use aether_lsp::parser::{parse_document, ParseError, Parser};

fn number_value(e: &Expr) -> f64 {
    match e {
        Expr::Number(text) => text.parse::<f64>().unwrap(),
        other => panic!("Expected number, got {:?}", other),
    }
}

#[test]
fn test_parse_set_statement() {
    let input = "Set X 10";
    let mut parser = Parser::new(input);
    let program = parser.parse_program().unwrap();

    assert_eq!(program.len(), 1);
    match &program[0] {
        Stmt::SetVar { name, value } => {
            assert_eq!(name, "X");
            assert_eq!(number_value(value), 10.0);
        }
        _ => panic!("Expected Set statement"),
    }
}

#[test]
fn test_parse_arithmetic() {
    let input = "Set X (5 + 3 * 2)";
    let mut parser = Parser::new(input);
    let program = parser.parse_program().unwrap();

    assert_eq!(program.len(), 1);
    match &program[0] {
        Stmt::SetVar { name, value } => {
            assert_eq!(name, "X");
            match value {
                Expr::Binary { left, op, right } => {
                    assert_eq!(number_value(left), 5.0);
                    assert_eq!(*op, BinOp::Add);
                    match &**right {
                        Expr::Binary { left, op, right } => {
                            assert_eq!(number_value(left), 3.0);
                            assert_eq!(*op, BinOp::Multiply);
                            assert_eq!(number_value(right), 2.0);
                        }
                        _ => panic!("Expected binary expression"),
                    }
                }
                _ => panic!("Expected binary expression"),
            }
        }
        _ => panic!("Expected Set statement"),
    }
}

#[test]
fn test_parse_function_definition() {
    let input = r#"
            Func ADD (A, B) {
                Return (A + B)
            }
        "#;
    let mut parser = Parser::new(input);
    let program = parser.parse_program().unwrap();

    assert_eq!(program.len(), 1);
    match &program[0] {
        Stmt::FuncDef { name, params, body } => {
            assert_eq!(name, "ADD");
            assert_eq!(params, &vec!["A".to_string(), "B".to_string()]);
            assert_eq!(body.len(), 1);
        }
        _ => panic!("Expected FuncDef"),
    }
}

#[test]
fn test_parse_function_call() {
    let input = "ADD(5, 3)";
    let mut parser = Parser::new(input);
    let program = parser.parse_program().unwrap();

    assert_eq!(program.len(), 1);
    match &program[0] {
        Stmt::Expression(Expr::Call { func, args }) => {
            assert_eq!(**func, Expr::Identifier("ADD".to_string()));
            assert_eq!(args.len(), 2);
            assert_eq!(number_value(&args[0]), 5.0);
            assert_eq!(number_value(&args[1]), 3.0);
        }
        _ => panic!("Expected function call"),
    }
}

#[test]
fn test_parse_array_literal() {
    let input = "Set ARR [1, 2, 3]";
    let mut parser = Parser::new(input);
    let program = parser.parse_program().unwrap();

    assert_eq!(program.len(), 1);
    match &program[0] {
        Stmt::SetVar { name, value } => {
            assert_eq!(name, "ARR");
            match value {
                Expr::Array(elements) => {
                    assert_eq!(elements.len(), 3);
                    assert_eq!(number_value(&elements[0]), 1.0);
                    assert_eq!(number_value(&elements[1]), 2.0);
                    assert_eq!(number_value(&elements[2]), 3.0);
                }
                _ => panic!("Expected array"),
            }
        }
        _ => panic!("Expected Set statement"),
    }
}

#[test]
fn test_parse_if_expression() {
    let input = r#"
            If (X > 0) {
                Set Y 1
            } Else {
                Set Y 0
            }
        "#;
    let mut parser = Parser::new(input);
    let program = parser.parse_program().unwrap();

    assert_eq!(program.len(), 1);
    match &program[0] {
        Stmt::Expression(Expr::If {
            condition,
            then_branch,
            else_branch,
            ..
        }) => {
            assert!(matches!(**condition, Expr::Binary { .. }));
            assert_eq!(then_branch.len(), 1);
            assert!(else_branch.is_some());
        }
        _ => panic!("Expected If expression"),
    }
}

#[test]
fn test_parse_for_loop() {
    let input = r#"
            For I In RANGE(0, 10) {
                PRINT(I)
            }
        "#;
    let mut parser = Parser::new(input);
    let program = parser.parse_program().unwrap();

    println!("Program length: {}", program.len());
    for (i, stmt) in program.iter().enumerate() {
        println!("Statement {}: {:?}", i, stmt);
    }

    assert_eq!(program.len(), 1);
    match &program[0] {
        Stmt::For {
            var,
            iterable,
            body,
        } => {
            assert_eq!(var, "I");
            assert!(matches!(iterable, Expr::Call { .. }));
            assert_eq!(body.len(), 1);
        }
        _ => panic!("Expected For statement"),
    }
}

#[test]
fn multiplication_binds_tighter_than_addition() {
    let mut parser = Parser::new("5 + 3 * 2");
    let program = parser.parse_program().unwrap();
    assert_eq!(program.len(), 1);
    let expected = Expr::binary(
        Expr::Number("5".to_string()),
        BinOp::Add,
        Expr::binary(
            Expr::Number("3".to_string()),
            BinOp::Multiply,
            Expr::Number("2".to_string()),
        ),
    );
    assert_eq!(program[0], Stmt::Expression(expected));
}

#[test]
fn space_before_bracket_assigns_array() {
    let mut parser = Parser::new("Set ARR [1, 2, 3]");
    let program = parser.parse_program().unwrap();
    let expected = Stmt::SetVar {
        name: "ARR".to_string(),
        value: Expr::Array(vec![
            Expr::Number("1".to_string()),
            Expr::Number("2".to_string()),
            Expr::Number("3".to_string()),
        ]),
    };
    assert_eq!(program, vec![expected]);
}

#[test]
fn no_space_before_bracket_assigns_index() {
    let mut parser = Parser::new("Set ARR[0] 5");
    let program = parser.parse_program().unwrap();
    let expected = Stmt::SetIndex {
        object: Box::new(Expr::Identifier("ARR".to_string())),
        index: Box::new(Expr::Number("0".to_string())),
        value: Expr::Number("5".to_string()),
    };
    assert_eq!(program, vec![expected]);
}

#[test]
fn sixteen_nines_stay_a_big_integer() {
    let mut parser = Parser::new("9999999999999999");
    let program = parser.parse_program().unwrap();
    assert_eq!(
        program,
        vec![Stmt::Expression(Expr::BigInteger("9999999999999999".to_string()))]
    );
}

#[test]
fn fifteen_digits_stay_a_number() {
    let mut parser = Parser::new("999999999999999");
    let program = parser.parse_program().unwrap();
    assert_eq!(
        program,
        vec![Stmt::Expression(Expr::Number("999999999999999".to_string()))]
    );
}

#[test]
fn lowercase_set_target_is_rejected() {
    let mut parser = Parser::new("Set x 1");
    match parser.parse_program() {
        Err(ParseError::InvalidIdentifier { name, line, column, .. }) => {
            assert_eq!(name, "x");
            assert_eq!(line, 1);
            assert_eq!(column, 5);
        }
        other => panic!("Expected invalid identifier, got {:?}", other),
    }
}

#[test]
fn uppercase_set_target_is_accepted() {
    let mut parser = Parser::new("Set X 1");
    assert!(parser.parse_program().is_ok());
}

#[test]
fn lowercase_lambda_binder_is_accepted() {
    let mut parser = Parser::new("Lambda x -> (x + 1)");
    let program = parser.parse_program().unwrap();
    match &program[0] {
        Stmt::Expression(Expr::Lambda { params, body }) => {
            assert_eq!(params, &vec!["x".to_string()]);
            assert_eq!(body.len(), 1);
            assert!(matches!(body[0], Stmt::Return(Expr::Binary { .. })));
        }
        other => panic!("Expected lambda, got {:?}", other),
    }
}

#[test]
fn lowercase_function_and_generator_names_are_rejected() {
    let mut parser = Parser::new("Func add(A) { Return A }");
    assert!(matches!(
        parser.parse_program(),
        Err(ParseError::InvalidIdentifier { .. })
    ));
    let mut parser = Parser::new("Generator gen() { Yield 1 }");
    assert!(matches!(
        parser.parse_program(),
        Err(ParseError::InvalidIdentifier { .. })
    ));
    let mut parser = Parser::new("Lazy val (1)");
    assert!(matches!(
        parser.parse_program(),
        Err(ParseError::InvalidIdentifier { .. })
    ));
}

#[test]
fn two_bad_statements_give_one_error() {
    let doc = parse_document("Set X = \nSet )\nSet (\n");
    assert_eq!(doc.errors.len(), 1);
    assert!(doc.ast.is_empty());
    assert!(doc.symbols.variables.is_empty());
    assert!(doc.symbols.functions.is_empty());
    assert_eq!(doc.errors[0].line, 1);
}

#[test]
fn good_document_has_no_errors_and_symbols() {
    let doc = parse_document("Set X 1\nFunc F(A) { Set Y A }\n");
    assert!(doc.errors.is_empty());
    assert_eq!(doc.ast.len(), 2);
    let vars: Vec<&str> = doc.symbols.variables.iter().map(|s| s.name.as_str()).collect();
    let funcs: Vec<&str> = doc.symbols.functions.iter().map(|s| s.name.as_str()).collect();
    assert_eq!(vars, vec!["X", "Y"]);
    assert_eq!(funcs, vec!["F"]);
    assert_eq!(doc.symbols.functions[0].documentation, "Function: F(A)");
}

#[test]
fn indexed_for_loop_binds_index_and_value() {
    let mut parser = Parser::new("For I, V In RANGE(0, 10) { PRINT(I, V) }");
    let program = parser.parse_program().unwrap();
    assert_eq!(program.len(), 1);
    match &program[0] {
        Stmt::ForIndexed {
            index_var,
            value_var,
            iterable,
            body,
        } => {
            assert_eq!(index_var, "I");
            assert_eq!(value_var, "V");
            assert!(matches!(iterable, Expr::Call { .. }));
            assert_eq!(body.len(), 1);
        }
        other => panic!("Expected indexed for, got {:?}", other),
    }
}

#[test]
fn unary_minus_binds_tighter_than_multiplication() {
    let mut parser = Parser::new("-A * B");
    let program = parser.parse_program().unwrap();
    let expected = Expr::binary(
        Expr::unary(UnaryOp::Minus, Expr::Identifier("A".to_string())),
        BinOp::Multiply,
        Expr::Identifier("B".to_string()),
    );
    assert_eq!(program, vec![Stmt::Expression(expected)]);
}

#[test]
fn switch_import_and_dict_parse() {
    let src = "Switch (X) {\n Case 1:\n PRINT(1)\n Default:\n PRINT(2)\n}\nImport { A As B, C } From \"lib\"\nSet D {k: 1, \"s\": 2}\n";
    let mut parser = Parser::new(src);
    let program = parser.parse_program().unwrap();
    assert_eq!(program.len(), 3);
    match &program[0] {
        Stmt::Switch { cases, default, .. } => {
            assert_eq!(cases.len(), 1);
            assert_eq!(default.as_ref().map(|d| d.len()), Some(1));
        }
        other => panic!("Expected switch, got {:?}", other),
    }
    match &program[1] {
        Stmt::Import { names, path, aliases } => {
            assert_eq!(names, &vec!["A".to_string(), "C".to_string()]);
            assert_eq!(path, "lib");
            assert_eq!(aliases, &vec![Some("B".to_string()), None]);
        }
        other => panic!("Expected import, got {:?}", other),
    }
    match &program[2] {
        Stmt::SetVar { value: Expr::Dict(pairs), .. } => {
            assert_eq!(pairs.len(), 2);
            assert_eq!(pairs[0].0, "k");
            assert_eq!(pairs[1].0, "s");
        }
        other => panic!("Expected dict, got {:?}", other),
    }
}

#[test]
fn error_messages_name_position_and_token() {
    let mut parser = Parser::new("While X");
    let err = parser.parse_program().unwrap_err();
    assert_eq!(
        err.message(),
        "Parse error at line 1, column 7: Expected LeftParen, found Identifier(\"X\")"
    );
    let mut parser = Parser::new("Set X )");
    let err = parser.parse_program().unwrap_err();
    assert_eq!(
        err.message(),
        "Parse error at line 1, column 7: Invalid expression - Unexpected token in expression"
    );
}

#[test]
fn switch_with_cases_and_default() {
    let mut parser = Parser::new("Switch (X) {\nCase 1: A\nCase 2: B\nDefault: C\n}");
    let program = parser.parse_program().unwrap();
    match &program[0] {
        Stmt::Switch { expr, cases, default } => {
            assert_eq!(*expr, Expr::Identifier("X".to_string()));
            assert_eq!(cases.len(), 2);
            assert_eq!(cases[1].0, Expr::Number("2".to_string()));
            assert_eq!(cases[1].1, vec![Stmt::Expression(Expr::Identifier("B".to_string()))]);
            assert_eq!(
                default.as_ref().unwrap(),
                &vec![Stmt::Expression(Expr::Identifier("C".to_string()))]
            );
        }
        other => panic!("Expected switch, got {:?}", other),
    }
}

#[test]
fn first_error_names_the_bad_identifier() {
    let doc = parse_document("Set x 1\nSet Y )");
    assert_eq!(doc.errors.len(), 1);
    assert!(doc.errors[0].message.contains("Invalid identifier 'x'"));
    assert!(!doc.errors[0].message.contains("Invalid expression"));
    assert_eq!((doc.errors[0].line, doc.errors[0].column), (1, 5));
}

#[test]
fn known_shapes_parse_exactly() {
    let mut parser = Parser::new("Set X F(1, 2)\nIf (X > 1) {\n  PRINT(X)\n  Set Y 2\n}\n");
    let program = parser.parse_program().unwrap();
    assert_eq!(program.len(), 2);
    assert_eq!(
        program[0],
        Stmt::SetVar {
            name: "X".to_string(),
            value: Expr::call(
                Expr::Identifier("F".to_string()),
                vec![Expr::Number("1".to_string()), Expr::Number("2".to_string())]
            ),
        }
    );
    match &program[1] {
        Stmt::Expression(Expr::If { then_branch, elif_branches, else_branch, .. }) => {
            assert_eq!(then_branch.len(), 2);
            assert!(elif_branches.is_empty());
            assert!(else_branch.is_none());
        }
        other => panic!("Expected If, got {:?}", other),
    }
}
