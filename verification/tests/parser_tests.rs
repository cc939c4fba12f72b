use descent::ast::CallType;
use descent::ast::Expression;
use descent::ast::FuncBody;
use descent::ast::LiteralType;
use descent::ast::Statement;
use descent::ast::TypeKind;
use descent::diag::ErrorCode;
use descent::parser::Parser;
use descent::token::LiteralKind;
use descent::token::Token;
use descent::token::TokenType;

fn tok(t: TokenType, lex: &str) -> Token {
    Token { token: t, lexeme: lex.to_string(), value: None, line: 1, pos: (0, 0) }
}

fn num(value: i64, lex: &str) -> Token {
    Token {
        token: TokenType::NumberLit,
        lexeme: lex.to_string(),
        value: Some(LiteralKind::Number { value }),
        line: 1,
        pos: (0, 0),
    }
}

fn ident(name: &str) -> Token {
    tok(TokenType::Ident, name)
}

fn eof() -> Token {
    tok(TokenType::Eof, "")
}

fn parse_ok(mut tokens: Vec<Token>) -> Vec<Statement> {
    tokens.push(eof());
    let mut p = Parser::new(tokens);
    p.parse().expect("parse should succeed")
}

fn parse_err(mut tokens: Vec<Token>) -> descent::diag::Diagnostic {
    tokens.push(eof());
    let mut p = Parser::new(tokens);
    p.parse().expect_err("parse should fail")
}

#[test]
fn empty_input_parses_to_no_statements() {
    let stmts = parse_ok(vec![]);
    assert_eq!(stmts.len(), 0);
}

#[test]
fn null_var_sugar_equals_null_type() {
    // `x;` and `x: null;` parse to value-equal declarations with a
    // null-literal initializer.
    let a = parse_ok(vec![tok(TokenType::Let, "let"), ident("x"), tok(TokenType::Semi, ";")]);
    let b = parse_ok(vec![
        tok(TokenType::Let, "let"),
        ident("x"),
        tok(TokenType::Colon, ":"),
        tok(TokenType::NullIdent, "null"),
        tok(TokenType::Semi, ";"),
    ]);
    assert_eq!(a, b);
    assert_eq!(a.len(), 1);
    match &a[0] {
        Statement::Var { names, value, is_mut, is_pub, is_func, .. } => {
            assert_eq!(names.len(), 1);
            assert_eq!(names[0].lexeme, "x");
            assert!(matches!(
                value,
                Some(Expression::Value { value: LiteralType::Null, .. })
            ));
            assert!(!is_mut && !is_pub && !is_func);
        }
        s => panic!("expected a variable declaration, got {:?}", s),
    }
}

#[test]
fn pub_var_exports_bound_name() {
    let stmts = parse_ok(vec![
        tok(TokenType::Let, "let"),
        tok(TokenType::Pub, "pub"),
        ident("x"),
        tok(TokenType::Colon, ":"),
        tok(TokenType::NumberIdent, "number"),
        tok(TokenType::Assign, "="),
        num(1, "1"),
        tok(TokenType::Semi, ";"),
    ]);
    match &stmts[0] {
        Statement::Var { names, pub_names, is_pub, .. } => {
            assert!(is_pub);
            assert_eq!(names.iter().map(|t| t.lexeme.clone()).collect::<Vec<_>>(), ["x"]);
            assert_eq!(pub_names.iter().map(|t| t.lexeme.clone()).collect::<Vec<_>>(), ["x"]);
        }
        s => panic!("expected a variable declaration, got {:?}", s),
    }
}

#[test]
fn pub_var_export_list_overrides_bound_name() {
    let stmts = parse_ok(vec![
        tok(TokenType::Let, "let"),
        tok(TokenType::Pub, "pub"),
        tok(TokenType::LeftParen, "("),
        ident("y"),
        tok(TokenType::RightParen, ")"),
        ident("z"),
        tok(TokenType::Colon, ":"),
        tok(TokenType::NumberIdent, "number"),
        tok(TokenType::Assign, "="),
        num(1, "1"),
        tok(TokenType::Semi, ";"),
    ]);
    match &stmts[0] {
        Statement::Var { names, pub_names, .. } => {
            assert_eq!(names.iter().map(|t| t.lexeme.clone()).collect::<Vec<_>>(), ["z"]);
            assert_eq!(pub_names.iter().map(|t| t.lexeme.clone()).collect::<Vec<_>>(), ["y"]);
        }
        s => panic!("expected a variable declaration, got {:?}", s),
    }
}

#[test]
fn postfix_chain_associates_left_to_right() {
    // `a.b(1).c[2];` is an array-index call wrapping a struct-field call
    // named `c` wrapping a method-style field call `b` applied to `1`.
    let stmts = parse_ok(vec![
        ident("a"),
        tok(TokenType::Dot, "."),
        ident("b"),
        tok(TokenType::LeftParen, "("),
        num(1, "1"),
        tok(TokenType::RightParen, ")"),
        tok(TokenType::Dot, "."),
        ident("c"),
        tok(TokenType::LeftBracket, "["),
        num(2, "2"),
        tok(TokenType::RightBracket, "]"),
        tok(TokenType::Semi, ";"),
    ]);
    let expr = match &stmts[0] {
        Statement::Expression { expr } => expr,
        s => panic!("expected an expression statement, got {:?}", s),
    };
    let (outer_callee, outer_args) = match expr {
        Expression::Call { name, args, call_type: CallType::Array, .. } => (name, args),
        e => panic!("expected an array-index call, got {:?}", e),
    };
    assert!(matches!(outer_args[0], Expression::Value { value: LiteralType::Number(2), .. }));
    let (mid_callee, mid_args) = match outer_callee.as_ref() {
        Expression::Call { name, args, call_type: CallType::Struct, .. } => (name, args),
        e => panic!("expected a struct-field call, got {:?}", e),
    };
    match &mid_args[0] {
        Expression::Value { value: LiteralType::Str(s), .. } => assert_eq!(s, "c"),
        e => panic!("expected the field name as a string literal, got {:?}", e),
    }
    match mid_callee.as_ref() {
        Expression::Method { name, left, args, .. } => {
            assert_eq!(name.lexeme, "b");
            assert!(matches!(left.as_ref(), Expression::Var { .. }));
            assert!(matches!(
                args[0],
                Expression::Value { value: LiteralType::Number(1), .. }
            ));
        }
        e => panic!("expected a method call, got {:?}", e),
    }
}

#[test]
fn loop_negative_count_clamps_to_one() {
    let stmts = parse_ok(vec![
        tok(TokenType::Loop, "loop"),
        num(-5, "-5"),
        tok(TokenType::LeftBrace, "{"),
        tok(TokenType::RightBrace, "}"),
    ]);
    match &stmts[0] {
        Statement::Loop { iter, .. } => assert_eq!(*iter, Some(1)),
        s => panic!("expected a loop statement, got {:?}", s),
    }
}

#[test]
fn loop_positive_count_kept() {
    let stmts = parse_ok(vec![
        tok(TokenType::Loop, "loop"),
        num(3, "3"),
        tok(TokenType::LeftBrace, "{"),
        tok(TokenType::RightBrace, "}"),
    ]);
    match &stmts[0] {
        Statement::Loop { iter, .. } => assert_eq!(*iter, Some(3)),
        s => panic!("expected a loop statement, got {:?}", s),
    }
}

#[test]
fn loop_without_count_is_infinite() {
    let stmts = parse_ok(vec![
        tok(TokenType::Loop, "loop"),
        tok(TokenType::LeftBrace, "{"),
        tok(TokenType::RightBrace, "}"),
    ]);
    match &stmts[0] {
        Statement::Loop { iter, .. } => assert_eq!(*iter, None),
        s => panic!("expected a loop statement, got {:?}", s),
    }
}

#[test]
fn let_at_end_of_input_raises_unexpected_token() {
    let d = parse_err(vec![tok(TokenType::Let, "let"), ident("x")]);
    assert_eq!(d.code, ErrorCode::UnexpectedToken);
}

#[test]
fn empty_match_parses_to_empty_cases() {
    let stmts = parse_ok(vec![
        tok(TokenType::Match, "match"),
        ident("x"),
        tok(TokenType::LeftBrace, "{"),
        tok(TokenType::RightBrace, "}"),
    ]);
    match &stmts[0] {
        Statement::Match { cases, def_case, .. } => {
            assert_eq!(cases.len(), 0);
            match def_case {
                FuncBody::Statements(v) => assert_eq!(v.len(), 0),
                b => panic!("expected an empty default body, got {:?}", b),
            }
        }
        s => panic!("expected a match statement, got {:?}", s),
    }
}

#[test]
fn match_with_literal_case_and_default() {
    let stmts = parse_ok(vec![
        tok(TokenType::Match, "match"),
        ident("x"),
        tok(TokenType::LeftBrace, "{"),
        num(1, "1"),
        tok(TokenType::ArrowBig, "=>"),
        num(2, "2"),
        tok(TokenType::Comma, ","),
        tok(TokenType::Underscore, "_"),
        tok(TokenType::ArrowBig, "=>"),
        num(3, "3"),
        tok(TokenType::RightBrace, "}"),
    ]);
    match &stmts[0] {
        Statement::Match { cases, def_case, .. } => {
            assert_eq!(cases.len(), 1);
            assert!(matches!(
                cases[0].0,
                Expression::Value { value: LiteralType::Number(1), .. }
            ));
            assert!(matches!(cases[0].1, FuncBody::Expression(_)));
            match def_case {
                FuncBody::Expression(e) => assert!(matches!(
                    e.as_ref(),
                    Expression::Value { value: LiteralType::Number(3), .. }
                )),
                b => panic!("expected an expression default body, got {:?}", b),
            }
        }
        s => panic!("expected a match statement, got {:?}", s),
    }
}

#[test]
fn invalid_assignment_target_raises_invalid_construct() {
    let d = parse_err(vec![
        num(1, "1"),
        tok(TokenType::Assign, "="),
        num(2, "2"),
        tok(TokenType::Semi, ";"),
    ]);
    assert_eq!(d.code, ErrorCode::InvalidConstruct);
}

#[test]
fn missing_number_payload_raises_malformed_literal() {
    let d = parse_err(vec![
        tok(TokenType::NumberLit, "1"),
        tok(TokenType::Semi, ";"),
    ]);
    assert_eq!(d.code, ErrorCode::MalformedLiteral);
}

#[test]
fn lowercase_enum_name_raises_uppercase_error() {
    let d = parse_err(vec![
        tok(TokenType::Enum, "enum"),
        ident("foo"),
        tok(TokenType::LeftBrace, "{"),
        tok(TokenType::RightBrace, "}"),
    ]);
    assert_eq!(d.code, ErrorCode::ExpectedUppercaseIdentifier);
}

#[test]
fn enum_declaration_collects_members() {
    let stmts = parse_ok(vec![
        tok(TokenType::Enum, "enum"),
        ident("Color"),
        tok(TokenType::LeftBrace, "{"),
        ident("Red"),
        tok(TokenType::Comma, ","),
        ident("Green"),
        tok(TokenType::RightBrace, "}"),
    ]);
    match &stmts[0] {
        Statement::Enum { name, enums, is_pub } => {
            assert_eq!(name.lexeme, "Color");
            assert_eq!(enums.iter().map(|t| t.lexeme.clone()).collect::<Vec<_>>(), [
                "Red", "Green"
            ]);
            assert!(!is_pub);
        }
        s => panic!("expected an enum declaration, got {:?}", s),
    }
}

#[test]
fn flat_binary_precedence_folds_left() {
    // All binary operators share one precedence class, left to right:
    // `1 + 2 * 3` is `(1 + 2) * 3`.
    let stmts = parse_ok(vec![
        num(1, "1"),
        tok(TokenType::Plus, "+"),
        num(2, "2"),
        tok(TokenType::Mult, "*"),
        num(3, "3"),
        tok(TokenType::Semi, ";"),
    ]);
    let expr = match &stmts[0] {
        Statement::Expression { expr } => expr,
        s => panic!("expected an expression statement, got {:?}", s),
    };
    match expr {
        Expression::Binary { left, operator, right, .. } => {
            assert_eq!(operator.token, TokenType::Mult);
            assert!(matches!(
                right.as_ref(),
                Expression::Value { value: LiteralType::Number(3), .. }
            ));
            match left.as_ref() {
                Expression::Binary { operator, .. } => {
                    assert_eq!(operator.token, TokenType::Plus)
                }
                e => panic!("expected the inner sum, got {:?}", e),
            }
        }
        e => panic!("expected a binary expression, got {:?}", e),
    }
}

#[test]
fn unary_binds_tighter_than_binary() {
    let stmts = parse_ok(vec![
        tok(TokenType::Not, "!"),
        ident("x"),
        tok(TokenType::Semi, ";"),
    ]);
    match &stmts[0] {
        Statement::Expression { expr: Expression::Unary { operator, left, .. } } => {
            assert_eq!(operator.token, TokenType::Not);
            assert!(matches!(left.as_ref(), Expression::Var { .. }));
        }
        s => panic!("expected a unary expression statement, got {:?}", s),
    }
}

#[test]
fn return_without_value_yields_null_literal() {
    let stmts = parse_ok(vec![tok(TokenType::Return, "return"), tok(TokenType::Semi, ";")]);
    match &stmts[0] {
        Statement::Return { expr } => assert!(matches!(
            expr,
            Expression::Value { value: LiteralType::Null, .. }
        )),
        s => panic!("expected a return statement, got {:?}", s),
    }
}

#[test]
fn mod_statement_keeps_path_lexeme() {
    let stmts = parse_ok(vec![
        tok(TokenType::Mod, "mod"),
        tok(TokenType::StringLit, "\"core\""),
        tok(TokenType::Semi, ";"),
    ]);
    match &stmts[0] {
        Statement::Mod { src } => assert_eq!(src, "\"core\""),
        s => panic!("expected a module declaration, got {:?}", s),
    }
}

#[test]
fn use_statement_with_alias_and_plain_name() {
    let stmts = parse_ok(vec![
        tok(TokenType::Use, "use"),
        ident("a"),
        tok(TokenType::As, "as"),
        ident("b"),
        tok(TokenType::Comma, ","),
        ident("c"),
        tok(TokenType::From, "from"),
        tok(TokenType::StringLit, "\"m\""),
        tok(TokenType::Semi, ";"),
    ]);
    match &stmts[0] {
        Statement::Use { src, names, all } => {
            assert_eq!(src, "\"m\"");
            assert!(!all);
            assert_eq!(names.len(), 2);
            assert_eq!(names[0].0.lexeme, "a");
            assert_eq!(names[0].1.as_ref().unwrap().lexeme, "b");
            assert_eq!(names[1].0.lexeme, "c");
            assert!(names[1].1.is_none());
        }
        s => panic!("expected a use declaration, got {:?}", s),
    }
}

#[test]
fn use_statement_wildcard() {
    let stmts = parse_ok(vec![
        tok(TokenType::Use, "use"),
        tok(TokenType::Mult, "*"),
        tok(TokenType::From, "from"),
        tok(TokenType::StringLit, "\"m\""),
        tok(TokenType::Semi, ";"),
    ]);
    match &stmts[0] {
        Statement::Use { names, all, .. } => {
            assert!(all);
            assert!(names.is_empty());
        }
        s => panic!("expected a use declaration, got {:?}", s),
    }
}

#[test]
fn func_declaration_expression_body_desugars_to_return() {
    let stmts = parse_ok(vec![
        tok(TokenType::Func, "func"),
        ident("f"),
        tok(TokenType::LeftParen, "("),
        ident("x"),
        tok(TokenType::Colon, ":"),
        tok(TokenType::NumberIdent, "number"),
        tok(TokenType::RightParen, ")"),
        tok(TokenType::Arrow, "->"),
        tok(TokenType::NumberIdent, "number"),
        tok(TokenType::Assign, "="),
        ident("x"),
        tok(TokenType::Semi, ";"),
    ]);
    match &stmts[0] {
        Statement::Func { name, params, body, is_async, is_pub, .. } => {
            assert_eq!(name.lexeme, "f");
            assert_eq!(params.len(), 1);
            assert_eq!(params[0].0.lexeme, "x");
            assert!(matches!(
                params[0].1.kind,
                Some(TypeKind::Var { .. })
            ));
            assert!(!is_async && !is_pub);
            match body {
                FuncBody::Statements(v) => {
                    assert_eq!(v.len(), 1);
                    assert!(matches!(v[0], Statement::Return { .. }));
                }
                b => panic!("expected a one-statement return block, got {:?}", b),
            }
        }
        s => panic!("expected a function declaration, got {:?}", s),
    }
}

#[test]
fn modifier_order_yields_identical_function_declarations() {
    // `pub async` and `async pub` grant the same flags and parse to
    // value-equal declarations.
    let rest = |mut v: Vec<Token>| -> Vec<Token> {
        v.extend(vec![
            ident("f"),
            tok(TokenType::LeftParen, "("),
            tok(TokenType::RightParen, ")"),
            tok(TokenType::Arrow, "->"),
            tok(TokenType::NumberIdent, "number"),
            tok(TokenType::Assign, "="),
            num(1, "1"),
            tok(TokenType::Semi, ";"),
        ]);
        v
    };
    let a = parse_ok(rest(vec![
        tok(TokenType::Func, "func"),
        tok(TokenType::Pub, "pub"),
        tok(TokenType::Async, "async"),
    ]));
    let b = parse_ok(rest(vec![
        tok(TokenType::Func, "func"),
        tok(TokenType::Async, "async"),
        tok(TokenType::Pub, "pub"),
    ]));
    assert_eq!(a, b);
    match &a[0] {
        Statement::Func { is_async, is_pub, .. } => assert!(*is_async && *is_pub),
        s => panic!("expected a function declaration, got {:?}", s),
    }
}

#[test]
fn if_statement_with_elif_and_else() {
    let stmts = parse_ok(vec![
        tok(TokenType::If, "if"),
        ident("x"),
        tok(TokenType::LeftBrace, "{"),
        tok(TokenType::RightBrace, "}"),
        tok(TokenType::ElseIf, "elif"),
        ident("y"),
        tok(TokenType::LeftBrace, "{"),
        tok(TokenType::RightBrace, "}"),
        tok(TokenType::Else, "else"),
        tok(TokenType::LeftBrace, "{"),
        tok(TokenType::RightBrace, "}"),
    ]);
    match &stmts[0] {
        Statement::If { cond, else_if_branches, else_branch, .. } => {
            assert!(matches!(cond, Expression::Var { .. }));
            assert_eq!(else_if_branches.len(), 1);
            assert!(matches!(else_if_branches[0].0, Expression::Var { .. }));
            assert!(else_branch.is_some());
        }
        s => panic!("expected an if statement, got {:?}", s),
    }
}

#[test]
fn token_type_display_strings() {
    assert_eq!(TokenType::Plus.to_string(), "+");
    assert_eq!(TokenType::Eof.to_string(), "end of file");
    assert_eq!(TokenType::Ident.to_string(), "identifier");
    assert_eq!(TokenType::NumberLit.to_string(), "number literal");
    assert_eq!(TokenType::ArrowBig.to_string(), "=>");
}

#[test]
fn unexpected_token_diagnostic_names_expected_display() {
    // `mod` must be followed by a string literal; the diagnostic carries the
    // display string of the expected category.
    let d = parse_err(vec![tok(TokenType::Mod, "mod"), num(1, "1")]);
    assert_eq!(d.code, ErrorCode::UnexpectedToken);
    assert_eq!(d.args, vec!["string literal".to_string()]);
}
