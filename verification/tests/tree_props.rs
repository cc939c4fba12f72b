use descent::ast::CallType;
use descent::ast::Expression;
use descent::ast::FuncBody;
use descent::ast::LiteralType;
use descent::ast::Statement;
use descent::ast::TypeKind;
use descent::parser::Parser;
use descent::token::LiteralKind;
use descent::token::Token;
use descent::token::TokenType;

fn tok(t: TokenType, lex: &str) -> Token {
    Token { token: t, lexeme: lex.to_string(), value: None, line: 1, pos: (0, 0) }
}

fn num(value: i64, lex: &str) -> Token {
    Token {
        token: TokenType::NumberLit,
        lexeme: lex.to_string(),
        value: Some(LiteralKind::Number { value }),
        line: 1,
        pos: (0, 0),
    }
}

fn ident(name: &str) -> Token {
    tok(TokenType::Ident, name)
}

fn parse_ok(mut tokens: Vec<Token>) -> Vec<Statement> {
    tokens.push(tok(TokenType::Eof, ""));
    let mut p = Parser::new(tokens);
    p.parse().expect("parse should succeed")
}

fn expr_ids(e: &Expression, out: &mut Vec<usize>) {
    match e {
        Expression::Value { id, .. } => out.push(*id),
        Expression::Var { id, .. } => out.push(*id),
        Expression::Assign { id, value, .. } => {
            expr_ids(value, out);
            out.push(*id);
        }
        Expression::Binary { id, left, right, .. } => {
            expr_ids(left, out);
            expr_ids(right, out);
            out.push(*id);
        }
        Expression::Unary { id, left, .. } => {
            expr_ids(left, out);
            out.push(*id);
        }
        Expression::Call { id, name, args, .. } => {
            expr_ids(name, out);
            for a in args {
                expr_ids(a, out);
            }
            out.push(*id);
        }
        Expression::Method { id, left, args, .. } => {
            expr_ids(left, out);
            for a in args {
                expr_ids(a, out);
            }
            out.push(*id);
        }
        Expression::Func { id, body, .. } => {
            body_ids(body, out);
            out.push(*id);
        }
        Expression::Array { id, items } => {
            for i in items {
                expr_ids(i, out);
            }
            out.push(*id);
        }
        Expression::Grouping { id, expression } => {
            expr_ids(expression, out);
            out.push(*id);
        }
        Expression::Await { id, expr } => {
            expr_ids(expr, out);
            out.push(*id);
        }
    }
}

fn body_ids(b: &FuncBody, out: &mut Vec<usize>) {
    match b {
        FuncBody::Statements(v) => {
            for s in v {
                stmt_ids(s, out);
            }
        }
        FuncBody::Expression(e) => expr_ids(e, out),
    }
}

fn stmt_ids(s: &Statement, out: &mut Vec<usize>) {
    match s {
        Statement::Var { value, .. } => {
            if let Some(e) = value {
                expr_ids(e, out);
            }
        }
        Statement::Func { body, .. } => body_ids(body, out),
        Statement::If { cond, body, else_if_branches, else_branch } => {
            expr_ids(cond, out);
            for s in body {
                stmt_ids(s, out);
            }
            for (p, b) in else_if_branches {
                expr_ids(p, out);
                for s in b {
                    stmt_ids(s, out);
                }
            }
            if let Some(v) = else_branch {
                for s in v {
                    stmt_ids(s, out);
                }
            }
        }
        Statement::Return { expr } => expr_ids(expr, out),
        Statement::While { cond, body } => {
            expr_ids(cond, out);
            for s in body {
                stmt_ids(s, out);
            }
        }
        Statement::Loop { body, .. } => {
            for s in body {
                stmt_ids(s, out);
            }
        }
        Statement::Break => {}
        Statement::Match { cond, cases, def_case } => {
            expr_ids(cond, out);
            for (k, b) in cases {
                expr_ids(k, out);
                body_ids(b, out);
            }
            body_ids(def_case, out);
        }
        Statement::Mod { .. } => {}
        Statement::Use { .. } => {}
        Statement::Enum { .. } => {}
        Statement::Block { stmts } => {
            for s in stmts {
                stmt_ids(s, out);
            }
        }
        Statement::Expression { expr } => expr_ids(expr, out),
    }
}

fn sample_program() -> Vec<Token> {
    vec![
        tok(TokenType::Let, "let"),
        ident("x"),
        tok(TokenType::Colon, ":"),
        tok(TokenType::NumberIdent, "number"),
        tok(TokenType::Assign, "="),
        num(1, "1"),
        tok(TokenType::Plus, "+"),
        num(2, "2"),
        tok(TokenType::Semi, ";"),
        tok(TokenType::If, "if"),
        ident("x"),
        tok(TokenType::LeftBrace, "{"),
        tok(TokenType::Return, "return"),
        ident("x"),
        tok(TokenType::Semi, ";"),
        tok(TokenType::RightBrace, "}"),
        ident("a"),
        tok(TokenType::Dot, "."),
        ident("b"),
        tok(TokenType::LeftParen, "("),
        num(1, "1"),
        tok(TokenType::RightParen, ")"),
        tok(TokenType::Semi, ";"),
    ]
}

#[test]
fn reparsing_identical_tokens_yields_identical_trees() {
    // Fresh parsers over the same token sequence produce structurally
    // identical trees, identities included, since each run stamps a fresh
    // zero-based sequence.
    let a = parse_ok(sample_program());
    let b = parse_ok(sample_program());
    assert_eq!(a, b);
}

#[test]
fn node_identities_are_distinct_and_strictly_increasing() {
    // Every expression node carries one identity; in construction order the
    // identities are strictly increasing, hence pairwise distinct, and their
    // count equals the number of expression nodes.
    let stmts = parse_ok(sample_program());
    let mut ids: Vec<usize> = Vec::new();
    for s in &stmts {
        stmt_ids(s, &mut ids);
    }
    assert!(ids.len() >= 8);
    for w in ids.windows(2) {
        assert!(w[0] < w[1], "identities not strictly increasing: {:?}", ids);
    }
    let mut dedup = ids.clone();
    dedup.sort();
    dedup.dedup();
    assert_eq!(dedup.len(), ids.len());
}

#[test]
fn identities_start_at_zero_in_construction_order() {
    // `1 + 2;` stamps the operands before the node that wraps them.
    let stmts = parse_ok(vec![
        num(1, "1"),
        tok(TokenType::Plus, "+"),
        num(2, "2"),
        tok(TokenType::Semi, ";"),
    ]);
    let mut ids: Vec<usize> = Vec::new();
    stmt_ids(&stmts[0], &mut ids);
    assert_eq!(ids, vec![0, 1, 2]);
    match &stmts[0] {
        Statement::Expression { expr: Expression::Binary { id, .. } } => assert_eq!(*id, 2),
        s => panic!("expected a binary expression statement, got {:?}", s),
    }
}

#[test]
fn array_index_after_leading_identifier() {
    let stmts = parse_ok(vec![
        ident("x"),
        tok(TokenType::LeftBracket, "["),
        num(1, "1"),
        tok(TokenType::RightBracket, "]"),
        tok(TokenType::Semi, ";"),
    ]);
    match &stmts[0] {
        Statement::Expression { expr: Expression::Call { name, args, call_type, .. } } => {
            assert_eq!(*call_type, CallType::Array);
            assert!(matches!(name.as_ref(), Expression::Var { .. }));
            assert!(matches!(
                args[0],
                Expression::Value { value: LiteralType::Number(1), .. }
            ));
        }
        s => panic!("expected an array-index call, got {:?}", s),
    }
}

#[test]
fn enum_variant_access_uses_enum_call_kind() {
    let stmts = parse_ok(vec![
        ident("E"),
        tok(TokenType::DblColon, "::"),
        ident("V"),
        tok(TokenType::Semi, ";"),
    ]);
    match &stmts[0] {
        Statement::Expression { expr: Expression::Call { name, args, call_type, .. } } => {
            assert_eq!(*call_type, CallType::Enum);
            match name.as_ref() {
                Expression::Var { name, .. } => assert_eq!(name.lexeme, "E"),
                e => panic!("expected the enum name, got {:?}", e),
            }
            assert!(matches!(args[0], Expression::Var { .. }));
        }
        s => panic!("expected an enum-variant call, got {:?}", s),
    }
}

#[test]
fn function_call_collects_arguments() {
    let stmts = parse_ok(vec![
        ident("f"),
        tok(TokenType::LeftParen, "("),
        num(1, "1"),
        tok(TokenType::Comma, ","),
        num(2, "2"),
        tok(TokenType::RightParen, ")"),
        tok(TokenType::Semi, ";"),
    ]);
    match &stmts[0] {
        Statement::Expression { expr: Expression::Call { args, call_type, .. } } => {
            assert_eq!(*call_type, CallType::Func);
            assert_eq!(args.len(), 2);
        }
        s => panic!("expected a function call, got {:?}", s),
    }
}

#[test]
fn method_chain_continues_after_method_result() {
    let stmts = parse_ok(vec![
        ident("a"),
        tok(TokenType::Dot, "."),
        ident("b"),
        tok(TokenType::LeftParen, "("),
        tok(TokenType::RightParen, ")"),
        tok(TokenType::Dot, "."),
        ident("d"),
        tok(TokenType::LeftParen, "("),
        num(2, "2"),
        tok(TokenType::RightParen, ")"),
        tok(TokenType::Semi, ";"),
    ]);
    match &stmts[0] {
        Statement::Expression { expr: Expression::Method { name, left, args, .. } } => {
            assert_eq!(name.lexeme, "d");
            assert_eq!(args.len(), 1);
            match left.as_ref() {
                Expression::Method { name, .. } => assert_eq!(name.lexeme, "b"),
                e => panic!("expected the inner method call, got {:?}", e),
            }
        }
        s => panic!("expected a method chain, got {:?}", s),
    }
}

#[test]
fn struct_field_access_carries_field_name_as_string() {
    let stmts = parse_ok(vec![
        ident("a"),
        tok(TokenType::Dot, "."),
        ident("b"),
        tok(TokenType::Semi, ";"),
    ]);
    match &stmts[0] {
        Statement::Expression { expr: Expression::Call { name, args, call_type, .. } } => {
            assert_eq!(*call_type, CallType::Struct);
            assert!(matches!(name.as_ref(), Expression::Var { .. }));
            match &args[0] {
                Expression::Value { value: LiteralType::Str(s), .. } => assert_eq!(s, "b"),
                e => panic!("expected the field name as a string literal, got {:?}", e),
            }
        }
        s => panic!("expected a struct-field call, got {:?}", s),
    }
}

#[test]
fn match_case_keyed_by_uppercase_identifier() {
    let stmts = parse_ok(vec![
        tok(TokenType::Match, "match"),
        ident("x"),
        tok(TokenType::LeftBrace, "{"),
        ident("Some"),
        tok(TokenType::ArrowBig, "=>"),
        num(1, "1"),
        tok(TokenType::Comma, ","),
        tok(TokenType::RightBrace, "}"),
    ]);
    match &stmts[0] {
        Statement::Match { cases, .. } => {
            assert_eq!(cases.len(), 1);
            match &cases[0].0 {
                Expression::Var { name, .. } => assert_eq!(name.lexeme, "Some"),
                e => panic!("expected the tag expression, got {:?}", e),
            }
        }
        s => panic!("expected a match statement, got {:?}", s),
    }
}

#[test]
fn grouping_wraps_parenthesized_expression() {
    let stmts = parse_ok(vec![
        tok(TokenType::LeftParen, "("),
        num(1, "1"),
        tok(TokenType::RightParen, ")"),
        tok(TokenType::Semi, ";"),
    ]);
    match &stmts[0] {
        Statement::Expression { expr: Expression::Grouping { expression, .. } } => {
            assert!(matches!(
                expression.as_ref(),
                Expression::Value { value: LiteralType::Number(1), .. }
            ));
        }
        s => panic!("expected a grouping, got {:?}", s),
    }
}

#[test]
fn array_literal_collects_items() {
    let stmts = parse_ok(vec![
        tok(TokenType::LeftBracket, "["),
        num(1, "1"),
        tok(TokenType::Comma, ","),
        num(2, "2"),
        tok(TokenType::RightBracket, "]"),
        tok(TokenType::Semi, ";"),
    ]);
    match &stmts[0] {
        Statement::Expression { expr: Expression::Array { items, .. } } => {
            assert_eq!(items.len(), 2);
        }
        s => panic!("expected an array literal, got {:?}", s),
    }
}

#[test]
fn await_wraps_one_expression() {
    let stmts = parse_ok(vec![
        tok(TokenType::Await, "await"),
        ident("x"),
        tok(TokenType::Semi, ";"),
    ]);
    match &stmts[0] {
        Statement::Expression { expr: Expression::Await { expr, .. } } => {
            assert!(matches!(expr.as_ref(), Expression::Var { .. }));
        }
        s => panic!("expected an await expression, got {:?}", s),
    }
}

#[test]
fn function_literal_recovers_declaration_by_backward_lookahead() {
    // In `let f: number = |_| { };` the literal's declared type is found
    // three tokens back; the name lookahead reaches past the start of the
    // history and yields the end-of-input sentinel on line zero.
    let stmts = parse_ok(vec![
        tok(TokenType::Let, "let"),
        ident("f"),
        tok(TokenType::Colon, ":"),
        tok(TokenType::NumberIdent, "number"),
        tok(TokenType::Assign, "="),
        tok(TokenType::Pipe, "|"),
        tok(TokenType::Underscore, "_"),
        tok(TokenType::Pipe, "|"),
        tok(TokenType::LeftBrace, "{"),
        tok(TokenType::RightBrace, "}"),
        tok(TokenType::Semi, ";"),
    ]);
    match &stmts[0] {
        Statement::Var { value: Some(Expression::Func { name, value_type, params, is_pub, .. }), is_func, .. } => {
            assert!(is_func);
            assert_eq!(value_type.token, TokenType::NumberIdent);
            assert_eq!(name.token, TokenType::Eof);
            assert_eq!(name.line, 0);
            assert!(params.is_empty());
            assert!(!is_pub);
        }
        s => panic!("expected a function-valued declaration, got {:?}", s),
    }
}

#[test]
fn function_literal_with_typed_parameter() {
    let stmts = parse_ok(vec![
        tok(TokenType::Let, "let"),
        ident("g"),
        tok(TokenType::Colon, ":"),
        tok(TokenType::NumberIdent, "number"),
        tok(TokenType::Assign, "="),
        tok(TokenType::Pipe, "|"),
        ident("x"),
        tok(TokenType::Colon, ":"),
        tok(TokenType::NumberIdent, "number"),
        tok(TokenType::Pipe, "|"),
        tok(TokenType::LeftBrace, "{"),
        tok(TokenType::RightBrace, "}"),
        tok(TokenType::Semi, ";"),
    ]);
    match &stmts[0] {
        Statement::Var { value: Some(Expression::Func { params, .. }), .. } => {
            assert_eq!(params.len(), 1);
            assert_eq!(params[0].0.lexeme, "x");
            match &params[0].1.kind {
                Some(TypeKind::Var { name }) => assert_eq!(name.lexeme, "number"),
                k => panic!("expected a named parameter type, got {:?}", k),
            }
        }
        s => panic!("expected a function-valued declaration, got {:?}", s),
    }
}

#[test]
fn array_type_annotation_decodes_element() {
    let stmts = parse_ok(vec![
        tok(TokenType::Let, "let"),
        ident("a"),
        tok(TokenType::Colon, ":"),
        tok(TokenType::Less, "<"),
        tok(TokenType::NumberIdent, "number"),
        tok(TokenType::Greater, ">"),
        tok(TokenType::Assign, "="),
        num(1, "1"),
        tok(TokenType::Semi, ";"),
    ]);
    match &stmts[0] {
        Statement::Var { value_type, .. } => {
            assert_eq!(value_type.token.token, TokenType::ArrayIdent);
            match &value_type.kind {
                Some(TypeKind::Array { kind, statics }) => {
                    assert!(statics.is_none());
                    match kind.as_ref() {
                        TypeKind::Var { name } => assert_eq!(name.lexeme, "number"),
                        k => panic!("expected a named element type, got {:?}", k),
                    }
                }
                k => panic!("expected an array type, got {:?}", k),
            }
        }
        s => panic!("expected a variable declaration, got {:?}", s),
    }
}

#[test]
fn func_type_annotation_decodes_params_and_return() {
    let stmts = parse_ok(vec![
        tok(TokenType::Let, "let"),
        ident("f"),
        tok(TokenType::Colon, ":"),
        tok(TokenType::Pipe, "|"),
        tok(TokenType::NumberIdent, "number"),
        tok(TokenType::Pipe, "|"),
        tok(TokenType::BoolIdent, "bool"),
        tok(TokenType::Assign, "="),
        num(1, "1"),
        tok(TokenType::Semi, ";"),
    ]);
    match &stmts[0] {
        Statement::Var { value_type, .. } => {
            assert_eq!(value_type.token.token, TokenType::FuncIdent);
            match &value_type.kind {
                Some(TypeKind::Func { params, ret }) => {
                    assert_eq!(params.len(), 1);
                    match ret.as_ref() {
                        TypeKind::Var { name } => assert_eq!(name.lexeme, "bool"),
                        k => panic!("expected a named return type, got {:?}", k),
                    }
                }
                k => panic!("expected a function type, got {:?}", k),
            }
        }
        s => panic!("expected a variable declaration, got {:?}", s),
    }
}

#[test]
fn while_statement_keeps_condition_and_body() {
    let stmts = parse_ok(vec![
        tok(TokenType::While, "while"),
        ident("x"),
        tok(TokenType::LeftBrace, "{"),
        tok(TokenType::Break, "break"),
        tok(TokenType::Semi, ";"),
        tok(TokenType::RightBrace, "}"),
    ]);
    match &stmts[0] {
        Statement::While { cond, body } => {
            assert!(matches!(cond, Expression::Var { .. }));
            match &body[0] {
                Statement::Block { stmts } => assert_eq!(stmts[0], Statement::Break),
                s => panic!("expected the inner block, got {:?}", s),
            }
        }
        s => panic!("expected a while statement, got {:?}", s),
    }
}

#[test]
fn mut_declaration_sets_flag() {
    let stmts = parse_ok(vec![
        tok(TokenType::Let, "let"),
        tok(TokenType::Mut, "mut"),
        ident("x"),
        tok(TokenType::Semi, ";"),
    ]);
    match &stmts[0] {
        Statement::Var { is_mut, .. } => assert!(is_mut),
        s => panic!("expected a variable declaration, got {:?}", s),
    }
}

#[test]
fn multiple_bound_names_in_one_declaration() {
    let stmts = parse_ok(vec![
        tok(TokenType::Let, "let"),
        ident("x"),
        tok(TokenType::Comma, ","),
        ident("y"),
        tok(TokenType::Colon, ":"),
        tok(TokenType::NumberIdent, "number"),
        tok(TokenType::Assign, "="),
        num(1, "1"),
        tok(TokenType::Semi, ";"),
    ]);
    match &stmts[0] {
        Statement::Var { names, pub_names, .. } => {
            assert_eq!(names.iter().map(|t| t.lexeme.clone()).collect::<Vec<_>>(), ["x", "y"]);
            assert_eq!(pub_names.len(), 2);
        }
        s => panic!("expected a variable declaration, got {:?}", s),
    }
}

#[test]
fn assignment_to_variable_reference() {
    let stmts = parse_ok(vec![
        ident("x"),
        tok(TokenType::PlusEq, "+="),
        num(1, "1"),
        tok(TokenType::Semi, ";"),
    ]);
    match &stmts[0] {
        Statement::Expression { expr: Expression::Assign { name, kind, value, .. } } => {
            assert_eq!(name.lexeme, "x");
            assert_eq!(*kind, descent::ast::AssignKind::Plus);
            assert!(matches!(
                value.as_ref(),
                Expression::Value { value: LiteralType::Number(1), .. }
            ));
        }
        s => panic!("expected an assignment, got {:?}", s),
    }
}
