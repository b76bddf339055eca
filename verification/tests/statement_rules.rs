use egbo::ast;
use egbo::parser::Parser;
use egbo::peg_parser::PegParserImpl;

fn at(src: &str) -> PegParserImpl {
    PegParserImpl::new(src)
}

#[test]
fn file_takes_every_statement_up_to_the_end() {
    let mut p = at("let a = 1;\nwhile (a) { a = a - 1; }\n  ");
    let f = Parser::new().file(&mut p).expect("file");
    assert_eq!(f.value.items.len(), 2);
    assert_eq!((f.range.start, f.range.end), (0, 38));
    assert_eq!(p.pos(), 38);
}

#[test]
fn file_fails_and_backtracks_on_trailing_text() {
    let mut p = at("let a = 1;\n)");
    assert!(Parser::new().file(&mut p).is_none());
    assert_eq!(p.pos(), 0);
}

#[test]
fn statement_span_is_the_text_it_read() {
    let mut p = at("return x;  y");
    let s = Parser::new().statement(&mut p).expect("statement");
    assert!(matches!(s.value, ast::Statement::ReturnStatement(ref r) if r.exp.is_some()));
    assert_eq!((s.range.start, s.range.end), (0, 9));
    assert_eq!(p.pos(), 9);
    let mut p = at("return;");
    let s = Parser::new().statement(&mut p).expect("statement");
    assert!(matches!(s.value, ast::Statement::ReturnStatement(ref r) if r.exp.is_none()));
}

#[test]
fn if_statement_has_an_else_branch_only_when_one_follows() {
    let parser = Parser::new();
    let mut p = at("if (a) b; else c;");
    match parser.if_statement(&mut p).expect("if").value {
        ast::Statement::IfStatement(s) => assert!(s.if_false.is_some()),
        _ => panic!("expected an if statement"),
    }
    assert_eq!(p.pos(), 17);
    let mut p = at("if (a) b;\nfoo();");
    match parser.if_statement(&mut p).expect("if").value {
        ast::Statement::IfStatement(s) => assert!(s.if_false.is_none()),
        _ => panic!("expected an if statement"),
    }
    assert_eq!(p.pos(), 9);
    // The keyword is matched as text: `else` at the start of a longer word still opens the
    // branch.
    let mut p = at("if (a) b;\nelsewhere;");
    match parser.if_statement(&mut p).expect("if").value {
        ast::Statement::IfStatement(s) => assert!(s.if_false.is_some()),
        _ => panic!("expected an if statement"),
    }
    assert_eq!(p.pos(), 20);
}

#[test]
fn declarations_keep_keyword_name_and_initializer() {
    let parser = Parser::new();
    for (src, kw, name, has_init) in [
        ("let x = 1;", ast::LetOrConst::Let, "x", true),
        ("var y;", ast::LetOrConst::Let, "y", false),
        ("const z = a, b;", ast::LetOrConst::Const, "z", true),
    ] {
        let mut p = at(src);
        match parser.var_decl_statement(&mut p).expect("declaration").value {
            ast::Statement::VarDeclStatement(d) => {
                assert_eq!(d.let_or_const.value, kw);
                assert_eq!(d.name.value, name);
                assert_eq!(d.init.is_some(), has_init);
            }
            _ => panic!("expected a declaration"),
        }
        assert_eq!(p.pos(), src.len());
    }
}

#[test]
fn for_statement_parts_are_optional() {
    let parser = Parser::new();
    let mut p = at("for (;;) {}");
    match parser.for_statement(&mut p).expect("for").value {
        ast::Statement::ForStatement(s) => {
            assert!(s.init.is_none() && s.test.is_none() && s.advance.is_none());
        }
        _ => panic!("expected a for statement"),
    }
    let mut p = at("for (let i = 0; i < n; i = i + 1) x;");
    match parser.for_statement(&mut p).expect("for").value {
        ast::Statement::ForStatement(s) => {
            assert!(matches!(s.init.as_deref().map(|i| &i.value), Some(ast::ForInit::VarDecl(_))));
            assert!(s.test.is_some() && s.advance.is_some());
        }
        _ => panic!("expected a for statement"),
    }
    assert_eq!(p.pos(), 36);
}

#[test]
fn block_counts_its_statements_and_needs_its_brace() {
    let parser = Parser::new();
    let mut p = at("{ a; ; b }");
    match parser.block_statement(&mut p).expect("block").value {
        ast::Statement::BlockStatement(b) => assert_eq!(b.stmts.value.len(), 3),
        _ => panic!("expected a block"),
    }
    let mut p = at("{ a; ");
    assert!(parser.block_statement(&mut p).is_none());
    assert_eq!(p.pos(), 0);
}

#[test]
fn switch_items_are_labels_and_statements() {
    let mut p = at("switch (x) { case 1: a; default: b; }");
    match Parser::new().switch_statement(&mut p).expect("switch").value {
        ast::Statement::SwitchStatement(s) => {
            let kinds: Vec<&str> = s
                .items
                .value
                .iter()
                .map(|i| match i.value {
                    ast::SwitchItem::Case(_) => "case",
                    ast::SwitchItem::Default => "default",
                    ast::SwitchItem::Statement(_) => "statement",
                })
                .collect();
            assert_eq!(kinds, vec!["case", "statement", "default", "statement"]);
        }
        _ => panic!("expected a switch statement"),
    }
}

#[test]
fn function_declaration_names_and_arguments() {
    let mut p = at("function f(a, b,) { return a; }");
    match Parser::new().function_decl_statement(&mut p).expect("function").value {
        ast::Statement::FunctionDeclStatement(f) => {
            assert_eq!(f.name.value, "f");
            let names: Vec<&str> = f.args.value.iter().map(|a| a.value.name.value.as_str()).collect();
            assert_eq!(names, vec!["a", "b"]);
        }
        _ => panic!("expected a function declaration"),
    }
}

#[test]
fn binary_terms_keep_their_operators_in_order() {
    let mut p = at("a + b - c * d");
    match Parser::new().add_expression(&mut p).expect("sum").value {
        ast::Expression::BinaryExpression(b) => {
            let ops: Vec<ast::BinaryOp> = b.rest.iter().map(|t| t.value.op.value).collect();
            assert_eq!(ops, vec![ast::BinaryOp::Plus, ast::BinaryOp::Minus]);
            assert!(matches!(b.rest[1].value.exp.value, ast::Expression::BinaryExpression(_)));
        }
        _ => panic!("expected a binary expression"),
    }
    assert_eq!(p.pos(), 13);
    let mut p = at("x >>>= 2");
    match Parser::new().assignment_expression(&mut p).expect("assignment").value {
        ast::Expression::BinaryExpression(b) => {
            assert_eq!(b.rest.len(), 1);
            assert_eq!(b.rest[0].value.op.value, ast::BinaryOp::LogicalShiftRightAssign);
        }
        _ => panic!("expected a binary expression"),
    }
}

#[test]
fn unary_operators_are_kept_in_order() {
    let mut p = at("- !~x");
    match Parser::new().unary_expression(&mut p).expect("unary").value {
        ast::Expression::UnaryExpression(u) => {
            let ops: Vec<ast::UnaryOp> = u.ops.iter().map(|o| o.value).collect();
            assert_eq!(ops, vec![ast::UnaryOp::Minus, ast::UnaryOp::LogicalNot, ast::UnaryOp::BitwiseNot]);
        }
        _ => panic!("expected a unary expression"),
    }
    let mut p = at("x");
    assert!(matches!(
        Parser::new().unary_expression(&mut p).expect("operand").value,
        ast::Expression::IdentifierExpression(_)
    ));
}

#[test]
fn member_operations_are_kept_in_order() {
    let mut p = at("a . b(c)[0]!");
    match Parser::new().member_expression(&mut p).expect("member").value {
        ast::Expression::MemberExpression(m) => {
            assert!(matches!(m.first.value, ast::Expression::IdentifierExpression(_)));
            let kinds: Vec<String> = m
                .rest
                .iter()
                .map(|o| match &o.value {
                    ast::MemberOp::DotAccess(d) => format!(".{}", d.name.value),
                    ast::MemberOp::FunctionCall(_) => "call".to_string(),
                    ast::MemberOp::IndexAccess(_) => "index".to_string(),
                    ast::MemberOp::NonNullAssert => "!".to_string(),
                })
                .collect();
            assert_eq!(kinds, vec![".b", "call", "index", "!"]);
        }
        _ => panic!("expected a member expression"),
    }
    assert_eq!(p.pos(), 12);
    let mut p = at("a != b");
    assert!(matches!(
        Parser::new().member_expression(&mut p).expect("operand").value,
        ast::Expression::IdentifierExpression(_)
    ));
    assert_eq!(p.pos(), 1);
}

#[test]
fn comma_ternary_and_call_counts() {
    let parser = Parser::new();
    let mut p = at("a, b, c");
    match parser.expression(&mut p).expect("comma").value {
        ast::Expression::CommaExpression(c) => assert_eq!(c.exps.len(), 3),
        _ => panic!("expected a comma expression"),
    }
    let mut p = at("a ? b : c ? d : e");
    match parser.ternary_expression(&mut p).expect("ternary").value {
        ast::Expression::TernaryExpression(t) => assert_eq!(t.terms.len(), 2),
        _ => panic!("expected a ternary expression"),
    }
    let mut p = at("f(1, x + 2,)");
    match parser.member_expression(&mut p).expect("call").value {
        ast::Expression::MemberExpression(m) => match &m.rest[0].value {
            ast::MemberOp::FunctionCall(f) => assert_eq!(f.args.value.len(), 2),
            _ => panic!("expected a call"),
        },
        _ => panic!("expected a member expression"),
    }
    assert_eq!(p.pos(), 12);
}

#[test]
fn file_items_keep_the_shape_of_each_statement() {
    let mut p = at("let x = 1;\nif (a) { b; c; } else return;\nwhile (x) break;\n");
    let f = Parser::new().file(&mut p).expect("file").value;
    assert_eq!(f.items.len(), 3);
    match &f.items[0].value {
        ast::FileItem::Statement(ast::Statement::VarDeclStatement(d)) => assert_eq!(d.name.value, "x"),
        _ => panic!("expected a declaration"),
    }
    match &f.items[1].value {
        ast::FileItem::Statement(ast::Statement::IfStatement(s)) => {
            assert!(matches!(&s.if_true.value, ast::Statement::BlockStatement(b) if b.stmts.value.len() == 2));
            assert!(matches!(
                s.if_false.as_deref().map(|f| &f.value),
                Some(ast::Statement::ReturnStatement(r)) if r.exp.is_none()
            ));
        }
        _ => panic!("expected an if statement"),
    }
    match &f.items[2].value {
        ast::FileItem::Statement(ast::Statement::WhileStatement(w)) => {
            assert!(matches!(&w.stmt.value, ast::Statement::BreakStatement(b) if b.label.is_none()));
        }
        _ => panic!("expected a while statement"),
    }
}
