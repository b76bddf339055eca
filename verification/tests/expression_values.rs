use egbo::ast;
use egbo::parser::Parser;
use egbo::peg_parser::PegParserImpl;

fn at(src: &str) -> PegParserImpl {
    PegParserImpl::new(src)
}

fn name(e: &ast::Expression) -> &str {
    match e {
        ast::Expression::IdentifierExpression(x) => x.name.as_str(),
        _ => panic!("expected an identifier"),
    }
}

fn int_value(e: &ast::Expression) -> u64 {
    match e {
        ast::Expression::IntLiteral(x) => x.value,
        _ => panic!("expected an integer literal"),
    }
}

#[test]
fn relational_operands_are_the_identifiers_around_the_operator() {
    let mut p = at("a <= b");
    let r = Parser::new().relational_expression(&mut p).expect("relational");
    assert_eq!((r.range.start, r.range.end), (0, 6));
    match r.value {
        ast::Expression::BinaryExpression(b) => {
            assert_eq!(name(&b.first.value), "a");
            assert_eq!(b.rest.len(), 1);
            assert_eq!(b.rest[0].value.op.value, ast::BinaryOp::LessThanOrEquals);
            assert_eq!(name(&b.rest[0].value.exp.value), "b");
        }
        _ => panic!("expected a binary expression"),
    }
    assert_eq!(p.pos(), 6);
}

#[test]
fn products_bind_tighter_than_sums() {
    let mut p = at("a + b * c");
    match Parser::new().add_expression(&mut p).expect("sum").value {
        ast::Expression::BinaryExpression(b) => {
            assert_eq!(name(&b.first.value), "a");
            assert_eq!(b.rest.len(), 1);
            assert_eq!(b.rest[0].value.op.value, ast::BinaryOp::Plus);
            match &b.rest[0].value.exp.value {
                ast::Expression::BinaryExpression(m) => {
                    assert_eq!(name(&m.first.value), "b");
                    assert_eq!(m.rest[0].value.op.value, ast::BinaryOp::Times);
                    assert_eq!(name(&m.rest[0].value.exp.value), "c");
                }
                _ => panic!("expected a product"),
            }
        }
        _ => panic!("expected a binary expression"),
    }
    assert_eq!(p.pos(), 9);
}

#[test]
fn ternary_terms_keep_their_tests_and_branches() {
    let mut p = at("a ? b : c ? d : e");
    match Parser::new().ternary_expression(&mut p).expect("ternary").value {
        ast::Expression::TernaryExpression(t) => {
            assert_eq!(t.terms.len(), 2);
            assert_eq!(name(&t.terms[0].value.test.value), "a");
            assert_eq!(name(&t.terms[0].value.if_true.value), "b");
            assert_eq!(name(&t.terms[1].value.test.value), "c");
            assert_eq!(name(&t.terms[1].value.if_true.value), "d");
            assert_eq!(name(&t.if_false.value), "e");
            assert_eq!((t.if_false.range.start, t.if_false.range.end), (16, 17));
        }
        _ => panic!("expected a ternary expression"),
    }
    assert_eq!(p.pos(), 17);
}

#[test]
fn comma_parts_are_kept_in_order() {
    let mut p = at("a, b");
    match Parser::new().comma_expression(&mut p).expect("comma").value {
        ast::Expression::CommaExpression(c) => {
            assert_eq!(c.exps.len(), 2);
            assert_eq!(name(&c.exps[0].value), "a");
            assert_eq!(name(&c.exps[1].value), "b");
            assert_eq!((c.exps[1].range.start, c.exps[1].range.end), (3, 4));
        }
        _ => panic!("expected a comma expression"),
    }
    assert_eq!(p.pos(), 4);
}

#[test]
fn unary_operand_follows_the_operators() {
    let mut p = at("-!a");
    match Parser::new().unary_expression(&mut p).expect("unary").value {
        ast::Expression::UnaryExpression(u) => {
            assert_eq!(u.ops.len(), 2);
            assert_eq!(u.ops[0].value, ast::UnaryOp::Minus);
            assert_eq!(u.ops[1].value, ast::UnaryOp::LogicalNot);
            assert_eq!(name(&u.exp.value), "a");
        }
        _ => panic!("expected a unary expression"),
    }
    assert_eq!(p.pos(), 3);
}

#[test]
fn member_operations_hold_their_arguments_and_index() {
    let mut p = at("a.b(c)[d]!");
    match Parser::new().member_expression(&mut p).expect("member").value {
        ast::Expression::MemberExpression(m) => {
            assert_eq!(name(&m.first.value), "a");
            assert_eq!(m.rest.len(), 4);
            match &m.rest[1].value {
                ast::MemberOp::FunctionCall(f) => {
                    assert_eq!(f.args.value.len(), 1);
                    assert_eq!(name(&f.args.value[0].value), "c");
                }
                _ => panic!("expected a call"),
            }
            match &m.rest[2].value {
                ast::MemberOp::IndexAccess(x) => assert_eq!(name(&x.exp.value), "d"),
                _ => panic!("expected an index access"),
            }
            assert!(matches!(m.rest[3].value, ast::MemberOp::NonNullAssert));
        }
        _ => panic!("expected a member expression"),
    }
    assert_eq!(p.pos(), 10);
}

#[test]
fn grouped_expression_is_the_inner_expression() {
    let mut p = at("(a + 1) * b");
    match Parser::new().mult_expression(&mut p).expect("product").value {
        ast::Expression::BinaryExpression(b) => {
            match &b.first.value {
                ast::Expression::BinaryExpression(s) => {
                    assert_eq!(name(&s.first.value), "a");
                    assert_eq!(int_value(&s.rest[0].value.exp.value), 1);
                }
                _ => panic!("expected the grouped sum"),
            }
            assert_eq!(name(&b.rest[0].value.exp.value), "b");
        }
        _ => panic!("expected a binary expression"),
    }
}

#[test]
fn if_statement_keeps_its_test_and_body_range() {
    let mut p = at("if (a) b; x");
    let r = Parser::new().if_statement(&mut p).expect("if");
    assert_eq!((r.range.start, r.range.end), (0, 9));
    match r.value {
        ast::Statement::IfStatement(s) => {
            assert_eq!(name(&s.test.value), "a");
            assert_eq!((s.if_true.range.start, s.if_true.range.end), (7, 9));
            match &s.if_true.value {
                ast::Statement::ExpressionStatement(e) => assert_eq!(name(&e.exp.value), "b"),
                _ => panic!("expected an expression statement"),
            }
            assert!(s.if_false.is_none());
        }
        _ => panic!("expected an if statement"),
    }
    assert_eq!(p.pos(), 9);
}

#[test]
fn switch_items_keep_their_kinds_and_order() {
    let mut p = at("switch (x) { case 1: a; default: b; }");
    match Parser::new().switch_statement(&mut p).expect("switch").value {
        ast::Statement::SwitchStatement(s) => {
            assert_eq!(name(&s.exp.value), "x");
            let items = &s.items.value;
            assert_eq!(items.len(), 4);
            match &items[0].value {
                ast::SwitchItem::Case(e) => assert_eq!(int_value(&e.value), 1),
                _ => panic!("expected a case label"),
            }
            match &items[1].value {
                ast::SwitchItem::Statement(st) => match &st.value {
                    ast::Statement::ExpressionStatement(e) => assert_eq!(name(&e.exp.value), "a"),
                    _ => panic!("expected an expression statement"),
                },
                _ => panic!("expected a statement"),
            }
            assert!(matches!(items[2].value, ast::SwitchItem::Default));
            assert!(matches!(items[3].value, ast::SwitchItem::Statement(_)));
        }
        _ => panic!("expected a switch statement"),
    }
    assert_eq!(p.pos(), 37);
}

#[test]
fn for_statement_body_range_and_parts() {
    let mut p = at("for (;;) x;");
    match Parser::new().for_statement(&mut p).expect("for").value {
        ast::Statement::ForStatement(s) => {
            assert!(s.init.is_none() && s.test.is_none() && s.advance.is_none());
            assert_eq!((s.stmt.range.start, s.stmt.range.end), (9, 11));
        }
        _ => panic!("expected a for statement"),
    }
    assert_eq!(p.pos(), 11);
    let mut p = at("for (i = 0; i < n; i = i + 1) {}");
    match Parser::new().for_statement(&mut p).expect("for").value {
        ast::Statement::ForStatement(s) => {
            match &s.init.expect("init").value {
                ast::ForInit::Expression(e) => match &e.value {
                    ast::Expression::BinaryExpression(b) => assert_eq!(name(&b.first.value), "i"),
                    _ => panic!("expected an assignment"),
                },
                _ => panic!("expected an expression"),
            }
            match &s.test.expect("test").value {
                ast::Expression::BinaryExpression(b) => {
                    assert_eq!(b.rest[0].value.op.value, ast::BinaryOp::LessThan);
                    assert_eq!(name(&b.rest[0].value.exp.value), "n");
                }
                _ => panic!("expected a comparison"),
            }
            assert!(s.advance.is_some());
        }
        _ => panic!("expected a for statement"),
    }
}

#[test]
fn function_declaration_name_and_body_ranges() {
    let mut p = at("function f(a, b,) {}");
    match Parser::new().function_decl_statement(&mut p).expect("function").value {
        ast::Statement::FunctionDeclStatement(f) => {
            assert_eq!(f.name.value, "f");
            assert_eq!((f.name.range.start, f.name.range.end), (9, 10));
            assert_eq!(f.args.value.len(), 2);
            assert_eq!((f.body.range.start, f.body.range.end), (18, 20));
        }
        _ => panic!("expected a function declaration"),
    }
    assert_eq!(p.pos(), 20);
}

fn rg(r: &egbo::peg_parser::ParsedRange) -> (usize, usize) {
    (r.start, r.end)
}

#[test]
fn binary_parts_have_their_ranges() {
    let mut p = at("a <= b");
    match Parser::new().relational_expression(&mut p).expect("relational").value {
        ast::Expression::BinaryExpression(b) => {
            assert_eq!(rg(&b.first.range), (0, 1));
            assert_eq!(rg(&b.rest[0].range), (2, 6));
            assert_eq!(rg(&b.rest[0].value.op.range), (2, 4));
            assert_eq!(rg(&b.rest[0].value.exp.range), (5, 6));
        }
        _ => panic!("expected a binary expression"),
    }
    let mut p = at("a + b * c");
    match Parser::new().add_expression(&mut p).expect("sum").value {
        ast::Expression::BinaryExpression(b) => {
            assert_eq!(rg(&b.rest[0].value.op.range), (2, 3));
            assert_eq!(rg(&b.rest[0].value.exp.range), (4, 9));
        }
        _ => panic!("expected a binary expression"),
    }
}

#[test]
fn unary_and_member_parts_have_their_ranges() {
    let mut p = at("-!a");
    match Parser::new().unary_expression(&mut p).expect("unary").value {
        ast::Expression::UnaryExpression(u) => {
            assert_eq!(rg(&u.ops[0].range), (0, 1));
            assert_eq!(rg(&u.ops[1].range), (1, 2));
            assert_eq!(rg(&u.exp.range), (2, 3));
        }
        _ => panic!("expected a unary expression"),
    }
    let mut p = at("a.b(c)[d]!");
    match Parser::new().member_expression(&mut p).expect("member").value {
        ast::Expression::MemberExpression(m) => {
            assert_eq!(rg(&m.first.range), (0, 1));
            let ranges: Vec<(usize, usize)> = m.rest.iter().map(|o| rg(&o.range)).collect();
            assert_eq!(ranges, vec![(1, 3), (3, 6), (6, 9), (9, 10)]);
            match &m.rest[0].value {
                ast::MemberOp::DotAccess(d) => assert_eq!(rg(&d.name.range), (2, 3)),
                _ => panic!("expected a dot access"),
            }
        }
        _ => panic!("expected a member expression"),
    }
}

#[test]
fn comma_and_ternary_parts_have_their_ranges() {
    let mut p = at("a, b");
    match Parser::new().comma_expression(&mut p).expect("comma").value {
        ast::Expression::CommaExpression(c) => {
            assert_eq!(rg(&c.exps[0].range), (0, 1));
            assert_eq!(rg(&c.exps[1].range), (3, 4));
        }
        _ => panic!("expected a comma expression"),
    }
    let mut p = at("a ? b : c");
    match Parser::new().ternary_expression(&mut p).expect("ternary").value {
        ast::Expression::TernaryExpression(t) => {
            assert_eq!(rg(&t.terms[0].range), (0, 8));
            assert_eq!(rg(&t.terms[0].value.test.range), (0, 1));
            assert_eq!(rg(&t.terms[0].value.if_true.range), (4, 5));
            assert_eq!(rg(&t.if_false.range), (8, 9));
        }
        _ => panic!("expected a ternary expression"),
    }
}

#[test]
fn block_statements_keep_their_values_and_ranges() {
    let mut p = at("function add(a, b) { return a + b; }");
    match Parser::new().function_decl_statement(&mut p).expect("function").value {
        ast::Statement::FunctionDeclStatement(f) => match &f.body.value {
            ast::Statement::BlockStatement(b) => {
                assert_eq!(b.stmts.value.len(), 1);
                assert_eq!(rg(&b.stmts.value[0].range), (21, 34));
                match &b.stmts.value[0].value {
                    ast::Statement::ReturnStatement(r) => match &r.exp.as_ref().expect("value").value {
                        ast::Expression::BinaryExpression(e) => {
                            assert_eq!(name(&e.first.value), "a");
                            assert_eq!(e.rest[0].value.op.value, ast::BinaryOp::Plus);
                        }
                        _ => panic!("expected a sum"),
                    },
                    _ => panic!("expected a return statement"),
                }
            }
            _ => panic!("expected a block"),
        },
        _ => panic!("expected a function declaration"),
    }
}

#[test]
fn else_branch_and_file_items_have_their_ranges() {
    let mut p = at("if (a) b; else c;");
    match Parser::new().if_statement(&mut p).expect("if").value {
        ast::Statement::IfStatement(s) => {
            assert_eq!(rg(&s.test.range), (4, 5));
            assert_eq!(rg(&s.if_false.as_ref().expect("else").range), (9, 17));
        }
        _ => panic!("expected an if statement"),
    }
    let mut p = at("let x = 1;\n  y;");
    let f = Parser::new().file(&mut p).expect("file");
    assert_eq!(rg(&f.value.items[0].range), (0, 10));
    assert_eq!(rg(&f.value.items[1].range), (13, 15));
}
