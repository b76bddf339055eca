use egbo::model::{ItemKey, ItemKind, Model, SourceFilePtr, SourceFiles, SourceLocation, Span, SpanTable};
use egbo::model_builder::add_file_to_model;
use egbo::model_json::{file_to_json, DumpOpts, Json};
use egbo::parser::Parser;
use egbo::peg_parser::PegParserImpl;

#[test]
fn json_pretty_printing() {
    let j = Json::Object(vec![
        ("a", Json::Num(-12)),
        ("b", Json::Array(vec![])),
        ("c", Json::Array(vec![Json::Bool(true), Json::Null])),
        ("d", Json::Object(vec![])),
    ]);
    assert_eq!(
        j.to_string(),
        "{\n  \"a\": -12,\n  \"b\": [],\n  \"c\": [\n    true,\n    null\n  ],\n  \"d\": {}\n}"
    );
}

#[test]
fn json_string_escapes() {
    let j = Json::Str("a\"b\\c\nd\re\tf".to_string());
    assert_eq!(j.to_string(), "\"a\\\"b\\\\c\\nd\\re\\tf\"");
    assert_eq!(Json::Num(i64::MIN).to_string(), "-9223372036854775808");
    assert_eq!(Json::Num(0).to_string(), "0");
}

#[test]
fn dump_options() {
    assert!(!DumpOpts::new().spans);
    assert!(!DumpOpts::default().spans);
    assert!(DumpOpts::with_spans().spans);
}

#[test]
fn source_files_reuse_the_counter() {
    let mut files = SourceFiles::new();
    let a = files.add("a.egbo".to_string());
    let b = files.add("b.egbo".to_string());
    // The counter is never advanced, so both files get the first id.
    assert_eq!(a.id(), 1);
    assert_eq!(b.id(), 1);
    assert_eq!(files.source_files.len(), 2);
}

#[test]
fn span_table_keeps_the_latest_location() {
    let mut t = SpanTable::new();
    let key = ItemKey { kind: ItemKind::File, id: 0 };
    let other = ItemKey { kind: ItemKind::TypeDecl, id: 0 };
    let loc = |s, e| SourceLocation { source_file: SourceFilePtr { id: 1 }, span: Span { start: s, end: e } };
    assert!(t.get(key).is_none());
    t.insert(key, loc(0, 3));
    t.insert(other, loc(4, 5));
    t.insert(key, loc(1, 2));
    let got = t.get(key).expect("recorded");
    assert_eq!((got.span.start, got.span.end), (1, 2));
    assert_eq!(t.get(other).expect("recorded").span.start, 4);
}

fn build(src: &str, m: &mut Model) -> egbo::model::ItemPtr<egbo::model::FileData> {
    let mut pp = PegParserImpl::new(src);
    let parsed = Parser::new().file(&mut pp).expect("parse failed");
    add_file_to_model(&"t.egbo".to_string(), &parsed, m)
}

#[test]
fn file_spans_cover_the_source() {
    let mut m = Model::new();
    let src = "let a = 1;\nlet b = 'x';\n";
    let file = build(src, &mut m);
    let f = m.item(file);
    let span = f.span().expect("file span");
    assert_eq!((span.span.start, span.span.end), (0, src.len()));
    assert_eq!(f.items().len(), 2);
}

#[test]
fn adding_a_second_file_keeps_the_first() {
    let mut m = Model::new();
    let first = build("let a = 1;", &mut m);
    let before = file_to_json(&m, first, &DumpOpts::with_spans()).to_string();
    let second = build("while (x) { y(); }", &mut m);
    assert_ne!(first.id, second.id);
    let after = file_to_json(&m, first, &DumpOpts::with_spans()).to_string();
    assert_eq!(before, after);
}

#[test]
fn dump_of_an_expression_tree() {
    let mut m = Model::new();
    let file = build("x = a.b(1, 'two')[0]!;", &mut m);
    let out = file_to_json(&m, file, &DumpOpts::default()).to_string();
    assert!(out.contains("\"kind\": \"BinaryExpression\""));
    assert!(out.contains("\"op\": \"Assign\""));
    assert!(out.contains("\"kind\": \"NonNullAssertExpression\""));
    assert!(out.contains("\"kind\": \"IndexAccessExpression\""));
    assert!(out.contains("\"kind\": \"FunctionCallExpression\""));
    assert!(out.contains("\"kind\": \"DotAccessExpression\""));
    assert!(out.contains("\"value\": \"two\""));
}

#[test]
fn dump_of_a_dangling_pointer_is_null() {
    let m = Model::new();
    let file = egbo::model::ItemPtr { kind: ItemKind::File, id: 3, _marker: std::marker::PhantomData };
    assert_eq!(file_to_json(&m, file, &DumpOpts::default()).to_string(), "null");
}

#[test]
fn json_control_characters_are_escaped_as_hex() {
    let j = Json::Str("a\u{8}b\u{1f}c\u{0}".to_string());
    assert_eq!(j.to_string(), "\"a\\u0008b\\u001fc\\u0000\"");
    assert_eq!(Json::Str(" ~\u{7f}".to_string()).to_string(), "\" ~\u{7f}\"");
}

#[test]
fn dump_holds_nested_operands() {
    let mut m = Model::new();
    let file = build("function add(a, b) { return a + b * c; }", &mut m);
    let out = file_to_json(&m, file, &DumpOpts::default()).to_string();
    assert!(out.contains("\"op\": \"Plus\""));
    assert!(out.contains("\"op\": \"Times\""));
    assert!(out.contains("\"name\": \"c\""));
    assert!(!out.contains("null,\n"));
}

#[test]
fn statement_spans_are_their_own_text() {
    let mut m = Model::new();
    let src = "let a = 1;\n  while (a) a = a - 1;\n";
    let file = build(src, &mut m);
    let f = m.item(file);
    let spans: Vec<(usize, usize)> = f
        .items()
        .into_iter()
        .map(|it| match it {
            egbo::model::FileItem::Statement(s) => {
                let l = s.span().expect("statement span");
                (l.span.start, l.span.end)
            }
            _ => panic!("expected a statement"),
        })
        .collect();
    assert_eq!(spans, vec![(0, 10), (13, 33)]);
    assert_eq!(&src[13..33], "while (a) a = a - 1;");
}

#[test]
fn nested_statement_spans_are_their_own_text() {
    let mut m = Model::new();
    let src = "if (a) { b; } else c;";
    let file = build(src, &mut m);
    let f = m.item(file);
    let items = f.items();
    let st = match &items[0] {
        egbo::model::FileItem::Statement(s) => s,
        _ => panic!("expected a statement"),
    };
    let iff = match st {
        egbo::model::Statement::If(x) => x,
        _ => panic!("expected an if statement"),
    };
    let t = &iff.if_true().span().expect("body span").span;
    assert_eq!(&src[t.start..t.end], "{ b; }");
    let e = &iff.if_false().expect("else").span().expect("else span").span;
    // The else branch covers the text of its clause, keyword included.
    assert_eq!(&src[e.start..e.end], " else c;");
    let inner = match iff.if_true() {
        egbo::model::Statement::Block(b) => b.stmts(),
        _ => panic!("expected a block"),
    };
    let b = &inner[0].span().expect("inner span").span;
    assert_eq!(&src[b.start..b.end], "b;");
}
