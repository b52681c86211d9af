use tako::code::{pretty_print_block, Code, Wrap};
use tako::naming::{decimal_text, make_name};

fn strings(xs: &[&str]) -> Vec<String> {
    xs.iter().map(|s| s.to_string()).collect()
}

fn ret() -> Wrap {
    Wrap { before: "return ".to_string(), after: String::new(), statement: true }
}

#[test]
fn mangle_joins_segments_with_underscore() {
    assert_eq!(make_name(strings(&["a", "b", "c"])), "a_b_c");
    assert_eq!(make_name(strings(&["a", "b", "c"])), make_name(strings(&["a", "b", "c"])));
    assert_ne!(make_name(strings(&["a", "b"])), make_name(strings(&["b", "a"])));
    assert_ne!(make_name(strings(&["ab", "c"])), make_name(strings(&["a", "bc", "d"])));
    assert_eq!(make_name(strings(&["main"])), "main");
    assert_eq!(make_name(Vec::new()), "");
}

#[test]
fn mangle_collision_with_separator_in_segment() {
    assert_eq!(make_name(strings(&["a_b", "c"])), make_name(strings(&["a", "b_c"])));
}

#[test]
fn decimal_text_of_integers() {
    assert_eq!(decimal_text(0), "0");
    assert_eq!(decimal_text(42), "42");
    assert_eq!(decimal_text(-7), "-7");
    assert_eq!(decimal_text(i32::MAX), "2147483647");
    assert_eq!(decimal_text(i32::MIN), "-2147483648");
}

#[test]
fn sequence_with_empty_is_identity() {
    let x = Code::Expr("x".to_string());
    assert_eq!(pretty_print_block(Code::Empty.merge(x.duplicate()), ""), "x");
    assert_eq!(pretty_print_block(x.duplicate().merge(Code::Empty), ""), "x");
    let b = Code::Block(vec![Code::Statement("s".to_string()), Code::Expr("e".to_string())]);
    assert_eq!(pretty_print_block(Code::Empty.merge(b.duplicate()), ""), pretty_print_block(b.duplicate(), ""));
    assert_eq!(pretty_print_block(b.duplicate().merge(Code::Empty), ""), pretty_print_block(b, ""));
}

#[test]
fn sequence_two_expressions_demotes_the_first() {
    let r = Code::Expr("a".to_string()).merge(Code::Expr("b".to_string()));
    assert_eq!(pretty_print_block(r, ""), "{  a;b}");
}

#[test]
fn sequence_expression_before_block() {
    let right = Code::Block(vec![Code::Expr("b".to_string())]);
    let r = Code::Expr("a".to_string()).merge(right);
    assert_eq!(pretty_print_block(r, ""), "{  a;b}");
}

#[test]
fn sequence_block_before_expression_demotes_every_expression() {
    let left = Code::Block(vec![Code::Expr("a".to_string()), Code::Expr("b".to_string())]);
    let r = left.merge(Code::Expr("c".to_string()));
    assert_eq!(pretty_print_block(r, ""), "{  a;  b;c}");
}

#[test]
fn sequence_two_blocks_concatenates() {
    let left = Code::Block(vec![Code::Statement("a".to_string())]);
    let right = Code::Block(vec![Code::Statement("b".to_string()), Code::Expr("c".to_string())]);
    let r = left.merge(right);
    match &r {
        Code::Block(items) => assert_eq!(items.len(), 3),
        _ => panic!("expected a block"),
    }
    assert_eq!(pretty_print_block(r, "\n"), "{\n  a;\n  b;c\n}");
}

#[test]
fn sequence_renders_as_left_then_right() {
    let l = Code::Statement("x = 1".to_string());
    let r = Code::Expr("x".to_string());
    let text = pretty_print_block(l.duplicate().merge(r.duplicate()), "");
    assert_eq!(text, format!("{{{}{}}}", pretty_print_block(l, "  "), pretty_print_block(r, "  ")));
}

#[test]
fn retarget_changes_only_the_last_element() {
    let b = Code::Block(vec![
        Code::Statement("a()".to_string()),
        Code::Expr("b".to_string()),
        Code::Expr("c".to_string()),
    ]);
    let r = b.with_expr(&ret());
    assert_eq!(pretty_print_block(r, ""), "{  a();b  return c;}");
}

#[test]
fn retarget_leaves_statements_and_conditionals() {
    let s = Code::Statement("s".to_string()).with_expr(&ret());
    assert_eq!(pretty_print_block(s, ""), "s;");
    let i = Code::If {
        condition: Box::new(Code::Expr("c".to_string())),
        then_branch: Box::new(Code::Expr("t".to_string())),
        then_else: Box::new(Code::Expr("e".to_string())),
    };
    assert_eq!(pretty_print_block(i.with_expr(&ret()), ""), "if(c) t else e");
    assert!(matches!(Code::Empty.with_expr(&ret()), Code::Empty));
}

#[test]
fn retarget_reaches_into_function_bodies() {
    let f = Code::Func {
        name: "f".to_string(),
        args: vec!["const auto x".to_string()],
        return_type: "int".to_string(),
        body: Box::new(Code::Expr("x".to_string())),
        lambda: false,
    };
    assert_eq!(pretty_print_block(f.with_expr(&ret()), ""), "int f(const auto x) {  return x;}");
}

#[test]
fn render_each_kind() {
    assert_eq!(pretty_print_block(Code::Empty, "  "), "");
    assert_eq!(pretty_print_block(Code::Expr("1".to_string()), "  "), "1");
    assert_eq!(pretty_print_block(Code::Statement("f()".to_string()), "  "), "  f();");
    let lambda = Code::Func {
        name: "g".to_string(),
        args: vec!["const auto a".to_string(), "const auto b".to_string()],
        return_type: "int".to_string(),
        body: Box::new(Code::Block(vec![Code::Statement("return a".to_string())])),
        lambda: true,
    };
    assert_eq!(
        pretty_print_block(lambda, "\n"),
        "\nconst auto g = [&](const auto a, const auto b) {\n  return a;\n};"
    );
}
