use tako::ast::{Arg, Info, LowerError, Node};
use tako::code::{pretty_print_block, Code};
use tako::codegen::CodeGenerator;
use tako::externs::{get_externs, native_argc, native_argv, native_concat, ExternError, Value};

fn path(xs: &[&str]) -> Vec<String> {
    xs.iter().map(|s| s.to_string()).collect()
}

fn at() -> Info {
    Info { line: 1, col: 2 }
}

fn sym(xs: &[&str]) -> Node {
    Node::Sym(path(xs))
}

fn call(callee: Node, args: Vec<Node>) -> Node {
    Node::Apply {
        info: at(),
        inner: Box::new(callee),
        args: args.into_iter().map(|value| Arg { value, params: None }).collect(),
    }
}

fn bin(op: &str, left: Node, right: Node) -> Node {
    Node::BinOp { info: at(), name: op.to_string(), left: Box::new(left), right: Box::new(right) }
}

fn lower(n: &Node) -> (Result<Code, LowerError>, CodeGenerator) {
    let mut g = CodeGenerator::new();
    let r = g.visit(n);
    (r, g)
}

fn lower_text(n: &Node) -> String {
    match lower(n).0 {
        Ok(c) => pretty_print_block(c, ""),
        Err(_) => panic!("lowering failed"),
    }
}

#[test]
fn print_hi_program() {
    let root = call(sym(&["print"]), vec![Node::Str("hi".to_string())]);
    let mut g = CodeGenerator::new();
    let (text, flags) = match g.visit_root(&root) {
        Ok(out) => out,
        Err(_) => panic!("lowering failed"),
    };
    assert_eq!(
        text,
        "#include <iostream>\n\nint main(int argc, char* argv[]) {\n  return std::cout << (\"hi\");\n}\n"
    );
    assert!(text.contains("#include <iostream>"));
    assert!(flags.is_empty());
}

#[test]
fn unused_binding_leaves_no_trace() {
    let unused = Node::Let {
        info: at(),
        path: path(&["unused"]),
        uses: Some(0),
        value: Box::new(Node::Int(5)),
        params: None,
    };
    let root = bin(";", unused, call(sym(&["print"]), vec![Node::Str("ok".to_string())]));
    let mut g = CodeGenerator::new();
    let (text, _) = match g.visit_root(&root) {
        Ok(out) => out,
        Err(_) => panic!("lowering failed"),
    };
    assert!(!text.contains("unused"));
    assert!(!text.contains('5'));
    assert!(text.contains("return std::cout << (\"ok\");"));
}

#[test]
fn dead_binding_with_complex_value_is_empty() {
    let value = bin("^", Node::Int(2), call(sym(&["print"]), vec![Node::Str("x".to_string())]));
    let dead = Node::Let { info: at(), path: path(&["m", "d"]), uses: Some(0), value: Box::new(value), params: None };
    let (r, g) = lower(&dead);
    assert!(matches!(r, Ok(Code::Empty)));
    assert!(!g.cmath && !g.iostream && g.flags.is_empty());
}

#[test]
fn power_uses_math_header_and_flag() {
    let n = bin("^", Node::Int(3), Node::Int(2));
    let (r, g) = lower(&n);
    match r {
        Ok(c) => assert_eq!(pretty_print_block(c, ""), "pow(3, 2)"),
        Err(_) => panic!("lowering failed"),
    }
    assert!(g.cmath);
    assert_eq!(g.flags, vec!["-lm".to_string()]);
    let mut g = CodeGenerator::new();
    let (text, flags) = match g.visit_root(&n) {
        Ok(out) => out,
        Err(_) => panic!("lowering failed"),
    };
    assert!(text.starts_with("#include <cmath>\n"));
    assert_eq!(flags, vec!["-lm".to_string()]);
}

#[test]
fn concat_coerces_to_text() {
    let n = bin("++", Node::Str("a".to_string()), Node::Int(1));
    let (r, g) = lower(&n);
    match r {
        Ok(c) => assert_eq!(pretty_print_block(c, ""), "(std::to_string(\"a\") + std::to_string(1))"),
        Err(_) => panic!("lowering failed"),
    }
    assert!(g.text);
    let mut g = CodeGenerator::new();
    let (text, _) = match g.visit_root(&n) {
        Ok(out) => out,
        Err(_) => panic!("lowering failed"),
    };
    assert!(text.starts_with("#include <string>\n#include <sstream>\n"));
}

#[test]
fn argv_with_text_index_is_type_mismatch() {
    let args = vec!["prog".to_string()];
    match native_argv(&args, Value::Str("0".to_string())) {
        Err(ExternError::TypeMismatch(msg, Value::Str(s))) => {
            assert_eq!(msg, "Expected index to be of type i32");
            assert_eq!(s, "0");
        }
        _ => panic!("expected a type mismatch"),
    }
    match native_argv(&args, Value::I32(0)) {
        Ok(s) => assert_eq!(s, "prog"),
        Err(_) => panic!("expected the argument"),
    }
    assert_eq!(native_argc(&args), 1);
}

#[test]
fn local_function_with_parameter() {
    let body = bin("+", sym(&["x"]), Node::Int(1));
    let f = Node::Let {
        info: at(),
        path: path(&["f"]),
        uses: Some(1),
        value: Box::new(body),
        params: Some(vec![path(&["x"])]),
    };
    assert_eq!(lower_text(&f), "const auto f = [&](const auto x) {  return (x + 1);};");
}

#[test]
fn binding_without_parameters_is_a_constant() {
    let b = Node::Let { info: at(), path: path(&["m", "y"]), uses: Some(2), value: Box::new(Node::Int(-3)), params: None };
    assert_eq!(lower_text(&b), "const auto m_y = -3;");
}

#[test]
fn literals_and_symbols() {
    assert_eq!(lower_text(&Node::Bool(true)), "1");
    assert_eq!(lower_text(&Node::Bool(false)), "0");
    assert_eq!(lower_text(&Node::Str("a\"b".to_string())), "\"a\\\"b\"");
    assert_eq!(lower_text(&sym(&["argc"])), "argc");
    assert_eq!(lower_text(&sym(&["argv"])), "([&argv](const int x){return argv[x];})");
    assert_eq!(lower_text(&sym(&["mod", "v"])), "mod_v");
    assert_eq!(lower_text(&Node::Lambda(Box::new(Node::Int(4)))), "4");
}

#[test]
fn unary_operators() {
    let un = |op: &str| Node::UnOp { info: at(), name: op.to_string(), inner: Box::new(sym(&["v"])) };
    assert_eq!(lower_text(&un("+")), "(v)");
    assert_eq!(lower_text(&un("-")), "-(v)");
    assert_eq!(lower_text(&un("!")), "!(v)");
    match lower(&un("~")).0 {
        Err(LowerError::UnknownPrefixOperator(op, info)) => {
            assert_eq!(op, "~");
            assert_eq!(info, at());
        }
        _ => panic!("expected an unknown prefix operator"),
    }
}

#[test]
fn binary_operators() {
    assert_eq!(lower_text(&bin("*", Node::Int(2), Node::Int(3))), "(2 * 3)");
    assert_eq!(lower_text(&bin("<=", Node::Int(2), Node::Int(3))), "(2 <= 3)");
    assert_eq!(lower_text(&bin("-|", sym(&["a"]), sym(&["b"]))), "if(a) a else if(b) b else throw 101;");
    assert_eq!(lower_text(&bin(";", sym(&["a"]), sym(&["b"]))), "{  a;b}");
    match lower(&bin("%", Node::Int(1), Node::Int(2))).0 {
        Err(LowerError::UnknownInfixOperator(op, _)) => assert_eq!(op, "%"),
        _ => panic!("expected an unknown infix operator"),
    }
}

#[test]
fn callback_argument_becomes_anonymous_function() {
    let cb = Arg { value: bin("*", sym(&["y"]), Node::Int(2)), params: Some(vec![path(&["y"])]) };
    let n = Node::Apply { info: at(), inner: Box::new(sym(&["map"])), args: vec![cb, Arg { value: Node::Int(7), params: None }] };
    assert_eq!(lower_text(&n), "map([&](const auto y){return (y * 2);}, 7)");
}

#[test]
fn failures_are_reported() {
    let e = Node::Error { info: at(), msg: "bad token".to_string() };
    match lower(&e).0 {
        Err(LowerError::FailedParse(msg, info)) => {
            assert_eq!(msg, "bad token");
            assert_eq!(info, at());
        }
        _ => panic!("expected a parse failure"),
    }
    let lost = Node::Let { info: at(), path: path(&["q"]), uses: None, value: Box::new(Node::Int(1)), params: None };
    match lower(&lost).0 {
        Err(LowerError::UnresolvedSymbol(p)) => assert_eq!(p, path(&["q"])),
        _ => panic!("expected an unresolved symbol"),
    }
    let block_callee = call(bin(";", sym(&["a"]), sym(&["b"])), vec![]);
    assert!(matches!(lower(&block_callee).0, Err(LowerError::CannotApply(_))));
    let mut g = CodeGenerator::new();
    assert!(matches!(g.visit_root(&e), Err(LowerError::FailedParse(_, _))));
}

#[test]
fn registry_entries() {
    let ex = get_externs();
    let names: Vec<&str> = ex.iter().map(|e| e.name.as_str()).collect();
    assert_eq!(names, vec!["print", "++", "^", "argc", "argv"]);
    assert_eq!(ex[2].cpp_flags, "-lm");
    assert_eq!(ex[2].operator, Some((90, true)));
    assert_eq!(ex[1].operator, Some((48, false)));
    assert_eq!(ex[1].cpp_arg_processor, "std::to_string");
    assert_eq!(ex[0].cpp_includes, "#include <iostream>");
}

#[test]
fn concat_builtin_uses_canonical_text() {
    assert_eq!(native_concat(&Value::Bool(true), &Value::I32(5)), "true5");
    assert_eq!(native_concat(&Value::Str("n=".to_string()), &Value::I32(-12)), "n=-12");
    assert_eq!(native_concat(&Value::Bool(false), &Value::Str("!".to_string())), "false!");
}
