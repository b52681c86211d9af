use vstd::prelude::*;
use vstd::string::*;

use crate::code::text;
use crate::naming::{decimal, decimal_text};

verus! {

/// The declared type of a builtin.
#[derive(Debug, PartialEq, Eq)]
pub enum Type {
    /// A concrete type, by name.
    Value(String),
    Function { intros: Vec<Binding>, results: Vec<Binding>, arguments: Vec<Binding>, effects: Vec<String> },
    /// A reference to a type parameter.
    Variable(String),
}

/// A named type, as in an argument or result list.
#[derive(Debug, PartialEq, Eq)]
pub struct Binding {
    pub name: String,
    pub ty: Type,
}

pub enum TypeModel {
    Value(Seq<char>),
    Function {
        intros: Seq<(Seq<char>, TypeModel)>,
        results: Seq<(Seq<char>, TypeModel)>,
        arguments: Seq<(Seq<char>, TypeModel)>,
        effects: Seq<Seq<char>>,
    },
    Variable(Seq<char>),
}

impl Type {
    pub open spec fn view(&self) -> TypeModel
        decreases self,
    {
        match self {
            Type::Value(n) => TypeModel::Value(n@),
            Type::Variable(n) => TypeModel::Variable(n@),
            Type::Function { intros, results, arguments, effects } => TypeModel::Function {
                intros: Seq::new(
                    intros.len() as nat,
                    |i: int|
                        if 0 <= i < intros.len() {
                            (intros[i].name@, intros[i].ty.view())
                        } else {
                            (Seq::empty(), TypeModel::Value(Seq::empty()))
                        },
                ),
                results: Seq::new(
                    results.len() as nat,
                    |i: int|
                        if 0 <= i < results.len() {
                            (results[i].name@, results[i].ty.view())
                        } else {
                            (Seq::empty(), TypeModel::Value(Seq::empty()))
                        },
                ),
                arguments: Seq::new(
                    arguments.len() as nat,
                    |i: int|
                        if 0 <= i < arguments.len() {
                            (arguments[i].name@, arguments[i].ty.view())
                        } else {
                            (Seq::empty(), TypeModel::Value(Seq::empty()))
                        },
                ),
                effects: Seq::new(effects.len() as nat, |i: int| effects@[i]@),
            },
        }
    }
}

/// A builtin operation, with what code generation needs to emit it.
#[derive(Debug, PartialEq, Eq)]
pub struct Extern {
    pub name: String,
    /// Binding power and right associativity, where the builtin is an operator.
    pub operator: Option<(i32, bool)>,
    pub cpp_includes: String,
    pub cpp_code: String,
    pub cpp_arg_processor: String,
    pub cpp_flags: String,
    pub ty: Type,
}

pub struct ExternModel {
    pub name: Seq<char>,
    pub operator: Option<(i32, bool)>,
    pub cpp_includes: Seq<char>,
    pub cpp_code: Seq<char>,
    pub cpp_arg_processor: Seq<char>,
    pub cpp_flags: Seq<char>,
    pub ty: TypeModel,
}

impl Extern {
    pub open spec fn view(&self) -> ExternModel {
        ExternModel {
            name: self.name@,
            operator: self.operator,
            cpp_includes: self.cpp_includes@,
            cpp_code: self.cpp_code@,
            cpp_arg_processor: self.cpp_arg_processor@,
            cpp_flags: self.cpp_flags@,
            ty: self.ty@,
        }
    }
}

pub open spec fn unit_type() -> TypeModel {
    TypeModel::Value("Unit"@)
}

pub open spec fn str_type() -> TypeModel {
    TypeModel::Value("String"@)
}

pub open spec fn number_type() -> TypeModel {
    TypeModel::Value("Number"@)
}

pub open spec fn binary_type(constraint: Seq<char>, result: TypeModel) -> TypeModel {
    TypeModel::Function {
        intros: seq![("a"@, TypeModel::Variable(constraint)), ("b"@, TypeModel::Variable(constraint))],
        results: seq![("it"@, result)],
        arguments: seq![("left"@, TypeModel::Variable("a"@)), ("right"@, TypeModel::Variable("b"@))],
        effects: Seq::empty(),
    }
}

pub open spec fn coercion_header() -> Seq<char> {
    "#include <string>
#include <sstream>
namespace std{
template <typename T>
string to_string(const T& t){
    stringstream out;
    out << t;
    return out.str();
}
string to_string(const bool& t){
    return t ? \"true\" : \"false\";
}
}"@
}

/// The builtin registry, in order: print, `++`, `^`, argc, argv.
pub open spec fn registry() -> Seq<ExternModel> {
    seq![
        ExternModel {
            name: "print"@,
            operator: None,
            cpp_includes: "#include <iostream>"@,
            cpp_code: "std::cout << "@,
            cpp_arg_processor: ""@,
            cpp_flags: ""@,
            ty: TypeModel::Function {
                intros: Seq::empty(),
                results: seq![("it"@, unit_type())],
                arguments: seq![("it"@, str_type())],
                effects: seq!["stdio"@],
            },
        },
        ExternModel {
            name: "++"@,
            operator: Some((48i32, false)),
            cpp_includes: coercion_header(),
            cpp_code: "+"@,
            cpp_arg_processor: "std::to_string"@,
            cpp_flags: ""@,
            ty: binary_type("Display"@, str_type()),
        },
        ExternModel {
            name: "^"@,
            operator: Some((90i32, true)),
            cpp_includes: "#include <cmath>"@,
            cpp_code: "pow"@,
            cpp_arg_processor: ""@,
            cpp_flags: "-lm"@,
            ty: binary_type("Number"@, TypeModel::Variable("a"@)),
        },
        ExternModel {
            name: "argc"@,
            operator: None,
            cpp_includes: ""@,
            cpp_code: "argc"@,
            cpp_arg_processor: ""@,
            cpp_flags: ""@,
            ty: number_type(),
        },
        ExternModel {
            name: "argv"@,
            operator: None,
            cpp_includes: ""@,
            cpp_code: "([&argv](const int x){return argv[x];})"@,
            cpp_arg_processor: ""@,
            cpp_flags: ""@,
            ty: TypeModel::Function {
                intros: Seq::empty(),
                results: seq![("it"@, str_type())],
                arguments: seq![("it"@, number_type())],
                effects: Seq::empty(),
            },
        },
    ]
}

fn bind(name: &str, ty: Type) -> (r: Binding)
    ensures
        r.name@ == name@,
        r.ty@ == ty@,
{
    Binding { name: text(name), ty }
}

fn binary(constraint: &str, result: Type) -> (r: Type)
    ensures
        r@ == binary_type(constraint@, result@),
{
    let intros = vec![bind("a", Type::Variable(text(constraint))), bind("b", Type::Variable(text(constraint)))];
    let results = vec![bind("it", result)];
    let arguments = vec![bind("left", Type::Variable(text("a"))), bind("right", Type::Variable(text("b")))];
    let effects: Vec<String> = Vec::new();
    let r = Type::Function { intros, results, arguments, effects };
    assert(r@->Function_intros =~= binary_type(constraint@, result@)->Function_intros);
    assert(r@->Function_results =~= binary_type(constraint@, result@)->Function_results);
    assert(r@->Function_arguments =~= binary_type(constraint@, result@)->Function_arguments);
    assert(r@->Function_effects =~= Seq::<Seq<char>>::empty());
    r
}

fn unary(arg: Type, result: Type, effect: Option<&str>) -> (r: Type)
    ensures
        r@ == (TypeModel::Function {
            intros: Seq::empty(),
            results: seq![("it"@, result@)],
            arguments: seq![("it"@, arg@)],
            effects: match effect {
                Some(e) => seq![e@],
                None => Seq::empty(),
            },
        }),
{
    let intros: Vec<Binding> = Vec::new();
    let results = vec![bind("it", result)];
    let arguments = vec![bind("it", arg)];
    let mut effects: Vec<String> = Vec::new();
    match effect {
        Some(e) => effects.push(text(e)),
        None => {},
    }
    let r = Type::Function { intros, results, arguments, effects };
    assert(r@->Function_intros =~= Seq::<(Seq<char>, TypeModel)>::empty());
    assert(r@->Function_results =~= seq![("it"@, result@)]);
    assert(r@->Function_arguments =~= seq![("it"@, arg@)]);
    assert(r@->Function_effects =~= match effect {
        Some(e) => seq![e@],
        None => Seq::<Seq<char>>::empty(),
    });
    r
}

/// Builds the registry of builtins, one entry per name.
pub fn get_externs() -> (r: Vec<Extern>)
    ensures
        r@.len() == registry().len(),
        forall|i: int| 0 <= i < r@.len() ==> #[trigger] r@[i]@ == registry()[i],
{
    let print = Extern {
        name: text("print"),
        operator: None,
        cpp_includes: text("#include <iostream>"),
        cpp_code: text("std::cout << "),
        cpp_arg_processor: text(""),
        cpp_flags: text(""),
        ty: unary(Type::Value(text("String")), Type::Value(text("Unit")), Some("stdio")),
    };
    let concat = Extern {
        name: text("++"),
        operator: Some((48, false)),
        cpp_includes: text("#include <string>
#include <sstream>
namespace std{
template <typename T>
string to_string(const T& t){
    stringstream out;
    out << t;
    return out.str();
}
string to_string(const bool& t){
    return t ? \"true\" : \"false\";
}
}"),
        cpp_code: text("+"),
        cpp_arg_processor: text("std::to_string"),
        cpp_flags: text(""),
        ty: binary("Display", Type::Value(text("String"))),
    };
    let power = Extern {
        name: text("^"),
        operator: Some((90, true)),
        cpp_includes: text("#include <cmath>"),
        cpp_code: text("pow"),
        cpp_arg_processor: text(""),
        cpp_flags: text("-lm"),
        ty: binary("Number", Type::Variable(text("a"))),
    };
    let argc = Extern {
        name: text("argc"),
        operator: None,
        cpp_includes: text(""),
        cpp_code: text("argc"),
        cpp_arg_processor: text(""),
        cpp_flags: text(""),
        ty: Type::Value(text("Number")),
    };
    let argv = Extern {
        name: text("argv"),
        operator: None,
        cpp_includes: text(""),
        cpp_code: text("([&argv](const int x){return argv[x];})"),
        cpp_arg_processor: text(""),
        cpp_flags: text(""),
        ty: unary(Type::Value(text("Number")), Type::Value(text("String")), None),
    };
    let r = vec![print, concat, power, argc, argv];
    assert(r@[0]@ == registry()[0]);
    assert(r@[1]@ == registry()[1]);
    assert(r@[2]@ == registry()[2]);
    assert(r@[3]@ == registry()[3]);
    assert(r@[4]@ == registry()[4]);
    r
}


/// A value handed to or returned by a builtin when it is interpreted.
#[derive(Clone, Debug, PartialEq, Eq)]
pub enum Value {
    I32(i32),
    Bool(bool),
    Str(String),
}

/// Why a builtin could not be evaluated.
#[derive(Clone, Debug, PartialEq, Eq)]
pub enum ExternError {
    /// What was expected, and the value that came instead.
    TypeMismatch(String, Value),
}

/// The canonical text of a value: decimal numbers, `true`/`false`, text as it is.
pub open spec fn display(v: Value) -> Seq<char> {
    match v {
        Value::I32(n) => decimal(n as int),
        Value::Bool(b) => if b {
            "true"@
        } else {
            "false"@
        },
        Value::Str(s) => s@,
    }
}

pub fn display_text(v: &Value) -> (r: String)
    ensures
        r@ == display(*v),
{
    match v {
        Value::I32(n) => decimal_text(*n),
        Value::Bool(b) => if *b {
            text("true")
        } else {
            text("false")
        },
        Value::Str(s) => s.clone(),
    }
}

/// The `++` builtin: both operands as text, one after the other.
pub fn native_concat(left: &Value, right: &Value) -> (r: String)
    ensures
        r@ == display(*left) + display(*right),
{
    let mut r = display_text(left);
    let t = display_text(right);
    r.append(t.as_str());
    r
}

/// The `argc` builtin: how many arguments the interpreter was given.
pub fn native_argc(interpreter_args: &Vec<String>) -> (r: i32)
    requires
        interpreter_args@.len() <= i32::MAX,
    ensures
        r as int == interpreter_args@.len(),
{
    interpreter_args.len() as i32
}

pub open spec fn index_message() -> Seq<char> {
    "Expected index to be of type i32"@
}

/// The `argv` builtin: the interpreter argument at `index`, which must be an integer.
pub fn native_argv(interpreter_args: &Vec<String>, index: Value) -> (r: Result<String, ExternError>)
    requires
        index is I32 ==> 0 <= index->I32_0 < interpreter_args@.len(),
    ensures
        match index {
            Value::I32(i) => r is Ok && r->Ok_0@ == interpreter_args@[i as int]@,
            _ => r is Err && r->Err_0->TypeMismatch_0@ == index_message()
                && r->Err_0->TypeMismatch_1 == index,
        },
{
    match index {
        Value::I32(i) => Ok(interpreter_args[i as usize].clone()),
        value => Err(ExternError::TypeMismatch(text("Expected index to be of type i32"), value)),
    }
}

} // verus!
