use vstd::prelude::*;
use vstd::string::*;

use crate::ast::{path_view, paths_view, Arg, ErrorModel, Info, LowerError, Node, Path};
use crate::code::{
    join, join_strings, pretty_print_block, render, retarget, sequence, strings_view, text, wrap_fn,
    Code, CodeModel, Wrap,
};
use crate::naming::{decimal, decimal_text, make_name, mangle};

verus! {

/// Which shared headers a lowered fragment needs.
pub struct Needs {
    pub iostream: bool,
    pub cmath: bool,
    pub text: bool,
}

pub open spec fn no_needs() -> Needs {
    Needs { iostream: false, cmath: false, text: false }
}

pub open spec fn both(a: Needs, b: Needs) -> Needs {
    Needs { iostream: a.iostream || b.iostream, cmath: a.cmath || b.cmath, text: a.text || b.text }
}

pub open spec fn print_text() -> Seq<char> {
    "std::cout << "@
}

pub open spec fn argv_text() -> Seq<char> {
    "([&argv](const int x){return argv[x];})"@
}

/// How a reference to the definition at `path` is written.
pub open spec fn sym_text(path: Seq<Seq<char>>) -> Seq<char> {
    let name = mangle(path);
    if name == "print"@ {
        print_text()
    } else if name == "argc"@ {
        "argc"@
    } else if name == "argv"@ {
        argv_text()
    } else {
        name
    }
}

pub open spec fn sym_needs(path: Seq<Seq<char>>) -> Needs {
    Needs { iostream: mangle(path) == "print"@, cmath: false, text: false }
}

/// A string literal of the target language for `s`: quoted, with escapes.
pub uninterp spec fn quoted(s: Seq<char>) -> Seq<char>;

pub open spec fn returning() -> spec_fn(Seq<char>) -> CodeModel {
    wrap_fn("return "@, Seq::empty(), true)
}

/// `before(e)` in place of the yielded value `e`.
pub open spec fn call1(before: Seq<char>, c: CodeModel) -> CodeModel {
    retarget(c, wrap_fn(before + "("@, ")"@, false))
}

/// `before(l mid r)` from the values `l` and `r` yielded by `left` and `right`.
pub open spec fn call2(
    before: Seq<char>,
    mid: Seq<char>,
    left: CodeModel,
    right: CodeModel,
) -> CodeModel {
    retarget(left, |l: Seq<char>| retarget(right, wrap_fn(before + "("@ + l + mid, ")"@, false)))
}

pub open spec fn const_params(ps: Seq<Seq<Seq<char>>>) -> Seq<Seq<char>> {
    Seq::new(ps.len(), |i: int| "const auto "@ + mangle(ps[i]))
}

pub open spec fn callback_params(ps: Seq<Seq<Seq<char>>>) -> Seq<Seq<char>> {
    Seq::new(ps.len(), |i: int| "const auto "@ + sym_text(ps[i]))
}

pub open spec fn params_need(ps: Seq<Seq<Seq<char>>>) -> Needs
    decreases ps.len(),
{
    if ps.len() == 0 {
        no_needs()
    } else {
        both(params_need(ps.subrange(0, ps.len() - 1)), sym_needs(ps[ps.len() - 1]))
    }
}

pub open spec fn text_coercion() -> Seq<char> {
    "#include <string>
#include <sstream>
namespace std{
template <typename T>
string to_string(const T& t){
  stringstream out;
  out << t;
  return out.str();
}
string to_string(const bool& t){
  return t ? \"true\" : \"false\";
}
}"@
}

pub type Lowered = Result<(CodeModel, Needs), ErrorModel>;

/// The fragment a node lowers to, and the headers it needs; or why it cannot be lowered.
pub open spec fn lower(n: Node) -> Lowered
    decreases n,
{
    match n {
        Node::Sym(p) => Ok((CodeModel::Expr(sym_text(path_view(p))), sym_needs(path_view(p)))),
        Node::Int(v) => Ok((CodeModel::Expr(decimal(v as int)), no_needs())),
        Node::Bool(b) => Ok((CodeModel::Expr(if b { "1"@ } else { "0"@ }), no_needs())),
        Node::Str(s) => Ok((CodeModel::Expr(quoted(s@)), no_needs())),
        Node::Lambda(inner) => lower(*inner),
        Node::Apply { info, inner, args } => match lower(*inner) {
            Err(e) => Err(e),
            Ok((callee, n1)) => match lower_args(args@) {
                Err(e) => Err(e),
                Ok((texts, n2)) => match callee {
                    CodeModel::Expr(e) => Ok(
                        (
                            CodeModel::Expr(e + "("@ + join(texts, ", "@) + ")"@),
                            both(n1, n2),
                        ),
                    ),
                    _ => Err(ErrorModel::CannotApply(info)),
                },
            },
        },
        Node::Let { info, path, uses, value, params } => match uses {
            None => Err(ErrorModel::UnresolvedSymbol(path_view(path))),
            Some(count) => if count == 0 {
                Ok((CodeModel::Empty, no_needs()))
            } else {
                match lower(*value) {
                    Err(e) => Err(e),
                    Ok((body, needs)) => match params {
                        Some(ps) => Ok(
                            (
                                CodeModel::Func {
                                    name: mangle(path_view(path)),
                                    args: const_params(paths_view(ps@)),
                                    return_type: "int"@,
                                    body: Box::new(retarget(body, returning())),
                                    lambda: true,
                                },
                                needs,
                            ),
                        ),
                        None => Ok(
                            (
                                retarget(
                                    body,
                                    wrap_fn(
                                        "const auto "@ + mangle(path_view(path)) + " = "@,
                                        Seq::empty(),
                                        true,
                                    ),
                                ),
                                needs,
                            ),
                        ),
                    },
                }
            },
        },
        Node::UnOp { info, name, inner } => match lower(*inner) {
            Err(e) => Err(e),
            Ok((code, needs)) => if name@ == "+"@ {
                Ok((call1(Seq::empty(), code), needs))
            } else if name@ == "-"@ {
                Ok((call1("-"@, code), needs))
            } else if name@ == "!"@ {
                Ok((call1("!"@, code), needs))
            } else {
                Err(ErrorModel::UnknownPrefixOperator(name@, info))
            },
        },
        Node::BinOp { info, name, left, right } => match lower(*left) {
            Err(e) => Err(e),
            Ok((l, n1)) => match lower(*right) {
                Err(e) => Err(e),
                Ok((r, n2)) => match lower_bin_op(info, name@, l, r) {
                    Ok((c, own)) => Ok((c, both(both(n1, n2), own))),
                    Err(e) => Err(e),
                },
            },
        },
        Node::Error { info, msg } => Err(ErrorModel::FailedParse(msg@, info)),
    }
}

pub open spec fn is_infix_arith(op: Seq<char>) -> bool {
    op == "*"@ || op == "+"@ || op == "/"@ || op == "-"@ || op == "=="@ || op == "!="@ || op
        == ">"@ || op == "<"@ || op == ">="@ || op == "<="@
}

/// The lowering of a binary operator applied to two lowered operands, with the
/// headers that the operator itself needs.
pub open spec fn lower_bin_op(info: Info, op: Seq<char>, l: CodeModel, r: CodeModel) -> Lowered {
    if is_infix_arith(op) {
        Ok((call2(Seq::empty(), " "@ + op + " "@, l, r), no_needs()))
    } else if op == "++"@ {
        Ok(
            (
                call2(
                    Seq::empty(),
                    " + "@,
                    call1("std::to_string"@, l),
                    call1("std::to_string"@, r),
                ),
                Needs { iostream: false, cmath: false, text: true },
            ),
        )
    } else if op == "^"@ {
        Ok((call2("pow"@, ", "@, l, r), Needs { iostream: false, cmath: true, text: false }))
    } else if op == "-|"@ {
        Ok(
            (
                CodeModel::If {
                    condition: Box::new(l),
                    then_branch: Box::new(l),
                    then_else: Box::new(
                        CodeModel::If {
                            condition: Box::new(r),
                            then_branch: Box::new(r),
                            then_else: Box::new(CodeModel::Statement("throw 101"@)),
                        },
                    ),
                },
                no_needs(),
            ),
        )
    } else if op == ";"@ {
        Ok((sequence(l, r), no_needs()))
    } else {
        Err(ErrorModel::UnknownInfixOperator(op, info))
    }
}

/// The text of one lowered argument of an application.
pub open spec fn lower_arg(a: Arg) -> Result<(Seq<char>, Needs), ErrorModel>
    decreases a,
{
    match lower(a.value) {
        Err(e) => Err(e),
        Ok((body, needs)) => match a.params {
            Some(ps) => Ok(
                (
                    "[&]("@ + join(callback_params(paths_view(ps@)), ", "@) + "){"@ + render(
                        retarget(body, returning()),
                        Seq::empty(),
                    ) + "}"@,
                    both(needs, params_need(paths_view(ps@))),
                ),
            ),
            None => Ok((render(body, Seq::empty()), needs)),
        },
    }
}

/// The texts of lowered arguments, in order; or the first failure.
pub open spec fn lower_args(args: Seq<Arg>) -> Result<(Seq<Seq<char>>, Needs), ErrorModel>
    decreases args,
{
    if args.len() == 0 {
        Ok((Seq::empty(), no_needs()))
    } else {
        match lower_args(args.subrange(0, args.len() - 1)) {
            Err(e) => Err(e),
            Ok((texts, n1)) => match lower_arg(args[args.len() - 1]) {
                Err(e) => Err(e),
                Ok((t, n2)) => Ok((texts.push(t), both(n1, n2))),
            },
        }
    }
}


/// Relies on `<str as Debug>::fmt`: the text as a double-quoted literal with escapes,
/// which depends on the text alone.
#[verifier::external_body]
fn quote(s: &String) -> (r: String)
    ensures
        r@ == quoted(s@),
{
    format!("{:?}", s)
}

fn same(s: &String, lit: &str) -> (r: bool)
    ensures
        r == (s@ == lit@),
{
    *s == String::from_str(lit)
}

pub open spec fn lowered_view(r: Result<Code, LowerError>) -> Result<CodeModel, ErrorModel> {
    match r {
        Ok(c) => Ok(c@),
        Err(e) => Err(e@),
    }
}

pub open spec fn code_of(l: Lowered) -> Result<CodeModel, ErrorModel> {
    match l {
        Ok((c, _)) => Ok(c),
        Err(e) => Err(e),
    }
}

/// Walks a module's syntax tree and lowers it to target-language code.
pub struct CodeGenerator {
    pub functions: Vec<Code>,
    pub iostream: bool,
    pub cmath: bool,
    pub text: bool,
    pub flags: Vec<String>,
}

impl CodeGenerator {
    pub open spec fn needs(&self) -> Needs {
        Needs { iostream: self.iostream, cmath: self.cmath, text: self.text }
    }

    /// The headers that the state records, once `n` has been added.
    pub open spec fn grown(&self, n: Needs) -> Needs {
        both(self.needs(), n)
    }

    pub open spec fn flags_view(&self) -> Seq<Seq<char>> {
        strings_view(self.flags@)
    }

    /// The link flags follow the headers: the math flag exactly when the math header is needed.
    pub open spec fn wf(&self) -> bool {
        &&& self.cmath ==> self.flags_view() == seq!["-lm"@]
        &&& !self.cmath ==> self.flags_view().len() == 0
        &&& forall|i: int| 0 <= i < self.functions@.len() ==> #[trigger] self.functions@[i]@ is Func
    }

    pub fn new() -> (r: CodeGenerator)
        ensures
            r.wf(),
            r.needs() == no_needs(),
            r.functions@.len() == 0,
    {
        let r = CodeGenerator {
            functions: Vec::new(),
            iostream: false,
            cmath: false,
            text: false,
            flags: Vec::new(),
        };
        assert(r.flags_view() =~= Seq::<Seq<char>>::empty());
        r
    }

    fn record(&mut self, n: Needs)
        requires
            old(self).wf(),
        ensures
            final(self).wf(),
            final(self).needs() == old(self).grown(n),
            final(self).functions == old(self).functions,
    {
        if n.iostream {
            self.iostream = true;
        }
        if n.text {
            self.text = true;
        }
        if n.cmath && !self.cmath {
            self.cmath = true;
            let flag = text("-lm");
            self.flags.push(flag);
            assert(self.flags_view() =~= seq!["-lm"@]);
        }
    }

    /// Wraps the value yielded by `inner` as `before(value)`.
    pub fn build_call1(&mut self, before: &str, inner: Code) -> (r: Code)
        ensures
            r@ == call1(before@, inner@),
            *final(self) == *old(self),
    {
        let mut open = text(before);
        open.append("(");
        let w = Wrap { before: open, after: text(")"), statement: false };
        inner.with_expr(&w)
    }

    /// Combines the values yielded by `left` and `right` as `before(left mid right)`.
    pub fn build_call2(&mut self, before: &str, mid: &str, left: Code, right: Code) -> (r: Code)
        ensures
            r@ == call2(before@, mid@, left@, right@),
            *final(self) == *old(self),
    {
        splice(left, before, mid, &right)
    }
}

/// Places the value of `right` beside that of `left`, in `left`'s tail.
fn splice(left: Code, before: &str, mid: &str, right: &Code) -> (r: Code)
    ensures
        r@ == call2(before@, mid@, left@, right@),
    decreases left,
{
    let ghost old_view = left@;
    match left {
        Code::Empty => Code::Empty,
        Code::Expr(left_expr) => {
            let mut open = text(before);
            open.append("(");
            open.append(left_expr.as_str());
            open.append(mid);
            let w = Wrap { before: open, after: text(")"), statement: false };
            right.duplicate().with_expr(&w)
        },
        Code::Block(mut statements) => {
            if statements.len() == 0 {
                return Code::Block(statements);
            }
            let ghost items = statements@;
            let last = statements.pop().unwrap();
            assert(last == items[items.len() - 1]);
            let new_last = splice(last, before, mid, right);
            statements.push(new_last);
            let r = Code::Block(statements);
            assert(r@->Block_0 =~= old_view->Block_0.update(
                items.len() - 1,
                call2(before@, mid@, old_view->Block_0.last(), right@),
            ));
            r
        },
        Code::Statement(line) => Code::Statement(line),
        Code::If { condition, then_branch, then_else } => Code::If {
            condition,
            then_branch,
            then_else,
        },
        Code::Func { name, args, body, lambda, return_type } => {
            let new_body = splice(*body, before, mid, right);
            Code::Func { name, args, body: Box::new(new_body), lambda, return_type }
        },
    }
}


/// The first failing argument decides the failure of the whole list.
proof fn lemma_args_error(s: Seq<Arg>, i: int, j: int)
    requires
        0 <= i < j <= s.len(),
        lower_args(s.subrange(0, i)) is Ok,
        lower_arg(s[i]) is Err,
    ensures
        lower_args(s.subrange(0, j)) == Err::<(Seq<Seq<char>>, Needs), ErrorModel>(
            lower_arg(s[i])->Err_0,
        ),
    decreases j,
{
    let t = s.subrange(0, j);
    assert(t.subrange(0, j - 1) =~= s.subrange(0, j - 1));
    if j > i + 1 {
        lemma_args_error(s, i, j - 1);
    }
}

/// One more successful argument extends the lowered prefix by its text.
proof fn lemma_args_step(s: Seq<Arg>, i: int, texts: Seq<Seq<char>>, acc: Needs)
    requires
        0 <= i < s.len(),
        lower_args(s.subrange(0, i)) == Ok::<(Seq<Seq<char>>, Needs), ErrorModel>((texts, acc)),
        lower_arg(s[i]) is Ok,
    ensures
        lower_args(s.subrange(0, i + 1)) == Ok::<(Seq<Seq<char>>, Needs), ErrorModel>(
            (texts.push(lower_arg(s[i])->Ok_0.0), both(acc, lower_arg(s[i])->Ok_0.1)),
        ),
{
    let next = s.subrange(0, i + 1);
    assert(next.subrange(0, i) =~= s.subrange(0, i));
    assert(next[i] == s[i]);
}

/// What a lowering step leaves behind: the result that `lower` gives for `n`, and,
/// on success, the headers that `n` needs added to those recorded before.
pub open spec fn visited(
    before: CodeGenerator,
    after: CodeGenerator,
    n: Node,
    r: Result<Code, LowerError>,
) -> bool {
    &&& after.wf()
    &&& after.functions == before.functions
    &&& lowered_view(r) == code_of(lower(n))
    &&& (lower(n) is Ok ==> after.needs() == before.grown(lower(n)->Ok_0.1))
}

fn copy_path(p: &Path) -> (r: Path)
    ensures
        path_view(r) == path_view(*p),
{
    let r = crate::code::copy_strings(p);
    assert(path_view(r) =~= path_view(*p));
    r
}

impl CodeGenerator {
    fn sym_code(&mut self, p: &Path) -> (r: Code)
        requires
            old(self).wf(),
        ensures
            final(self).wf(),
            final(self).functions == old(self).functions,
            r@ == CodeModel::Expr(sym_text(path_view(*p))),
            final(self).needs() == old(self).grown(sym_needs(path_view(*p))),
    {
        let name = make_name(copy_path(p));
        if same(&name, "print") {
            self.record(Needs { iostream: true, cmath: false, text: false });
            return Code::Expr(text("std::cout << "));
        }
        self.record(Needs { iostream: false, cmath: false, text: false });
        if same(&name, "argc") {
            return Code::Expr(text("argc"));
        }
        if same(&name, "argv") {
            return Code::Expr(text("([&argv](const int x){return argv[x];})"));
        }
        Code::Expr(name)
    }

    /// Lowers one node of the tree.
    pub fn visit(&mut self, n: &Node) -> (r: Result<Code, LowerError>)
        requires
            old(self).wf(),
        ensures
            visited(*old(self), *final(self), *n, r),
        decreases n, 1nat,
    {
        match n {
            Node::Sym(_) => self.visit_sym(n),
            Node::Int(_) => self.visit_prim(n),
            Node::Bool(_) => self.visit_prim(n),
            Node::Str(_) => self.visit_prim(n),
            Node::Lambda(_) => self.visit_prim(n),
            Node::Apply { .. } => self.visit_apply(n),
            Node::Let { .. } => self.visit_let(n),
            Node::UnOp { .. } => self.visit_un_op(n),
            Node::BinOp { .. } => self.visit_bin_op(n),
            Node::Error { .. } => self.handle_error(n),
        }
    }

    /// A symbol reference: its mangled definition path, or a builtin's own text.
    pub fn visit_sym(&mut self, n: &Node) -> (r: Result<Code, LowerError>)
        requires
            old(self).wf(),
            n is Sym,
        ensures
            visited(*old(self), *final(self), *n, r),
        decreases n, 0nat,
    {
        match n {
            Node::Sym(p) => Ok(self.sym_code(p)),
            _ => vstd::pervasive::unreached(),
        }
    }

    /// A literal: decimal integers, `1`/`0` for booleans, quoted strings; a
    /// wrapped function value is lowered as that value.
    pub fn visit_prim(&mut self, n: &Node) -> (r: Result<Code, LowerError>)
        requires
            old(self).wf(),
            n is Int || n is Bool || n is Str || n is Lambda,
        ensures
            visited(*old(self), *final(self), *n, r),
        decreases n, 0nat,
    {
        proof {
            reveal_strlit("1");
            reveal_strlit("0");
        }
        match n {
            Node::Int(v) => Ok(Code::Expr(decimal_text(*v))),
            Node::Bool(b) => Ok(Code::Expr(if *b { text("1") } else { text("0") })),
            Node::Str(s) => Ok(Code::Expr(quote(s))),
            Node::Lambda(inner) => self.visit(inner),
            _ => vstd::pervasive::unreached(),
        }
    }

    /// An error node that reached code generation: always a failure.
    pub fn handle_error(&mut self, n: &Node) -> (r: Result<Code, LowerError>)
        requires
            old(self).wf(),
            n is Error,
        ensures
            visited(*old(self), *final(self), *n, r),
            *final(self) == *old(self),
        decreases n, 0nat,
    {
        match n {
            Node::Error { info, msg } => Err(LowerError::FailedParse(msg.clone(), *info)),
            _ => vstd::pervasive::unreached(),
        }
    }
}


impl CodeGenerator {
    fn lower_one_arg(&mut self, a: &Arg) -> (r: Result<String, LowerError>)
        requires
            old(self).wf(),
        ensures
            final(self).wf(),
            final(self).functions == old(self).functions,
            match lower_arg(*a) {
                Ok((t, needs)) => r is Ok && r->Ok_0@ == t && final(self).needs() == old(self).grown(needs),
                Err(e) => r is Err && r->Err_0@ == e,
            },
        decreases a, 0nat,
    {
        proof {
            reveal_strlit("");
            assert(""@ =~= Seq::<char>::empty());
        }
        let body = match self.visit(&a.value) {
            Ok(c) => c,
            Err(e) => return Err(e),
        };
        let ghost before_params = *self;
        match &a.params {
            Some(ps) => {
                let w = Wrap { before: text("return "), after: String::new(), statement: true };
                let inner_body = body.with_expr(&w);
                let rendered = pretty_print_block(inner_body, "");
                let mut arg_names: Vec<String> = Vec::new();
                let mut k: usize = 0;
                while k < ps.len()
                    invariant
                        k <= ps@.len(),
                        self.wf(),
                        self.functions == before_params.functions,
                        arg_names@.len() == k,
                        forall|j: int|
                0 <= j < k ==> #[trigger] arg_names@[j]@ == "const auto "@
                    + sym_text(path_view(ps@[j])),
                        self.needs() == before_params.grown(
                params_need(paths_view(ps@.subrange(0, k as int))),
                        ),
                    decreases ps@.len() - k,
                {
                    let c = self.sym_code(&ps[k]);
                    let mut decl = text("const auto ");
                    let shown = pretty_print_block(c, "");
                    decl.append(shown.as_str());
                    arg_names.push(decl);
                    proof {
                        let pv = paths_view(ps@.subrange(0, k + 1));
                        let pv0 = paths_view(ps@.subrange(0, k as int));
                        assert(pv[k as int] == path_view(ps@[k as int]));
                        assert(pv.subrange(0, k as int) =~= pv0);
                    }
                    k = k + 1;
                }
                proof {
                    assert(ps@.subrange(0, ps@.len() as int) =~= ps@);
                    assert(strings_view(arg_names@) =~= callback_params(paths_view(ps@)));
                }
                let names = join_strings(&arg_names, ", ");
                let mut t = text("[&](");
                t.append(names.as_str());
                t.append("){");
                t.append(rendered.as_str());
                t.append("}");
                proof {
                    reveal_strlit("");
                }
                Ok(t)
            },
            None => {
                proof {
                    reveal_strlit("");
                }
                Ok(pretty_print_block(body, ""))
            },
        }
    }

    /// An application: `callee(args)`, where an argument with parameters becomes a
    /// capturing anonymous function that returns its body's value.
    #[verifier::rlimit(40)]
    pub fn visit_apply(&mut self, n: &Node) -> (r: Result<Code, LowerError>)
        requires
            old(self).wf(),
            n is Apply,
        ensures
            visited(*old(self), *final(self), *n, r),
        decreases n, 0nat,
    {
        let ghost start = *self;
        match n {
            Node::Apply { info, inner, args } => {
                let val = match self.visit(inner) {
                    Ok(c) => c,
                    Err(e) => return Err(e),
                };
                let ghost mid_state = *self;
                let ghost n1 = lower(**inner)->Ok_0.1;
                let mut arg_exprs: Vec<String> = Vec::new();
                let ghost mut acc = no_needs();
                let mut i: usize = 0;
                proof {
                    assert(args@.subrange(0, 0) =~= Seq::<Arg>::empty());
                    assert(strings_view(arg_exprs@) =~= Seq::<Seq<char>>::empty());
                }
                while i < args.len()
                    invariant
                        *n == (Node::Apply { info: *info, inner: *inner, args: *args }),
                        i <= args@.len(),
                        self.wf(),
                        start == *old(self),
                        self.functions == start.functions,
                        lower(**inner) is Ok,
                        mid_state.needs() == start.grown(n1),
                        lower_args(args@.subrange(0, i as int)) == Ok::<
                            (Seq<Seq<char>>, Needs),
                            ErrorModel,
                        >((strings_view(arg_exprs@), acc)),
                        self.needs() == mid_state.grown(acc),
                    decreases args@.len() - i,
                {
                    let a = &args[i];
                    proof {
                        assert(decreases_to!(*n => n->args));
                        assert(decreases_to!(*args => args[i as int]));
                        let next = args@.subrange(0, i + 1);
                        assert(next.subrange(0, i as int) =~= args@.subrange(0, i as int));
                        assert(next[i as int] == args@[i as int]);
                    }
                    let arg_expr = match self.lower_one_arg(a) {
                        Ok(t) => t,
                        Err(e) => {
                            proof {
                                lemma_args_error(args@, i as int, args@.len() as int);
                                assert(args@.subrange(0, args@.len() as int) =~= args@);
                                assert(lower(*n) == Err::<(CodeModel, Needs), ErrorModel>(e@));
                            }
                            return Err(e);
                        },
                    };
                    let ghost old_texts = strings_view(arg_exprs@);
                    let ghost old_acc = acc;
                    proof {
                        acc = both(acc, lower_arg(args@[i as int])->Ok_0.1);
                    }
                    arg_exprs.push(arg_expr);
                    proof {
                        assert(strings_view(arg_exprs@) =~= old_texts.push(arg_expr@));
                        lemma_args_step(args@, i as int, old_texts, old_acc);
                    }
                    i = i + 1;
                }
                proof {
                    assert(args@.subrange(0, args@.len() as int) =~= args@);
                }
                let arg_str = join_strings(&arg_exprs, ", ");
                match val {
                    Code::Expr(expr) => {
                        let mut with_args = expr;
                        with_args.append("(");
                        with_args.append(arg_str.as_str());
                        with_args.append(")");
                        Ok(Code::Expr(with_args))
                    },
                    _ => Err(LowerError::CannotApply(*info)),
                }
            },
            _ => vstd::pervasive::unreached(),
        }
    }
}


impl CodeGenerator {
    /// A binding: nothing when it has no recorded use; a local capturing function
    /// when it declares parameters; else a constant bound to its value.
    pub fn visit_let(&mut self, n: &Node) -> (r: Result<Code, LowerError>)
        requires
            old(self).wf(),
            n is Let,
        ensures
            visited(*old(self), *final(self), *n, r),
        decreases n, 0nat,
    {
        match n {
            Node::Let { info, path, uses, value, params } => {
                let count = match uses {
                    None => return Err(LowerError::UnresolvedSymbol(copy_path(path))),
                    Some(c) => *c,
                };
                if count == 0 {
                    return Ok(Code::Empty);
                }
                let name = make_name(copy_path(path));
                let body = match self.visit(value) {
                    Ok(c) => c,
                    Err(e) => return Err(e),
                };
                match params {
                    Some(ps) => {
                        let w = Wrap { before: text("return "), after: String::new(), statement: true };
                        let body = body.with_expr(&w);
                        let mut args: Vec<String> = Vec::new();
                        let mut k: usize = 0;
                        while k < ps.len()
                            invariant
                                k <= ps@.len(),
                                args@.len() == k,
                                forall|j: int|
                                    0 <= j < k ==> #[trigger] args@[j]@ == "const auto "@ + mangle(
                                        path_view(ps@[j]),
                                    ),
                            decreases ps@.len() - k,
                        {
                            let mut decl = text("const auto ");
                            let param_name = make_name(copy_path(&ps[k]));
                            decl.append(param_name.as_str());
                            args.push(decl);
                            k = k + 1;
                        }
                        assert(strings_view(args@) =~= const_params(paths_view(ps@)));
                        Ok(
                            Code::Func {
                                name,
                                args,
                                return_type: text("int"),
                                body: Box::new(body),
                                lambda: true,
                            },
                        )
                    },
                    None => {
                        let mut open = text("const auto ");
                        open.append(name.as_str());
                        open.append(" = ");
                        let w = Wrap { before: open, after: String::new(), statement: true };
                        Ok(body.with_expr(&w))
                    },
                }
            },
            _ => vstd::pervasive::unreached(),
        }
    }

    /// A prefix operator: `+` keeps the value, `-` negates it, `!` inverts it.
    pub fn visit_un_op(&mut self, n: &Node) -> (r: Result<Code, LowerError>)
        requires
            old(self).wf(),
            n is UnOp,
        ensures
            visited(*old(self), *final(self), *n, r),
        decreases n, 0nat,
    {
        match n {
            Node::UnOp { info, name, inner } => {
                let code = match self.visit(inner) {
                    Ok(c) => c,
                    Err(e) => return Err(e),
                };
                proof {
                    reveal_strlit("");
                }
                if same(name, "+") {
                    Ok(self.build_call1("", code))
                } else if same(name, "-") {
                    Ok(self.build_call1("-", code))
                } else if same(name, "!") {
                    Ok(self.build_call1("!", code))
                } else {
                    Err(LowerError::UnknownPrefixOperator(name.clone(), *info))
                }
            },
            _ => vstd::pervasive::unreached(),
        }
    }

    fn is_infix_arith(name: &String) -> (r: bool)
        ensures
            r == is_infix_arith(name@),
    {
        same(name, "*") || same(name, "+") || same(name, "/") || same(name, "-") || same(name, "==")
            || same(name, "!=") || same(name, ">") || same(name, "<") || same(name, ">=") || same(
            name,
            "<=",
        )
    }

    /// A binary operator on the two lowered operands.
    pub fn visit_bin_op(&mut self, n: &Node) -> (r: Result<Code, LowerError>)
        requires
            old(self).wf(),
            n is BinOp,
        ensures
            visited(*old(self), *final(self), *n, r),
        decreases n, 0nat,
    {
        match n {
            Node::BinOp { info, name, left, right } => {
                let l = match self.visit(left) {
                    Ok(c) => c,
                    Err(e) => return Err(e),
                };
                let r = match self.visit(right) {
                    Ok(c) => c,
                    Err(e) => return Err(e),
                };

                self.bin_op_code(*info, name, l, r)
            },
            _ => vstd::pervasive::unreached(),
        }
    }

    fn bin_op_code(&mut self, info: Info, name: &String, l: Code, r: Code) -> (res: Result<
        Code,
        LowerError,
    >)
        requires
            old(self).wf(),
        ensures
            final(self).wf(),
            final(self).functions == old(self).functions,
            match lower_bin_op(info, name@, l@, r@) {
                Ok((c, own)) => res is Ok && res->Ok_0@ == c && final(self).needs()
                    == old(self).grown(own),
                Err(e) => res is Err && res->Err_0@ == e,
            },
    {
        proof {
            reveal_strlit("");
            assert(""@ =~= Seq::<char>::empty());
        }
        if Self::is_infix_arith(name) {
            let mut mid = text(" ");
            mid.append(name.as_str());
            mid.append(" ");
            Ok(self.build_call2("", mid.as_str(), l, r))
        } else if same(name, "++") {
            self.record(Needs { iostream: false, cmath: false, text: true });
            let l = self.build_call1("std::to_string", l);
            let r = self.build_call1("std::to_string", r);
            Ok(self.build_call2("", " + ", l, r))
        } else if same(name, "^") {
            self.record(Needs { iostream: false, cmath: true, text: false });
            Ok(self.build_call2("pow", ", ", l, r))
        } else if same(name, "-|") {
            let fail = Code::Statement(text("throw 101"));
            assert(fail@ == CodeModel::Statement("throw 101"@));
            let r_value = r.duplicate();
            let fallback = Code::If {
                condition: Box::new(r),
                then_branch: Box::new(r_value),
                then_else: Box::new(fail),
            };
            assert(fallback@ == (CodeModel::If {
                condition: Box::new(r@),
                then_branch: Box::new(r@),
                then_else: Box::new(CodeModel::Statement("throw 101"@)),
            }));
            let l_value = l.duplicate();
            Ok(
                Code::If {
                    condition: Box::new(l),
                    then_branch: Box::new(l_value),
                    then_else: Box::new(fallback),
                },
            )
        } else if same(name, ";") {
            Ok(l.merge(r))
        } else {
            Err(LowerError::UnknownInfixOperator(name.clone(), info))
        }
    }
}


pub open spec fn codes_view(fs: Seq<Code>) -> Seq<CodeModel> {
    Seq::new(fs.len(), |i: int| fs[i]@)
}

/// The shared headers, in sorted order, one per line.
pub open spec fn header_text(n: Needs) -> Seq<char> {
    (if n.cmath {
        "#include <cmath>\n"@
    } else {
        Seq::empty()
    }) + (if n.iostream {
        "#include <iostream>\n"@
    } else {
        Seq::empty()
    }) + (if n.text {
        text_coercion() + "\n"@
    } else {
        Seq::empty()
    })
}

/// One forward declaration per function: its name and its parameters.
pub open spec fn declarations(fs: Seq<CodeModel>) -> Seq<char>
    decreases fs.len(),
{
    if fs.len() == 0 {
        Seq::empty()
    } else {
        let f = fs[fs.len() - 1];
        declarations(fs.subrange(0, fs.len() - 1)) + f->name + "("@ + join(f->args, ", "@) + ");\n"@
    }
}

/// The full text of each function, in order.
pub open spec fn definitions(fs: Seq<CodeModel>) -> Seq<char>
    decreases fs.len(),
{
    if fs.len() == 0 {
        Seq::empty()
    } else {
        definitions(fs.subrange(0, fs.len() - 1)) + render(fs[fs.len() - 1], "\n"@)
    }
}

/// The entry point of the target program, with `body` as its body.
pub open spec fn main_func(body: CodeModel) -> CodeModel {
    CodeModel::Func {
        name: "main"@,
        args: seq!["int argc"@, "char* argv[]"@],
        return_type: "int"@,
        body: Box::new(body),
        lambda: false,
    }
}

/// The program: headers, forward declarations, then every function with the entry point last.
pub open spec fn program(n: Needs, fs: Seq<CodeModel>, main: CodeModel) -> Seq<char> {
    header_text(n) + declarations(fs) + definitions(fs.push(main)) + "\n"@
}

impl CodeGenerator {
    fn header(&self) -> (r: String)
        ensures
            r@ == header_text(self.needs()),
    {
        proof {
            reveal_strlit("");
        }
        let mut r = String::new();
        if self.cmath {
            r.append("#include <cmath>\n");
        }
        if self.iostream {
            r.append("#include <iostream>\n");
        }
        if self.text {
            r.append("#include <string>
#include <sstream>
namespace std{
template <typename T>
string to_string(const T& t){
  stringstream out;
  out << t;
  return out.str();
}
string to_string(const bool& t){
  return t ? \"true\" : \"false\";
}
}");
            r.append("\n");
        }
        assert(r@ =~= header_text(self.needs()));
        r
    }

    /// Lowers a module's root expression and assembles the finished program
    /// text, with the link flags it needs.
    pub fn visit_root(&mut self, root: &Node) -> (r: Result<(String, Vec<String>), LowerError>)
        requires
            old(self).wf(),
        ensures
            final(self).wf(),
            final(self).functions == old(self).functions,
            match lower(*root) {
                Ok((body, needs)) => r is Ok && r->Ok_0.0@ == program(
                    old(self).grown(needs),
                    codes_view(old(self).functions@),
                    main_func(retarget(body, returning())),
                ) && strings_view(r->Ok_0.1@) == final(self).flags_view() && final(self).needs()
                    == old(self).grown(needs),
                Err(e) => r is Err && r->Err_0@ == e,
            },
    {
        let ghost fs0 = codes_view(self.functions@);
        let lowered = match self.visit(root) {
            Ok(c) => c,
            Err(e) => return Err(e),
        };
        let w = Wrap { before: text("return "), after: String::new(), statement: true };
        let body = lowered.with_expr(&w);
        proof {
            reveal_strlit("");
            assert(""@ =~= Seq::<char>::empty());
        }
        let mut main_args: Vec<String> = Vec::new();
        main_args.push(text("int argc"));
        main_args.push(text("char* argv[]"));
        assert(strings_view(main_args@) =~= seq!["int argc"@, "char* argv[]"@]);
        let main = Code::Func {
            name: text("main"),
            args: main_args,
            body: Box::new(body),
            lambda: false,
            return_type: text("int"),
        };
        let mut code = self.header();
        let mut i: usize = 0;
        while i < self.functions.len()
            invariant
                i <= self.functions@.len(),
                self.wf(),
                fs0 == codes_view(self.functions@),
                code@ == header_text(self.needs()) + declarations(fs0.subrange(0, i as int)),
            decreases self.functions@.len() - i,
        {
            let f = &self.functions[i];
            assert(self.functions@[i as int]@ is Func);
            match f {
                Code::Func { name, args, .. } => {
                    code.append(name.as_str());
                    code.append("(");
                    let params = join_strings(args, ", ");
                    code.append(params.as_str());
                    code.append(");\n");
                },
                _ => {},
            }
            proof {
                let next = fs0.subrange(0, i + 1);
                assert(next.subrange(0, i as int) =~= fs0.subrange(0, i as int));
            }
            i = i + 1;
        }
        assert(fs0.subrange(0, self.functions@.len() as int) =~= fs0);
        let ghost with_main = fs0.push(main@);
        let mut j: usize = 0;
        let count = self.functions.len();
        while j < count
            invariant
                j <= count,
                count == self.functions@.len(),
                fs0 == codes_view(self.functions@),
                with_main == fs0.push(main@),
                code@ == header_text(self.needs()) + declarations(fs0) + definitions(
                    with_main.subrange(0, j as int),
                ),
            decreases count - j,
        {
            let shown = pretty_print_block(self.functions[j].duplicate(), "\n");
            code.append(shown.as_str());
            proof {
                let next = with_main.subrange(0, j + 1);
                assert(next.subrange(0, j as int) =~= with_main.subrange(0, j as int));
            }
            j = j + 1;
        }
        let shown = pretty_print_block(main.duplicate(), "\n");
        code.append(shown.as_str());
        proof {
            let next = with_main.subrange(0, count + 1);
            assert(next.subrange(0, count as int) =~= with_main.subrange(0, count as int));
            assert(next =~= with_main);
        }
        code.append("\n");
        let flags = crate::code::copy_strings(&self.flags);
        assert(strings_view(flags@) =~= self.flags_view());
        Ok((code, flags))
    }
}

} // verus!
