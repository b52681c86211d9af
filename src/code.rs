use vstd::prelude::*;
use vstd::string::*;

verus! {

/// A fragment of generated program text.
pub enum Code {
    Empty,
    Block(Vec<Code>),
    Expr(String),
    Statement(String),
    If { condition: Box<Code>, then_branch: Box<Code>, then_else: Box<Code> },
    Func { name: String, args: Vec<String>, return_type: String, body: Box<Code>, lambda: bool },
}

/// The mathematical model of a `Code` fragment: the same tree, with text as `Seq<char>`.
pub enum CodeModel {
    Empty,
    Block(Seq<CodeModel>),
    Expr(Seq<char>),
    Statement(Seq<char>),
    If { condition: Box<CodeModel>, then_branch: Box<CodeModel>, then_else: Box<CodeModel> },
    Func {
        name: Seq<char>,
        args: Seq<Seq<char>>,
        return_type: Seq<char>,
        body: Box<CodeModel>,
        lambda: bool,
    },
}

pub open spec fn strings_view(v: Seq<String>) -> Seq<Seq<char>> {
    Seq::new(v.len(), |i: int| v[i]@)
}

impl Code {
    pub open spec fn view(&self) -> CodeModel
        decreases self,
    {
        match self {
            Code::Empty => CodeModel::Empty,
            Code::Block(items) => CodeModel::Block(
                Seq::new(
                    items.len() as nat,
                    |i: int|
                        if 0 <= i < items.len() {
                            items[i].view()
                        } else {
                            CodeModel::Empty
                        },
                ),
            ),
            Code::Expr(e) => CodeModel::Expr(e@),
            Code::Statement(s) => CodeModel::Statement(s@),
            Code::If { condition, then_branch, then_else } => CodeModel::If {
                condition: Box::new(condition.view()),
                then_branch: Box::new(then_branch.view()),
                then_else: Box::new(then_else.view()),
            },
            Code::Func { name, args, return_type, body, lambda } => CodeModel::Func {
                name: name@,
                args: strings_view(args@),
                return_type: return_type@,
                body: Box::new(body.view()),
                lambda: *lambda,
            },
        }
    }
}


/// An `Expr` becomes a `Statement` with the same text; anything else is kept.
pub open spec fn demote(c: CodeModel) -> CodeModel {
    match c {
        CodeModel::Expr(e) => CodeModel::Statement(e),
        _ => c,
    }
}

/// Applies `f` to the fragment that yields the value of `c`.
pub open spec fn retarget(c: CodeModel, f: spec_fn(Seq<char>) -> CodeModel) -> CodeModel
    decreases c,
{
    match c {
        CodeModel::Empty => CodeModel::Empty,
        CodeModel::Expr(e) => f(e),
        CodeModel::Block(items) => if items.len() == 0 {
            c
        } else {
            CodeModel::Block(items.update(items.len() - 1, retarget(items.last(), f)))
        },
        CodeModel::Statement(_) => c,
        CodeModel::If { .. } => c,
        CodeModel::Func { name, args, return_type, body, lambda } => CodeModel::Func {
            name,
            args,
            return_type,
            body: Box::new(retarget(*body, f)),
            lambda,
        },
    }
}

/// `left` happens before `right`, as one fragment.
pub open spec fn sequence(left: CodeModel, right: CodeModel) -> CodeModel {
    if left is Empty {
        right
    } else if right is Empty {
        left
    } else {
        match (left, right) {
            (CodeModel::Block(ls), CodeModel::Block(rs)) => CodeModel::Block(ls + rs),
            (_, CodeModel::Block(rs)) => CodeModel::Block(seq![demote(left)] + rs),
            (CodeModel::Block(ls), _) => CodeModel::Block(
                ls.map_values(|c: CodeModel| demote(c)).push(right),
            ),
            _ => CodeModel::Block(seq![demote(left), right]),
        }
    }
}

/// The text transform `e` to `before e after`, as an expression or as a statement.
pub open spec fn wrap_fn(before: Seq<char>, after: Seq<char>, statement: bool) -> spec_fn(
    Seq<char>,
) -> CodeModel {
    |e: Seq<char>|
        if statement {
            CodeModel::Statement(before + e + after)
        } else {
            CodeModel::Expr(before + e + after)
        }
}

/// A text transform for `Code::with_expr`: the yielded text `e` becomes
/// `before e after`, as a statement or as an expression.
pub struct Wrap {
    pub before: String,
    pub after: String,
    pub statement: bool,
}

impl Wrap {
    pub open spec fn view(&self) -> spec_fn(Seq<char>) -> CodeModel {
        wrap_fn(self.before@, self.after@, self.statement)
    }

    pub fn apply(&self, e: String) -> (r: Code)
        ensures
            r@ == (self@)(e@),
    {
        let mut text = self.before.clone();
        text.append(e.as_str());
        text.append(self.after.as_str());
        if self.statement {
            Code::Statement(text)
        } else {
            Code::Expr(text)
        }
    }
}


/// The model of a block holds the models of its items, in order.
pub proof fn lemma_block_view(items: Vec<Code>)
    ensures
        Code::Block(items)@ is Block,
        Code::Block(items)@->Block_0.len() == items@.len(),
        forall|j: int|
            0 <= j < items@.len() ==> #[trigger] Code::Block(items)@->Block_0[j] == items@[j]@,
{
}

pub fn copy_strings(v: &Vec<String>) -> (r: Vec<String>)
    ensures
        r@.len() == v@.len(),
        forall|i: int| 0 <= i < v@.len() ==> #[trigger] r@[i]@ == v@[i]@,
{
    let mut r: Vec<String> = Vec::new();
    let mut i: usize = 0;
    while i < v.len()
        invariant
            i <= v@.len(),
            r@.len() == i,
            forall|j: int| 0 <= j < i ==> #[trigger] r@[j]@ == v@[j]@,
        decreases v@.len() - i,
    {
        r.push(v[i].clone());
        i = i + 1;
    }
    r
}

impl Code {
    /// A copy of this fragment.
    pub fn duplicate(&self) -> (r: Code)
        ensures
            r@ == self@,
        decreases self,
    {
        match self {
            Code::Empty => Code::Empty,
            Code::Block(items) => {
                let mut out: Vec<Code> = Vec::new();
                let mut i: usize = 0;
                while i < items.len()
                    invariant
                        *self == Code::Block(*items),
                        i <= items@.len(),
                        out@.len() == i,
                        forall|j: int| 0 <= j < i ==> #[trigger] out@[j]@ == items@[j]@,
                    decreases items@.len() - i,
                {
                    proof {
                        assert(decreases_to!(*self => self->Block_0));
                        assert(decreases_to!(*items => items[i as int]));
                        assert(decreases_to!(*self => items[i as int]));
                    }
                    out.push(items[i].duplicate());
                    i = i + 1;
                }
                proof {
                    lemma_block_view(out);
                    lemma_block_view(*items);
                    assert(Code::Block(out)@->Block_0 =~= self@->Block_0);
                }
                Code::Block(out)
            },
            Code::Expr(e) => Code::Expr(e.clone()),
            Code::Statement(t) => Code::Statement(t.clone()),
            Code::If { condition, then_branch, then_else } => Code::If {
                condition: Box::new(condition.duplicate()),
                then_branch: Box::new(then_branch.duplicate()),
                then_else: Box::new(then_else.duplicate()),
            },
            Code::Func { name, args, return_type, body, lambda } => {
                let args2 = copy_strings(args);
                assert(strings_view(args2@) =~= strings_view(args@));
                Code::Func {
                    name: name.clone(),
                    args: args2,
                    return_type: return_type.clone(),
                    body: Box::new(body.duplicate()),
                    lambda: *lambda,
                }
            },
        }
    }

    /// Applies `f` to the fragment that yields this fragment's value, leaving
    /// the side-effecting structure as it is.
    pub fn with_expr(self, f: &Wrap) -> (r: Code)
        ensures
            r@ == retarget(self@, f@),
        decreases self,
    {
        let ghost old_view = self@;
        match self {
            Code::Empty => Code::Empty,
            Code::Expr(expr) => f.apply(expr),
            Code::Block(mut statements) => {
                if statements.len() == 0 {
                    return Code::Block(statements);
                }
                let ghost before = statements@;
                let last = statements.pop().unwrap();
                assert(last == before[before.len() - 1]);
                let new_last = last.with_expr(f);
                statements.push(new_last);
                let r = Code::Block(statements);
                assert(r@->Block_0 =~= old_view->Block_0.update(
                    before.len() - 1,
                    retarget(old_view->Block_0.last(), f@),
                ));
                r
            },
            Code::Statement(line) => Code::Statement(line),
            Code::If { condition, then_branch, then_else } => Code::If {
                condition,
                then_branch,
                then_else,
            },
            Code::Func { name, args, mut body, lambda, return_type } => {
                let new_body = (*body).with_expr(f);
                Code::Func { name, args, body: Box::new(new_body), lambda, return_type }
            },
        }
    }

    /// Sequences `self` before `other` as one fragment.
    pub fn merge(self, other: Code) -> (r: Code)
        ensures
            r@ == sequence(self@, other@),
    {
        let ghost lv = self@;
        let ghost rv = other@;
        match (self, other) {
            (Code::Empty, right) => right,
            (left, Code::Empty) => left,
            (Code::Block(mut left), Code::Block(right)) => {
                let mut right = right;
                left.append(&mut right);
                let r = Code::Block(left);
                assert(r@->Block_0 =~= lv->Block_0 + rv->Block_0);
                r
            },
            (Code::Block(mut left), right) => {
                let ghost l0 = left@;
                let ghost l0_vec = left;
                let mut i: usize = 0;
                while i < left.len()
                    invariant
                        i <= left@.len(),
                        left@.len() == l0.len(),
                        forall|j: int| 0 <= j < i ==> #[trigger] left@[j]@ == demote(l0[j]@),
                        forall|j: int| i <= j < left@.len() ==> #[trigger] left@[j] == l0[j],
                    decreases left@.len() - i,
                {
                    let demoted = match &left[i] {
                        Code::Expr(expr) => Some(expr.clone()),
                        _ => None,
                    };
                    if let Some(expr) = demoted {
                        left.set(i, Code::Statement(expr));
                    }
                    i = i + 1;
                }
                left.push(right);
                let r = Code::Block(left);
                proof {
                    lemma_block_view(left);
                    lemma_block_view(l0_vec);
                }
                assert(r@->Block_0 =~= lv->Block_0.map_values(|c: CodeModel| demote(c)).push(rv));
                r
            },
            (left, Code::Block(mut right)) => {
                let ghost r0_vec = right;
                let first = match left {
                    Code::Expr(expr) => Code::Statement(expr),
                    other => other,
                };
                right.insert(0, first);
                let ghost r1_vec = right;
                let r = Code::Block(right);
                proof {
                    lemma_block_view(r0_vec);
                    lemma_block_view(r1_vec);
                }
                assert(r@->Block_0 =~= seq![demote(lv)] + rv->Block_0);
                r
            },
            (left, right) => {
                let first = match left {
                    Code::Expr(expr) => Code::Statement(expr),
                    other => other,
                };
                let pair = vec![first, right];
                let ghost pair_vec = pair;
                let r = Code::Block(pair);
                proof {
                    lemma_block_view(pair_vec);
                }
                assert(r@->Block_0 =~= seq![demote(lv), rv]);
                r
            },
        }
    }
}


/// The parts joined with `sep` between each two neighbours.
pub open spec fn join(parts: Seq<Seq<char>>, sep: Seq<char>) -> Seq<char>
    decreases parts.len(),
{
    if parts.len() == 0 {
        Seq::empty()
    } else if parts.len() == 1 {
        parts[0]
    } else {
        join(parts.subrange(0, parts.len() - 1), sep) + sep + parts[parts.len() - 1]
    }
}

/// The text of a fragment, each line led by `indent`.
pub open spec fn render(c: CodeModel, indent: Seq<char>) -> Seq<char>
    decreases c,
{
    match c {
        CodeModel::Block(items) => "{"@ + render_items(items, indent + "  "@) + indent + "}"@,
        CodeModel::Expr(line) => line,
        CodeModel::Statement(line) => indent + line + ";"@,
        CodeModel::Empty => Seq::empty(),
        CodeModel::If { condition, then_branch, then_else } => indent + "if("@ + render(
            *condition,
            indent,
        ) + ") "@ + render(*then_branch, indent) + " else "@ + render(*then_else, indent),
        CodeModel::Func { name, args, return_type, body, lambda } => {
            let b = if *body is Block {
                render(*body, indent)
            } else {
                "{"@ + render(*body, indent + "  "@) + indent + "}"@
            };
            if lambda {
                indent + "const auto "@ + name + " = [&]("@ + join(args, ", "@) + ") "@ + b + ";"@
            } else {
                indent + return_type + " "@ + name + "("@ + join(args, ", "@) + ") "@ + b
            }
        },
    }
}

/// The texts of the items, one after another.
pub open spec fn render_items(items: Seq<CodeModel>, indent: Seq<char>) -> Seq<char>
    decreases items,
{
    if items.len() == 0 {
        Seq::empty()
    } else {
        render_items(items.subrange(0, items.len() - 1), indent) + render(
            items[items.len() - 1],
            indent,
        )
    }
}

/// Joins the parts with `sep` between each two neighbours.
pub fn join_strings(parts: &Vec<String>, sep: &str) -> (r: String)
    ensures
        r@ == join(strings_view(parts@), sep@),
{
    let ghost all = strings_view(parts@);
    let mut r = String::new();
    let mut i: usize = 0;
    while i < parts.len()
        invariant
            i <= parts@.len(),
            all == strings_view(parts@),
            r@ == join(all.subrange(0, i as int), sep@),
        decreases parts@.len() - i,
    {
        if i > 0 {
            r.append(sep);
        }
        r.append(parts[i].as_str());
        proof {
            let next = all.subrange(0, i + 1);
            assert(next.subrange(0, i as int) =~= all.subrange(0, i as int));
            assert(next[i as int] == parts@[i as int]@);
            if i == 0 {
                assert(r@ =~= join(next, sep@));
            }
        }
        i = i + 1;
    }
    assert(all.subrange(0, parts@.len() as int) =~= all);
    r
}

/// An owned copy of a string slice.
pub(crate) fn text(s: &str) -> (r: String)
    ensures
        r@ == s@,
{
    String::from_str(s)
}

fn render_code(src: &Code, indent: &String) -> (r: String)
    ensures
        r@ == render(src@, indent@),
    decreases src,
{
    match src {
        Code::Block(statements) => {
            let mut new_indent = indent.clone();
            new_indent.append("  ");
            let ghost items = src@->Block_0;
            proof {
                lemma_block_view(*statements);
            }
            let mut body = String::new();
            let mut i: usize = 0;
            while i < statements.len()
                invariant
                    *src == Code::Block(*statements),
                    items == src@->Block_0,
                    items.len() == statements@.len(),
                    forall|j: int| 0 <= j < items.len() ==> #[trigger] items[j] == statements@[j]@,
                    i <= statements@.len(),
                    body@ == render_items(items.subrange(0, i as int), new_indent@),
                decreases statements@.len() - i,
            {
                proof {
                    assert(decreases_to!(*src => src->Block_0));
                    assert(decreases_to!(*statements => statements[i as int]));
                }
                let line = render_code(&statements[i], &new_indent);
                body.append(line.as_str());
                proof {
                    let next = items.subrange(0, i + 1);
                    assert(next.subrange(0, i as int) =~= items.subrange(0, i as int));
                }
                i = i + 1;
            }
            assert(items.subrange(0, statements@.len() as int) =~= items);
            let mut r = text("{");
            r.append(body.as_str());
            r.append(indent.as_str());
            r.append("}");
            proof {
                reveal_strlit("{");
                reveal_strlit("}");
                reveal_strlit("  ");
            }
            r
        },
        Code::Expr(line) => line.clone(),
        Code::Statement(line) => {
            let mut r = indent.clone();
            r.append(line.as_str());
            r.append(";");
            r
        },
        Code::Empty => String::new(),
        Code::If { condition, then_branch, then_else } => {
            let cond = render_code(condition, indent);
            let body = render_code(then_branch, indent);
            let other = render_code(then_else, indent);
            let mut r = indent.clone();
            r.append("if(");
            r.append(cond.as_str());
            r.append(") ");
            r.append(body.as_str());
            r.append(" else ");
            r.append(other.as_str());
            r
        },
        Code::Func { name, args, return_type, body: inner, lambda } => {
            let body = match &**inner {
                Code::Block(_) => render_code(inner, indent),
                _ => {
                    let mut deeper = indent.clone();
                    deeper.append("  ");
                    let mut b = text("{");
                    let line = render_code(inner, &deeper);
                    b.append(line.as_str());
                    b.append(indent.as_str());
                    b.append("}");
                    b
                },
            };
            let params = join_strings(args, ", ");
            let mut r = indent.clone();
            if *lambda {
                r.append("const auto ");
                r.append(name.as_str());
                r.append(" = [&](");
                r.append(params.as_str());
                r.append(") ");
                r.append(body.as_str());
                r.append(";");
            } else {
                r.append(return_type.as_str());
                r.append(" ");
                r.append(name.as_str());
                r.append("(");
                r.append(params.as_str());
                r.append(") ");
                r.append(body.as_str());
            }
            r
        },
    }
}

/// Renders a fragment as indented source text.
pub fn pretty_print_block(src: Code, indent: &str) -> (r: String)
    ensures
        r@ == render(src@, indent@),
{
    let lead = text(indent);
    render_code(&src, &lead)
}

} // verus!
