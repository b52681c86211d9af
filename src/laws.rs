use vstd::prelude::*;

use crate::ast::Node;
use crate::code::{demote, render, render_items, retarget, sequence, CodeModel};
use crate::codegen::{lower, no_needs, Needs};
use crate::naming::mangle;

verus! {

/// Sequencing with an empty fragment, on either side, gives the other fragment.
pub proof fn lemma_sequence_identity(x: CodeModel)
    ensures
        sequence(CodeModel::Empty, x) == x,
        sequence(x, CodeModel::Empty) == x,
{
}

/// Retargeting a non-empty block keeps its length and every element but the last;
/// only the last element is retargeted.
pub proof fn lemma_retarget_keeps_effects(
    items: Seq<CodeModel>,
    f: spec_fn(Seq<char>) -> CodeModel,
)
    requires
        items.len() > 0,
    ensures
        retarget(CodeModel::Block(items), f) is Block,
        retarget(CodeModel::Block(items), f)->Block_0.len() == items.len(),
        retarget(CodeModel::Block(items), f)->Block_0.subrange(0, items.len() - 1)
            == items.subrange(0, items.len() - 1),
        retarget(CodeModel::Block(items), f)->Block_0[items.len() - 1] == retarget(
            items[items.len() - 1],
            f,
        ),
{
    let out = retarget(CodeModel::Block(items), f)->Block_0;
    assert(out.subrange(0, items.len() - 1) =~= items.subrange(0, items.len() - 1));
}

/// A binding with no recorded use lowers to nothing and needs no header,
/// whatever its value, and renders as no text.
pub proof fn lemma_dead_binding(n: Node, indent: Seq<char>)
    requires
        n is Let,
        n->Let_uses == Some(0usize),
    ensures
        lower(n) == Ok::<(CodeModel, Needs), crate::ast::ErrorModel>((CodeModel::Empty, no_needs())),
        render(CodeModel::Empty, indent) == Seq::<char>::empty(),
{
}

pub open spec fn no_separator(s: Seq<char>) -> bool {
    forall|k: int| 0 <= k < s.len() ==> s[k] != '_'
}

pub open spec fn segments_plain(p: Seq<Seq<char>>) -> bool {
    forall|i: int| 0 <= i < p.len() ==> no_separator(#[trigger] p[i])
}

proof fn lemma_join_single(p: Seq<Seq<char>>)
    requires
        p.len() == 1,
    ensures
        mangle(p) == p[0],
{
}

proof fn lemma_join_split(p: Seq<Seq<char>>)
    requires
        p.len() >= 2,
    ensures
        mangle(p) == mangle(p.subrange(0, p.len() - 1)) + "_"@ + p[p.len() - 1],
{
}

/// Mangling is injective on non-empty paths whose segments hold no `_`:
/// two such paths with the same mangled name are the same path.
pub proof fn lemma_mangle_injective(a: Seq<Seq<char>>, b: Seq<Seq<char>>)
    requires
        a.len() > 0,
        b.len() > 0,
        segments_plain(a),
        segments_plain(b),
        mangle(a) == mangle(b),
    ensures
        a == b,
    decreases a.len() + b.len(),
{
    reveal_strlit("_");
    let m = mangle(a);
    if a.len() == 1 && b.len() == 1 {
        lemma_join_single(a);
        lemma_join_single(b);
        assert(a =~= b);
    } else if a.len() == 1 {
        lemma_join_single(a);
        lemma_join_split(b);
        let k = mangle(b.subrange(0, b.len() - 1)).len() as int;
        assert(m[k] == '_');
        assert(no_separator(a[0]));
        assert(false);
    } else if b.len() == 1 {
        lemma_join_single(b);
        lemma_join_split(a);
        let k = mangle(a.subrange(0, a.len() - 1)).len() as int;
        assert(m[k] == '_');
        assert(no_separator(b[0]));
        assert(false);
    } else {
        lemma_join_split(a);
        lemma_join_split(b);
        let la = a[a.len() - 1];
        let lb = b[b.len() - 1];
        let a0 = a.subrange(0, a.len() - 1);
        let b0 = b.subrange(0, b.len() - 1);
        let ja = mangle(a0);
        let jb = mangle(b0);
        assert(no_separator(la));
        assert(no_separator(lb));
        if la.len() < lb.len() {
            let k = m.len() - la.len() - 1;
            assert(m[k] == '_');
            assert(m[k] == lb[k - (jb.len() + 1)]);
            assert(false);
        } else if lb.len() < la.len() {
            let k = m.len() - lb.len() - 1;
            assert(m[k] == '_');
            assert(m[k] == la[k - (ja.len() + 1)]);
            assert(false);
        } else {
            assert(ja.len() == jb.len());
            assert(ja =~= m.subrange(0, ja.len() as int));
            assert(jb =~= m.subrange(0, jb.len() as int));
            assert(la =~= m.subrange(ja.len() as int + 1, m.len() as int));
            assert(lb =~= m.subrange(jb.len() as int + 1, m.len() as int));
            assert(segments_plain(a0));
            assert(segments_plain(b0));
            lemma_mangle_injective(a0, b0);
            assert(a =~= a0.push(la));
            assert(b =~= b0.push(lb));
        }
    }
}

/// The text of two item sequences one after another is the text of each in turn.
pub proof fn lemma_render_items_concat(x: Seq<CodeModel>, y: Seq<CodeModel>, indent: Seq<char>)
    ensures
        render_items(x + y, indent) == render_items(x, indent) + render_items(y, indent),
    decreases y.len(),
{
    if y.len() == 0 {
        assert(x + y =~= x);
    } else {
        let xy = x + y;
        assert(xy.subrange(0, xy.len() - 1) =~= x + y.subrange(0, y.len() - 1));
        assert(xy[xy.len() - 1] == y[y.len() - 1]);
        lemma_render_items_concat(x, y.subrange(0, y.len() - 1), indent);
    }
}

/// The items a fragment contributes to a block: a block's own items, else itself.
pub open spec fn items_of(c: CodeModel) -> Seq<CodeModel> {
    match c {
        CodeModel::Block(items) => items,
        _ => seq![c],
    }
}

/// What `left` contributes when something follows it: a lone `Expr` becomes a
/// statement; after a block that is followed by a non-block, each of its `Expr`s
/// becomes a statement; a block followed by a block is kept as it is.
pub open spec fn leading_items(left: CodeModel, right: CodeModel) -> Seq<CodeModel> {
    match left {
        CodeModel::Block(ls) => if right is Block {
            ls
        } else {
            ls.map_values(|c: CodeModel| demote(c))
        },
        _ => seq![demote(left)],
    }
}

/// Sequencing two non-empty fragments renders as one block whose body is the text
/// of `left`'s items, with the demotions of `leading_items`, followed by the text
/// of `right`'s items.
pub proof fn lemma_render_sequence(left: CodeModel, right: CodeModel, indent: Seq<char>)
    requires
        !(left is Empty),
        !(right is Empty),
    ensures
        sequence(left, right) == CodeModel::Block(leading_items(left, right) + items_of(right)),
        render(sequence(left, right), indent) == "{"@ + render_items(
            leading_items(left, right),
            indent + "  "@,
        ) + render_items(items_of(right), indent + "  "@) + indent + "}"@,
{
    let front = leading_items(left, right);
    let back = items_of(right);
    match (left, right) {
        (CodeModel::Block(ls), CodeModel::Block(rs)) => {},
        (_, CodeModel::Block(rs)) => {},
        (CodeModel::Block(ls), _) => {
            assert(ls.map_values(|c: CodeModel| demote(c)).push(right) =~= front + back);
        },
        _ => {
            assert(seq![demote(left), right] =~= front + back);
        },
    }
    lemma_render_items_concat(front, back, indent + "  "@);
}

} // verus!
