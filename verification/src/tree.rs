//! The syntax tree as the library holds it: one contiguous arena of nodes
//! in pre-order, each node a kind tag, a byte range into the source, and
//! the arena indices of its children (in source order, strictly ascending,
//! each greater than the parent's own index).
//!
//! The parser — the one outside service this library leans on — hands
//! back only a flat pre-order list of nodes with parent links, and
//! nothing is assumed of that list: verified code checks its bounds and
//! assembles the arena from it, so every arena handed onward is proved
//! well-formed whatever the parser returned. That matters because the
//! parse is not a pure function of (source, language): several grammars'
//! external scanners consult the process locale, so the same input can
//! parse differently in different environments.
use vstd::prelude::*;

use std::str::FromStr;

use ast_grep_core::AstGrep;
use ast_grep_core::tree_sitter::StrDoc;
use ast_grep_language::SupportLang;

use crate::bytes::bytes_copy;

verus! {

/// One node as the parser hands it back: kind tag, byte range, and the
/// index of its parent (0, itself, for the root). The list is in
/// pre-order, and every node's parent comes before it.
pub struct RawNode {
    pub kind: Vec<u8>,
    pub start: usize,
    pub end: usize,
    pub parent: usize,
}

/// The mathematical image of one `RawNode`.
pub ghost struct RawModel {
    pub kind: Seq<u8>,
    pub start: int,
    pub end: int,
    pub parent: int,
}

pub open spec fn raw_model(r: RawNode) -> RawModel {
    RawModel { kind: r.kind@, start: r.start as int, end: r.end as int, parent: r.parent as int }
}

impl RawNode {
    /// Bundles one parsed node's fields.
    pub fn of(kind: Vec<u8>, start: usize, end: usize, parent: usize) -> (n: RawNode)
        ensures
            n == (RawNode { kind, start, end, parent }),
    {
        RawNode { kind, start, end, parent }
    }
}

pub open spec fn raws_model(v: Seq<RawNode>) -> Seq<RawModel> {
    v.map(|i: int, r: RawNode| raw_model(r))
}

/// One node of the assembled syntax tree.
pub struct TreeNode {
    /// Grammar kind tag, e.g. `call_expression`; `ERROR` for error nodes.
    pub kind: Vec<u8>,
    /// Start byte offset into the source, inclusive.
    pub start: usize,
    /// End byte offset into the source, exclusive.
    pub end: usize,
    /// Arena indices of the children, in source order.
    pub children: Vec<usize>,
}

/// The mathematical image of one `TreeNode`.
pub ghost struct NodeModel {
    pub kind: Seq<u8>,
    pub start: int,
    pub end: int,
    pub children: Seq<int>,
}

/// The mathematical image of a vector of arena indices.
pub open spec fn idxs_model(v: Seq<usize>) -> Seq<int> {
    v.map(|i: int, c: usize| c as int)
}

/// The mathematical image of one `TreeNode`.
pub open spec fn node_model(n: TreeNode) -> NodeModel {
    NodeModel {
        kind: n.kind@,
        start: n.start as int,
        end: n.end as int,
        children: idxs_model(n.children@),
    }
}

/// The mathematical image of a whole arena.
pub open spec fn arena_model(ns: Seq<TreeNode>) -> Seq<NodeModel> {
    ns.map(|i: int, n: TreeNode| node_model(n))
}

/// Well-formedness of one arena node: its byte range lies within the
/// source, and its child indices point forward into the arena, strictly
/// ascending.
pub open spec fn node_wf(ns: Seq<NodeModel>, src_len: int, i: int) -> bool {
    &&& 0 <= ns[i].start <= ns[i].end <= src_len
    &&& forall|j: int| 0 <= j < ns[i].children.len() ==> i < #[trigger] ns[i].children[j] < ns.len()
    &&& forall|j: int|
        0 < j < ns[i].children.len() ==> ns[i].children[j - 1] < #[trigger] ns[i].children[j]
}

/// Well-formedness of the whole arena.
pub open spec fn arena_wf(ns: Seq<NodeModel>, src_len: int) -> bool {
    forall|i: int| 0 <= i < ns.len() ==> #[trigger] node_wf(ns, src_len, i)
}

/// The exact source text of node `i`: the byte slice of its range.
pub open spec fn node_text(ns: Seq<NodeModel>, src: Seq<u8>, i: int) -> Seq<u8> {
    src.subrange(ns[i].start, ns[i].end)
}

/// Is the parser's raw list sound: every range within the source, and
/// every node but the first pointing back at an earlier parent?
pub open spec fn raws_ok(rs: Seq<RawModel>, src_len: int) -> bool {
    forall|i: int|
        0 <= i < rs.len() ==> {
            &&& 0 <= (#[trigger] rs[i]).start <= rs[i].end <= src_len
            &&& (i > 0 ==> 0 <= rs[i].parent < i)
        }
}

/// The children of `p` among the first `n` raw nodes: every later index
/// whose parent link names `p`, in ascending order.
pub open spec fn childs_upto(rs: Seq<RawModel>, p: int, n: int) -> Seq<int>
    decreases n,
{
    if n <= 0 {
        Seq::empty()
    } else if n - 1 > 0 && rs[n - 1].parent == p {
        childs_upto(rs, p, n - 1).push(n - 1)
    } else {
        childs_upto(rs, p, n - 1)
    }
}

/// The arena node that raw node `i` assembles to.
pub open spec fn assembled_node(rs: Seq<RawModel>, i: int) -> NodeModel {
    NodeModel {
        kind: rs[i].kind,
        start: rs[i].start,
        end: rs[i].end,
        children: childs_upto(rs, i, rs.len() as int),
    }
}

/// The arena a raw list assembles to: empty if the list is unsound.
pub open spec fn spec_assemble(rs: Seq<RawModel>, src_len: int) -> Seq<NodeModel> {
    if raws_ok(rs, src_len) {
        Seq::new(rs.len(), |i: int| assembled_node(rs, i))
    } else {
        Seq::empty()
    }
}

/// Relies on `ast_grep_language::SupportLang::from_str` (the language
/// registry), `ast_grep_core::tree_sitter::StrDoc::try_new` (tree-sitter
/// parsing) and `ast_grep_core::Node`'s `kind`, `range` and `children`.
/// Nothing is promised of the result: some grammars' external scanners
/// call locale-dependent character classifiers, so the parse can depend
/// on the environment, not on (source, language) alone. Every caller
/// re-checks the list and is verified for every outcome. The
/// explicit-stack walk below lists the tree in pre-order, parents before
/// children, siblings left to right; a language name the registry
/// refuses yields the empty list, and bytes that are not UTF-8 are
/// decoded lossily first.
#[verifier::external_body]
fn parse_raw(source: &Vec<u8>, lang_name: &Vec<u8>) -> (ns: Vec<RawNode>)
{
    let mut ns: Vec<RawNode> = Vec::new();
    if let Ok(Ok(d)) = SupportLang::from_str(&String::from_utf8_lossy(lang_name)).map(|g| StrDoc::try_new(&String::from_utf8_lossy(source), g)) {
        let root = AstGrep::doc(d);
        let mut stack = vec![(root.root(), 0)];
        while let Some((n, parent)) = stack.pop() {
            ns.push(RawNode::of(n.kind().as_bytes().to_vec(), n.range().start, n.range().end, parent));
            let kids: Vec<_> = n.children().collect();
            stack.extend(kids.into_iter().rev().map(|c| (c, ns.len() - 1)));
        }
    }
    ns
}

/// Each child list collects indices strictly between the parent and `n`,
/// in strictly ascending order.
proof fn lemma_childs_upto_props(rs: Seq<RawModel>, p: int, n: int)
    requires
        forall|i: int| 0 < i < rs.len() ==> 0 <= (#[trigger] rs[i]).parent < i,
        n <= rs.len(),
    ensures
        forall|a: int|
            0 <= a < childs_upto(rs, p, n).len() ==> p < #[trigger] childs_upto(rs, p, n)[a] < n,
        forall|a: int|
            0 < a < childs_upto(rs, p, n).len() ==> childs_upto(rs, p, n)[a - 1]
                < #[trigger] childs_upto(rs, p, n)[a],
    decreases n,
{
    if n > 0 {
        lemma_childs_upto_props(rs, p, n - 1);
        let prev = childs_upto(rs, p, n - 1);
        let cur = childs_upto(rs, p, n);
        if n - 1 > 0 && rs[n - 1].parent == p {
            assert(0 <= rs[n - 1].parent < n - 1);
            assert(cur == prev.push(n - 1));
            assert forall|a: int| 0 <= a < cur.len() implies p < #[trigger] cur[a] < n by {
                if a < prev.len() {
                    assert(cur[a] == prev[a]);
                } else {
                    assert(cur[a] == n - 1);
                }
            }
            assert forall|a: int| 0 < a < cur.len() implies cur[a - 1] < #[trigger] cur[a] by {
                if a < prev.len() {
                    assert(cur[a] == prev[a]);
                    assert(cur[a - 1] == prev[a - 1]);
                } else {
                    assert(cur[a] == n - 1);
                    assert(cur[a - 1] == prev[a - 1]);
                }
            }
        } else {
            assert(cur == prev);
        }
    }
}

/// Checks the parser's raw list and assembles the arena from it; an
/// unsound list (which the parser never hands back) assembles to the
/// empty arena.
fn assemble(raw: &Vec<RawNode>, src_len: usize) -> (ns: Vec<TreeNode>)
    ensures
        arena_model(ns@) == spec_assemble(raws_model(raw@), src_len as int),
        arena_wf(arena_model(ns@), src_len as int),
{
    let ghost rm = raws_model(raw@);
    let mut i: usize = 0;
    while i < raw.len()
        invariant
            i <= raw@.len(),
            rm == raws_model(raw@),
            forall|q: int|
                0 <= q < i ==> {
                    &&& 0 <= (#[trigger] rm[q]).start <= rm[q].end <= src_len as int
                    &&& (q > 0 ==> 0 <= rm[q].parent < q)
                },
        decreases raw.len() - i,
    {
        let n = &raw[i];
        proof {
            assert(rm[i as int] == raw_model(raw@[i as int]));
        }
        if !(n.start <= n.end && n.end <= src_len) {
            proof {
                assert(!({
                    &&& 0 <= rm[i as int].start <= rm[i as int].end <= src_len as int
                    &&& (i as int > 0 ==> 0 <= rm[i as int].parent < i as int)
                }));
                assert(!raws_ok(rm, src_len as int));
                assert(arena_model(Seq::<TreeNode>::empty()) =~= Seq::<NodeModel>::empty());
            }
            return Vec::new();
        }
        if i > 0 && n.parent >= i {
            proof {
                assert(!({
                    &&& 0 <= rm[i as int].start <= rm[i as int].end <= src_len as int
                    &&& (i as int > 0 ==> 0 <= rm[i as int].parent < i as int)
                }));
                assert(!raws_ok(rm, src_len as int));
                assert(arena_model(Seq::<TreeNode>::empty()) =~= Seq::<NodeModel>::empty());
            }
            return Vec::new();
        }
        i += 1;
    }
    proof {
        assert(raws_ok(rm, src_len as int));
    }
    let mut ns: Vec<TreeNode> = Vec::new();
    let mut p: usize = 0;
    while p < raw.len()
        invariant
            p <= raw@.len(),
            rm == raws_model(raw@),
            raws_ok(rm, src_len as int),
            ns@.len() == p,
            forall|q: int| 0 <= q < p ==> node_model(#[trigger] ns@[q]) == assembled_node(rm, q),
        decreases raw.len() - p,
    {
        let mut kids: Vec<usize> = Vec::new();
        let mut j: usize = 0;
        while j < raw.len()
            invariant
                j <= raw@.len(),
                p < raw@.len(),
                rm == raws_model(raw@),
                idxs_model(kids@) == childs_upto(rm, p as int, j as int),
            decreases raw.len() - j,
        {
            if j > 0 && raw[j].parent == p {
                let ghost pre = kids@;
                kids.push(j);
                proof {
                    assert(idxs_model(kids@) =~= idxs_model(pre).push(j as int));
                }
            }
            j += 1;
        }
        let n = &raw[p];
        ns.push(
            TreeNode { kind: bytes_copy(&n.kind), start: n.start, end: n.end, children: kids },
        );
        p += 1;
    }
    proof {
        assert(arena_model(ns@) =~= spec_assemble(rm, src_len as int));
        let am = arena_model(ns@);
        assert forall|q: int| 0 <= q < am.len() implies #[trigger] node_wf(
            am,
            src_len as int,
            q,
        ) by {
            lemma_childs_upto_props(rm, q, rm.len() as int);
            assert(am[q].children == childs_upto(rm, q, rm.len() as int));
        }
    }
    ns
}

/// Parses `source` under the language called `lang_name` into a
/// well-formed arena. The parser's raw list is an outside, possibly
/// environment-dependent value; whatever it was, the arena assembled
/// from it is well-formed, and everything downstream is verified for
/// every such arena.
pub fn parse_source(source: &Vec<u8>, lang_name: &Vec<u8>) -> (ns: Vec<TreeNode>)
    ensures
        arena_wf(arena_model(ns@), source@.len() as int),
{
    let raw = parse_raw(source, lang_name);
    assemble(&raw, source.len())
}

} // verus!
