//! The matcher engine: structural comparison of a tree node against a
//! compiled pattern. Kinds must agree exactly unless the pattern node is a
//! meta-variable slot; children are compared positionally; a leaf pattern
//! node must carry the node's exact source text. A child list with a
//! variadic slot is matched by trying split widths for the slot in
//! ascending order and keeping the leftmost width under which the
//! remaining fixed children match; the whole child list must be consumed.
use vstd::prelude::*;

use crate::bytes::{bytes_copy, bytes_eq};
use crate::pattern::{
    pat_arena_model, pat_node_model, pat_node_wf, pat_wf, MetaModel, PatModel, PatNode, Pattern,
    pattern_model, pattern_wf, Meta,
};
use crate::tree::{arena_model, arena_wf, node_text, node_wf, NodeModel, TreeNode};

verus! {

/// What one meta-variable captured: one node, or a run of siblings.
pub enum Capture {
    One(usize),
    Many(Vec<usize>),
}

/// One bound meta-variable: its name and its capture (arena indices).
pub struct Binding {
    pub name: Vec<u8>,
    pub capture: Capture,
}

/// The mathematical image of a capture.
pub ghost enum CapModel {
    One(int),
    Many(Seq<int>),
}

/// The mathematical image of a binding.
pub ghost struct BindModel {
    pub name: Seq<u8>,
    pub cap: CapModel,
}

pub open spec fn cap_model(c: Capture) -> CapModel {
    match c {
        Capture::One(i) => CapModel::One(i as int),
        Capture::Many(v) => CapModel::Many(crate::tree::idxs_model(v@)),
    }
}

pub open spec fn bind_model(b: Binding) -> BindModel {
    BindModel { name: b.name@, cap: cap_model(b.capture) }
}

pub open spec fn binds_model(v: Seq<Binding>) -> Seq<BindModel> {
    v.map(|i: int, b: Binding| bind_model(b))
}

pub open spec fn opt_binds_model(r: Option<Vec<Binding>>) -> Option<Seq<BindModel>> {
    match r {
        Some(v) => Some(binds_model(v@)),
        None => None,
    }
}

/// Are all of `kids` indices into `ps`, strictly ascending?
pub open spec fn kids_ok(ps: Seq<PatModel>, kids: Seq<int>) -> bool {
    &&& forall|j: int| 0 <= j < kids.len() ==> 0 <= #[trigger] kids[j] < ps.len()
    &&& forall|j: int| 0 < j < kids.len() ==> kids[j - 1] < #[trigger] kids[j]
}

/// Are all of `cs` indices into the tree arena `ts`?
pub open spec fn cs_ok(ts: Seq<NodeModel>, cs: Seq<int>) -> bool {
    forall|j: int| 0 <= j < cs.len() ==> 0 <= #[trigger] cs[j] < ts.len()
}

/// First component of the list-matching measure: how far the pattern
/// arena extends past the pattern child at `kpos`.
pub open spec fn list_measure0(ps: Seq<PatModel>, kids: Seq<int>, kpos: int) -> int {
    if 0 <= kpos < kids.len() {
        ps.len() - kids[kpos]
    } else {
        0
    }
}

/// Does tree node `ni` match pattern node `pi`, and with which bindings?
/// A slot matches any node and binds it; a literal pattern node needs the
/// same kind, and then its exact text (at a leaf) or a positional match
/// of the child lists.
pub open spec fn pat_match(
    ps: Seq<PatModel>,
    pi: int,
    ts: Seq<NodeModel>,
    src: Seq<u8>,
    ni: int,
) -> Option<Seq<BindModel>>
    decreases ps.len() - pi, 0int, 0int,
        when 0 <= pi < ps.len() && pat_wf(ps)
{
    let p = ps[pi];
    match p.meta {
        MetaModel::Single(name) => Some(seq![BindModel { name, cap: CapModel::One(ni) }]),
        MetaModel::Variadic(name) => Some(
            seq![BindModel { name, cap: CapModel::Many(seq![ni]) }],
        ),
        MetaModel::Plain => {
            if !(0 <= ni < ts.len()) {
                None
            } else if ts[ni].kind != p.kind {
                None
            } else if p.children.len() == 0 {
                if node_text(ts, src, ni) == p.text {
                    Some(Seq::empty())
                } else {
                    None
                }
            } else {
                proof {
                    assert(pat_node_wf(ps, pi));
                }
                list_match(ps, p.children, 0, ts, src, ts[ni].children, 0)
            }
        },
    }
}

/// Does the run `cs[ci..]` of sibling nodes match the run `kids[kpos..]`
/// of pattern children, consuming the siblings completely?
pub open spec fn list_match(
    ps: Seq<PatModel>,
    kids: Seq<int>,
    kpos: int,
    ts: Seq<NodeModel>,
    src: Seq<u8>,
    cs: Seq<int>,
    ci: int,
) -> Option<Seq<BindModel>>
    decreases list_measure0(ps, kids, kpos), kids.len() - kpos, cs.len() - ci + 1,
        when pat_wf(ps) && kids_ok(ps, kids) && 0 <= kpos <= kids.len() && 0 <= ci <= cs.len()
{
    if kpos == kids.len() {
        if ci == cs.len() {
            Some(Seq::empty())
        } else {
            None
        }
    } else {
        let p = ps[kids[kpos]];
        match p.meta {
            MetaModel::Variadic(name) => variadic_match(ps, kids, kpos, ts, src, cs, ci, 0),
            _ => {
                if ci == cs.len() {
                    None
                } else {
                    match pat_match(ps, kids[kpos], ts, src, cs[ci]) {
                        None => None,
                        Some(b1) => match list_match(ps, kids, kpos + 1, ts, src, cs, ci + 1) {
                            None => None,
                            Some(b2) => Some(b1 + b2),
                        },
                    }
                }
            },
        }
    }
}

/// The variadic slot at `kids[kpos]` tries to capture `k` siblings
/// starting at `ci`; the least `k` under which the rest of the pattern
/// children match the rest of the siblings wins (the leftmost split).
pub open spec fn variadic_match(
    ps: Seq<PatModel>,
    kids: Seq<int>,
    kpos: int,
    ts: Seq<NodeModel>,
    src: Seq<u8>,
    cs: Seq<int>,
    ci: int,
    k: int,
) -> Option<Seq<BindModel>>
    decreases list_measure0(ps, kids, kpos), kids.len() - kpos, cs.len() - ci - k,
        when pat_wf(ps) && kids_ok(ps, kids) && 0 <= kpos < kids.len() && 0 <= ci && 0 <= k && ci
            + k <= cs.len()
{
    let name = crate::pattern::meta_name(ps[kids[kpos]].meta);
    match list_match(ps, kids, kpos + 1, ts, src, cs, ci + k) {
        Some(b) => Some(
            seq![BindModel { name, cap: CapModel::Many(cs.subrange(ci, ci + k)) }] + b,
        ),
        None => {
            if ci + k == cs.len() {
                None
            } else {
                variadic_match(ps, kids, kpos, ts, src, cs, ci, k + 1)
            }
        },
    }
}

/// A copy of a capture.
fn capture_copy(c: &Capture) -> (r: Capture)
    ensures
        cap_model(r) == cap_model(*c),
{
    match c {
        Capture::One(i) => Capture::One(*i),
        Capture::Many(v) => Capture::Many(crate::bytes::usizes_copy(v)),
    }
}

/// A copy of a binding.
fn binding_copy(bd: &Binding) -> (r: Binding)
    ensures
        bind_model(r) == bind_model(*bd),
{
    Binding { name: bytes_copy(&bd.name), capture: capture_copy(&bd.capture) }
}

/// Joins two binding lists, left then right.
fn binds_append(a: Vec<Binding>, b: &Vec<Binding>) -> (r: Vec<Binding>)
    ensures
        binds_model(r@) == binds_model(a@) + binds_model(b@),
{
    let ghost a0 = a@;
    let mut r = a;
    let mut i: usize = 0;
    while i < b.len()
        invariant
            i <= b@.len(),
            binds_model(r@) == binds_model(a0) + binds_model(b@.subrange(0, i as int)),
        decreases b.len() - i,
    {
        let ghost rpre = r@;
        r.push(binding_copy(&b[i]));
        proof {
            assert(binds_model(r@) =~= binds_model(rpre).push(bind_model(b@[i as int])));
            assert(b@.subrange(0, i + 1) =~= b@.subrange(0, i as int).push(b@[i as int]));
            assert(binds_model(b@.subrange(0, i as int).push(b@[i as int])) =~= binds_model(
                b@.subrange(0, i as int),
            ).push(bind_model(b@[i as int])));
            assert(binds_model(r@) =~= binds_model(a0) + binds_model(b@.subrange(0, i + 1)));
        }
        i += 1;
    }
    proof {
        assert(b@.subrange(0, b@.len() as int) =~= b@);
    }
    r
}

/// Is `t` exactly the byte run `src[start..end]`?
fn range_eq(src: &Vec<u8>, start: usize, end: usize, t: &Vec<u8>) -> (r: bool)
    requires
        start <= end <= src@.len(),
    ensures
        r == (src@.subrange(start as int, end as int) == t@),
{
    let s = crate::bytes::bytes_slice(src, start, end);
    bytes_eq(&s, t)
}

/// Does tree node `ni` match the compiled pattern `p`?
pub open spec fn pattern_match_at(
    p: crate::pattern::PatternModel,
    ts: Seq<NodeModel>,
    src: Seq<u8>,
    ni: int,
) -> Option<Seq<BindModel>> {
    pat_match(p.nodes, p.root, ts, src, ni)
}

/// Matches tree node `ni` against pattern node `pi`.
fn exec_pat_match(
    ps: &Vec<PatNode>,
    pi: usize,
    ts: &Vec<TreeNode>,
    src: &Vec<u8>,
    ni: usize,
) -> (r: Option<Vec<Binding>>)
    requires
        pat_wf(pat_arena_model(ps@)),
        pi < ps@.len(),
        arena_wf(arena_model(ts@), src@.len() as int),
        ni < ts@.len(),
    ensures
        opt_binds_model(r) == pat_match(
            pat_arena_model(ps@),
            pi as int,
            arena_model(ts@),
            src@,
            ni as int,
        ),
    decreases ps@.len() - pi as int, 0int, 0int,
{
    let ghost pm = pat_arena_model(ps@);
    let ghost am = arena_model(ts@);
    let p = &ps[pi];
    proof {
        assert(pm[pi as int] == pat_node_model(ps@[pi as int]));
        assert(am[ni as int] == crate::tree::node_model(ts@[ni as int]));
        assert(node_wf(am, src@.len() as int, ni as int));
        assert(pat_node_wf(pm, pi as int));
    }
    match &p.meta {
        Meta::Single(name) => {
            let mut r: Vec<Binding> = Vec::new();
            r.push(Binding { name: bytes_copy(name), capture: Capture::One(ni) });
            proof {
                assert(binds_model(r@) =~= seq![
                    BindModel { name: name@, cap: CapModel::One(ni as int) },
                ]);
            }
            Some(r)
        },
        Meta::Variadic(name) => {
            let mut caps: Vec<usize> = Vec::new();
            caps.push(ni);
            let mut r: Vec<Binding> = Vec::new();
            r.push(Binding { name: bytes_copy(name), capture: Capture::Many(caps) });
            proof {
                assert(crate::tree::idxs_model(seq![ni]) =~= seq![ni as int]);
                assert(binds_model(r@) =~= seq![
                    BindModel { name: name@, cap: CapModel::Many(seq![ni as int]) },
                ]);
            }
            Some(r)
        },
        Meta::Plain => {
            if !bytes_eq(&ts[ni].kind, &p.kind) {
                None
            } else if p.children.len() == 0 {
                if range_eq(src, ts[ni].start, ts[ni].end, &p.text) {
                    proof {
                        assert(binds_model(Seq::<Binding>::empty()) =~= Seq::<
                            BindModel,
                        >::empty());
                    }
                    Some(Vec::new())
                } else {
                    None
                }
            } else {
                exec_list_match(ps, &p.children, 0, ts, src, &ts[ni].children, 0)
            }
        },
    }
}

/// Matches the sibling run `cs[ci..]` against the pattern children
/// `kids[kpos..]`.
fn exec_list_match(
    ps: &Vec<PatNode>,
    kids: &Vec<usize>,
    kpos: usize,
    ts: &Vec<TreeNode>,
    src: &Vec<u8>,
    cs: &Vec<usize>,
    ci: usize,
) -> (r: Option<Vec<Binding>>)
    requires
        pat_wf(pat_arena_model(ps@)),
        kids_ok(pat_arena_model(ps@), crate::tree::idxs_model(kids@)),
        kpos <= kids@.len(),
        arena_wf(arena_model(ts@), src@.len() as int),
        cs_ok(arena_model(ts@), crate::tree::idxs_model(cs@)),
        ci <= cs@.len(),
    ensures
        opt_binds_model(r) == list_match(
            pat_arena_model(ps@),
            crate::tree::idxs_model(kids@),
            kpos as int,
            arena_model(ts@),
            src@,
            crate::tree::idxs_model(cs@),
            ci as int,
        ),
    decreases list_measure0(pat_arena_model(ps@), crate::tree::idxs_model(kids@), kpos as int),
        kids@.len() - kpos as int,
        cs@.len() - ci as int + 1,
{
    let ghost pm = pat_arena_model(ps@);
    let ghost km = crate::tree::idxs_model(kids@);
    let ghost cm = crate::tree::idxs_model(cs@);
    if kpos == kids.len() {
        if ci == cs.len() {
            proof {
                assert(binds_model(Seq::<Binding>::empty()) =~= Seq::<BindModel>::empty());
            }
            Some(Vec::new())
        } else {
            None
        }
    } else {
        let kp = kids[kpos];
        proof {
            assert(km[kpos as int] == kp as int);
            assert(pm[kp as int] == pat_node_model(ps@[kp as int]));
        }
        let p = &ps[kp];
        match &p.meta {
            Meta::Variadic(_) => exec_variadic_match(ps, kids, kpos, ts, src, cs, ci, 0),
            _ => {
                if ci == cs.len() {
                    None
                } else {
                    let nc = cs[ci];
                    proof {
                        assert(cm[ci as int] == nc as int);
                    }
                    match exec_pat_match(ps, kp, ts, src, nc) {
                        None => None,
                        Some(b1) => match exec_list_match(ps, kids, kpos + 1, ts, src, cs, ci + 1) {
                            None => None,
                            Some(b2) => Some(binds_append(b1, &b2)),
                        },
                    }
                }
            },
        }
    }
}

/// Tries split widths for the variadic slot at `kids[kpos]`, smallest
/// (leftmost) first.
fn exec_variadic_match(
    ps: &Vec<PatNode>,
    kids: &Vec<usize>,
    kpos: usize,
    ts: &Vec<TreeNode>,
    src: &Vec<u8>,
    cs: &Vec<usize>,
    ci: usize,
    k: usize,
) -> (r: Option<Vec<Binding>>)
    requires
        pat_wf(pat_arena_model(ps@)),
        kids_ok(pat_arena_model(ps@), crate::tree::idxs_model(kids@)),
        kpos < kids@.len(),
        pat_arena_model(ps@)[kids@[kpos as int] as int].meta is Variadic,
        arena_wf(arena_model(ts@), src@.len() as int),
        cs_ok(arena_model(ts@), crate::tree::idxs_model(cs@)),
        ci + k <= cs@.len(),
    ensures
        opt_binds_model(r) == variadic_match(
            pat_arena_model(ps@),
            crate::tree::idxs_model(kids@),
            kpos as int,
            arena_model(ts@),
            src@,
            crate::tree::idxs_model(cs@),
            ci as int,
            k as int,
        ),
    decreases list_measure0(pat_arena_model(ps@), crate::tree::idxs_model(kids@), kpos as int),
        kids@.len() - kpos as int,
        cs@.len() - ci as int - k as int,
{
    let ghost pm = pat_arena_model(ps@);
    let ghost km = crate::tree::idxs_model(kids@);
    let ghost cm = crate::tree::idxs_model(cs@);
    // Fix both lengths as machine integers for the bounds reasoning below.
    let kn = kids.len();
    let cn = cs.len();
    let kp = kids[kpos];
    proof {
        assert(km[kpos as int] == kp as int);
        assert(pm[kp as int] == pat_node_model(ps@[kp as int]));
    }
    match exec_list_match(ps, kids, kpos + 1, ts, src, cs, ci + k) {
        Some(b) => {
            let caps = crate::bytes::usizes_slice(cs, ci, ci + k);
            let name = crate::pattern::meta_name_exec(&ps[kp].meta);
            let mut lead: Vec<Binding> = Vec::new();
            lead.push(Binding { name, capture: Capture::Many(caps) });
            proof {
                assert(crate::tree::idxs_model(cs@.subrange(ci as int, ci + k)) =~= cm.subrange(
                    ci as int,
                    ci + k,
                ));
                assert(binds_model(lead@) =~= seq![
                    BindModel {
                        name: crate::pattern::meta_name(pm[kp as int].meta),
                        cap: CapModel::Many(cm.subrange(ci as int, ci + k)),
                    },
                ]);
            }
            Some(binds_append(lead, &b))
        },
        None => {
            if ci + k == cn {
                None
            } else {
                exec_variadic_match(ps, kids, kpos, ts, src, cs, ci, k + 1)
            }
        },
    }
}

/// Matches tree node `ni` against the compiled pattern, returning the
/// accumulated bindings on success; a miss is an ordinary `None`, not an
/// error.
pub fn match_at(pat: &Pattern, ts: &Vec<TreeNode>, src: &Vec<u8>, ni: usize) -> (r: Option<
    Vec<Binding>,
>)
    requires
        pattern_wf(pattern_model(*pat)),
        arena_wf(arena_model(ts@), src@.len() as int),
        ni < ts@.len(),
    ensures
        opt_binds_model(r) == pattern_match_at(
            pattern_model(*pat),
            arena_model(ts@),
            src@,
            ni as int,
        ),
{
    exec_pat_match(&pat.nodes, pat.root, ts, src, ni)
}

} // verus!
