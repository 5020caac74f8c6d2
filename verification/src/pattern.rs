//! Compiled patterns. A rule's pattern text is parsed as a miniature
//! fragment under the target language's own grammar; placeholder tokens
//! become meta-variable slots. A single-capture slot is a token `$NAME`
//! (one `$`, then one or more of `A`-`Z`, `0`-`9`, `_`); a variadic slot
//! is a tripled token `$$$` or `$$$NAME`. Any other token is literal
//! text. Grammars that refuse `$` inside identifiers get the pattern
//! text pre-processed first: each placeholder's `$` run is rewritten to
//! the language's own placeholder character (see
//! `crate::lang::expando_of`), so the fragment still parses, and slots
//! are then recognized by that character.
use vstd::prelude::*;

use crate::bytes::{bytes_copy, bytes_eq, bytes_slice};
use crate::tree::{arena_model, arena_wf, NodeModel, TreeNode};

verus! {

/// What a pattern node stands for: literal structure, a single-capture
/// slot, or a variadic slot.
pub enum Meta {
    Plain,
    Single(Vec<u8>),
    Variadic(Vec<u8>),
}

/// One node of a compiled pattern: the fragment's node with its kind, its
/// exact pattern text, its children (arena indices), and its slot role.
pub struct PatNode {
    pub kind: Vec<u8>,
    pub text: Vec<u8>,
    pub children: Vec<usize>,
    pub meta: Meta,
}

/// A compiled pattern: an arena of pattern nodes and the root to match at
/// (the deepest node reached from the fragment root through sole children).
pub struct Pattern {
    pub nodes: Vec<PatNode>,
    pub root: usize,
}

/// The mathematical image of a slot role.
pub ghost enum MetaModel {
    Plain,
    Single(Seq<u8>),
    Variadic(Seq<u8>),
}

/// The mathematical image of one pattern node.
pub ghost struct PatModel {
    pub kind: Seq<u8>,
    pub text: Seq<u8>,
    pub children: Seq<int>,
    pub meta: MetaModel,
}

/// The mathematical image of a compiled pattern.
pub ghost struct PatternModel {
    pub nodes: Seq<PatModel>,
    pub root: int,
}

pub open spec fn meta_model(m: Meta) -> MetaModel {
    match m {
        Meta::Plain => MetaModel::Plain,
        Meta::Single(n) => MetaModel::Single(n@),
        Meta::Variadic(n) => MetaModel::Variadic(n@),
    }
}

pub open spec fn pat_node_model(p: PatNode) -> PatModel {
    PatModel {
        kind: p.kind@,
        text: p.text@,
        children: crate::tree::idxs_model(p.children@),
        meta: meta_model(p.meta),
    }
}

pub open spec fn pat_arena_model(ps: Seq<PatNode>) -> Seq<PatModel> {
    ps.map(|i: int, p: PatNode| pat_node_model(p))
}

pub open spec fn pattern_model(p: Pattern) -> PatternModel {
    PatternModel { nodes: pat_arena_model(p.nodes@), root: p.root as int }
}

/// Child indices of pattern node `i` point forward, strictly ascending.
pub open spec fn pat_node_wf(ps: Seq<PatModel>, i: int) -> bool {
    &&& forall|j: int| 0 <= j < ps[i].children.len() ==> i < #[trigger] ps[i].children[j] < ps.len()
    &&& forall|j: int|
        0 < j < ps[i].children.len() ==> ps[i].children[j - 1] < #[trigger] ps[i].children[j]
}

/// Well-formedness of a pattern arena.
pub open spec fn pat_wf(ps: Seq<PatModel>) -> bool {
    forall|i: int| 0 <= i < ps.len() ==> #[trigger] pat_node_wf(ps, i)
}

/// Well-formedness of a compiled pattern.
pub open spec fn pattern_wf(p: PatternModel) -> bool {
    &&& pat_wf(p.nodes)
    &&& 0 <= p.root < p.nodes.len()
}

/// May a byte stand in a meta-variable name?
pub open spec fn is_name_byte(b: u8) -> bool {
    ||| 'A' as u8 <= b && b <= 'Z' as u8
    ||| '0' as u8 <= b && b <= '9' as u8
    ||| b == '_' as u8
}

/// Are all bytes of `t` from position `from` on name bytes?
pub open spec fn name_bytes_from(t: Seq<u8>, from: int) -> bool {
    forall|i: int| from <= i < t.len() ==> is_name_byte(#[trigger] t[i])
}

/// Does `p` open `t`?
pub open spec fn has_prefix(t: Seq<u8>, p: Seq<u8>) -> bool {
    t.len() >= p.len() && t.subrange(0, p.len() as int) == p
}

/// The slot role a token's exact text denotes, under the language's
/// placeholder bytes `e` (plain `$` where the grammar accepts it).
pub open spec fn meta_of_text(t: Seq<u8>, e: Seq<u8>) -> MetaModel {
    let e3 = e + e + e;
    if has_prefix(t, e3) && name_bytes_from(t, e3.len() as int) {
        MetaModel::Variadic(t.subrange(e3.len() as int, t.len() as int))
    } else if t.len() > e.len() && has_prefix(t, e) && name_bytes_from(t, e.len() as int) {
        MetaModel::Single(t.subrange(e.len() as int, t.len() as int))
    } else {
        MetaModel::Plain
    }
}

/// The pattern node a fragment node compiles to. Only a leaf can be a
/// slot: an inner node always stands for literal structure.
pub open spec fn pat_of_node(n: NodeModel, psrc: Seq<u8>, e: Seq<u8>) -> PatModel {
    let t = psrc.subrange(n.start, n.end);
    PatModel {
        kind: n.kind,
        text: t,
        children: n.children,
        meta: if n.children.len() == 0 {
            meta_of_text(t, e)
        } else {
            MetaModel::Plain
        },
    }
}

/// The whole fragment arena, compiled node for node.
pub open spec fn pats_of(ns: Seq<NodeModel>, psrc: Seq<u8>, e: Seq<u8>) -> Seq<PatModel> {
    ns.map(|i: int, n: NodeModel| pat_of_node(n, psrc, e))
}

/// The kind tag of tree-sitter error nodes.
pub open spec fn error_kind() -> Seq<u8> {
    seq!['E' as u8, 'R' as u8, 'R' as u8, 'O' as u8, 'R' as u8]
}

/// Has `i` effectively one child: exactly one, or one plus a trailing
/// node with an empty kind tag (some grammars leave such a node at the
/// end of a fragment)?
pub open spec fn sole_child(ps: Seq<PatModel>, i: int) -> bool {
    ||| ps[i].children.len() == 1
    ||| (ps[i].children.len() == 2 && ps[ps[i].children[1]].kind.len() == 0)
}

/// The deepest node reached from `i` by following sole children: the
/// significant fragment below the grammar's wrapper nodes — error
/// recovery wrappers included, so a fragment that parses cleanly only
/// inside such a wrapper still compiles.
pub open spec fn descend(ps: Seq<PatModel>, i: int) -> int
    decreases ps.len() - i,
        when 0 <= i < ps.len() && pat_wf(ps)
{
    if sole_child(ps, i) {
        proof {
            assert(pat_node_wf(ps, i));
        }
        descend(ps, ps[i].children[0])
    } else {
        i
    }
}

/// The name of a slot; the empty sequence for a literal node.
pub open spec fn meta_name(m: MetaModel) -> Seq<u8> {
    match m {
        MetaModel::Plain => Seq::empty(),
        MetaModel::Single(n) => n,
        MetaModel::Variadic(n) => n,
    }
}

/// Do two slot roles bind one name with incompatible arities?
pub open spec fn conflicting(a: MetaModel, b: MetaModel) -> bool {
    match (a, b) {
        (MetaModel::Single(n), MetaModel::Variadic(m)) => n == m,
        (MetaModel::Variadic(n), MetaModel::Single(m)) => n == m,
        _ => false,
    }
}

/// Does node `i`'s slot conflict with any earlier node's slot?
pub open spec fn conflicts_before(ps: Seq<PatModel>, i: int) -> bool {
    exists|j: int| 0 <= j < i && conflicting(#[trigger] ps[j].meta, ps[i].meta)
}

/// The name of the first slot (in arena order) that conflicts with an
/// earlier one, if any.
pub open spec fn first_conflict_from(ps: Seq<PatModel>, i: int) -> Option<Seq<u8>>
    decreases ps.len() - i,
{
    if i < 0 || i >= ps.len() {
        None
    } else if conflicts_before(ps, i) {
        Some(meta_name(ps[i].meta))
    } else {
        first_conflict_from(ps, i + 1)
    }
}

/// Why a pattern fails to compile.
pub enum PatternErr {
    /// The fragment cannot be parsed under the language's grammar, or is
    /// empty.
    Invalid,
    /// One capture name is bound with both arities; the payload is the
    /// name.
    Duplicate(Vec<u8>),
}

/// The mathematical image of a compilation failure.
pub ghost enum PatternErrModel {
    Invalid,
    Duplicate(Seq<u8>),
}

pub open spec fn pattern_err_model(e: PatternErr) -> PatternErrModel {
    match e {
        PatternErr::Invalid => PatternErrModel::Invalid,
        PatternErr::Duplicate(n) => PatternErrModel::Duplicate(n@),
    }
}

/// What compiling a fragment yields: the compiled pattern, or the exact
/// failure. The fragment is rejected when it is empty, when its root
/// holds no code, or when the node the pattern would match at is itself
/// an error node — the pattern text cannot be parsed under the
/// language's grammar.
pub open spec fn spec_compile_pattern(frag: Seq<NodeModel>, psrc: Seq<u8>, e: Seq<u8>) -> Result<
    PatternModel,
    PatternErrModel,
> {
    if frag.len() == 0 || frag[0].children.len() == 0 {
        Err(PatternErrModel::Invalid)
    } else {
        let ps = pats_of(frag, psrc, e);
        let root = descend(ps, 0);
        if ps[root].kind == error_kind() {
            Err(PatternErrModel::Invalid)
        } else {
            match first_conflict_from(ps, 0) {
                Some(n) => Err(PatternErrModel::Duplicate(n)),
                None => Ok(PatternModel { nodes: ps, root }),
            }
        }
    }
}

/// The image of an executable compilation result.
pub open spec fn compile_result_model(r: Result<Pattern, PatternErr>) -> Result<
    PatternModel,
    PatternErrModel,
> {
    match r {
        Ok(p) => Ok(pattern_model(p)),
        Err(e) => Err(pattern_err_model(e)),
    }
}

/// Are all bytes of `t` from position `from` on name bytes?
fn check_name_bytes(t: &Vec<u8>, from: usize) -> (r: bool)
    ensures
        r == name_bytes_from(t@, from as int),
{
    let mut i: usize = from;
    if i > t.len() {
        return true;
    }
    while i < t.len()
        invariant
            from <= i <= t@.len(),
            forall|j: int| from <= j < i ==> is_name_byte(#[trigger] t@[j]),
        decreases t.len() - i,
    {
        let b = t[i];
        let ok = ('A' as u8 <= b && b <= 'Z' as u8) || ('0' as u8 <= b && b <= '9' as u8) || b
            == '_' as u8;
        if !ok {
            return false;
        }
        i += 1;
    }
    true
}

/// Does `p` open `t`?
fn has_prefix_exec(t: &Vec<u8>, p: &Vec<u8>) -> (r: bool)
    ensures
        r == has_prefix(t@, p@),
{
    if t.len() < p.len() {
        return false;
    }
    let mut i: usize = 0;
    while i < p.len()
        invariant
            i <= p@.len() <= t@.len(),
            forall|j: int| 0 <= j < i ==> t@[j] == p@[j],
        decreases p.len() - i,
    {
        if t[i] != p[i] {
            proof {
                assert(t@.subrange(0, p@.len() as int)[i as int] == t@[i as int]);
            }
            return false;
        }
        i += 1;
    }
    proof {
        assert(t@.subrange(0, p@.len() as int) =~= p@);
    }
    true
}

/// The slot role of a token with this exact text, under the language's
/// placeholder bytes `e`.
fn classify(t: &Vec<u8>, e: &Vec<u8>) -> (m: Meta)
    ensures
        meta_model(m) == meta_of_text(t@, e@),
{
    let e2 = crate::bytes::bytes_concat(e, e);
    let e3 = crate::bytes::bytes_concat(&e2, e);
    proof {
        assert(e3@ == (e@ + e@) + e@);
        assert((e@ + e@) + e@ =~= e@ + e@ + e@);
    }
    if has_prefix_exec(t, &e3) && check_name_bytes(t, e3.len()) {
        Meta::Variadic(bytes_slice(t, e3.len(), t.len()))
    } else if t.len() > e.len() && has_prefix_exec(t, e) && check_name_bytes(t, e.len()) {
        Meta::Single(bytes_slice(t, e.len(), t.len()))
    } else {
        Meta::Plain
    }
}

/// Do two slot roles bind one name with incompatible arities?
fn conflict_exec(a: &Meta, b: &Meta) -> (r: bool)
    ensures
        r == conflicting(meta_model(*a), meta_model(*b)),
{
    match (a, b) {
        (Meta::Single(n), Meta::Variadic(m)) => bytes_eq(n, m),
        (Meta::Variadic(n), Meta::Single(m)) => bytes_eq(n, m),
        _ => false,
    }
}

/// The name a slot binds; empty for a literal node.
pub(crate) fn meta_name_exec(m: &Meta) -> (r: Vec<u8>)
    ensures
        r@ == meta_name(meta_model(*m)),
{
    match m {
        Meta::Plain => Vec::new(),
        Meta::Single(n) => bytes_copy(n),
        Meta::Variadic(n) => bytes_copy(n),
    }
}

proof fn lemma_first_conflict_skip(ps: Seq<PatModel>, k: int)
    requires
        0 <= k <= ps.len(),
        forall|i: int| 0 <= i < k ==> !conflicts_before(ps, i),
    ensures
        first_conflict_from(ps, 0) == first_conflict_from(ps, k),
    decreases k,
{
    if k > 0 {
        lemma_first_conflict_skip(ps, k - 1);
        assert(first_conflict_from(ps, k - 1) == first_conflict_from(ps, k));
    }
}

/// A compiled pattern arena is well-formed whenever its fragment was.
proof fn lemma_pats_wf(ns: Seq<NodeModel>, psrc: Seq<u8>, e: Seq<u8>, src_len: int)
    requires
        arena_wf(ns, src_len),
    ensures
        pat_wf(pats_of(ns, psrc, e)),
        pats_of(ns, psrc, e).len() == ns.len(),
{
    let ps = pats_of(ns, psrc, e);
    assert forall|i: int| 0 <= i < ps.len() implies #[trigger] pat_node_wf(ps, i) by {
        assert(crate::tree::node_wf(ns, src_len, i));
        assert(ps[i].children == ns[i].children);
    }
}

/// Compiles a parsed fragment into a pattern, or reports the exact
/// failure that `spec_compile_pattern` names for it.
pub fn compile_pattern(frag: &Vec<TreeNode>, psrc: &Vec<u8>, e: &Vec<u8>) -> (r: Result<
    Pattern,
    PatternErr,
>)
    requires
        arena_wf(arena_model(frag@), psrc@.len() as int),
    ensures
        compile_result_model(r) == spec_compile_pattern(arena_model(frag@), psrc@, e@),
        r is Ok ==> pattern_wf(pattern_model(r->Ok_0)),
{
    let ghost am = arena_model(frag@);
    if frag.len() == 0 {
        return Err(PatternErr::Invalid);
    }
    if frag[0].children.len() == 0 {
        proof {
            assert(am[0] == crate::tree::node_model(frag@[0]));
        }
        return Err(PatternErr::Invalid);
    }
    proof {
        assert(am[0] == crate::tree::node_model(frag@[0]));
    }
    let ghost ps = pats_of(am, psrc@, e@);
    proof {
        lemma_pats_wf(am, psrc@, e@, psrc@.len() as int);
    }
    // Compile each fragment node.
    let mut nodes: Vec<PatNode> = Vec::new();
    let mut i: usize = 0;
    while i < frag.len()
        invariant
            i <= frag@.len(),
            am == arena_model(frag@),
            ps == pats_of(am, psrc@, e@),
            arena_wf(am, psrc@.len() as int),
            nodes@.len() == i,
            forall|j: int| 0 <= j < i ==> pat_node_model(#[trigger] nodes@[j]) == ps[j],
        decreases frag.len() - i,
    {
        let n = &frag[i];
        proof {
            assert(crate::tree::node_wf(am, psrc@.len() as int, i as int));
        }
        let text = bytes_slice(psrc, n.start, n.end);
        let meta = if n.children.len() == 0 {
            classify(&text, e)
        } else {
            Meta::Plain
        };
        let kids = crate::bytes::usizes_copy(&n.children);
        let kind = bytes_copy(&n.kind);
        nodes.push(PatNode { kind, text, children: kids, meta });
        i += 1;
    }
    proof {
        assert(pat_arena_model(nodes@) =~= ps);
    }
    // Find the pattern root below the grammar's wrapper nodes.
    let mut cur: usize = 0;
    loop
        invariant_except_break
            0 <= cur < nodes@.len(),
            am == arena_model(frag@),
            ps == pats_of(am, psrc@, e@),
            am.len() > 0,
            am[0].children.len() != 0,
            pat_arena_model(nodes@) == ps,
            nodes@.len() == ps.len(),
            pat_wf(ps),
            descend(ps, 0) == descend(ps, cur as int),
        ensures
            0 <= cur < nodes@.len(),
            am == arena_model(frag@),
            ps == pats_of(am, psrc@, e@),
            am.len() > 0,
            am[0].children.len() != 0,
            pat_arena_model(nodes@) == ps,
            nodes@.len() == ps.len(),
            pat_wf(ps),
            cur as int == descend(ps, 0),
        decreases nodes@.len() - cur,
    {
        proof {
            assert(pat_node_wf(ps, cur as int));
        }
        let single = if nodes[cur].children.len() == 1 {
            true
        } else if nodes[cur].children.len() == 2 {
            nodes[nodes[cur].children[1]].kind.len() == 0
        } else {
            false
        };
        if !single {
            proof {
                assert(!sole_child(ps, cur as int));
                assert(descend(ps, cur as int) == cur as int);
            }
            break;
        }
        proof {
            assert(sole_child(ps, cur as int));
        }
        cur = nodes[cur].children[0];
    }
    // A pattern whose significant node is an error node cannot be
    // parsed under the language's grammar.
    let lit_err: Vec<u8> = vec!['E' as u8, 'R' as u8, 'R' as u8, 'O' as u8, 'R' as u8];
    proof {
        assert(lit_err@ =~= error_kind());
    }
    if bytes_eq(&nodes[cur].kind, &lit_err) {
        return Err(PatternErr::Invalid);
    }
    let ghost rootg = cur as int;
    // Look for one capture name bound with both arities.
    let mut i: usize = 0;
    while i < nodes.len()
        invariant
            am == arena_model(frag@),
            ps == pats_of(am, psrc@, e@),
            am.len() > 0,
            am[0].children.len() != 0,
            rootg == descend(ps, 0),
            0 <= rootg < ps.len(),
            ps[rootg].kind != error_kind(),
            i <= nodes@.len(),
            pat_arena_model(nodes@) == ps,
            nodes@.len() == ps.len(),
            cur as int == rootg,
            forall|ii: int| 0 <= ii < i ==> !conflicts_before(ps, ii),
        decreases nodes.len() - i,
    {
        let mut j: usize = 0;
        while j < i
            invariant
                am == arena_model(frag@),
                ps == pats_of(am, psrc@, e@),
                am.len() > 0,
                am[0].children.len() != 0,
                rootg == descend(ps, 0),
                0 <= rootg < ps.len(),
                ps[rootg].kind != error_kind(),
                j <= i < nodes@.len(),
                pat_arena_model(nodes@) == ps,
                nodes@.len() == ps.len(),
                forall|ii: int| 0 <= ii < i ==> !conflicts_before(ps, ii),
                forall|jj: int| 0 <= jj < j ==> !conflicting(#[trigger] ps[jj].meta, ps[i as int].meta),
            decreases i - j,
        {
            if conflict_exec(&nodes[j].meta, &nodes[i].meta) {
                let name = meta_name_exec(&nodes[i].meta);
                proof {
                    assert(conflicting(ps[j as int].meta, ps[i as int].meta));
                    assert(conflicts_before(ps, i as int));
                    lemma_first_conflict_skip(ps, i as int);
                    assert(first_conflict_from(ps, i as int) == Some(meta_name(ps[i as int].meta)));
                }
                return Err(PatternErr::Duplicate(name));
            }
            j += 1;
        }
        proof {
            assert(!conflicts_before(ps, i as int));
        }
        i += 1;
    }
    proof {
        assert(forall|ii: int| 0 <= ii < ps.len() ==> !conflicts_before(ps, ii));
        lemma_first_conflict_skip(ps, ps.len() as int);
        assert(first_conflict_from(ps, 0) is None);
    }
    Ok(Pattern { nodes, root: cur })
}

/// `e` written `n` times over.
pub open spec fn rep_seq(e: Seq<u8>, n: int) -> Seq<u8>
    decreases n,
{
    if n <= 0 {
        Seq::empty()
    } else {
        e + rep_seq(e, n - 1)
    }
}

proof fn lemma_rep_seq_snoc(e: Seq<u8>, n: int)
    requires
        n >= 0,
    ensures
        rep_seq(e, n + 1) == rep_seq(e, n) + e,
    decreases n,
{
    if n == 0 {
        assert(rep_seq(e, 1) =~= rep_seq(e, 0) + e);
    } else {
        lemma_rep_seq_snoc(e, n - 1);
        assert(e + (rep_seq(e, n - 1) + e) =~= (e + rep_seq(e, n - 1)) + e);
    }
}

/// What a run of `run` placeholder signs becomes: the language's
/// placeholder bytes where the run marks a slot, plain `$` otherwise.
pub open spec fn sigil_run(e: Seq<u8>, run: int, rep: bool) -> Seq<u8> {
    if rep {
        rep_seq(e, run)
    } else {
        rep_seq(seq!['$' as u8], run)
    }
}

/// The pattern text from position `i` on, with `run` pending `$` signs,
/// rewritten as the parser's own registry rewrites it: a `$` run is
/// replaced by the language's placeholder bytes when an upper-case
/// letter or `_` follows (a named slot) or when the run is exactly three
/// (an anonymous variadic slot), and kept as plain `$` otherwise.
pub open spec fn pp_from(q: Seq<u8>, e: Seq<u8>, i: int, run: int) -> Seq<u8>
    decreases q.len() - i,
{
    if i < 0 || i >= q.len() {
        sigil_run(e, run, run == 3)
    } else if q[i] == '$' as u8 {
        pp_from(q, e, i + 1, run + 1)
    } else {
        sigil_run(
            e,
            run,
            ('A' as u8 <= q[i] && q[i] <= 'Z' as u8) || q[i] == '_' as u8 || run == 3,
        ) + seq![q[i]] + pp_from(q, e, i + 1, 0)
    }
}

/// The whole pattern text, rewritten for the language's grammar.
pub open spec fn preprocess_pattern(q: Seq<u8>, e: Seq<u8>) -> Seq<u8> {
    pp_from(q, e, 0, 0)
}

/// Appends one rewritten `$` run.
fn push_sigils(acc: Vec<u8>, e: &Vec<u8>, run: usize, rep: bool) -> (r: Vec<u8>)
    ensures
        r@ == acc@ + sigil_run(e@, run as int, rep),
{
    let ghost a0 = acc@;
    let mut r = acc;
    proof {
        assert(r@ =~= a0 + sigil_run(e@, 0, rep));
    }
    let mut k: usize = 0;
    while k < run
        invariant
            k <= run,
            r@ == a0 + sigil_run(e@, k as int, rep),
        decreases run - k,
    {
        let ghost rk = r@;
        if rep {
            let mut j: usize = 0;
            while j < e.len()
                invariant
                    j <= e@.len(),
                    r@ == rk + e@.subrange(0, j as int),
                decreases e.len() - j,
            {
                r.push(e[j]);
                proof {
                    assert(r@ =~= rk + e@.subrange(0, j + 1));
                }
                j += 1;
            }
            proof {
                lemma_rep_seq_snoc(e@, k as int);
                assert(rk + e@.subrange(0, e@.len() as int) =~= a0 + sigil_run(e@, k + 1, rep));
            }
        } else {
            r.push('$' as u8);
            proof {
                lemma_rep_seq_snoc(seq!['$' as u8], k as int);
                assert(r@ =~= a0 + sigil_run(e@, k + 1, rep));
            }
        }
        k += 1;
    }
    r
}

/// Rewrites a pattern text for the language's grammar, replacing each
/// slot's `$` run with the language's placeholder bytes `e`.
pub fn preprocess(q: &Vec<u8>, e: &Vec<u8>) -> (r: Vec<u8>)
    ensures
        r@ == preprocess_pattern(q@, e@),
{
    let mut acc: Vec<u8> = Vec::new();
    let mut run: usize = 0;
    let mut i: usize = 0;
    proof {
        assert(acc@ + pp_from(q@, e@, 0, 0) =~= pp_from(q@, e@, 0, 0));
    }
    while i < q.len()
        invariant
            i <= q@.len(),
            run <= i,
            preprocess_pattern(q@, e@) == acc@ + pp_from(q@, e@, i as int, run as int),
        decreases q.len() - i,
    {
        let b = q[i];
        if b == '$' as u8 {
            run += 1;
        } else {
            let rep = ('A' as u8 <= b && b <= 'Z' as u8) || b == '_' as u8 || run == 3;
            let ghost apre = acc@;
            acc = push_sigils(acc, e, run, rep);
            acc.push(b);
            proof {
                assert(acc@ =~= apre + (sigil_run(e@, run as int, rep) + seq![b]));
                assert(apre + (sigil_run(e@, run as int, rep) + seq![b] + pp_from(
                    q@,
                    e@,
                    i + 1,
                    0,
                )) =~= acc@ + pp_from(q@, e@, i + 1, 0));
            }
            run = 0;
        }
        i += 1;
    }
    let r = push_sigils(acc, e, run, run == 3);
    proof {
        assert(pp_from(q@, e@, q@.len() as int, run as int) == sigil_run(
            e@,
            run as int,
            run == 3,
        ));
    }
    r
}

} // verus!
