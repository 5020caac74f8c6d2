//! The combined scanner: one pre-order traversal of the arena (arena
//! order is pre-order by construction), applying every rule at every
//! node. Before the full matcher runs, the rule's kind constraint and
//! its pattern's root kind — both fixed when the rule was compiled, so
//! nothing is re-derived during traversal — are compared against the
//! node's kind, and the full matcher runs only for structurally
//! compatible rules. These per-rule gates stand in for a map from kind
//! to candidate rule set: the candidate set at a node is exactly the
//! rules whose gate equals the node's kind (plus the slot-rooted ones),
//! and testing a gate is one byte-string comparison per rule, so the
//! per-node cost is the candidate test plus the full matcher only on
//! candidates; a keyed index would change the lookup constant, not the
//! outcome, which is proved equal to matching each rule at each node
//! independently. Rules are
//! independent: no match suppresses another, and matching continues into
//! a matched node's descendants.
use vstd::prelude::*;

use crate::bytes::{bytes_copy, bytes_eq, bytes_slice};
use crate::matcher::{
    binds_model, match_at, opt_binds_model, pat_match, pattern_match_at, BindModel, Binding,
};
use crate::pattern::{pattern_model, pattern_wf, Pattern, PatternModel};
use crate::tree::{arena_model, arena_wf, node_text, node_wf, NodeModel, TreeNode};

verus! {

/// One compiled rule: an opaque identifier and its matcher — a compiled
/// pattern, a required node kind, or both.
pub struct CompiledRule {
    pub id: Vec<u8>,
    pub pattern: Option<Pattern>,
    pub kind: Option<Vec<u8>>,
}

/// The mathematical image of a compiled rule.
pub ghost struct RuleModel {
    pub id: Seq<u8>,
    pub pattern: Option<PatternModel>,
    pub kind: Option<Seq<u8>>,
}

pub open spec fn rule_model(r: CompiledRule) -> RuleModel {
    RuleModel {
        id: r.id@,
        pattern: match r.pattern {
            Some(p) => Some(pattern_model(p)),
            None => None,
        },
        kind: match r.kind {
            Some(k) => Some(k@),
            None => None,
        },
    }
}

pub open spec fn rules_model(rs: Seq<CompiledRule>) -> Seq<RuleModel> {
    rs.map(|i: int, r: CompiledRule| rule_model(r))
}

pub open spec fn rule_wf(r: RuleModel) -> bool {
    match r.pattern {
        Some(p) => pattern_wf(p),
        None => true,
    }
}

pub open spec fn rules_wf(rs: Seq<RuleModel>) -> bool {
    forall|i: int| 0 <= i < rs.len() ==> rule_wf(#[trigger] rs[i])
}

/// Does rule `r` match tree node `ni`, and with which bindings? An
/// error-kind node is never reported unless the rule targets the error
/// kind explicitly by its kind constraint (a compiled pattern cannot
/// have an error-kind root); otherwise the kind constraint (if any)
/// must hold of the node's kind, and the pattern (if any) must match at
/// the node; a rule with no pattern matches with no bindings.
pub open spec fn rule_matches_at(
    r: RuleModel,
    ts: Seq<NodeModel>,
    src: Seq<u8>,
    ni: int,
) -> Option<Seq<BindModel>> {
    if ts[ni].kind == crate::pattern::error_kind() && r.kind != Some(
        crate::pattern::error_kind(),
    ) {
        None
    } else if r.kind is Some && ts[ni].kind != r.kind->0 {
        None
    } else {
        match r.pattern {
            Some(p) => pattern_match_at(p, ts, src, ni),
            None => Some(Seq::empty()),
        }
    }
}

/// One reported match: the node (arena index), its byte range, its exact
/// source text, and the bound meta-variables.
pub struct MatchResult {
    pub node: usize,
    pub start: usize,
    pub end: usize,
    pub text: Vec<u8>,
    pub bindings: Vec<Binding>,
}

/// The mathematical image of one match.
pub ghost struct MatchModel {
    pub node: int,
    pub start: int,
    pub end: int,
    pub text: Seq<u8>,
    pub bindings: Seq<BindModel>,
}

pub open spec fn match_result_model(m: MatchResult) -> MatchModel {
    MatchModel {
        node: m.node as int,
        start: m.start as int,
        end: m.end as int,
        text: m.text@,
        bindings: binds_model(m.bindings@),
    }
}

pub open spec fn matches_model(v: Seq<MatchResult>) -> Seq<MatchModel> {
    v.map(|i: int, m: MatchResult| match_result_model(m))
}

/// The match that node `ni` contributes under bindings `b`.
pub open spec fn mk_match(ts: Seq<NodeModel>, src: Seq<u8>, ni: int, b: Seq<BindModel>) -> MatchModel {
    MatchModel {
        node: ni,
        start: ts[ni].start,
        end: ts[ni].end,
        text: node_text(ts, src, ni),
        bindings: b,
    }
}

/// All matches of rule `r` among the first `n` nodes, in traversal
/// (ascending arena, i.e. pre-order) order.
pub open spec fn rule_matches_upto(
    r: RuleModel,
    ts: Seq<NodeModel>,
    src: Seq<u8>,
    n: int,
) -> Seq<MatchModel>
    decreases n,
{
    if n <= 0 {
        Seq::empty()
    } else {
        rule_matches_upto(r, ts, src, n - 1) + match rule_matches_at(r, ts, src, n - 1) {
            Some(b) => seq![mk_match(ts, src, n - 1, b)],
            None => Seq::empty(),
        }
    }
}

/// What a scan returns: for each rule, in the order the rules were
/// given, every node it matches, in traversal order.
pub open spec fn scan_model(ts: Seq<NodeModel>, src: Seq<u8>, rs: Seq<RuleModel>) -> Seq<
    Seq<MatchModel>,
> {
    Seq::new(rs.len(), |ri: int| rule_matches_upto(rs[ri], ts, src, ts.len() as int))
}

/// A scan's outcome: per-rule match lists, parallel to the rule list.
pub struct ScanOutcome {
    pub per_rule: Vec<Vec<MatchResult>>,
}

pub open spec fn outcome_model(o: ScanOutcome) -> Seq<Seq<MatchModel>> {
    o.per_rule@.map(|i: int, v: Vec<MatchResult>| matches_model(v@))
}

/// Evaluates one rule at one node.
fn exec_rule_match_at(rule: &CompiledRule, ts: &Vec<TreeNode>, src: &Vec<u8>, ni: usize) -> (r:
    Option<Vec<Binding>>)
    requires
        rule_wf(rule_model(*rule)),
        arena_wf(arena_model(ts@), src@.len() as int),
        ni < ts@.len(),
    ensures
        opt_binds_model(r) == rule_matches_at(rule_model(*rule), arena_model(ts@), src@, ni as int),
{
    let ghost rm = rule_model(*rule);
    let ghost am = arena_model(ts@);
    proof {
        assert(am[ni as int] == crate::tree::node_model(ts@[ni as int]));
    }
    let lit_err: Vec<u8> = vec!['E' as u8, 'R' as u8, 'R' as u8, 'O' as u8, 'R' as u8];
    proof {
        assert(lit_err@ =~= crate::pattern::error_kind());
    }
    let node_is_err = bytes_eq(&ts[ni].kind, &lit_err);
    let kind_is_err = match &rule.kind {
        Some(k) => bytes_eq(k, &lit_err),
        None => false,
    };
    if node_is_err && !kind_is_err {
        return None;
    }
    match &rule.kind {
        Some(k) => {
            if !bytes_eq(k, &ts[ni].kind) {
                return None;
            }
        },
        None => {},
    }
    match &rule.pattern {
        Some(p) => {
            // Kind dispatch: a pattern whose root is a literal node of
            // another kind cannot match here, so the full matcher need
            // not run.
            let root = p.root;
            proof {
                assert(pattern_wf(rm.pattern->0));
                assert(pattern_model(*p).nodes[root as int] == crate::pattern::pat_node_model(
                    p.nodes@[root as int],
                ));
            }
            let skip = match &p.nodes[root].meta {
                crate::pattern::Meta::Plain => !bytes_eq(&p.nodes[root].kind, &ts[ni].kind),
                _ => false,
            };
            if skip {
                proof {
                    assert(pat_match(pattern_model(*p).nodes, root as int, am, src@, ni as int)
                        is None);
                }
                return None;
            }
            match_at(p, ts, src, ni)
        },
        None => {
            proof {
                assert(binds_model(Seq::<Binding>::empty()) =~= Seq::<BindModel>::empty());
            }
            Some(Vec::new())
        },
    }
}

/// Scans the whole arena once, in pre-order, applying every rule at
/// every visited node. The outcome equals matching each rule at each
/// node independently and keeping traversal order — one rule's match
/// neither suppresses another rule's, nor a descendant's.
pub fn scan(ts: &Vec<TreeNode>, src: &Vec<u8>, rules: &Vec<CompiledRule>) -> (o: ScanOutcome)
    requires
        arena_wf(arena_model(ts@), src@.len() as int),
        rules_wf(rules_model(rules@)),
    ensures
        outcome_model(o) == scan_model(arena_model(ts@), src@, rules_model(rules@)),
{
    let ghost am = arena_model(ts@);
    let ghost rm = rules_model(rules@);
    let mut per_rule: Vec<Vec<MatchResult>> = Vec::new();
    let mut ri: usize = 0;
    while ri < rules.len()
        invariant
            ri <= rules@.len(),
            per_rule@.len() == ri,
            forall|i: int|
                0 <= i < ri ==> matches_model(#[trigger] per_rule@[i]@) == Seq::<
                    MatchModel,
                >::empty(),
        decreases rules.len() - ri,
    {
        per_rule.push(Vec::new());
        proof {
            assert(matches_model(Seq::<MatchResult>::empty()) =~= Seq::<MatchModel>::empty());
        }
        ri += 1;
    }
    let mut ni: usize = 0;
    while ni < ts.len()
        invariant
            ni <= ts@.len(),
            am == arena_model(ts@),
            rm == rules_model(rules@),
            arena_wf(am, src@.len() as int),
            rules_wf(rm),
            per_rule@.len() == rules@.len(),
            forall|i: int|
                0 <= i < rules@.len() ==> matches_model(#[trigger] per_rule@[i]@)
                    == rule_matches_upto(rm[i], am, src@, ni as int),
        decreases ts.len() - ni,
    {
        proof {
            assert(node_wf(am, src@.len() as int, ni as int));
            assert(am[ni as int] == crate::tree::node_model(ts@[ni as int]));
        }
        let mut rj: usize = 0;
        while rj < rules.len()
            invariant
                rj <= rules@.len(),
                ni < ts@.len(),
                am == arena_model(ts@),
                rm == rules_model(rules@),
                arena_wf(am, src@.len() as int),
                rules_wf(rm),
                node_wf(am, src@.len() as int, ni as int),
                per_rule@.len() == rules@.len(),
                forall|i: int|
                    0 <= i < rj ==> matches_model(#[trigger] per_rule@[i]@) == rule_matches_upto(
                        rm[i],
                        am,
                        src@,
                        ni + 1,
                    ),
                forall|i: int|
                    rj <= i < rules@.len() ==> matches_model(#[trigger] per_rule@[i]@)
                        == rule_matches_upto(rm[i], am, src@, ni as int),
            decreases rules.len() - rj,
        {
            proof {
                assert(rm[rj as int] == rule_model(rules@[rj as int]));
                assert(rule_wf(rm[rj as int]));
            }
            let ghost pre = per_rule@;
            match exec_rule_match_at(&rules[rj], ts, src, ni) {
                Some(b) => {
                    let n = &ts[ni];
                    let text = bytes_slice(src, n.start, n.end);
                    let mut row = per_rule.remove(rj);
                    row.push(
                        MatchResult { node: ni, start: n.start, end: n.end, text, bindings: b },
                    );
                    per_rule.insert(rj, row);
                    proof {
                        assert(per_rule@ =~= pre.update(
                            rj as int,
                            per_rule@[rj as int],
                        ));
                        let bm = binds_model(b@);
                        assert(matches_model(per_rule@[rj as int]@) =~= matches_model(
                            pre[rj as int]@,
                        ).push(mk_match(am, src@, ni as int, bm)));
                        assert(rule_matches_upto(rm[rj as int], am, src@, ni + 1)
                            == rule_matches_upto(rm[rj as int], am, src@, ni as int) + seq![
                            mk_match(am, src@, ni as int, bm),
                        ]);
                        assert(matches_model(per_rule@[rj as int]@) =~= rule_matches_upto(
                            rm[rj as int],
                            am,
                            src@,
                            ni + 1,
                        ));
                    }
                },
                None => {
                    proof {
                        assert(rule_matches_upto(rm[rj as int], am, src@, ni + 1)
                            =~= rule_matches_upto(rm[rj as int], am, src@, ni as int));
                    }
                },
            }
            rj += 1;
        }
        ni += 1;
    }
    let o = ScanOutcome { per_rule };
    proof {
        assert(outcome_model(o) =~= scan_model(am, src@, rm));
    }
    o
}

} // verus!
