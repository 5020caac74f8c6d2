//! The library's stated laws, proved once and for all over the
//! mathematical models that the executable contracts use.
use vstd::prelude::*;

use vstd::set_lib::set_int_range;

use crate::api::{
    rows_of_outcome, spec_compile_rules_with, spec_match_ast_rule_with, RuleDefModel, RowModel,
    ScanErrorModel,
};
use crate::lang::lang_of;
use crate::matcher::{
    kids_ok, list_match, variadic_match, BindModel, CapModel,
};
use crate::pattern::{meta_name, pat_wf, PatModel};
use crate::scanner::{rule_matches_at, rule_matches_upto, scan_model, RuleModel};
use crate::tree::{arena_wf, node_text, node_wf, NodeModel};

verus! {

/// Every match that a scan reports carries the matched node's own byte
/// range and its exact text, and names a node that was visited.
pub proof fn lemma_rule_matches_upto_props(
    r: RuleModel,
    ts: Seq<NodeModel>,
    src: Seq<u8>,
    n: int,
)
    requires
        arena_wf(ts, src.len() as int),
        0 <= n <= ts.len(),
    ensures
        forall|mi: int|
            0 <= mi < rule_matches_upto(r, ts, src, n).len() ==> {
                &&& 0 <= (#[trigger] rule_matches_upto(r, ts, src, n)[mi]).node < n
                &&& rule_matches_upto(r, ts, src, n)[mi].start == ts[rule_matches_upto(
                    r,
                    ts,
                    src,
                    n,
                )[mi].node].start
                &&& rule_matches_upto(r, ts, src, n)[mi].end == ts[rule_matches_upto(
                    r,
                    ts,
                    src,
                    n,
                )[mi].node].end
                &&& rule_matches_upto(r, ts, src, n)[mi].text == node_text(
                    ts,
                    src,
                    rule_matches_upto(r, ts, src, n)[mi].node,
                )
                &&& 0 <= rule_matches_upto(r, ts, src, n)[mi].start <= rule_matches_upto(
                    r,
                    ts,
                    src,
                    n,
                )[mi].end <= src.len()
            },
    decreases n,
{
    if n > 0 {
        lemma_rule_matches_upto_props(r, ts, src, n - 1);
        assert(node_wf(ts, src.len() as int, n - 1));
        let prev = rule_matches_upto(r, ts, src, n - 1);
        let cur = rule_matches_upto(r, ts, src, n);
        assert forall|mi: int|
            0 <= mi < cur.len() implies {
            &&& 0 <= (#[trigger] cur[mi]).node < n
            &&& cur[mi].start == ts[cur[mi].node].start
            &&& cur[mi].end == ts[cur[mi].node].end
            &&& cur[mi].text == node_text(ts, src, cur[mi].node)
            &&& 0 <= cur[mi].start <= cur[mi].end <= src.len()
        } by {
            if mi < prev.len() {
                assert(cur[mi] == prev[mi]);
            } else {
                assert(cur[mi] == crate::scanner::mk_match(
                    ts,
                    src,
                    n - 1,
                    rule_matches_at(r, ts, src, n - 1)->0,
                ));
            }
        }
    }
}

/// Every match of a scan outcome stays within the source's bounds.
pub proof fn lemma_scan_matches_bounded(ts: Seq<NodeModel>, src: Seq<u8>, rs: Seq<RuleModel>)
    requires
        arena_wf(ts, src.len() as int),
    ensures
        crate::api::outcome_bounded(scan_model(ts, src, rs), src.len() as int),
{
    assert forall|i: int, j: int|
        0 <= i < scan_model(ts, src, rs).len() && 0 <= j < scan_model(ts, src, rs)[i].len()
        implies 0 <= (#[trigger] scan_model(ts, src, rs)[i][j]).start <= scan_model(
        ts,
        src,
        rs,
    )[i][j].end <= src.len() as int by {
        lemma_rule_matches_upto_props(rs[i], ts, src, ts.len() as int);
    }
}

/// The combined scan equals matching each rule at each node
/// independently: rule `ri`'s reported list is exactly the nodes it
/// matches, each with its bindings, in traversal order — no rule
/// suppresses another, and a parent's match suppresses no descendant's.
pub proof fn lemma_combined_scan_is_pointwise(
    ts: Seq<NodeModel>,
    src: Seq<u8>,
    rs: Seq<RuleModel>,
    ri: int,
)
    requires
        0 <= ri < rs.len(),
    ensures
        scan_model(ts, src, rs).len() == rs.len(),
        scan_model(ts, src, rs)[ri] == rule_matches_upto(rs[ri], ts, src, ts.len() as int),
{
}

/// Scanning is deterministic relative to the parse: two results of
/// identical inputs under identical parse outcomes are one. The parse
/// itself is the one outside, possibly environment-dependent step (see
/// `crate::tree`): within a fixed environment tree-sitter repeats the
/// same outcome, so re-scanning identical inputs repeats the same
/// result there, but that last step is a fact about the outside code,
/// not something stated of it.
pub proof fn lemma_scan_deterministic(
    src: Seq<u8>,
    language: Seq<u8>,
    rds: Seq<RuleDefModel>,
    frags: Seq<Seq<crate::tree::NodeModel>>,
    ts: Seq<NodeModel>,
    r1: Result<Seq<RowModel>, ScanErrorModel>,
    r2: Result<Seq<RowModel>, ScanErrorModel>,
)
    requires
        r1 == spec_match_ast_rule_with(src, language, rds, frags, ts),
        r2 == spec_match_ast_rule_with(src, language, rds, frags, ts),
    ensures
        r1 == r2,
{
}

/// An empty rule list scans to an empty outcome and to no rows at all,
/// whatever the source.
pub proof fn lemma_empty_rules_empty_rows(ts: Seq<NodeModel>, src: Seq<u8>)
    ensures
        scan_model(ts, src, Seq::<RuleModel>::empty()).len() == 0,
        rows_of_outcome(src, scan_model(ts, src, Seq::<RuleModel>::empty()), 0)
            == Seq::<RowModel>::empty(),
{
}

/// Whatever compiling the rule list reports, it is never the language's
/// failure: that failure has its own, earlier check.
proof fn lemma_compile_rules_err_is_rule_error(
    rds: Seq<RuleDefModel>,
    frags: Seq<Seq<NodeModel>>,
    e: Seq<u8>,
    i: int,
)
    ensures
        spec_compile_rules_with(rds, frags, e, i) is Err ==> !(spec_compile_rules_with(
            rds,
            frags,
            e,
            i,
        )->Err_0 is UnsupportedLanguage),
    decreases rds.len() - i,
{
    if 0 <= i < rds.len() {
        lemma_compile_rules_err_is_rule_error(rds, frags, e, i + 1);
    }
}

/// A scan request fails with `UnsupportedLanguage` exactly when the
/// language name is not in the registry — before any rule is looked at,
/// and never for any other reason, whatever the parser returned.
pub proof fn lemma_unsupported_language_exactly(
    src: Seq<u8>,
    language: Seq<u8>,
    rds: Seq<RuleDefModel>,
    frags: Seq<Seq<NodeModel>>,
    ts: Seq<NodeModel>,
)
    ensures
        (spec_match_ast_rule_with(src, language, rds, frags, ts) == Err::<
            Seq<RowModel>,
            ScanErrorModel,
        >(ScanErrorModel::UnsupportedLanguage(language))) <==> lang_of(language) is None,
        (spec_match_ast_rule_with(src, language, rds, frags, ts) matches Err(e)
            && e is UnsupportedLanguage) <==> lang_of(language) is None,
{
    if lang_of(language) is Some {
        let l = lang_of(language)->0;
        lemma_compile_rules_err_is_rule_error(rds, frags, crate::lang::expando_of(l), 0);
    }
}

/// A request with an empty rule list succeeds with no rows at all,
/// whatever the source and whatever the parser returned, whenever the
/// language is known.
pub proof fn lemma_empty_rule_list_no_rows(
    src: Seq<u8>,
    language: Seq<u8>,
    rds: Seq<RuleDefModel>,
    frags: Seq<Seq<NodeModel>>,
    ts: Seq<NodeModel>,
)
    requires
        rds.len() == 0,
        lang_of(language) is Some,
    ensures
        spec_match_ast_rule_with(src, language, rds, frags, ts) == Ok::<
            Seq<RowModel>,
            ScanErrorModel,
        >(Seq::empty()),
{
    let e = crate::lang::expando_of(lang_of(language)->0);
    assert(spec_compile_rules_with(rds, frags, e, 0) == Ok::<
        Seq<crate::scanner::RuleModel>,
        ScanErrorModel,
    >(Seq::empty()));
    lemma_empty_rules_empty_rows(ts, src);
}

/// A variadic slot standing last among the pattern children consumes,
/// from any starting width `k`, exactly the remaining siblings: the
/// leftmost width whose remainder matches is the one consuming them all.
proof fn lemma_variadic_tail_from(
    ps: Seq<PatModel>,
    kids: Seq<int>,
    kpos: int,
    ts: Seq<NodeModel>,
    src: Seq<u8>,
    cs: Seq<int>,
    ci: int,
    k: int,
)
    requires
        pat_wf(ps),
        kids_ok(ps, kids),
        0 <= kpos,
        kpos == kids.len() - 1,
        ps[kids[kpos]].meta is Variadic,
        0 <= ci,
        0 <= k,
        ci + k <= cs.len(),
    ensures
        variadic_match(ps, kids, kpos, ts, src, cs, ci, k) == Some(
            seq![
                BindModel {
                    name: meta_name(ps[kids[kpos]].meta),
                    cap: CapModel::Many(cs.subrange(ci, cs.len() as int)),
                },
            ],
        ),
    decreases cs.len() - ci - k,
{
    if ci + k == cs.len() {
        assert(list_match(ps, kids, kpos + 1, ts, src, cs, ci + k) == Some(
            Seq::<BindModel>::empty(),
        ));
        assert(seq![
            BindModel {
                name: meta_name(ps[kids[kpos]].meta),
                cap: CapModel::Many(cs.subrange(ci, ci + k)),
            },
        ] + Seq::<BindModel>::empty() =~= seq![
            BindModel {
                name: meta_name(ps[kids[kpos]].meta),
                cap: CapModel::Many(cs.subrange(ci, cs.len() as int)),
            },
        ]);
    } else {
        assert(list_match(ps, kids, kpos + 1, ts, src, cs, ci + k) is None);
        lemma_variadic_tail_from(ps, kids, kpos, ts, src, cs, ci, k + 1);
    }
}

/// A variadic slot at the end of the pattern children, facing `n`
/// remaining siblings, has exactly `n + 1` candidate split widths
/// (`0` to `n`); every width but `n` fails the remainder check, so the
/// leftmost satisfying split is the one consuming all `n` siblings —
/// and that is what the engine selects, capturing them in order.
pub proof fn lemma_variadic_tail_splits(
    ps: Seq<PatModel>,
    kids: Seq<int>,
    kpos: int,
    ts: Seq<NodeModel>,
    src: Seq<u8>,
    cs: Seq<int>,
    ci: int,
)
    requires
        pat_wf(ps),
        kids_ok(ps, kids),
        0 <= kpos,
        kpos == kids.len() - 1,
        ps[kids[kpos]].meta is Variadic,
        0 <= ci <= cs.len(),
    ensures
        set_int_range(0, cs.len() - ci + 1).len() == cs.len() - ci + 1,
        set_int_range(0, cs.len() - ci + 1).contains(cs.len() - ci),
        forall|k: int|
            0 <= k < cs.len() - ci ==> (#[trigger] list_match(ps, kids, kpos + 1, ts, src, cs, ci
                + k)) is None,
        list_match(ps, kids, kpos + 1, ts, src, cs, cs.len() as int) == Some(
            Seq::<BindModel>::empty(),
        ),
        list_match(ps, kids, kpos, ts, src, cs, ci) == Some(
            seq![
                BindModel {
                    name: meta_name(ps[kids[kpos]].meta),
                    cap: CapModel::Many(cs.subrange(ci, cs.len() as int)),
                },
            ],
        ),
{
    vstd::set_lib::lemma_int_range(0, cs.len() - ci + 1);
    lemma_variadic_tail_from(ps, kids, kpos, ts, src, cs, ci, 0);
}

/// Round trip: each reported match's text is exactly the source's byte
/// slice at the match's own range — no trimming, no reformatting.
pub proof fn lemma_match_text_round_trip(
    ts: Seq<NodeModel>,
    src: Seq<u8>,
    rs: Seq<RuleModel>,
    ri: int,
    mi: int,
)
    requires
        arena_wf(ts, src.len() as int),
        0 <= ri < rs.len(),
        0 <= mi < scan_model(ts, src, rs)[ri].len(),
    ensures
        scan_model(ts, src, rs)[ri][mi].text == src.subrange(
            scan_model(ts, src, rs)[ri][mi].start,
            scan_model(ts, src, rs)[ri][mi].end,
        ),
{
    lemma_rule_matches_upto_props(rs[ri], ts, src, ts.len() as int);
}

} // verus!
