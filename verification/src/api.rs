//! The entry point: from source text, a language name and rule
//! definitions to reported rows, or to the exact error. Errors are
//! checked in a fixed order: the language first (before any parsing),
//! then each rule in the order given; a bad rule fails the whole request
//! rather than being skipped silently. A rule is a pattern and/or a
//! required node kind; other rule forms of the wider ecosystem
//! (relational, composite, regex) are out of this library's scope and
//! must be refused before they reach it.
//!
//! The contract of `match_ast_rule` is stated relative to the parser's
//! outcome: parsing is an outside, possibly environment-dependent step
//! (see `crate::tree`), so the `ensures` says that some parse outcomes
//! exist for which the result equals the verified pipeline applied to
//! them — every step after parsing is pinned exactly. Within one fixed
//! environment tree-sitter behaves deterministically, so re-scanning
//! identical inputs repeats the same outcome in practice.
use vstd::prelude::*;

use crate::bytes::bytes_copy;
use crate::lang::{canonical_name, canonical_of, expando_bytes, expando_of, lang_of, language_of};
use crate::pattern::{
    compile_pattern, preprocess, preprocess_pattern, spec_compile_pattern, Pattern, PatternErr,
    PatternErrModel,
};
use crate::position::{col_of, line_of, to_position};
use crate::scanner::{
    matches_model, outcome_model, rule_model, rule_wf, rules_model, rules_wf, scan, scan_model,
    CompiledRule, MatchModel, RuleModel, ScanOutcome,
};
use crate::tree::{arena_model, arena_wf, parse_source, NodeModel};

verus! {

/// One rule as the caller hands it in: an opaque identifier, and a
/// pattern text and/or a required node kind.
pub struct RuleDef {
    pub id: Vec<u8>,
    pub pattern: Option<Vec<u8>>,
    pub kind: Option<Vec<u8>>,
}

/// The mathematical image of a rule definition.
pub ghost struct RuleDefModel {
    pub id: Seq<u8>,
    pub pattern: Option<Seq<u8>>,
    pub kind: Option<Seq<u8>>,
}

pub open spec fn rule_def_model(rd: RuleDef) -> RuleDefModel {
    RuleDefModel {
        id: rd.id@,
        pattern: match rd.pattern {
            Some(p) => Some(p@),
            None => None,
        },
        kind: match rd.kind {
            Some(k) => Some(k@),
            None => None,
        },
    }
}

pub open spec fn rule_defs_model(rds: Seq<RuleDef>) -> Seq<RuleDefModel> {
    rds.map(|i: int, rd: RuleDef| rule_def_model(rd))
}

/// Why a whole scan request fails. Every failure carries the offending
/// language name or rule identifier.
#[derive(Debug)]
pub enum ScanError {
    /// The language name is not in the closed registry.
    UnsupportedLanguage(Vec<u8>),
    /// A rule carries neither a pattern nor a kind (rule id).
    MalformedRuleInput(Vec<u8>),
    /// A rule's pattern text does not parse cleanly under the language's
    /// grammar (rule id).
    InvalidPattern(Vec<u8>),
    /// A rule binds one capture name with both arities (rule id, name).
    DuplicateMetaVariable(Vec<u8>, Vec<u8>),
}

/// The mathematical image of a scan failure.
pub ghost enum ScanErrorModel {
    UnsupportedLanguage(Seq<u8>),
    MalformedRuleInput(Seq<u8>),
    InvalidPattern(Seq<u8>),
    DuplicateMetaVariable(Seq<u8>, Seq<u8>),
}

pub open spec fn scan_error_model(e: ScanError) -> ScanErrorModel {
    match e {
        ScanError::UnsupportedLanguage(s) => ScanErrorModel::UnsupportedLanguage(s@),
        ScanError::MalformedRuleInput(s) => ScanErrorModel::MalformedRuleInput(s@),
        ScanError::InvalidPattern(s) => ScanErrorModel::InvalidPattern(s@),
        ScanError::DuplicateMetaVariable(s, n) => ScanErrorModel::DuplicateMetaVariable(s@, n@),
    }
}

/// One reported row: the match's exact text and its zero-based
/// line/column span.
pub struct Row {
    pub text: Vec<u8>,
    pub start_line: usize,
    pub start_col: usize,
    pub end_line: usize,
    pub end_col: usize,
}

/// The mathematical image of one row.
pub ghost struct RowModel {
    pub text: Seq<u8>,
    pub start_line: int,
    pub start_col: int,
    pub end_line: int,
    pub end_col: int,
}

pub open spec fn row_model(r: Row) -> RowModel {
    RowModel {
        text: r.text@,
        start_line: r.start_line as int,
        start_col: r.start_col as int,
        end_line: r.end_line as int,
        end_col: r.end_col as int,
    }
}

pub open spec fn rows_model(v: Seq<Row>) -> Seq<RowModel> {
    v.map(|i: int, r: Row| row_model(r))
}

/// The row a match is reported as: its text, and the line/column of its
/// two byte offsets.
pub open spec fn row_of(src: Seq<u8>, m: MatchModel) -> RowModel {
    RowModel {
        text: m.text,
        start_line: line_of(src, m.start),
        start_col: col_of(src, m.start),
        end_line: line_of(src, m.end),
        end_col: col_of(src, m.end),
    }
}

/// The rows of one rule's matches, from position `j` on, in match order.
pub open spec fn rows_of_matches(src: Seq<u8>, ms: Seq<MatchModel>, j: int) -> Seq<RowModel>
    decreases ms.len() - j,
{
    if j < 0 || j >= ms.len() {
        Seq::empty()
    } else {
        seq![row_of(src, ms[j])] + rows_of_matches(src, ms, j + 1)
    }
}

/// The rows of a whole outcome, rule-then-match order: all of the first
/// rule's matches, then the second's, and so on.
pub open spec fn rows_of_outcome(src: Seq<u8>, o: Seq<Seq<MatchModel>>, i: int) -> Seq<RowModel>
    decreases o.len() - i,
{
    if i < 0 || i >= o.len() {
        Seq::empty()
    } else {
        rows_of_matches(src, o[i], 0) + rows_of_outcome(src, o, i + 1)
    }
}

/// What compiling one rule definition yields, given `frag`, the arena
/// the parser returned for the rule's rewritten pattern text (unused
/// for a rule without a pattern): the pattern text is rewritten for the
/// language's grammar (see `crate::pattern::preprocess_pattern`) and
/// compiled against that fragment.
pub open spec fn spec_compile_rule_with(
    rd: RuleDefModel,
    frag: Seq<NodeModel>,
    e: Seq<u8>,
) -> Result<RuleModel, ScanErrorModel> {
    if rd.pattern is None && rd.kind is None {
        Err(ScanErrorModel::MalformedRuleInput(rd.id))
    } else {
        match rd.pattern {
            Some(ptext) => match spec_compile_pattern(frag, preprocess_pattern(ptext, e), e) {
                Ok(p) => Ok(RuleModel { id: rd.id, pattern: Some(p), kind: rd.kind }),
                Err(PatternErrModel::Invalid) => Err(ScanErrorModel::InvalidPattern(rd.id)),
                Err(PatternErrModel::Duplicate(n)) => Err(
                    ScanErrorModel::DuplicateMetaVariable(rd.id, n),
                ),
            },
            None => Ok(RuleModel { id: rd.id, pattern: None, kind: rd.kind }),
        }
    }
}

/// What compiling the rule list from position `i` on yields, given one
/// parsed fragment per rule: the compiled tail, or the first failure in
/// rule order.
pub open spec fn spec_compile_rules_with(
    rds: Seq<RuleDefModel>,
    frags: Seq<Seq<NodeModel>>,
    e: Seq<u8>,
    i: int,
) -> Result<Seq<RuleModel>, ScanErrorModel>
    decreases rds.len() - i,
{
    if i < 0 || i >= rds.len() {
        Ok(Seq::empty())
    } else {
        match spec_compile_rule_with(rds[i], frags[i], e) {
            Err(err) => Err(err),
            Ok(r) => match spec_compile_rules_with(rds, frags, e, i + 1) {
                Err(err) => Err(err),
                Ok(rest) => Ok(seq![r] + rest),
            },
        }
    }
}

/// What a whole scan request returns, given the parser's outcomes: one
/// fragment arena per rule and the source's arena `ts`. For every input
/// it is the rows of every rule's matches in rule-then-match order, or
/// the exact error — `UnsupportedLanguage` whenever (and only when) the
/// language name is not in the registry, else the first failing rule's
/// error.
pub open spec fn spec_match_ast_rule_with(
    src: Seq<u8>,
    language: Seq<u8>,
    rds: Seq<RuleDefModel>,
    frags: Seq<Seq<NodeModel>>,
    ts: Seq<NodeModel>,
) -> Result<Seq<RowModel>, ScanErrorModel> {
    match lang_of(language) {
        None => Err(ScanErrorModel::UnsupportedLanguage(language)),
        Some(l) => {
            let e = expando_of(l);
            match spec_compile_rules_with(rds, frags, e, 0) {
                Err(err) => Err(err),
                Ok(rs) => Ok(rows_of_outcome(src, scan_model(ts, src, rs), 0)),
            }
        },
    }
}

/// The image of the executable result.
pub open spec fn scan_result_model(r: Result<Vec<Row>, ScanError>) -> Result<
    Seq<RowModel>,
    ScanErrorModel,
> {
    match r {
        Ok(v) => Ok(rows_model(v@)),
        Err(e) => Err(scan_error_model(e)),
    }
}

/// Compiles one rule definition; the ghost half of the result is the
/// fragment arena its pattern text (rewritten) parsed to, empty for a
/// rule without a pattern.
fn compile_rule(rd: &RuleDef, cname: &Vec<u8>, exp: &Vec<u8>) -> (res: (
    Result<CompiledRule, ScanError>,
    Ghost<Seq<NodeModel>>,
))
    ensures
        match res.0 {
            Ok(cr) => spec_compile_rule_with(rule_def_model(*rd), res.1@, exp@) == Ok::<
                RuleModel,
                ScanErrorModel,
            >(rule_model(cr)) && rule_wf(rule_model(cr)),
            Err(e) => spec_compile_rule_with(rule_def_model(*rd), res.1@, exp@) == Err::<
                RuleModel,
                ScanErrorModel,
            >(scan_error_model(e)),
        },
{
    let no_pattern = match &rd.pattern {
        Some(_) => false,
        None => true,
    };
    let no_kind = match &rd.kind {
        Some(_) => false,
        None => true,
    };
    if no_pattern && no_kind {
        return (
            Err(ScanError::MalformedRuleInput(bytes_copy(&rd.id))),
            Ghost(Seq::empty()),
        );
    }
    let ghost mut fragm: Seq<NodeModel> = Seq::empty();
    let pattern: Option<Pattern> = match &rd.pattern {
        Some(ptext) => {
            let pq = preprocess(ptext, exp);
            let frag = parse_source(&pq, cname);
            proof {
                fragm = arena_model(frag@);
            }
            match compile_pattern(&frag, &pq, exp) {
                Ok(p) => Some(p),
                Err(PatternErr::Invalid) => {
                    return (Err(ScanError::InvalidPattern(bytes_copy(&rd.id))), Ghost(fragm));
                },
                Err(PatternErr::Duplicate(n)) => {
                    return (
                        Err(ScanError::DuplicateMetaVariable(bytes_copy(&rd.id), n)),
                        Ghost(fragm),
                    );
                },
            }
        },
        None => None,
    };
    let kind: Option<Vec<u8>> = match &rd.kind {
        Some(k) => Some(bytes_copy(k)),
        None => None,
    };
    (Ok(CompiledRule { id: bytes_copy(&rd.id), pattern, kind }), Ghost(fragm))
}

/// A rule's compilation never reports the language's failure: that
/// check comes earlier and is separate.
proof fn lemma_compile_rule_err_kind(rd: RuleDefModel, frag: Seq<NodeModel>, e: Seq<u8>)
    ensures
        spec_compile_rule_with(rd, frag, e) is Err ==> !(spec_compile_rule_with(
            rd,
            frag,
            e,
        )->Err_0 is UnsupportedLanguage),
{
}

/// If every rule from `k` on compiles to the matching entry of `rs`,
/// the whole tail compiles to the tail of `rs`.
proof fn lemma_compile_with_all_ok(
    rds: Seq<RuleDefModel>,
    frags: Seq<Seq<NodeModel>>,
    e: Seq<u8>,
    rs: Seq<RuleModel>,
    k: int,
)
    requires
        0 <= k <= rds.len(),
        rs.len() == rds.len(),
        forall|j: int|
            k <= j < rds.len() ==> #[trigger] spec_compile_rule_with(rds[j], frags[j], e) == Ok::<
                RuleModel,
                ScanErrorModel,
            >(rs[j]),
    ensures
        spec_compile_rules_with(rds, frags, e, k) == Ok::<Seq<RuleModel>, ScanErrorModel>(
            rs.subrange(k, rds.len() as int),
        ),
    decreases rds.len() - k,
{
    if k < rds.len() {
        lemma_compile_with_all_ok(rds, frags, e, rs, k + 1);
        assert(spec_compile_rule_with(rds[k], frags[k], e) == Ok::<RuleModel, ScanErrorModel>(
            rs[k],
        ));
        assert(seq![rs[k]] + rs.subrange(k + 1, rds.len() as int) =~= rs.subrange(
            k,
            rds.len() as int,
        ));
    } else {
        assert(rs.subrange(k, rds.len() as int) =~= Seq::<RuleModel>::empty());
    }
}

/// If every rule before `i` compiles and rule `i` fails, the whole list
/// fails with rule `i`'s error — the first failure in rule order.
proof fn lemma_compile_with_first_err(
    rds: Seq<RuleDefModel>,
    frags: Seq<Seq<NodeModel>>,
    e: Seq<u8>,
    k: int,
    i: int,
    err: ScanErrorModel,
)
    requires
        0 <= k <= i < rds.len(),
        forall|j: int|
            k <= j < i ==> (#[trigger] spec_compile_rule_with(rds[j], frags[j], e)) is Ok,
        spec_compile_rule_with(rds[i], frags[i], e) == Err::<RuleModel, ScanErrorModel>(err),
    ensures
        spec_compile_rules_with(rds, frags, e, k) == Err::<Seq<RuleModel>, ScanErrorModel>(err),
    decreases i - k,
{
    if k < i {
        lemma_compile_with_first_err(rds, frags, e, k + 1, i, err);
    }
}

/// Scans `source` under the language called `language` with the given
/// rules, and reports every match of every rule as a row, in
/// rule-then-match order; matches of one rule come in traversal
/// (pre-order) order. All positions are zero-based; a row's text is the
/// match's exact byte slice of the source.
///
/// The contract: an unknown language fails with `UnsupportedLanguage`
/// (and a known one never does), and there are parse outcomes — one
/// fragment per rule and the source's well-formed arena — under which
/// the result is exactly the verified pipeline's. The parse itself is
/// the one outside step (see `crate::tree::parse_source`).
pub fn match_ast_rule(source: &Vec<u8>, language: &Vec<u8>, rules: &Vec<RuleDef>) -> (r: Result<
    Vec<Row>,
    ScanError,
>)
    ensures
        lang_of(language@) is None ==> scan_result_model(r) == Err::<Seq<RowModel>, ScanErrorModel>(
            ScanErrorModel::UnsupportedLanguage(language@),
        ),
        lang_of(language@) is Some ==> !(scan_result_model(r) matches Err(e)
            && e is UnsupportedLanguage),
        exists|frags: Seq<Seq<NodeModel>>, ts: Seq<NodeModel>|
            {
                &&& frags.len() == rules@.len()
                &&& arena_wf(ts, source@.len() as int)
                &&& #[trigger] spec_match_ast_rule_with(
                    source@,
                    language@,
                    rule_defs_model(rules@),
                    frags,
                    ts,
                ) == scan_result_model(r)
            },
{
    let ghost rdm = rule_defs_model(rules@);
    let lang = match language_of(language) {
        None => {
            let rr: Result<Vec<Row>, ScanError> = Err(
                ScanError::UnsupportedLanguage(bytes_copy(language)),
            );
            proof {
                let frags0 = Seq::new(rules@.len(), |k: int| Seq::<NodeModel>::empty());
                let ts0 = Seq::<NodeModel>::empty();
                assert(arena_wf(ts0, source@.len() as int));
                assert(spec_match_ast_rule_with(source@, language@, rdm, frags0, ts0)
                    == scan_result_model(rr));
            }
            return rr;
        },
        Some(l) => l,
    };
    let cname = canonical_name(&lang);
    let exp = expando_bytes(&lang);
    let ghost e0 = expando_of(lang_of(language@)->0);
    let mut crs: Vec<CompiledRule> = Vec::new();
    let ghost mut frags: Seq<Seq<NodeModel>> = Seq::empty();
    let mut i: usize = 0;
    while i < rules.len()
        invariant
            i <= rules@.len(),
            rdm == rule_defs_model(rules@),
            exp@ == e0,
            e0 == expando_of(lang_of(language@)->0),
            cname@ == canonical_of(lang_of(language@)->0),
            lang_of(language@) is Some,
            crs@.len() == i,
            frags.len() == i,
            rules_wf(rules_model(crs@)),
            forall|j: int|
                0 <= j < i ==> #[trigger] spec_compile_rule_with(rdm[j], frags[j], e0) == Ok::<
                    RuleModel,
                    ScanErrorModel,
                >(rules_model(crs@)[j]),
        decreases rules.len() - i,
    {
        proof {
            assert(rdm[i as int] == rule_def_model(rules@[i as int]));
        }
        let (cres, gfrag) = compile_rule(&rules[i], &cname, &exp);
        match cres {
            Ok(cr) => {
                let ghost pre = crs@;
                crs.push(cr);
                proof {
                    assert(rules_model(crs@) =~= rules_model(pre).push(rule_model(cr)));
                    frags = frags.push(gfrag@);
                }
            },
            Err(e) => {
                let ghost err = scan_error_model(e);
                let rr: Result<Vec<Row>, ScanError> = Err(e);
                proof {
                    let full = frags.push(gfrag@) + Seq::new(
                        (rules@.len() - i - 1) as nat,
                        |k: int| Seq::<NodeModel>::empty(),
                    );
                    assert(full.len() == rules@.len());
                    assert(full[i as int] == gfrag@);
                    assert forall|j: int| 0 <= j < i implies (#[trigger] spec_compile_rule_with(
                        rdm[j],
                        full[j],
                        e0,
                    )) is Ok by {
                        assert(full[j] == frags[j]);
                        assert(spec_compile_rule_with(rdm[j], frags[j], e0) == Ok::<
                            RuleModel,
                            ScanErrorModel,
                        >(rules_model(crs@)[j]));
                    }
                    lemma_compile_with_first_err(rdm, full, e0, 0, i as int, err);
                    lemma_compile_rule_err_kind(rdm[i as int], full[i as int], e0);
                    let ts0 = Seq::<NodeModel>::empty();
                    assert(arena_wf(ts0, source@.len() as int));
                    assert(spec_match_ast_rule_with(source@, language@, rdm, full, ts0)
                        == scan_result_model(rr));
                }
                return rr;
            },
        }
        i += 1;
    }
    let ts = parse_source(source, &cname);
    let ghost tsm = arena_model(ts@);
    let outcome = scan(&ts, source, &crs);
    proof {
        crate::laws::lemma_scan_matches_bounded(tsm, source@, rules_model(crs@));
    }
    let rows = flatten_rows(&outcome, source);
    let rr: Result<Vec<Row>, ScanError> = Ok(rows);
    proof {
        lemma_compile_with_all_ok(rdm, frags, e0, rules_model(crs@), 0);
        assert(rules_model(crs@).subrange(0, rdm.len() as int) =~= rules_model(crs@));
        assert(spec_match_ast_rule_with(source@, language@, rdm, frags, tsm)
            == scan_result_model(rr));
    }
    rr
}

/// Is every match's byte range within the source?
pub open spec fn outcome_bounded(o: Seq<Seq<MatchModel>>, src_len: int) -> bool {
    forall|i: int, j: int|
        0 <= i < o.len() && 0 <= j < o[i].len() ==> 0 <= (#[trigger] o[i][j]).start
            <= o[i][j].end <= src_len
}

/// Flattens an outcome into rows, rule-then-match order, translating
/// byte offsets into zero-based line/column pairs.
fn flatten_rows(o: &ScanOutcome, src: &Vec<u8>) -> (r: Vec<Row>)
    requires
        outcome_bounded(outcome_model(*o), src@.len() as int),
    ensures
        rows_model(r@) == rows_of_outcome(src@, outcome_model(*o), 0),
{
    let ghost om = outcome_model(*o);
    let mut acc: Vec<Row> = Vec::new();
    let mut i: usize = 0;
    while i < o.per_rule.len()
        invariant
            i <= o.per_rule@.len(),
            om == outcome_model(*o),
            outcome_bounded(om, src@.len() as int),
            rows_of_outcome(src@, om, 0) == rows_model(acc@) + rows_of_outcome(src@, om, i as int),
        decreases o.per_rule.len() - i,
    {
        proof {
            assert(om[i as int] == matches_model(o.per_rule@[i as int]@));
        }
        let ms = &o.per_rule[i];
        let mut j: usize = 0;
        while j < ms.len()
            invariant
                j <= ms@.len(),
                i < o.per_rule@.len(),
                ms@ == o.per_rule@[i as int]@,
                om == outcome_model(*o),
                outcome_bounded(om, src@.len() as int),
                om[i as int] == matches_model(ms@),
                rows_of_outcome(src@, om, 0) == rows_model(acc@) + rows_of_matches(
                    src@,
                    om[i as int],
                    j as int,
                ) + rows_of_outcome(src@, om, i + 1),
            decreases ms.len() - j,
        {
            let m = &ms[j];
            proof {
                assert(om[i as int][j as int] == crate::scanner::match_result_model(
                    ms@[j as int],
                ));
            }
            let (sl, sc) = to_position(src, m.start);
            let (el, ec) = to_position(src, m.end);
            let ghost pre = acc@;
            acc.push(
                Row {
                    text: bytes_copy(&m.text),
                    start_line: sl,
                    start_col: sc,
                    end_line: el,
                    end_col: ec,
                },
            );
            proof {
                assert(rows_model(acc@) =~= rows_model(pre).push(
                    row_of(src@, om[i as int][j as int]),
                ));
                assert(rows_model(pre).push(row_of(src@, om[i as int][j as int]))
                    + rows_of_matches(src@, om[i as int], j + 1) =~= rows_model(pre) + (seq![
                    row_of(src@, om[i as int][j as int]),
                ] + rows_of_matches(src@, om[i as int], j + 1)));
            }
            j += 1;
        }
        proof {
            assert(rows_of_matches(src@, om[i as int], ms@.len() as int) =~= Seq::<
                RowModel,
            >::empty());
            assert(rows_model(acc@) + Seq::<RowModel>::empty() + rows_of_outcome(
                src@,
                om,
                i + 1,
            ) =~= rows_model(acc@) + rows_of_outcome(src@, om, i + 1));
        }
        i += 1;
    }
    proof {
        assert(rows_of_outcome(src@, om, om.len() as int) =~= Seq::<RowModel>::empty());
        assert(rows_model(acc@) + Seq::<RowModel>::empty() =~= rows_model(acc@));
    }
    acc
}

} // verus!
