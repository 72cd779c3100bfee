//! The evaluation driver: run every enabled rule over a parsed file and
//! collect its violations in a deterministic order.
//!
//! `evaluate` validates the exclusion set against the registry (an unknown
//! identifier is a fatal configuration error), walks the statements in
//! document order while tracking the transaction context, and asks each
//! enabled rule about each statement, in registry order. Its result is
//! pinned to the model [`eval_model`], which makes determinism, exclusion
//! correctness and the ordering invariant provable facts.

use vstd::prelude::*;
use vstd::string::StringSliceAdditionalSpecFns;
use crate::ast::{Span, Statement, StatementS, StatementKind};
use crate::kw::bytes_eq;
use crate::parse::stmts_view;
use crate::rules::{
    RuleId, all_rules, rule_fires, rule_fires_x, rule_list, rule_message, rule_message_bytes,
    rule_of, txn_open,
};

verus! {

/// The severity of a violation.
#[derive(Clone, Copy, Debug, PartialEq, Eq, Structural)]
pub enum Severity {
    Warning,
}

/// One reported violation: the rule, its severity and message, and the
/// span of the offending statement.
#[derive(Clone, Copy, Debug)]
pub struct Violation {
    pub rule: RuleId,
    pub severity: Severity,
    pub message: &'static str,
    pub span: Span,
}

/// A fatal configuration error: an excluded rule identifier that names no
/// rule of the registry.
#[derive(Clone, Debug)]
pub enum LintError {
    UnknownRule { name: Vec<u8> },
}

/// View of a violation vector: the rule and span of each violation.
pub open spec fn vios_view(v: Seq<Violation>) -> Seq<(RuleId, Span)> {
    v.map_values(|x: Violation| (x.rule, x.span))
}

/// View of an exclusion vector.
pub open spec fn excl_names(ex: Seq<Vec<u8>>) -> Seq<Seq<u8>> {
    ex.map_values(|n: Vec<u8>| n@)
}

/// True when every excluded identifier names a rule of the registry.
pub open spec fn all_known(ex: Seq<Seq<u8>>) -> bool {
    forall|k: int| 0 <= k < ex.len() ==> rule_of(#[trigger] ex[k]) is Some
}

/// The set of rules named by the exclusion list.
pub open spec fn excl_set(ex: Seq<Seq<u8>>) -> Set<RuleId> {
    Set::new(
        |r: RuleId| exists|k: int| 0 <= k < ex.len() && rule_of(#[trigger] ex[k]) == Option::Some(r),
    )
}

/// The violations of statement `i`, from rule `k` of the registry on, in
/// registry order.
pub open spec fn stmt_vios_from(ss: Seq<StatementS>, i: int, excl: Set<RuleId>, k: int) -> Seq<
    (RuleId, Span),
>
    decreases rule_list().len() - k,
{
    if k < 0 || k >= rule_list().len() {
        Seq::empty()
    } else {
        let r = rule_list()[k];
        let rest = stmt_vios_from(ss, i, excl, k + 1);
        if rule_fires(r, ss, i) && !excl.contains(r) {
            seq![(r, ss[i].span)] + rest
        } else {
            rest
        }
    }
}

/// All violations of the statements from `i` on: for each statement in
/// document order, the violations of every enabled rule in registry order.
pub open spec fn eval_model(ss: Seq<StatementS>, excl: Set<RuleId>, i: int) -> Seq<(RuleId, Span)>
    decreases ss.len() - i,
{
    if i < 0 || i >= ss.len() {
        Seq::empty()
    } else {
        stmt_vios_from(ss, i, excl, 0) + eval_model(ss, excl, i + 1)
    }
}

/// True when some element of `s` equals `r`.
pub open spec fn vec_has(s: Seq<RuleId>, r: RuleId) -> bool {
    exists|m: int| 0 <= m < s.len() && s[m] == r
}

/// Resolve one textual rule identifier against the registry.
pub fn rule_from_name(name: &Vec<u8>) -> (r: Option<RuleId>)
    ensures
        r == rule_of(name@),
{
    if bytes_eq(name, "adding-field-with-default") {
        Option::Some(RuleId::AddingFieldWithDefault)
    } else if bytes_eq(name, "ban-drop-database") {
        Option::Some(RuleId::BanDropDatabase)
    } else if bytes_eq(name, "ban-unmatched-transaction-end") {
        Option::Some(RuleId::BanUnmatchedTransactionEnd)
    } else if bytes_eq(name, "disallow-rename-column") {
        Option::Some(RuleId::DisallowRenameColumn)
    } else if bytes_eq(name, "require-concurrent-index-creation") {
        Option::Some(RuleId::RequireConcurrentIndexCreation)
    } else if bytes_eq(name, "require-not-valid-for-new-constraint") {
        Option::Some(RuleId::RequireNotValidForNewConstraint)
    } else {
        Option::None
    }
}

/// True when rule `r` stands in `exc`.
fn vec_has_x(exc: &Vec<RuleId>, r: RuleId) -> (f: bool)
    ensures
        f == vec_has(exc@, r),
{
    let mut m: usize = 0;
    while m < exc.len()
        invariant
            0 <= m <= exc@.len(),
            forall|j: int| 0 <= j < m ==> exc@[j] != r,
        decreases exc@.len() - m,
    {
        if exc[m] == r {
            return true;
        }
        m = m + 1;
    }
    false
}

/// Run every enabled rule over the statement sequence and collect all
/// violations, ordered by statement in document order and, within one
/// statement, by rule identifier.
///
/// Fails with `UnknownRule` exactly when some excluded identifier names no
/// rule of the registry; no violations are computed in that case. On
/// success the result is exactly [`eval_model`] of the statements and the
/// excluded rule set, each violation carries the fixed message and
/// severity of its rule, and a rule of the exclusion set never appears.
pub fn evaluate(stmts: &Vec<Statement>, excluded: &Vec<Vec<u8>>) -> (r: Result<
    Vec<Violation>,
    LintError,
>)
    ensures
        match r {
            Result::Ok(vs) => {
                &&& all_known(excl_names(excluded@))
                &&& vios_view(vs@) == eval_model(
                    stmts_view(stmts@),
                    excl_set(excl_names(excluded@)),
                    0,
                )
                &&& forall|m: int| 0 <= m < vs@.len() ==> (#[trigger] vs@[m]).severity
                    == Severity::Warning && vs@[m].message.spec_bytes() == rule_message_bytes(
                    vs@[m].rule,
                )
            },
            Result::Err(e) => {
                &&& !all_known(excl_names(excluded@))
                &&& match e {
                    LintError::UnknownRule { name } => rule_of(name@) is None && exists|k: int|
                        0 <= k < excluded@.len() && (#[trigger] excluded@[k])@ == name@,
                }
            },
        },
{
    let ghost en = excl_names(excluded@);
    let mut exc: Vec<RuleId> = Vec::new();
    let mut k: usize = 0;
    while k < excluded.len()
        invariant
            0 <= k <= excluded@.len(),
            en == excl_names(excluded@),
            exc@.len() == k,
            forall|m: int| 0 <= m < k ==> rule_of(en[m]) == Option::Some(#[trigger] exc@[m]),
        decreases excluded@.len() - k,
    {
        proof {
            assert(en[k as int] == excluded@[k as int]@);
        }
        match rule_from_name(&excluded[k]) {
            Option::Some(rid) => {
                exc.push(rid);
            },
            Option::None => {
                let nm = crate::kw::clone_bytes(&excluded[k]);
                return Result::Err(LintError::UnknownRule { name: nm });
            },
        }
        k = k + 1;
    }
    proof {
        assert forall|m: int| 0 <= m < en.len() implies rule_of(#[trigger] en[m]) is Some by {
            assert(rule_of(en[m]) == Option::Some(exc@[m]));
        }
        assert(all_known(en));
        assert forall|r: RuleId| excl_set(en).contains(r) == vec_has(exc@, r) by {
            if excl_set(en).contains(r) {
                let j = choose|j: int| 0 <= j < en.len() && rule_of(#[trigger] en[j])
                    == Option::Some(r);
                assert(exc@[j] == r);
                assert(vec_has(exc@, r));
            }
            if vec_has(exc@, r) {
                let j = choose|j: int| 0 <= j < exc@.len() && exc@[j] == r;
                assert(rule_of(en[j]) == Option::Some(r));
                assert(excl_set(en).contains(r));
            }
        }
    }
    let ghost ss = stmts_view(stmts@);
    let ghost ex = excl_set(en);
    let rules = all_rules();
    let nrules = rules.len();
    let mut out: Vec<Violation> = Vec::new();
    let mut txn: bool = false;
    let mut i: usize = 0;
    let n = stmts.len();
    proof {
        assert(vios_view(out@) + eval_model(ss, ex, 0) =~= eval_model(ss, ex, 0));
    }
    while i < n
        invariant
            0 <= i <= n,
            n == stmts@.len(),
            ss == stmts_view(stmts@),
            rules@ == rule_list(),
            nrules == rules@.len(),
            forall|r: RuleId| excl_set(en).contains(r) == vec_has(exc@, r),
            ex == excl_set(en),
            txn == txn_open(ss, i as int),
            vios_view(out@) + eval_model(ss, ex, i as int) == eval_model(ss, ex, 0),
            forall|m: int| 0 <= m < out@.len() ==> (#[trigger] out@[m]).severity
                == Severity::Warning && out@[m].message.spec_bytes() == rule_message_bytes(
                out@[m].rule,
            ),
        decreases n - i,
    {
        let ghost pre_outer = vios_view(out@);
        proof {
            assert(eval_model(ss, ex, i as int) == stmt_vios_from(ss, i as int, ex, 0)
                + eval_model(ss, ex, i as int + 1));
        }
        let mut kk: usize = 0;
        while kk < nrules
            invariant
                0 <= kk <= nrules,
                i < n == stmts@.len(),
                ss == stmts_view(stmts@),
                rules@ == rule_list(),
                nrules == rules@.len(),
                forall|r: RuleId| excl_set(en).contains(r) == vec_has(exc@, r),
                ex == excl_set(en),
                txn == txn_open(ss, i as int),
                vios_view(out@) + (stmt_vios_from(ss, i as int, ex, kk as int) + eval_model(
                    ss,
                    ex,
                    i as int + 1,
                )) == eval_model(ss, ex, 0),
                forall|m: int| 0 <= m < out@.len() ==> (#[trigger] out@[m]).severity
                    == Severity::Warning && out@[m].message.spec_bytes() == rule_message_bytes(
                    out@[m].rule,
                ),
            decreases nrules - kk,
        {
            let rid = rules[kk];
            let fires = rule_fires_x(rid, stmts, i, txn);
            let ghost pre = vios_view(out@);
            let ghost svf1 = stmt_vios_from(ss, i as int, ex, kk as int + 1);
            let ghost em1 = eval_model(ss, ex, i as int + 1);
            if fires && !vec_has_x(&exc, rid) {
                let sp = stmts[i].span;
                proof {
                    assert(ss[i as int] == stmts@[i as int]@);
                }
                out.push(
                    Violation {
                        rule: rid,
                        severity: Severity::Warning,
                        message: rule_message(rid),
                        span: sp,
                    },
                );
                proof {
                    assert(vios_view(out@) =~= pre + seq![(rid, ss[i as int].span)]);
                    assert(stmt_vios_from(ss, i as int, ex, kk as int) == seq![
                        (rid, ss[i as int].span),
                    ] + svf1);
                    assert(vios_view(out@) + (svf1 + em1) =~= pre + (stmt_vios_from(
                        ss,
                        i as int,
                        ex,
                        kk as int,
                    ) + em1));
                }
            } else {
                proof {
                    assert(stmt_vios_from(ss, i as int, ex, kk as int) == svf1);
                }
            }
            kk = kk + 1;
        }
        proof {
            assert(stmt_vios_from(ss, i as int, ex, nrules as int) =~= Seq::<
                (RuleId, Span),
            >::empty());
            assert(vios_view(out@) + (stmt_vios_from(ss, i as int, ex, nrules as int)
                + eval_model(ss, ex, i as int + 1)) =~= vios_view(out@) + eval_model(
                ss,
                ex,
                i as int + 1,
            ));
        }
        proof {
            assert(ss[i as int] == stmts@[i as int]@);
        }
        match &stmts[i].kind {
            StatementKind::Begin => {
                txn = true;
            },
            StatementKind::Commit => {
                txn = false;
            },
            StatementKind::Rollback => {
                txn = false;
            },
            _ => {},
        }
        i = i + 1;
        proof {
            assert(txn == txn_open(ss, i as int));
        }
    }
    proof {
        assert(eval_model(ss, ex, n as int) =~= Seq::<(RuleId, Span)>::empty());
        assert(vios_view(out@) + eval_model(ss, ex, n as int) =~= vios_view(out@));
    }
    Result::Ok(out)
}

/// Law: evaluation is a function of the statement sequence and the
/// exclusion set alone, so running it twice on the same input yields
/// identical violation sequences.
pub proof fn lemma_evaluate_deterministic(
    ss: Seq<StatementS>,
    excl: Set<RuleId>,
    v1: Seq<(RuleId, Span)>,
    v2: Seq<(RuleId, Span)>,
)
    requires
        v1 == eval_model(ss, excl, 0),
        v2 == eval_model(ss, excl, 0),
    ensures
        v1 == v2,
{
}

/// The violations kept when rule `r` is excluded: those of other rules.
pub open spec fn keep_other(r: RuleId) -> spec_fn((RuleId, Span)) -> bool {
    |p: (RuleId, Span)| p.0 != r
}

proof fn lemma_svf_exclusion(ss: Seq<StatementS>, i: int, excl: Set<RuleId>, r: RuleId, k: int)
    ensures
        stmt_vios_from(ss, i, excl.insert(r), k) == stmt_vios_from(ss, i, excl, k).filter(
            keep_other(r),
        ),
    decreases rule_list().len() - k,
{
    reveal(Seq::filter);
    let pred = keep_other(r);
    let emp = Seq::<(RuleId, Span)>::empty();
    assert(emp.filter(pred) =~= emp);
    if k < 0 || k >= rule_list().len() {
    } else {
        lemma_svf_exclusion(ss, i, excl, r, k + 1);
        let rk = rule_list()[k];
        let rest = stmt_vios_from(ss, i, excl, k + 1);
        let restf = stmt_vios_from(ss, i, excl.insert(r), k + 1);
        let x = (rk, ss[i].span);
        assert(seq![x].drop_last() =~= emp);
        assert(seq![x].last() == x);
        if pred(x) {
            assert(seq![x].filter(pred) =~= seq![x]);
        } else {
            assert(seq![x].filter(pred) =~= emp);
        }
        if rule_fires(rk, ss, i) && !excl.contains(rk) {
            Seq::filter_distributes_over_add(seq![x], rest, pred);
            if rk == r {
                assert(excl.insert(r).contains(rk));
                assert(stmt_vios_from(ss, i, excl.insert(r), k) == restf);
                assert((seq![x] + rest).filter(pred) =~= rest.filter(pred));
            } else {
                assert(!excl.insert(r).contains(rk));
                assert(stmt_vios_from(ss, i, excl.insert(r), k) == seq![x] + restf);
                assert((seq![x] + rest).filter(pred) =~= seq![x] + rest.filter(pred));
            }
        } else {
            if rule_fires(rk, ss, i) && excl.contains(rk) {
                assert(excl.insert(r).contains(rk));
            }
            assert(stmt_vios_from(ss, i, excl.insert(r), k) == restf);
            assert(stmt_vios_from(ss, i, excl, k) == rest);
        }
    }
}

proof fn lemma_exclusion_from(ss: Seq<StatementS>, excl: Set<RuleId>, r: RuleId, i: int)
    ensures
        eval_model(ss, excl.insert(r), i) == eval_model(ss, excl, i).filter(keep_other(r)),
    decreases ss.len() - i,
{
    reveal(Seq::filter);
    let pred = keep_other(r);
    let emp = Seq::<(RuleId, Span)>::empty();
    assert(emp.filter(pred) =~= emp);
    if i < 0 || i >= ss.len() {
    } else {
        lemma_exclusion_from(ss, excl, r, i + 1);
        lemma_svf_exclusion(ss, i, excl, r, 0);
        Seq::filter_distributes_over_add(
            stmt_vios_from(ss, i, excl, 0),
            eval_model(ss, excl, i + 1),
            pred,
        );
    }
}

/// Law: excluding a rule yields exactly the violation sequence of the
/// unexcluded run with that rule's violations removed, and no others
/// changed.
pub proof fn lemma_exclusion(ss: Seq<StatementS>, excl: Set<RuleId>, r: RuleId)
    ensures
        eval_model(ss, excl.insert(r), 0) == eval_model(ss, excl, 0).filter(keep_other(r)),
{
    lemma_exclusion_from(ss, excl, r, 0);
}

/// True when statement spans start in non-decreasing document order.
pub open spec fn starts_ordered(ss: Seq<StatementS>) -> bool {
    forall|a: int, b: int| 0 <= a < b < ss.len() ==> (#[trigger] ss[a]).span.start
        <= (#[trigger] ss[b]).span.start
}

proof fn lemma_svf_spans(ss: Seq<StatementS>, i: int, excl: Set<RuleId>, k: int)
    ensures
        forall|m: int| 0 <= m < stmt_vios_from(ss, i, excl, k).len() ==> (#[trigger] stmt_vios_from(
            ss,
            i,
            excl,
            k,
        )[m]).1 == ss[i].span,
    decreases rule_list().len() - k,
{
    if 0 <= k < rule_list().len() {
        lemma_svf_spans(ss, i, excl, k + 1);
        let rk = rule_list()[k];
        let rest = stmt_vios_from(ss, i, excl, k + 1);
        if rule_fires(rk, ss, i) && !excl.contains(rk) {
            let cur = stmt_vios_from(ss, i, excl, k);
            assert(cur == seq![(rk, ss[i].span)] + rest);
            assert forall|m: int| 0 <= m < cur.len() implies (#[trigger] cur[m]).1 == ss[i].span by {
                if m == 0 {
                    assert(cur[0] == (rk, ss[i].span));
                } else {
                    assert(cur[m] == rest[m - 1]);
                }
            }
        }
    }
}

proof fn lemma_eval_sorted(ss: Seq<StatementS>, excl: Set<RuleId>, i: int)
    requires
        starts_ordered(ss),
        0 <= i,
    ensures
        forall|m1: int, m2: int| 0 <= m1 < m2 < eval_model(ss, excl, i).len()
            ==> (#[trigger] eval_model(ss, excl, i)[m1]).1.start <= (#[trigger] eval_model(
            ss,
            excl,
            i,
        )[m2]).1.start,
        i < ss.len() ==> forall|m: int| 0 <= m < eval_model(ss, excl, i).len()
            ==> (#[trigger] eval_model(ss, excl, i)[m]).1.start >= ss[i].span.start,
    decreases ss.len() - i,
{
    if i < ss.len() {
        lemma_eval_sorted(ss, excl, i + 1);
        lemma_svf_spans(ss, i, excl, 0);
        let svf = stmt_vios_from(ss, i, excl, 0);
        let rest = eval_model(ss, excl, i + 1);
        assert(eval_model(ss, excl, i) == svf + rest);
        assert forall|m: int| 0 <= m < eval_model(ss, excl, i).len() implies (#[trigger] eval_model(
            ss,
            excl,
            i,
        )[m]).1.start >= ss[i].span.start by {
            if m < svf.len() {
                assert(eval_model(ss, excl, i)[m] == svf[m]);
            } else {
                assert(eval_model(ss, excl, i)[m] == rest[m - svf.len()]);
                if i + 1 < ss.len() {
                    assert(rest[m - svf.len()].1.start >= ss[i + 1].span.start);
                    assert(ss[i].span.start <= ss[i + 1].span.start);
                }
            }
        }
        assert forall|m1: int, m2: int| 0 <= m1 < m2 < eval_model(ss, excl, i).len() implies (
        #[trigger] eval_model(ss, excl, i)[m1]).1.start <= (#[trigger] eval_model(
            ss,
            excl,
            i,
        )[m2]).1.start by {
            if m2 < svf.len() {
                assert(eval_model(ss, excl, i)[m1] == svf[m1]);
                assert(eval_model(ss, excl, i)[m2] == svf[m2]);
            } else if m1 < svf.len() {
                assert(eval_model(ss, excl, i)[m1] == svf[m1]);
                assert(eval_model(ss, excl, i)[m2] == rest[m2 - svf.len()]);
            } else {
                assert(eval_model(ss, excl, i)[m1] == rest[m1 - svf.len()]);
                assert(eval_model(ss, excl, i)[m2] == rest[m2 - svf.len()]);
            }
        }
    }
}

/// Law: in any evaluation result, a violation whose span starts earlier
/// never follows one whose span starts later.
pub proof fn lemma_ordering(ss: Seq<StatementS>, excl: Set<RuleId>)
    requires
        starts_ordered(ss),
    ensures
        forall|m1: int, m2: int| 0 <= m1 < m2 < eval_model(ss, excl, 0).len()
            ==> (#[trigger] eval_model(ss, excl, 0)[m1]).1.start <= (#[trigger] eval_model(
            ss,
            excl,
            0,
        )[m2]).1.start,
{
    lemma_eval_sorted(ss, excl, 0);
}

} // verus!
