//! A static checker for SQL migration scripts.
//!
//! The library parses raw SQL text into an ordered sequence of statements
//! with source spans, and runs a fixed registry of safety rules over that
//! sequence to produce violations. Parsing never fails: unrecognized
//! syntax becomes an `Unparsed` statement with a non-fatal diagnostic.
//! Both the parser and the rule engine are pinned to mathematical models,
//! so their results are proved deterministic, violations are proved to
//! come out ordered by source position, and excluding a rule is proved to
//! remove exactly that rule's violations.

pub mod actions;
pub mod ast;
pub mod classify;
pub mod dump;
pub mod eval;
pub mod kw;
pub mod lex;
pub mod parse;
pub mod rules;
pub mod token;

use vstd::prelude::*;
use crate::eval::{
    LintError, Violation, all_known, eval_model, evaluate, excl_names, excl_set, starts_ordered,
    vios_view,
};
use crate::parse::{ParseDiagnostic, diag_model, diags_view, parse, parse_model, stmts_view};
use crate::rules::{rule_explain, rule_explain_bytes, rule_of};
use vstd::string::StringSliceAdditionalSpecFns;

verus! {

/// Check one file: parse `src` and evaluate every rule not named in
/// `excluded` over the parsed statements.
///
/// Fails with `UnknownRule` exactly when an excluded identifier names no
/// rule, before any evaluation. On success the violations are exactly
/// [`eval_model`] over [`parse_model`] of the text, ordered by the start
/// of their spans, and the diagnostics are exactly [`diag_model`]: one per
/// unparsed statement, carrying its span.
pub fn check_source(src: &Vec<u8>, excluded: &Vec<Vec<u8>>) -> (r: Result<
    (Vec<Violation>, Vec<ParseDiagnostic>),
    LintError,
>)
    ensures
        match r {
            Result::Ok(p) => {
                &&& all_known(excl_names(excluded@))
                &&& vios_view(p.0@) == eval_model(
                    parse_model(src@),
                    excl_set(excl_names(excluded@)),
                    0,
                )
                &&& diags_view(p.1@) == diag_model(src@)
                &&& forall|m1: int, m2: int| 0 <= m1 < m2 < p.0@.len()
                    ==> (#[trigger] p.0@[m1]).span.start <= (#[trigger] p.0@[m2]).span.start
            },
            Result::Err(e) => {
                &&& !all_known(excl_names(excluded@))
                &&& match e {
                    LintError::UnknownRule { name } => rule_of(name@) is None && exists|k: int|
                        0 <= k < excluded@.len() && (#[trigger] excluded@[k])@ == name@,
                }
            },
        },
{
    let parsed = parse(src);
    let stmts = parsed.0;
    let diags = parsed.1;
    match evaluate(&stmts, excluded) {
        Result::Ok(vs) => {
            proof {
                let ss = stmts_view(stmts@);
                assert forall|a: int, b: int| 0 <= a < b < ss.len() implies (
                #[trigger] ss[a]).span.start <= (#[trigger] ss[b]).span.start by {
                    assert(ss[a] == stmts@[a]@);
                    assert(ss[b] == stmts@[b]@);
                }
                assert(starts_ordered(ss));
                crate::eval::lemma_ordering(ss, excl_set(excl_names(excluded@)));
                assert forall|m1: int, m2: int| 0 <= m1 < m2 < vs@.len() implies (
                #[trigger] vs@[m1]).span.start <= (#[trigger] vs@[m2]).span.start by {
                    let model = eval_model(ss, excl_set(excl_names(excluded@)), 0);
                    assert(vios_view(vs@)[m1] == (vs@[m1].rule, vs@[m1].span));
                    assert(vios_view(vs@)[m2] == (vs@[m2].rule, vs@[m2].span));
                    assert(model[m1].1.start <= model[m2].1.start);
                }
            }
            Result::Ok((vs, diags))
        },
        Result::Err(e) => Result::Err(e),
    }
}

/// The explanation of the rule with the given textual identifier, or
/// `UnknownRule` when no rule has that identifier.
pub fn explain_rule(name: &Vec<u8>) -> (r: Result<&'static str, LintError>)
    ensures
        match r {
            Result::Ok(text) => rule_of(name@) is Some && text.spec_bytes() == rule_explain_bytes(
                rule_of(name@).unwrap(),
            ),
            Result::Err(e) => rule_of(name@) is None && match e {
                LintError::UnknownRule { name: nm } => nm@ == name@,
            },
        },
{
    match crate::eval::rule_from_name(name) {
        Option::Some(rid) => Result::Ok(rule_explain(rid)),
        Option::None => Result::Err(LintError::UnknownRule { name: crate::kw::clone_bytes(name) }),
    }
}

} // verus!
