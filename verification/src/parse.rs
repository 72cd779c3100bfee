//! The parser: raw SQL text to an ordered statement sequence plus
//! non-fatal diagnostics.
//!
//! `parse` never fails: text it cannot classify becomes an `Unparsed`
//! statement with a diagnostic, and analysis continues with the rest of
//! the file. Its result is pinned to the mathematical model
//! [`parse_model`], so parsing is a function of the input text alone.

use vstd::prelude::*;
use crate::ast::{Span, Statement, StatementS, StatementKind, col_of, line_of, is_unparsed};
use crate::classify::{classify, classify_spec};
use crate::lex::{pairs_view, position_at, split_spans, split_statements};
use crate::token::{subvec, tokenize, toks_from, toks_view};

verus! {

/// A non-fatal parse diagnostic: the span the parser could not classify,
/// and a fixed reason.
#[derive(Clone, Copy, Debug)]
pub struct ParseDiagnostic {
    pub span: Span,
    pub reason: &'static str,
}

/// View of a statement vector.
pub open spec fn stmts_view(v: Seq<Statement>) -> Seq<StatementS> {
    v.map_values(|st: Statement| st@)
}

/// View of a diagnostic vector: the spans flagged.
pub open spec fn diags_view(v: Seq<ParseDiagnostic>) -> Seq<Span> {
    v.map_values(|d: ParseDiagnostic| d.span)
}

/// Line and column counts never exceed the offset.
pub proof fn lemma_line_col_bounds(s: Seq<u8>, i: int)
    requires
        0 <= i,
    ensures
        0 <= line_of(s, i) <= i,
        0 <= col_of(s, i) <= i,
    decreases i,
{
    if i > 0 {
        lemma_line_col_bounds(s, i - 1);
    }
}

/// Law: parsing is deterministic. The parser's result is pinned to
/// [`parse_model`], a function of the input text alone, so any two parses
/// of the same text yield identical statement sequences.
pub proof fn lemma_parse_deterministic(s: Seq<u8>, r1: Seq<StatementS>, r2: Seq<StatementS>)
    requires
        r1 == parse_model(s),
        r2 == parse_model(s),
    ensures
        r1 == r2,
{
}

/// The statement parsed from the span `[a, b)` of `s`.
pub open spec fn stmt_at(s: Seq<u8>, a: int, b: int) -> StatementS {
    StatementS {
        kind: classify_spec(toks_from(s, b, a), s.subrange(a, b)),
        span: Span {
            start: a as usize,
            end: b as usize,
            start_line: line_of(s, a) as usize,
            start_col: col_of(s, a) as usize,
            end_line: line_of(s, b) as usize,
            end_col: col_of(s, b) as usize,
        },
    }
}

/// The full parse of `s`: one statement per statement span, in document
/// order.
pub open spec fn parse_model(s: Seq<u8>) -> Seq<StatementS> {
    split_spans(s).map_values(|p: (int, int)| stmt_at(s, p.0, p.1))
}

/// The spans of the unclassified statements of `sts`, in order.
pub open spec fn unparsed_spans(sts: Seq<StatementS>) -> Seq<Span>
    decreases sts.len(),
{
    if sts.len() == 0 {
        Seq::empty()
    } else {
        unparsed_spans(sts.drop_last()) + if is_unparsed(sts.last()) {
            seq![sts.last().span]
        } else {
            Seq::empty()
        }
    }
}

/// The diagnostics of the full parse of `s`: the spans of its unparsed
/// statements.
pub open spec fn diag_model(s: Seq<u8>) -> Seq<Span> {
    unparsed_spans(parse_model(s))
}

/// Parse raw SQL text into an ordered statement sequence and a list of
/// non-fatal diagnostics.
///
/// The statements are exactly [`parse_model`] of the input and the
/// diagnostics exactly [`diag_model`], so parsing is deterministic; the
/// statement spans are non-empty, non-overlapping and strictly increasing
/// in document order, and there is one diagnostic per `Unparsed`
/// statement, carrying that statement's span.
pub fn parse(src: &Vec<u8>) -> (r: (Vec<Statement>, Vec<ParseDiagnostic>))
    ensures
        stmts_view(r.0@) == parse_model(src@),
        diags_view(r.1@) == diag_model(src@),
        forall|i: int| 0 <= i < r.0@.len() ==> (#[trigger] r.0@[i]).span.start < r.0@[i].span.end
            <= src@.len(),
        forall|i: int, j: int| 0 <= i < j < r.0@.len() ==> (#[trigger] r.0@[i]).span.end
            <= (#[trigger] r.0@[j]).span.start,
{
    let spans = split_statements(src);
    let n = spans.len();
    let mut stmts: Vec<Statement> = Vec::new();
    let mut diags: Vec<ParseDiagnostic> = Vec::new();
    let ghost model = parse_model(src@);
    proof {
        assert(model =~= split_spans(src@).map_values(|p: (int, int)| stmt_at(src@, p.0, p.1)));
        assert(model.len() == split_spans(src@).len());
        assert(stmts_view(stmts@) =~= model.take(0));
        assert(diags_view(diags@) =~= unparsed_spans(model.take(0)));
    }
    let mut k: usize = 0;
    while k < n
        invariant
            n == spans@.len(),
            0 <= k <= n,
            pairs_view(spans@) == split_spans(src@),
            forall|j: int| 0 <= j < spans@.len() ==> 0 <= (#[trigger] spans@[j]).0 < spans@[j].1
                <= src@.len(),
            model == parse_model(src@),
            model.len() == n,
            stmts_view(stmts@) == model.take(k as int),
            diags_view(diags@) == unparsed_spans(model.take(k as int)),
        decreases n - k,
    {
        let (a, b) = spans[k];
        let toks = tokenize(src, a, b);
        let raw = subvec(src, a, b);
        let kind = classify(&toks, raw);
        let pos_s = position_at(src, a);
        let pos_e = position_at(src, b);
        let sp = Span {
            start: a,
            end: b,
            start_line: pos_s.0,
            start_col: pos_s.1,
            end_line: pos_e.0,
            end_col: pos_e.1,
        };
        proof {
            lemma_line_col_bounds(src@, a as int);
            lemma_line_col_bounds(src@, b as int);
            assert(pairs_view(spans@)[k as int] == (a as int, b as int));
            assert(model[k as int] == stmt_at(src@, a as int, b as int));
        }
        let is_unp = match &kind {
            StatementKind::Unparsed { .. } => true,
            _ => false,
        };
        assert(is_unp == is_unparsed(model[k as int]));
        let ghost pre_s = stmts_view(stmts@);
        let ghost pre_d = diags_view(diags@);
        stmts.push(Statement { kind, span: sp });
        proof {
            assert(stmts_view(stmts@) =~= pre_s + seq![model[k as int]]);
            assert(model.take(k as int + 1) =~= model.take(k as int) + seq![model[k as int]]);
        }
        if is_unp {
            diags.push(ParseDiagnostic { span: sp, reason: "statement not recognized" });
        }
        proof {
            let t1 = model.take(k as int + 1);
            assert(t1.drop_last() =~= model.take(k as int));
            assert(t1.last() == model[k as int]);
            if is_unp {
                assert(diags_view(diags@) =~= pre_d + seq![model[k as int].span]);
            } else {
                assert(diags_view(diags@) =~= pre_d);
                assert(unparsed_spans(t1) =~= unparsed_spans(model.take(k as int)));
            }
        }
        k = k + 1;
    }
    proof {
        assert(model.take(n as int) =~= model);
        assert forall|i: int| 0 <= i < stmts@.len() implies (#[trigger] stmts@[i]).span.start
            < stmts@[i].span.end <= src@.len() by {
            assert(stmts_view(stmts@)[i] == stmts@[i]@);
            assert(model[i] == stmt_at(src@, split_spans(src@)[i].0, split_spans(src@)[i].1));
        }
        assert forall|i: int, j: int| 0 <= i < j < stmts@.len() implies (#[trigger] stmts@[i]).span.end
            <= (#[trigger] stmts@[j]).span.start by {
            assert(stmts_view(stmts@)[i] == stmts@[i]@);
            assert(stmts_view(stmts@)[j] == stmts@[j]@);
            assert(model[i] == stmt_at(src@, split_spans(src@)[i].0, split_spans(src@)[i].1));
            assert(model[j] == stmt_at(src@, split_spans(src@)[j].0, split_spans(src@)[j].1));
        }
    }
    (stmts, diags)
}

} // verus!
