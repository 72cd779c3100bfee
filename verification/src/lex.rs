//! Splitting raw SQL text into top-level statement spans.
//!
//! A single left-to-right scan tracks whether the cursor is inside a string
//! literal, a quoted identifier, a line or block comment, and the current
//! parenthesis depth, so that a `;` inside any of those is not treated as a
//! statement boundary. Each segment between boundaries is trimmed to its
//! significant bytes (whitespace and comments around it are dropped); a
//! segment with no significant byte produces no statement at all.

use vstd::prelude::*;
use crate::ast::{col_of, line_of};

verus! {

/// Scanner mode: where in the lexical structure the cursor stands.
///
/// `Dash` and `Slash` are one-byte lookbehind states: a `-` or `/` was just
/// read and may begin a comment.
#[derive(Clone, Copy, Debug, PartialEq, Eq, Structural)]
pub enum ScanMode {
    Norm,
    Dash,
    Slash,
    LineC,
    BlockC,
    BlockStar,
    SQuote,
    DQuote,
}

/// Ghost scanner state: mode plus parenthesis depth.
pub struct ScanStS {
    pub mode: ScanMode,
    pub depth: int,
}

/// True when `b` is an ASCII space, tab, carriage return or newline.
pub open spec fn is_space(b: u8) -> bool {
    b == 32 || b == 9 || b == 13 || b == 10
}

/// Scanner transition out of ordinary (non-comment, non-string) text.
pub open spec fn norm_step(depth: int, b: u8) -> ScanStS {
    if b == 39 {
        ScanStS { mode: ScanMode::SQuote, depth }
    } else if b == 34 {
        ScanStS { mode: ScanMode::DQuote, depth }
    } else if b == 45 {
        ScanStS { mode: ScanMode::Dash, depth }
    } else if b == 47 {
        ScanStS { mode: ScanMode::Slash, depth }
    } else if b == 40 {
        ScanStS { mode: ScanMode::Norm, depth: depth + 1 }
    } else if b == 41 {
        ScanStS { mode: ScanMode::Norm, depth: if depth > 0 { depth - 1 } else { 0 } }
    } else {
        ScanStS { mode: ScanMode::Norm, depth }
    }
}

/// One scanner step: the state after reading byte `b` in state `st`.
pub open spec fn scan_step(st: ScanStS, b: u8) -> ScanStS {
    match st.mode {
        ScanMode::Norm => norm_step(st.depth, b),
        ScanMode::Dash => if b == 45 {
            ScanStS { mode: ScanMode::LineC, depth: st.depth }
        } else {
            norm_step(st.depth, b)
        },
        ScanMode::Slash => if b == 42 {
            ScanStS { mode: ScanMode::BlockC, depth: st.depth }
        } else {
            norm_step(st.depth, b)
        },
        ScanMode::LineC => if b == 10 {
            ScanStS { mode: ScanMode::Norm, depth: st.depth }
        } else {
            st
        },
        ScanMode::BlockC => if b == 42 {
            ScanStS { mode: ScanMode::BlockStar, depth: st.depth }
        } else {
            st
        },
        ScanMode::BlockStar => if b == 47 {
            ScanStS { mode: ScanMode::Norm, depth: st.depth }
        } else if b == 42 {
            st
        } else {
            ScanStS { mode: ScanMode::BlockC, depth: st.depth }
        },
        ScanMode::SQuote => if b == 39 {
            ScanStS { mode: ScanMode::Norm, depth: st.depth }
        } else {
            st
        },
        ScanMode::DQuote => if b == 34 {
            ScanStS { mode: ScanMode::Norm, depth: st.depth }
        } else {
            st
        },
    }
}

/// Scanner state after reading the first `i` bytes of `s`.
pub open spec fn scan(s: Seq<u8>, i: int) -> ScanStS
    decreases i,
{
    if i <= 0 {
        ScanStS { mode: ScanMode::Norm, depth: 0 }
    } else {
        scan_step(scan(s, i - 1), s[i - 1])
    }
}

/// True when the scanner mode is ordinary text (possibly after a lone `-`
/// or `/` that did not begin a comment).
pub open spec fn mode_plain(m: ScanMode) -> bool {
    m == ScanMode::Norm || m == ScanMode::Dash || m == ScanMode::Slash
}

/// True when the byte at offset `i` of `s` is a top-level statement
/// terminator: a `;` in ordinary text at parenthesis depth zero.
pub open spec fn is_cut(s: Seq<u8>, i: int) -> bool {
    let st = scan(s, i);
    s[i] == 59 && st.depth == 0 && mode_plain(st.mode)
}

/// True when the byte at offset `i` of `s` is significant: part of actual
/// statement text rather than whitespace, a comment, a comment delimiter,
/// or a terminator. Statement spans are trimmed to significant bytes.
pub open spec fn is_sig(s: Seq<u8>, i: int) -> bool {
    let st = scan(s, i);
    let b = s[i];
    &&& st.mode != ScanMode::LineC
    &&& st.mode != ScanMode::BlockC
    &&& st.mode != ScanMode::BlockStar
    &&& !is_space(b)
    &&& b != 59
    &&& b != 45
    &&& b != 47
    &&& !(st.mode == ScanMode::Slash && b == 42)
}

/// Ghost splitter state after some prefix of the input: the statement spans
/// already emitted, and the significant range of the still-open segment.
pub struct SplitM {
    pub spans: Seq<(int, int)>,
    pub cur: Option<(int, int)>,
}

/// The spans produced by closing the open segment `c`, if any.
pub open spec fn emit(c: Option<(int, int)>) -> Seq<(int, int)> {
    match c {
        Option::Some(p) => seq![(p.0, p.1 + 1)],
        Option::None => Seq::empty(),
    }
}

/// Splitter state after reading the first `i` bytes of `s`.
pub open spec fn split_m(s: Seq<u8>, i: int) -> SplitM
    decreases i,
{
    if i <= 0 {
        SplitM { spans: Seq::empty(), cur: Option::None }
    } else {
        let m = split_m(s, i - 1);
        if is_cut(s, i - 1) {
            SplitM { spans: m.spans + emit(m.cur), cur: Option::None }
        } else if is_sig(s, i - 1) {
            let a = match m.cur {
                Option::Some(p) => p.0,
                Option::None => i - 1,
            };
            SplitM { spans: m.spans, cur: Option::Some((a, i - 1)) }
        } else {
            m
        }
    }
}

/// The statement spans of the whole input `s`: all spans emitted during the
/// scan, plus the final unterminated segment if it has significant bytes.
pub open spec fn split_spans(s: Seq<u8>) -> Seq<(int, int)> {
    let m = split_m(s, s.len() as int);
    m.spans + emit(m.cur)
}

/// The spans of the splitter state are well formed: inside `[0, i)`, each
/// non-empty, pairwise disjoint and in increasing order, and all before the
/// open segment.
pub open spec fn split_wf(m: SplitM, i: int) -> bool {
    &&& forall|j: int| 0 <= j < m.spans.len() ==> 0 <= (#[trigger] m.spans[j]).0
        < m.spans[j].1 <= i
    &&& forall|j: int, k: int| 0 <= j < k < m.spans.len() ==> (#[trigger] m.spans[j]).1
        <= (#[trigger] m.spans[k]).0
    &&& match m.cur {
        Option::Some(c) => 0 <= c.0 <= c.1 < i && forall|j: int| 0 <= j < m.spans.len()
            ==> (#[trigger] m.spans[j]).1 <= c.0,
        Option::None => true,
    }
}

/// The splitter state is well formed after any prefix.
pub proof fn lemma_split_wf(s: Seq<u8>, i: int)
    requires
        0 <= i,
    ensures
        split_wf(split_m(s, i), i),
    decreases i,
{
    if i > 0 {
        lemma_split_wf(s, i - 1);
    }
}

/// Statement spans of any input are non-empty, in bounds, non-overlapping
/// and strictly increasing in document order.
pub proof fn lemma_split_spans_ordered(s: Seq<u8>)
    ensures
        forall|j: int| 0 <= j < split_spans(s).len() ==> 0 <= (#[trigger] split_spans(s)[j]).0
            < split_spans(s)[j].1 <= s.len(),
        forall|j: int, k: int| 0 <= j < k < split_spans(s).len()
            ==> (#[trigger] split_spans(s)[j]).1 <= (#[trigger] split_spans(s)[k]).0,
{
    lemma_split_wf(s, s.len() as int);
}

/// View of a vector of byte offsets as a sequence of mathematical pairs.
pub open spec fn pairs_view(v: Seq<(usize, usize)>) -> Seq<(int, int)> {
    v.map_values(|p: (usize, usize)| (p.0 as int, p.1 as int))
}

/// Executable mirror of [`scan_step`].
fn scan_step_x(mode: ScanMode, depth: usize, b: u8) -> (r: (ScanMode, usize))
    requires
        depth < usize::MAX,
    ensures
        scan_step(ScanStS { mode, depth: depth as int }, b) == (ScanStS {
            mode: r.0,
            depth: r.1 as int,
        }),
{
    match mode {
        ScanMode::Norm => norm_step_x(depth, b),
        ScanMode::Dash => if b == 45 {
            (ScanMode::LineC, depth)
        } else {
            norm_step_x(depth, b)
        },
        ScanMode::Slash => if b == 42 {
            (ScanMode::BlockC, depth)
        } else {
            norm_step_x(depth, b)
        },
        ScanMode::LineC => if b == 10 {
            (ScanMode::Norm, depth)
        } else {
            (mode, depth)
        },
        ScanMode::BlockC => if b == 42 {
            (ScanMode::BlockStar, depth)
        } else {
            (mode, depth)
        },
        ScanMode::BlockStar => if b == 47 {
            (ScanMode::Norm, depth)
        } else if b == 42 {
            (mode, depth)
        } else {
            (ScanMode::BlockC, depth)
        },
        ScanMode::SQuote => if b == 39 {
            (ScanMode::Norm, depth)
        } else {
            (mode, depth)
        },
        ScanMode::DQuote => if b == 34 {
            (ScanMode::Norm, depth)
        } else {
            (mode, depth)
        },
    }
}

/// Executable mirror of [`norm_step`].
fn norm_step_x(depth: usize, b: u8) -> (r: (ScanMode, usize))
    requires
        depth < usize::MAX,
    ensures
        norm_step(depth as int, b) == (ScanStS { mode: r.0, depth: r.1 as int }),
{
    if b == 39 {
        (ScanMode::SQuote, depth)
    } else if b == 34 {
        (ScanMode::DQuote, depth)
    } else if b == 45 {
        (ScanMode::Dash, depth)
    } else if b == 47 {
        (ScanMode::Slash, depth)
    } else if b == 40 {
        (ScanMode::Norm, depth + 1)
    } else if b == 41 {
        (ScanMode::Norm, if depth > 0 { depth - 1 } else { 0 })
    } else {
        (ScanMode::Norm, depth)
    }
}

/// The scanner's parenthesis depth never exceeds the number of bytes read.
pub proof fn lemma_scan_depth(s: Seq<u8>, i: int)
    requires
        0 <= i,
    ensures
        0 <= scan(s, i).depth <= i,
    decreases i,
{
    if i > 0 {
        lemma_scan_depth(s, i - 1);
    }
}

/// Split `src` into top-level statement spans, in document order.
///
/// The spans are exactly [`split_spans`] of the input; they are non-empty,
/// in bounds, non-overlapping and strictly increasing.
pub fn split_statements(src: &Vec<u8>) -> (spans: Vec<(usize, usize)>)
    ensures
        pairs_view(spans@) == split_spans(src@),
        forall|j: int| 0 <= j < spans@.len() ==> 0 <= (#[trigger] spans@[j]).0 < spans@[j].1
            <= src@.len(),
        forall|j: int, k: int| 0 <= j < k < spans@.len() ==> (#[trigger] spans@[j]).1
            <= (#[trigger] spans@[k]).0,
{
    let n = src.len();
    let mut out: Vec<(usize, usize)> = Vec::new();
    let mut cur: Option<(usize, usize)> = Option::None;
    let mut mode = ScanMode::Norm;
    let mut depth: usize = 0;
    let mut i: usize = 0;
    proof {
        assert(pairs_view(out@) =~= Seq::<(int, int)>::empty());
    }
    while i < n
        invariant
            n == src@.len(),
            0 <= i <= n,
            scan(src@, i as int) == (ScanStS { mode, depth: depth as int }),
            depth <= i,
            split_m(src@, i as int) == (SplitM {
                spans: pairs_view(out@),
                cur: match cur {
                    Option::Some(p) => Option::Some((p.0 as int, p.1 as int)),
                    Option::None => Option::None,
                },
            }),
            split_wf(split_m(src@, i as int), i as int),
        decreases n - i,
    {
        let ghost m0 = split_m(src@, i as int);
        let b = src[i];
        let plain = match mode {
            ScanMode::Norm => true,
            ScanMode::Dash => true,
            ScanMode::Slash => true,
            _ => false,
        };
        let in_comment = match mode {
            ScanMode::LineC => true,
            ScanMode::BlockC => true,
            ScanMode::BlockStar => true,
            _ => false,
        };
        if b == 59 && depth == 0 && plain {
            assert(is_cut(src@, i as int));
            match cur {
                Option::Some(p) => {
                    out.push((p.0, p.1 + 1));
                    assert(pairs_view(out@) =~= m0.spans + emit(m0.cur));
                },
                Option::None => {
                    assert(pairs_view(out@) =~= m0.spans + emit(m0.cur));
                },
            }
            cur = Option::None;
        } else {
            assert(!is_cut(src@, i as int));
            let sig = !in_comment && !byte_is_space(b) && b != 59 && b != 45 && b != 47 && !(
            match mode {
                ScanMode::Slash => b == 42,
                _ => false,
            });
            assert(sig == is_sig(src@, i as int));
            if sig {
                let a = match cur {
                    Option::Some(p) => p.0,
                    Option::None => i,
                };
                cur = Option::Some((a, i));
            }
        }
        let st = scan_step_x(mode, depth, b);
        mode = st.0;
        depth = st.1;
        i = i + 1;
        proof {
            assert(scan(src@, i as int) == scan_step(scan(src@, i as int - 1), src@[i as int
                - 1]));
            lemma_scan_depth(src@, i as int);
            lemma_split_wf(src@, i as int);
        }
    }
    match cur {
        Option::Some(p) => {
            out.push((p.0, p.1 + 1));
            assert(pairs_view(out@) =~= split_spans(src@));
        },
        Option::None => {
            assert(pairs_view(out@) =~= split_spans(src@));
        },
    }
    proof {
        lemma_split_spans_ordered(src@);
        assert forall|j: int| 0 <= j < out@.len() implies 0 <= (#[trigger] out@[j]).0
            < out@[j].1 <= src@.len() by {
            assert(pairs_view(out@)[j] == (out@[j].0 as int, out@[j].1 as int));
        }
        assert forall|j: int, k: int| 0 <= j < k < out@.len() implies (#[trigger] out@[j]).1
            <= (#[trigger] out@[k]).0 by {
            assert(pairs_view(out@)[j] == (out@[j].0 as int, out@[j].1 as int));
            assert(pairs_view(out@)[k] == (out@[k].0 as int, out@[k].1 as int));
        }
    }
    out
}

/// Executable test for [`is_space`].
pub fn byte_is_space(b: u8) -> (r: bool)
    ensures
        r == is_space(b),
{
    b == 32 || b == 9 || b == 13 || b == 10
}

/// Line and column (both zero-based) of byte offset `off` in `src`.
pub fn position_at(src: &Vec<u8>, off: usize) -> (r: (usize, usize))
    requires
        off <= src@.len(),
    ensures
        r.0 == line_of(src@, off as int),
        r.1 == col_of(src@, off as int),
{
    let mut line: usize = 0;
    let mut col: usize = 0;
    let mut j: usize = 0;
    while j < off
        invariant
            0 <= j <= off <= src@.len(),
            line == line_of(src@, j as int),
            col == col_of(src@, j as int),
            line <= j,
            col <= j,
        decreases off - j,
    {
        if src[j] == 10 {
            line = line + 1;
            col = 0;
        } else {
            col = col + 1;
        }
        j = j + 1;
    }
    (line, col)
}

} // verus!
