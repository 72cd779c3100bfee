//! Tokenizing one statement's text.
//!
//! Within a statement span the tokenizer skips whitespace and comments and
//! yields words (identifiers or keywords), quoted identifiers with their
//! quotes stripped, string literals, parentheses, commas, and single-byte
//! operators. The executable tokenizer is proved equal to the recursive
//! model [`toks_from`].

use vstd::prelude::*;
use crate::lex::is_space;

verus! {

/// One token of a statement.
#[derive(Clone, Debug, PartialEq, Eq)]
pub enum Token {
    /// An unquoted word: an identifier or a keyword, as written.
    Word(Vec<u8>),
    /// A quoted identifier, quotes stripped, case preserved.
    Quoted(Vec<u8>),
    /// A string literal; its content plays no part in classification.
    Str,
    LP,
    RP,
    Comma,
    /// Any other single byte.
    Op(u8),
}

/// Ghost mirror of [`Token`].
pub enum TokenS {
    Word(Seq<u8>),
    Quoted(Seq<u8>),
    Str,
    LP,
    RP,
    Comma,
    Op(u8),
}

impl View for Token {
    type V = TokenS;

    open spec fn view(&self) -> TokenS {
        match self {
            Token::Word(w) => TokenS::Word(w@),
            Token::Quoted(w) => TokenS::Quoted(w@),
            Token::Str => TokenS::Str,
            Token::LP => TokenS::LP,
            Token::RP => TokenS::RP,
            Token::Comma => TokenS::Comma,
            Token::Op(b) => TokenS::Op(*b),
        }
    }
}

/// View of a token vector as a sequence of ghost tokens.
pub open spec fn toks_view(ts: Seq<Token>) -> Seq<TokenS> {
    ts.map_values(|t: Token| t@)
}

/// True when `b` may stand in a word: an ASCII letter, digit, underscore
/// or dot.
pub open spec fn is_word_byte(b: u8) -> bool {
    (65 <= b && b <= 90) || (97 <= b && b <= 122) || (48 <= b && b <= 57) || b == 95 || b == 46
}

/// End of the word starting at `i`: the first offset in `[i, end]` that is
/// `end` or holds a non-word byte.
pub open spec fn word_end(s: Seq<u8>, end: int, i: int) -> int
    decreases end - i,
{
    if i >= end || !is_word_byte(s[i]) {
        i
    } else {
        word_end(s, end, i + 1)
    }
}

/// First offset in `[i, end]` that is `end` or holds byte `b`.
pub open spec fn find_byte(s: Seq<u8>, end: int, i: int, b: u8) -> int
    decreases end - i,
{
    if i >= end {
        end
    } else if s[i] == b {
        i
    } else {
        find_byte(s, end, i + 1, b)
    }
}

/// First offset in `[i, end]` where a block comment ends: the start of a
/// `*/` pair, or `end` if none follows.
pub open spec fn block_close(s: Seq<u8>, end: int, i: int) -> int
    decreases end - i,
{
    if i + 1 >= end {
        end
    } else if s[i] == 42 && s[i + 1] == 47 {
        i
    } else {
        block_close(s, end, i + 1)
    }
}

pub proof fn lemma_word_end(s: Seq<u8>, end: int, i: int)
    requires
        i <= end,
    ensures
        i <= word_end(s, end, i) <= end,
    decreases end - i,
{
    if i < end && is_word_byte(s[i]) {
        lemma_word_end(s, end, i + 1);
    }
}

pub proof fn lemma_find_byte(s: Seq<u8>, end: int, i: int, b: u8)
    requires
        i <= end,
    ensures
        i <= find_byte(s, end, i, b) <= end,
        find_byte(s, end, i, b) < end ==> s[find_byte(s, end, i, b)] == b,
    decreases end - i,
{
    if i < end && s[i] != b {
        lemma_find_byte(s, end, i + 1, b);
    }
}

pub proof fn lemma_block_close(s: Seq<u8>, end: int, i: int)
    requires
        i <= end,
    ensures
        i <= block_close(s, end, i) <= end,
        block_close(s, end, i) < end ==> block_close(s, end, i) + 1 < end,
    decreases end - i,
{
    if i + 1 < end && !(s[i] == 42 && s[i + 1] == 47) {
        lemma_block_close(s, end, i + 1);
    }
}

/// The tokens of `s[i .. end]`, skipping whitespace and comments.
pub open spec fn toks_from(s: Seq<u8>, end: int, i: int) -> Seq<TokenS>
    decreases end - i,
    via toks_from_dec
{
    if i < 0 || i >= end {
        Seq::empty()
    } else {
        let b = s[i];
        if is_space(b) {
            toks_from(s, end, i + 1)
        } else if b == 45 && i + 1 < end && s[i + 1] == 45 {
            let j = find_byte(s, end, i + 2, 10);
            toks_from(s, end, if j >= end { end } else { j + 1 })
        } else if b == 47 && i + 1 < end && s[i + 1] == 42 {
            let j = block_close(s, end, i + 2);
            toks_from(s, end, if j >= end { end } else { j + 2 })
        } else if is_word_byte(b) {
            let j = word_end(s, end, i + 1);
            seq![TokenS::Word(s.subrange(i, j))] + toks_from(s, end, j)
        } else if b == 39 {
            let j = find_byte(s, end, i + 1, 39);
            seq![TokenS::Str] + toks_from(s, end, if j >= end { end } else { j + 1 })
        } else if b == 34 {
            let j = find_byte(s, end, i + 1, 34);
            seq![TokenS::Quoted(s.subrange(i + 1, j))] + toks_from(s, end, if j >= end {
                end
            } else {
                j + 1
            })
        } else if b == 40 {
            seq![TokenS::LP] + toks_from(s, end, i + 1)
        } else if b == 41 {
            seq![TokenS::RP] + toks_from(s, end, i + 1)
        } else if b == 44 {
            seq![TokenS::Comma] + toks_from(s, end, i + 1)
        } else {
            seq![TokenS::Op(b)] + toks_from(s, end, i + 1)
        }
    }
}

#[via_fn]
proof fn toks_from_dec(s: Seq<u8>, end: int, i: int) {
    if 0 <= i < end {
        let b = s[i];
        if b == 45 && i + 1 < end && s[i + 1] == 45 {
            lemma_find_byte(s, end, i + 2, 10);
        }
        if b == 47 && i + 1 < end && s[i + 1] == 42 {
            lemma_block_close(s, end, i + 2);
        }
        if is_word_byte(b) {
            lemma_word_end(s, end, i + 1);
        }
        if b == 39 {
            lemma_find_byte(s, end, i + 1, 39);
        }
        if b == 34 {
            lemma_find_byte(s, end, i + 1, 34);
        }
    }
}

/// Copy of `src[a .. b]` as a fresh vector.
pub fn subvec(src: &Vec<u8>, a: usize, b: usize) -> (r: Vec<u8>)
    requires
        a <= b <= src@.len(),
    ensures
        r@ == src@.subrange(a as int, b as int),
{
    let mut r: Vec<u8> = Vec::new();
    let mut j: usize = a;
    while j < b
        invariant
            a <= j <= b <= src@.len(),
            r@ == src@.subrange(a as int, j as int),
        decreases b - j,
    {
        r.push(src[j]);
        assert(r@ =~= src@.subrange(a as int, j as int + 1));
        j = j + 1;
    }
    r
}

/// Executable mirror of [`word_end`].
fn word_end_x(src: &Vec<u8>, end: usize, i: usize) -> (r: usize)
    requires
        i <= end <= src@.len(),
    ensures
        r == word_end(src@, end as int, i as int),
        i <= r <= end,
{
    let mut j: usize = i;
    while j < end && is_word_byte_x(src[j])
        invariant
            i <= j <= end <= src@.len(),
            word_end(src@, end as int, i as int) == word_end(src@, end as int, j as int),
        decreases end - j,
    {
        j = j + 1;
    }
    proof {
        lemma_word_end(src@, end as int, i as int);
    }
    j
}

/// Executable mirror of [`find_byte`].
fn find_byte_x(src: &Vec<u8>, end: usize, i: usize, b: u8) -> (r: usize)
    requires
        i <= end <= src@.len(),
    ensures
        r == find_byte(src@, end as int, i as int, b),
        i <= r <= end,
{
    let mut j: usize = i;
    while j < end && src[j] != b
        invariant
            i <= j <= end <= src@.len(),
            find_byte(src@, end as int, i as int, b) == find_byte(src@, end as int, j as int, b),
        decreases end - j,
    {
        j = j + 1;
    }
    proof {
        lemma_find_byte(src@, end as int, i as int, b);
    }
    j
}

/// Executable mirror of [`block_close`].
fn block_close_x(src: &Vec<u8>, end: usize, i: usize) -> (r: usize)
    requires
        i <= end <= src@.len(),
    ensures
        r == block_close(src@, end as int, i as int),
        i <= r <= end,
        r < end ==> r + 1 < end,
{
    let mut j: usize = i;
    loop
        invariant
            i <= j <= end <= src@.len(),
            block_close(src@, end as int, i as int) == block_close(src@, end as int, j as int),
        decreases end - j,
    {
        if end - j <= 1 {
            proof {
                lemma_block_close(src@, end as int, i as int);
            }
            return end;
        }
        if src[j] == 42 && src[j + 1] == 47 {
            proof {
                lemma_block_close(src@, end as int, i as int);
            }
            return j;
        }
        j = j + 1;
    }
}

/// Executable test for [`is_word_byte`].
pub fn is_word_byte_x(b: u8) -> (r: bool)
    ensures
        r == is_word_byte(b),
{
    (65 <= b && b <= 90) || (97 <= b && b <= 122) || (48 <= b && b <= 57) || b == 95 || b == 46
}

/// Executable test for [`is_space`].
pub fn is_space_x(b: u8) -> (r: bool)
    ensures
        r == is_space(b),
{
    b == 32 || b == 9 || b == 13 || b == 10
}

/// Tokenize `src[start .. end]`.
pub fn tokenize(src: &Vec<u8>, start: usize, end: usize) -> (out: Vec<Token>)
    requires
        start <= end <= src@.len(),
    ensures
        toks_view(out@) == toks_from(src@, end as int, start as int),
{
    let mut out: Vec<Token> = Vec::new();
    let mut i: usize = start;
    proof {
        assert(toks_view(out@) =~= Seq::<TokenS>::empty());
        assert(toks_view(out@) + toks_from(src@, end as int, start as int) =~= toks_from(
            src@,
            end as int,
            start as int,
        ));
    }
    while i < end
        invariant
            start <= i <= end <= src@.len(),
            toks_view(out@) + toks_from(src@, end as int, i as int) == toks_from(
                src@,
                end as int,
                start as int,
            ),
        decreases end - i,
    {
        let ghost pre = toks_view(out@);
        let ghost rest0 = toks_from(src@, end as int, i as int);
        let b = src[i];
        let mut next: usize = i + 1;
        let mut tok: Option<Token> = Option::None;
        if is_space_x(b) {
            // skip
        } else if b == 45 && i + 1 < end && src[i + 1] == 45 {
            let j = find_byte_x(src, end, i + 2, 10);
            next = if j >= end {
                end
            } else {
                j + 1
            };
        } else if b == 47 && i + 1 < end && src[i + 1] == 42 {
            let j = block_close_x(src, end, i + 2);
            next = if j >= end {
                end
            } else {
                j + 2
            };
        } else if is_word_byte_x(b) {
            let j = word_end_x(src, end, i + 1);
            tok = Option::Some(Token::Word(subvec(src, i, j)));
            next = j;
        } else if b == 39 {
            let j = find_byte_x(src, end, i + 1, 39);
            tok = Option::Some(Token::Str);
            next = if j >= end {
                end
            } else {
                j + 1
            };
        } else if b == 34 {
            let j = find_byte_x(src, end, i + 1, 34);
            tok = Option::Some(Token::Quoted(subvec(src, i + 1, j)));
            next = if j >= end {
                end
            } else {
                j + 1
            };
        } else if b == 40 {
            tok = Option::Some(Token::LP);
        } else if b == 41 {
            tok = Option::Some(Token::RP);
        } else if b == 44 {
            tok = Option::Some(Token::Comma);
        } else {
            tok = Option::Some(Token::Op(b));
        }
        match tok {
            Option::Some(t) => {
                let ghost ts = t@;
                out.push(t);
                proof {
                    assert(toks_view(out@) =~= pre + seq![ts]);
                    assert(rest0 =~= seq![ts] + toks_from(src@, end as int, next as int));
                    assert(toks_view(out@) + toks_from(src@, end as int, next as int) =~= pre
                        + rest0);
                }
            },
            Option::None => {
                proof {
                    assert(rest0 =~= toks_from(src@, end as int, next as int));
                }
            },
        }
        i = next;
    }
    out
}

} // verus!
