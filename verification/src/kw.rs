//! Case-insensitive keyword matching on tokens.
//!
//! Keyword comparison uppercases the word's ASCII letters and compares the
//! bytes with the keyword literal, so `create`, `Create` and `CREATE` all
//! match; quoted identifiers never match a keyword.

use vstd::prelude::*;
use vstd::string::StrSliceExecFns;
use vstd::string::StringSliceAdditionalSpecFns;
use crate::token::{Token, TokenS};

verus! {

/// `b` with an ASCII lowercase letter folded to uppercase.
pub open spec fn upper(b: u8) -> u8 {
    if 97 <= b && b <= 122 {
        (b - 32) as u8
    } else {
        b
    }
}

/// `s` with every ASCII lowercase letter folded to uppercase.
pub open spec fn upper_seq(s: Seq<u8>) -> Seq<u8> {
    s.map_values(|b: u8| upper(b))
}

/// True when token `t` is an unquoted word that matches keyword `k`
/// case-insensitively (`k` given in uppercase).
pub open spec fn kw(t: TokenS, k: Seq<u8>) -> bool {
    match t {
        TokenS::Word(w) => upper_seq(w) == k,
        _ => false,
    }
}

/// True when token `j` of `t` exists and matches keyword `k`.
pub open spec fn kw_at(t: Seq<TokenS>, j: int, k: Seq<u8>) -> bool {
    0 <= j < t.len() && kw(t[j], k)
}

/// The identifier carried by token `j` of `t`: an unquoted word as
/// written, or a quoted identifier with its quotes stripped.
pub open spec fn name_of(t: Seq<TokenS>, j: int) -> Option<Seq<u8>> {
    if 0 <= j < t.len() {
        match t[j] {
            TokenS::Word(w) => Option::Some(w),
            TokenS::Quoted(w) => Option::Some(w),
            _ => Option::None,
        }
    } else {
        Option::None
    }
}

/// Executable mirror of [`upper`].
pub fn upper_x(b: u8) -> (r: u8)
    ensures
        r == upper(b),
{
    if 97 <= b && b <= 122 {
        b - 32
    } else {
        b
    }
}

/// Executable mirror of [`kw`]: does token `t` match keyword `k`?
pub fn is_kw(t: &Token, k: &str) -> (r: bool)
    ensures
        r == kw(t@, k.spec_bytes()),
{
    match t {
        Token::Word(w) => {
            assert(t@ == TokenS::Word(w@));
            let kb: Vec<u8> = k.as_bytes_vec();
            if w.len() != kb.len() {
                assert(upper_seq(w@).len() == w@.len());
                assert(upper_seq(w@) != kb@);
                return false;
            }
            let n = w.len();
            let mut i: usize = 0;
            while i < n
                invariant
                    0 <= i <= n,
                    n == w@.len() == kb@.len(),
                    kb@ == k.spec_bytes(),
                    t@ == TokenS::Word(w@),
                    forall|j: int| 0 <= j < i ==> upper(w@[j]) == kb@[j],
                decreases n - i,
            {
                if upper_x(w[i]) != kb[i] {
                    assert(upper_seq(w@)[i as int] == upper(w@[i as int]));
                    assert(upper_seq(w@)[i as int] != kb@[i as int]);
                    assert(upper_seq(w@) != kb@);
                    return false;
                }
                i = i + 1;
            }
            assert(upper_seq(w@) =~= kb@);
            true
        },
        _ => false,
    }
}

/// Executable mirror of [`kw_at`].
pub fn is_kw_at(t: &Vec<Token>, j: usize, k: &str) -> (r: bool)
    ensures
        r == kw_at(crate::token::toks_view(t@), j as int, k.spec_bytes()),
{
    j < t.len() && is_kw(&t[j], k)
}

/// Executable mirror of [`name_of`]: a fresh copy of the identifier.
pub fn get_name(t: &Vec<Token>, j: usize) -> (r: Option<Vec<u8>>)
    ensures
        match r {
            Option::Some(v) => name_of(crate::token::toks_view(t@), j as int) == Option::Some(
                v@,
            ),
            Option::None => name_of(crate::token::toks_view(t@), j as int) is None,
        },
{
    if j < t.len() {
        match &t[j] {
            Token::Word(w) => Option::Some(clone_bytes(w)),
            Token::Quoted(w) => Option::Some(clone_bytes(w)),
            _ => Option::None,
        }
    } else {
        Option::None
    }
}

/// Exact (case-sensitive) comparison of a byte vector with a literal.
pub fn bytes_eq(v: &Vec<u8>, k: &str) -> (r: bool)
    ensures
        r == (v@ == k.spec_bytes()),
{
    let kb: Vec<u8> = k.as_bytes_vec();
    if v.len() != kb.len() {
        return false;
    }
    let n = v.len();
    let mut i: usize = 0;
    while i < n
        invariant
            0 <= i <= n,
            n == v@.len() == kb@.len(),
            kb@ == k.spec_bytes(),
            forall|j: int| 0 <= j < i ==> v@[j] == kb@[j],
        decreases n - i,
    {
        if v[i] != kb[i] {
            return false;
        }
        i = i + 1;
    }
    assert(v@ =~= kb@);
    true
}

/// A fresh copy of a byte vector.
pub fn clone_bytes(v: &Vec<u8>) -> (r: Vec<u8>)
    ensures
        r@ == v@,
{
    let mut r: Vec<u8> = Vec::new();
    let mut j: usize = 0;
    while j < v.len()
        invariant
            0 <= j <= v@.len(),
            r@ == v@.subrange(0, j as int),
        decreases v@.len() - j,
    {
        r.push(v[j]);
        assert(r@ =~= v@.subrange(0, j as int + 1));
        j = j + 1;
    }
    assert(r@ =~= v@);
    r
}

} // verus!
