//! Recognizing the actions of an `ALTER TABLE` statement.
//!
//! The token stream after the table name is split at top-level commas;
//! each piece is matched against the action shapes the rules need
//! (`ADD COLUMN`, `ADD CONSTRAINT`, `DROP COLUMN`, `RENAME COLUMN`,
//! `ALTER COLUMN ... TYPE`, `SET NOT NULL`). A piece that fits no shape is
//! skipped: the recognizer extracts only the fields rules use and does not
//! validate the full grammar.

use vstd::prelude::*;
use vstd::string::StringSliceAdditionalSpecFns;
use crate::ast::{AlterAction, AlterActionS, ConstraintKind};
use crate::kw::{is_kw, kw_at, name_of, get_name};
use crate::token::{Token, TokenS, toks_view};

verus! {

/// True when token `j` exists before bound `b` and matches keyword `k`.
pub open spec fn kw_in(t: Seq<TokenS>, j: int, b: int, k: Seq<u8>) -> bool {
    j < b && kw_at(t, j, k)
}

/// The identifier at token `j`, if `j` lies before bound `b`.
pub open spec fn name_in(t: Seq<TokenS>, j: int, b: int) -> Option<Seq<u8>> {
    if j < b {
        name_of(t, j)
    } else {
        Option::None
    }
}

/// First top-level (parenthesis depth zero) comma at or after `j`, or
/// `t.len()` if none follows.
pub open spec fn next_comma(t: Seq<TokenS>, j: int, d: int) -> int
    decreases t.len() - j,
{
    if j < 0 || j >= t.len() {
        t.len() as int
    } else {
        match t[j] {
            TokenS::LP => next_comma(t, j + 1, d + 1),
            TokenS::RP => next_comma(t, j + 1, if d > 0 { d - 1 } else { 0 }),
            TokenS::Comma => if d == 0 {
                j
            } else {
                next_comma(t, j + 1, d)
            },
            _ => next_comma(t, j + 1, d),
        }
    }
}

pub proof fn lemma_next_comma(t: Seq<TokenS>, j: int, d: int)
    requires
        0 <= j <= t.len(),
    ensures
        j <= next_comma(t, j, d) <= t.len(),
    decreases t.len() - j,
{
    if 0 <= j < t.len() {
        match t[j] {
            TokenS::LP => lemma_next_comma(t, j + 1, d + 1),
            TokenS::RP => lemma_next_comma(t, j + 1, if d > 0 { d - 1 } else { 0 }),
            TokenS::Comma => if d != 0 {
                lemma_next_comma(t, j + 1, d)
            },
            _ => lemma_next_comma(t, j + 1, d),
        }
    }
}

/// The constraint kind named at position `j`, read from that position
/// alone: `CHECK`, `FOREIGN`, `UNIQUE`, or the pair `NOT NULL`.
pub open spec fn kind_head(t: Seq<TokenS>, j: int, b: int) -> Option<ConstraintKind> {
    if kw_in(t, j, b, "CHECK".spec_bytes()) {
        Option::Some(ConstraintKind::Check)
    } else if kw_in(t, j, b, "FOREIGN".spec_bytes()) {
        Option::Some(ConstraintKind::ForeignKey)
    } else if kw_in(t, j, b, "UNIQUE".spec_bytes()) {
        Option::Some(ConstraintKind::Unique)
    } else if kw_in(t, j, b, "NOT".spec_bytes()) && kw_in(t, j + 1, b, "NULL".spec_bytes()) {
        Option::Some(ConstraintKind::NotNull)
    } else {
        Option::None
    }
}

/// First constraint kind named anywhere in `[j, b)`.
pub open spec fn find_kind(t: Seq<TokenS>, j: int, b: int) -> Option<ConstraintKind>
    decreases b - j,
{
    if j < 0 || j >= b {
        Option::None
    } else if kind_head(t, j, b) is Some {
        kind_head(t, j, b)
    } else {
        find_kind(t, j + 1, b)
    }
}

/// True when the adjacent keyword pair `k1 k2` stands anywhere in `[j, b)`.
pub open spec fn has_pair(t: Seq<TokenS>, j: int, b: int, k1: Seq<u8>, k2: Seq<u8>) -> bool
    decreases b - j,
{
    if j < 0 || j >= b {
        false
    } else if kw_in(t, j, b, k1) && kw_in(t, j + 1, b, k2) {
        true
    } else {
        has_pair(t, j + 1, b, k1, k2)
    }
}

/// The recorded form of a default value's first token: the bytes of a word
/// or quoted identifier, or a stand-in byte for punctuation or a string
/// literal (never the word `NULL`, which is kept as written).
pub open spec fn tok_default(t: TokenS) -> Seq<u8> {
    match t {
        TokenS::Word(w) => w,
        TokenS::Quoted(w) => w,
        TokenS::Str => seq![39u8],
        TokenS::LP => seq![40u8],
        TokenS::RP => seq![41u8],
        TokenS::Comma => seq![44u8],
        TokenS::Op(b) => seq![b],
    }
}

/// The default value introduced by a `DEFAULT` keyword in `[j, b)`, if any.
pub open spec fn default_of(t: Seq<TokenS>, j: int, b: int) -> Option<Seq<u8>>
    decreases b - j,
{
    if j < 0 || j >= b {
        Option::None
    } else if kw_in(t, j, b, "DEFAULT".spec_bytes()) && j + 1 < b {
        Option::Some(tok_default(t[j + 1]))
    } else {
        default_of(t, j + 1, b)
    }
}

/// Recognize one action from the token range `[a, b)`, or nothing if the
/// range fits no known action shape.
pub open spec fn parse_action(t: Seq<TokenS>, a: int, b: int) -> Option<AlterActionS> {
    if kw_in(t, a, b, "ADD".spec_bytes()) {
        parse_add(t, a + 1, b)
    } else if kw_in(t, a, b, "DROP".spec_bytes()) {
        parse_drop(t, a + 1, b)
    } else if kw_in(t, a, b, "RENAME".spec_bytes()) {
        parse_rename(t, a + 1, b)
    } else if kw_in(t, a, b, "ALTER".spec_bytes()) {
        parse_alter_col(t, a + 1, b)
    } else {
        Option::None
    }
}

/// Recognize the remainder of an `ADD ...` action starting at `c0`.
pub open spec fn parse_add(t: Seq<TokenS>, c0: int, b: int) -> Option<AlterActionS> {
    let c1 = if kw_in(t, c0, b, "COLUMN".spec_bytes()) {
        c0 + 1
    } else {
        c0
    };
    let c = if kw_in(t, c1, b, "IF".spec_bytes()) && kw_in(t, c1 + 1, b, "NOT".spec_bytes())
        && kw_in(t, c1 + 2, b, "EXISTS".spec_bytes()) {
        c1 + 3
    } else {
        c1
    };
    if kw_in(t, c, b, "CONSTRAINT".spec_bytes()) {
        match find_kind(t, c + 1, b) {
            Option::Some(k) => Option::Some(AlterActionS::AddConstraint {
                kind: k,
                validated: !has_pair(t, c + 1, b, "NOT".spec_bytes(), "VALID".spec_bytes()),
            }),
            Option::None => Option::None,
        }
    } else if kind_head(t, c, b) is Some {
        Option::Some(AlterActionS::AddConstraint {
            kind: kind_head(t, c, b).unwrap(),
            validated: !has_pair(t, c, b, "NOT".spec_bytes(), "VALID".spec_bytes()),
        })
    } else {
        match name_in(t, c, b) {
            Option::Some(nm) => Option::Some(AlterActionS::AddColumn {
                name: nm,
                col_type: match name_in(t, c + 1, b) {
                    Option::Some(ty) => ty,
                    Option::None => Seq::empty(),
                },
                default: default_of(t, c + 1, b),
                nullable: !has_pair(t, c + 1, b, "NOT".spec_bytes(), "NULL".spec_bytes()),
            }),
            Option::None => Option::None,
        }
    }
}

/// Recognize the remainder of a `DROP ...` action starting at `c`.
pub open spec fn parse_drop(t: Seq<TokenS>, c: int, b: int) -> Option<AlterActionS> {
    if kw_in(t, c, b, "COLUMN".spec_bytes()) {
        let d = if kw_in(t, c + 1, b, "IF".spec_bytes()) && kw_in(t, c + 2, b, "EXISTS".spec_bytes()) {
            c + 3
        } else {
            c + 1
        };
        match name_in(t, d, b) {
            Option::Some(nm) => Option::Some(AlterActionS::DropColumn { name: nm }),
            Option::None => Option::None,
        }
    } else if kw_in(t, c, b, "CONSTRAINT".spec_bytes()) {
        match name_in(t, c + 1, b) {
            Option::Some(nm) => Option::Some(AlterActionS::DropConstraint { name: nm }),
            Option::None => Option::None,
        }
    } else {
        match name_in(t, c, b) {
            Option::Some(nm) => Option::Some(AlterActionS::DropColumn { name: nm }),
            Option::None => Option::None,
        }
    }
}

/// Recognize the remainder of a `RENAME ...` action starting at `c`.
/// `RENAME TO` renames the table, which no rule inspects, so it yields
/// nothing.
pub open spec fn parse_rename(t: Seq<TokenS>, c: int, b: int) -> Option<AlterActionS> {
    if kw_in(t, c, b, "COLUMN".spec_bytes()) {
        if name_in(t, c + 1, b) is Some && kw_in(t, c + 2, b, "TO".spec_bytes()) && name_in(
            t,
            c + 3,
            b,
        ) is Some {
            Option::Some(AlterActionS::RenameColumn {
                from: name_in(t, c + 1, b).unwrap(),
                to: name_in(t, c + 3, b).unwrap(),
            })
        } else {
            Option::None
        }
    } else if kw_in(t, c, b, "TO".spec_bytes()) {
        Option::None
    } else if name_in(t, c, b) is Some && kw_in(t, c + 1, b, "TO".spec_bytes()) && name_in(
        t,
        c + 2,
        b,
    ) is Some {
        Option::Some(AlterActionS::RenameColumn {
            from: name_in(t, c, b).unwrap(),
            to: name_in(t, c + 2, b).unwrap(),
        })
    } else {
        Option::None
    }
}

/// Recognize the remainder of an `ALTER [COLUMN] ...` action starting at
/// `c0`.
pub open spec fn parse_alter_col(t: Seq<TokenS>, c0: int, b: int) -> Option<AlterActionS> {
    let c = if kw_in(t, c0, b, "COLUMN".spec_bytes()) {
        c0 + 1
    } else {
        c0
    };
    match name_in(t, c, b) {
        Option::Some(nm) => if kw_in(t, c + 1, b, "TYPE".spec_bytes()) {
            match name_in(t, c + 2, b) {
                Option::Some(ty) => Option::Some(AlterActionS::AlterColumnType {
                    name: nm,
                    new_type: ty,
                }),
                Option::None => Option::None,
            }
        } else if kw_in(t, c + 1, b, "SET".spec_bytes()) && kw_in(t, c + 2, b, "DATA".spec_bytes())
            && kw_in(t, c + 3, b, "TYPE".spec_bytes()) {
            match name_in(t, c + 4, b) {
                Option::Some(ty) => Option::Some(AlterActionS::AlterColumnType {
                    name: nm,
                    new_type: ty,
                }),
                Option::None => Option::None,
            }
        } else if kw_in(t, c + 1, b, "SET".spec_bytes()) && kw_in(t, c + 2, b, "NOT".spec_bytes())
            && kw_in(t, c + 3, b, "NULL".spec_bytes()) {
            Option::Some(AlterActionS::AddConstraint {
                kind: ConstraintKind::NotNull,
                validated: true,
            })
        } else {
            Option::None
        },
        Option::None => Option::None,
    }
}

/// All actions recognized in the comma-separated list starting at `j`.
pub open spec fn actions_from(t: Seq<TokenS>, j: int) -> Seq<AlterActionS>
    decreases t.len() - j + 1,
    via actions_from_dec
{
    if j < 0 || j >= t.len() {
        Seq::empty()
    } else {
        let k = next_comma(t, j, 0);
        let rest = actions_from(t, k + 1);
        match parse_action(t, j, k) {
            Option::Some(a) => seq![a] + rest,
            Option::None => rest,
        }
    }
}

#[via_fn]
proof fn actions_from_dec(t: Seq<TokenS>, j: int) {
    if 0 <= j < t.len() {
        lemma_next_comma(t, j, 0);
    }
}

/// View of an optional action.
pub open spec fn opt_action_view(r: Option<AlterAction>) -> Option<AlterActionS> {
    match r {
        Option::Some(a) => Option::Some(a@),
        Option::None => Option::None,
    }
}

/// Executable mirror of [`kw_in`].
pub fn kw_in_x(t: &Vec<Token>, j: usize, b: usize, k: &str) -> (r: bool)
    requires
        b <= t@.len(),
    ensures
        r == kw_in(toks_view(t@), j as int, b as int, k.spec_bytes()),
{
    j < b && is_kw(&t[j], k)
}

/// Executable mirror of [`name_in`].
pub fn name_in_x(t: &Vec<Token>, j: usize, b: usize) -> (r: Option<Vec<u8>>)
    requires
        b <= t@.len(),
    ensures
        match r {
            Option::Some(v) => name_in(toks_view(t@), j as int, b as int) == Option::Some(v@),
            Option::None => name_in(toks_view(t@), j as int, b as int) is None,
        },
{
    if j < b {
        get_name(t, j)
    } else {
        Option::None
    }
}

/// Executable mirror of [`next_comma`].
pub fn next_comma_x(t: &Vec<Token>, j: usize) -> (r: usize)
    requires
        j <= t@.len(),
    ensures
        r == next_comma(toks_view(t@), j as int, 0),
        j <= r <= t@.len(),
{
    let n = t.len();
    let mut i: usize = j;
    let mut d: usize = 0;
    while i < n
        invariant
            j <= i <= n == t@.len(),
            d <= i,
            next_comma(toks_view(t@), j as int, 0) == next_comma(toks_view(t@), i as int, d as int),
        decreases n - i,
    {
        proof {
            assert(toks_view(t@)[i as int] == t@[i as int]@);
        }
        match &t[i] {
            Token::LP => {
                d = d + 1;
            },
            Token::RP => {
                if d > 0 {
                    d = d - 1;
                }
            },
            Token::Comma => {
                if d == 0 {
                    proof {
                        lemma_next_comma(toks_view(t@), j as int, 0);
                    }
                    return i;
                }
            },
            _ => {},
        }
        i = i + 1;
    }
    n
}

/// Executable mirror of [`kind_head`].
pub fn kind_head_x(t: &Vec<Token>, j: usize, b: usize) -> (r: Option<ConstraintKind>)
    requires
        b <= t@.len(),
    ensures
        r == kind_head(toks_view(t@), j as int, b as int),
{
    if kw_in_x(t, j, b, "CHECK") {
        Option::Some(ConstraintKind::Check)
    } else if kw_in_x(t, j, b, "FOREIGN") {
        Option::Some(ConstraintKind::ForeignKey)
    } else if kw_in_x(t, j, b, "UNIQUE") {
        Option::Some(ConstraintKind::Unique)
    } else if kw_in_x(t, j, b, "NOT") && kw_in_x(t, j + 1, b, "NULL") {
        Option::Some(ConstraintKind::NotNull)
    } else {
        Option::None
    }
}

/// Executable mirror of [`find_kind`].
pub fn find_kind_x(t: &Vec<Token>, j: usize, b: usize) -> (r: Option<ConstraintKind>)
    requires
        b <= t@.len(),
    ensures
        r == find_kind(toks_view(t@), j as int, b as int),
{
    let mut i: usize = j;
    while i < b
        invariant
            j <= i,
            b <= t@.len(),
            find_kind(toks_view(t@), j as int, b as int) == find_kind(
                toks_view(t@),
                i as int,
                b as int,
            ),
        decreases b - i,
    {
        let h = kind_head_x(t, i, b);
        if h.is_some() {
            return h;
        }
        i = i + 1;
    }
    Option::None
}

/// Executable mirror of [`has_pair`].
pub fn has_pair_x(t: &Vec<Token>, j: usize, b: usize, k1: &str, k2: &str) -> (r: bool)
    requires
        b <= t@.len(),
    ensures
        r == has_pair(toks_view(t@), j as int, b as int, k1.spec_bytes(), k2.spec_bytes()),
{
    let mut i: usize = j;
    while i < b
        invariant
            j <= i,
            b <= t@.len(),
            has_pair(toks_view(t@), j as int, b as int, k1.spec_bytes(), k2.spec_bytes())
                == has_pair(toks_view(t@), i as int, b as int, k1.spec_bytes(), k2.spec_bytes()),
        decreases b - i,
    {
        if kw_in_x(t, i, b, k1) && kw_in_x(t, i + 1, b, k2) {
            return true;
        }
        i = i + 1;
    }
    false
}

/// Executable mirror of [`tok_default`].
fn tok_default_x(t: &Token) -> (r: Vec<u8>)
    ensures
        r@ == tok_default(t@),
{
    match t {
        Token::Word(w) => crate::kw::clone_bytes(w),
        Token::Quoted(w) => crate::kw::clone_bytes(w),
        Token::Str => {
            let mut v: Vec<u8> = Vec::new();
            v.push(39);
            proof {
                assert(v@ =~= seq![39u8]);
            }
            v
        },
        Token::LP => {
            let mut v: Vec<u8> = Vec::new();
            v.push(40);
            proof {
                assert(v@ =~= seq![40u8]);
            }
            v
        },
        Token::RP => {
            let mut v: Vec<u8> = Vec::new();
            v.push(41);
            proof {
                assert(v@ =~= seq![41u8]);
            }
            v
        },
        Token::Comma => {
            let mut v: Vec<u8> = Vec::new();
            v.push(44);
            proof {
                assert(v@ =~= seq![44u8]);
            }
            v
        },
        Token::Op(b) => {
            let mut v: Vec<u8> = Vec::new();
            v.push(*b);
            proof {
                assert(v@ =~= seq![*b]);
            }
            v
        },
    }
}

/// Executable mirror of [`default_of`].
pub fn default_of_x(t: &Vec<Token>, j: usize, b: usize) -> (r: Option<Vec<u8>>)
    requires
        b <= t@.len(),
    ensures
        match r {
            Option::Some(v) => default_of(toks_view(t@), j as int, b as int) == Option::Some(v@),
            Option::None => default_of(toks_view(t@), j as int, b as int) is None,
        },
{
    let mut i: usize = j;
    while i < b
        invariant
            j <= i,
            b <= t@.len(),
            default_of(toks_view(t@), j as int, b as int) == default_of(
                toks_view(t@),
                i as int,
                b as int,
            ),
        decreases b - i,
    {
        if kw_in_x(t, i, b, "DEFAULT") && i + 1 < b {
            return Option::Some(tok_default_x(&t[i + 1]));
        }
        i = i + 1;
    }
    Option::None
}

/// Executable mirror of [`parse_action`].
pub fn parse_action_x(t: &Vec<Token>, a: usize, b: usize) -> (r: Option<AlterAction>)
    requires
        b <= t@.len(),
    ensures
        opt_action_view(r) == parse_action(toks_view(t@), a as int, b as int),
{
    if kw_in_x(t, a, b, "ADD") {
        parse_add_x(t, a + 1, b)
    } else if kw_in_x(t, a, b, "DROP") {
        parse_drop_x(t, a + 1, b)
    } else if kw_in_x(t, a, b, "RENAME") {
        parse_rename_x(t, a + 1, b)
    } else if kw_in_x(t, a, b, "ALTER") {
        parse_alter_col_x(t, a + 1, b)
    } else {
        Option::None
    }
}

/// Executable mirror of [`parse_add`].
fn parse_add_x(t: &Vec<Token>, c0: usize, b: usize) -> (r: Option<AlterAction>)
    requires
        b <= t@.len(),
    ensures
        opt_action_view(r) == parse_add(toks_view(t@), c0 as int, b as int),
{
    let c1 = if kw_in_x(t, c0, b, "COLUMN") {
        c0 + 1
    } else {
        c0
    };
    let c = if kw_in_x(t, c1, b, "IF") && kw_in_x(t, c1 + 1, b, "NOT") && kw_in_x(
        t,
        c1 + 2,
        b,
        "EXISTS",
    ) {
        c1 + 3
    } else {
        c1
    };
    if kw_in_x(t, c, b, "CONSTRAINT") {
        match find_kind_x(t, c + 1, b) {
            Option::Some(k) => Option::Some(AlterAction::AddConstraint {
                kind: k,
                validated: !has_pair_x(t, c + 1, b, "NOT", "VALID"),
            }),
            Option::None => Option::None,
        }
    } else {
        let h = kind_head_x(t, c, b);
        match h {
            Option::Some(k) => Option::Some(AlterAction::AddConstraint {
                kind: k,
                validated: !has_pair_x(t, c, b, "NOT", "VALID"),
            }),
            Option::None => {
                match name_in_x(t, c, b) {
                    Option::Some(nm) => {
                        let ty = match name_in_x(t, c + 1, b) {
                            Option::Some(ty) => ty,
                            Option::None => Vec::new(),
                        };
                        Option::Some(AlterAction::AddColumn {
                            name: nm,
                            col_type: ty,
                            default: default_of_x(t, c + 1, b),
                            nullable: !has_pair_x(t, c + 1, b, "NOT", "NULL"),
                        })
                    },
                    Option::None => Option::None,
                }
            },
        }
    }
}

/// Executable mirror of [`parse_drop`].
fn parse_drop_x(t: &Vec<Token>, c: usize, b: usize) -> (r: Option<AlterAction>)
    requires
        b <= t@.len(),
    ensures
        opt_action_view(r) == parse_drop(toks_view(t@), c as int, b as int),
{
    if kw_in_x(t, c, b, "COLUMN") {
        let d = if kw_in_x(t, c + 1, b, "IF") && kw_in_x(t, c + 2, b, "EXISTS") {
            c + 3
        } else {
            c + 1
        };
        match name_in_x(t, d, b) {
            Option::Some(nm) => Option::Some(AlterAction::DropColumn { name: nm }),
            Option::None => Option::None,
        }
    } else if kw_in_x(t, c, b, "CONSTRAINT") {
        match name_in_x(t, c + 1, b) {
            Option::Some(nm) => Option::Some(AlterAction::DropConstraint { name: nm }),
            Option::None => Option::None,
        }
    } else {
        match name_in_x(t, c, b) {
            Option::Some(nm) => Option::Some(AlterAction::DropColumn { name: nm }),
            Option::None => Option::None,
        }
    }
}

/// Executable mirror of [`parse_rename`].
fn parse_rename_x(t: &Vec<Token>, c: usize, b: usize) -> (r: Option<AlterAction>)
    requires
        b <= t@.len(),
    ensures
        opt_action_view(r) == parse_rename(toks_view(t@), c as int, b as int),
{
    if kw_in_x(t, c, b, "COLUMN") {
        let from = name_in_x(t, c + 1, b);
        if from.is_some() && kw_in_x(t, c + 2, b, "TO") {
            let to = name_in_x(t, c + 3, b);
            match (from, to) {
                (Option::Some(f), Option::Some(tt)) => Option::Some(AlterAction::RenameColumn {
                    from: f,
                    to: tt,
                }),
                _ => Option::None,
            }
        } else {
            Option::None
        }
    } else if kw_in_x(t, c, b, "TO") {
        Option::None
    } else {
        let from = name_in_x(t, c, b);
        if from.is_some() && kw_in_x(t, c + 1, b, "TO") {
            let to = name_in_x(t, c + 2, b);
            match (from, to) {
                (Option::Some(f), Option::Some(tt)) => Option::Some(AlterAction::RenameColumn {
                    from: f,
                    to: tt,
                }),
                _ => Option::None,
            }
        } else {
            Option::None
        }
    }
}

/// Executable mirror of [`parse_alter_col`].
fn parse_alter_col_x(t: &Vec<Token>, c0: usize, b: usize) -> (r: Option<AlterAction>)
    requires
        b <= t@.len(),
    ensures
        opt_action_view(r) == parse_alter_col(toks_view(t@), c0 as int, b as int),
{
    let c = if kw_in_x(t, c0, b, "COLUMN") {
        c0 + 1
    } else {
        c0
    };
    match name_in_x(t, c, b) {
        Option::Some(nm) => {
            if kw_in_x(t, c + 1, b, "TYPE") {
                match name_in_x(t, c + 2, b) {
                    Option::Some(ty) => Option::Some(AlterAction::AlterColumnType {
                        name: nm,
                        new_type: ty,
                    }),
                    Option::None => Option::None,
                }
            } else if kw_in_x(t, c + 1, b, "SET") && kw_in_x(t, c + 2, b, "DATA") && kw_in_x(
                t,
                c + 3,
                b,
                "TYPE",
            ) {
                match name_in_x(t, c + 4, b) {
                    Option::Some(ty) => Option::Some(AlterAction::AlterColumnType {
                        name: nm,
                        new_type: ty,
                    }),
                    Option::None => Option::None,
                }
            } else if kw_in_x(t, c + 1, b, "SET") && kw_in_x(t, c + 2, b, "NOT") && kw_in_x(
                t,
                c + 3,
                b,
                "NULL",
            ) {
                Option::Some(AlterAction::AddConstraint {
                    kind: ConstraintKind::NotNull,
                    validated: true,
                })
            } else {
                Option::None
            }
        },
        Option::None => Option::None,
    }
}

/// View of an action vector as a sequence of ghost actions.
pub open spec fn actions_view(v: Seq<AlterAction>) -> Seq<AlterActionS> {
    v.map_values(|a: AlterAction| a@)
}

/// Executable mirror of [`actions_from`]: all actions of the
/// comma-separated list starting at `j`.
pub fn actions_from_x(t: &Vec<Token>, j: usize) -> (out: Vec<AlterAction>)
    requires
        j <= t@.len(),
    ensures
        actions_view(out@) == actions_from(toks_view(t@), j as int),
{
    let n = t.len();
    let mut out: Vec<AlterAction> = Vec::new();
    let mut i: usize = j;
    proof {
        assert(actions_view(out@) + actions_from(toks_view(t@), j as int) =~= actions_from(
            toks_view(t@),
            j as int,
        ));
    }
    while i < n
        invariant
            j <= i <= n == t@.len(),
            actions_view(out@) + actions_from(toks_view(t@), i as int) == actions_from(
                toks_view(t@),
                j as int,
            ),
        decreases n - i,
    {
        let ghost pre = actions_view(out@);
        let ghost rest0 = actions_from(toks_view(t@), i as int);
        let k = next_comma_x(t, i);
        match parse_action_x(t, i, k) {
            Option::Some(a) => {
                let ghost av = a@;
                out.push(a);
                proof {
                    assert(actions_view(out@) =~= pre + seq![av]);
                    assert(rest0 =~= seq![av] + actions_from(toks_view(t@), k as int + 1));
                    assert(actions_view(out@) + actions_from(toks_view(t@), k as int + 1) =~= pre
                        + rest0);
                }
            },
            Option::None => {
                proof {
                    assert(rest0 =~= actions_from(toks_view(t@), k as int + 1));
                }
            },
        }
        if k >= n {
            proof {
                assert(actions_view(out@) + actions_from(toks_view(t@), k as int + 1)
                    =~= actions_view(out@));
            }
            return out;
        }
        i = k + 1;
    }
    proof {
        assert(actions_view(out@) + actions_from(toks_view(t@), i as int) =~= actions_view(
            out@,
        ));
    }
    out
}

} // verus!
