//! Classifying one tokenized statement into a [`StatementKind`].
//!
//! A fixed, ordered set of keyword-prefix recognizers matches the token
//! stream; each extracts only the fields rules need. Text that fits no
//! recognizer becomes `Unparsed`, which never aborts parsing; recognized
//! statements of no interest to any rule become `Other`.

use vstd::prelude::*;
use vstd::string::StringSliceAdditionalSpecFns;
use crate::actions::{actions_from, actions_from_x, actions_view};
use crate::ast::{StatementKind, StatementKindS};
use crate::kw::{is_kw_at, kw_at, name_of, get_name};
use crate::token::{Token, TokenS, toks_view};

verus! {

/// First `(` at or after `j`, or `t.len()` if none follows.
pub open spec fn find_lp(t: Seq<TokenS>, j: int) -> int
    decreases t.len() - j,
{
    if j < 0 || j >= t.len() {
        t.len() as int
    } else {
        match t[j] {
            TokenS::LP => j,
            _ => find_lp(t, j + 1),
        }
    }
}

/// The identifiers from `j` up to the first `)` (or the end).
pub open spec fn names_until_rp(t: Seq<TokenS>, j: int) -> Seq<Seq<u8>>
    decreases t.len() - j,
{
    if j < 0 || j >= t.len() {
        Seq::empty()
    } else {
        match t[j] {
            TokenS::RP => Seq::empty(),
            TokenS::Word(w) => seq![w] + names_until_rp(t, j + 1),
            TokenS::Quoted(w) => seq![w] + names_until_rp(t, j + 1),
            _ => names_until_rp(t, j + 1),
        }
    }
}

/// All identifiers from `j` to the end of the statement.
pub open spec fn names_list(t: Seq<TokenS>, j: int) -> Seq<Seq<u8>>
    decreases t.len() - j,
{
    if j < 0 || j >= t.len() {
        Seq::empty()
    } else {
        match t[j] {
            TokenS::Word(w) => seq![w] + names_list(t, j + 1),
            TokenS::Quoted(w) => seq![w] + names_list(t, j + 1),
            _ => names_list(t, j + 1),
        }
    }
}

/// True when the statement opens with a verb that is recognized but of no
/// interest to any rule.
pub open spec fn other_verb(t: Seq<TokenS>) -> bool {
    ||| kw_at(t, 0, "SELECT".spec_bytes())
    ||| kw_at(t, 0, "SET".spec_bytes())
    ||| kw_at(t, 0, "COMMENT".spec_bytes())
    ||| kw_at(t, 0, "GRANT".spec_bytes())
    ||| kw_at(t, 0, "REVOKE".spec_bytes())
    ||| kw_at(t, 0, "VACUUM".spec_bytes())
    ||| kw_at(t, 0, "ANALYZE".spec_bytes())
    ||| kw_at(t, 0, "EXPLAIN".spec_bytes())
    ||| kw_at(t, 0, "SAVEPOINT".spec_bytes())
    ||| kw_at(t, 0, "RELEASE".spec_bytes())
    ||| kw_at(t, 0, "LOCK".spec_bytes())
    ||| kw_at(t, 0, "SHOW".spec_bytes())
    ||| kw_at(t, 0, "WITH".spec_bytes())
    ||| kw_at(t, 0, "COPY".spec_bytes())
    ||| kw_at(t, 0, "CALL".spec_bytes())
    ||| kw_at(t, 0, "DO".spec_bytes())
    ||| kw_at(t, 0, "REINDEX".spec_bytes())
    ||| kw_at(t, 0, "VALUES".spec_bytes())
}

/// Classify a statement beginning with `CREATE`.
pub open spec fn classify_create(t: Seq<TokenS>, raw: Seq<u8>) -> StatementKindS {
    let unique = kw_at(t, 1, "UNIQUE".spec_bytes());
    let ix: int = if unique {
        2
    } else {
        1
    };
    if kw_at(t, ix, "INDEX".spec_bytes()) {
        let conc = kw_at(t, ix + 1, "CONCURRENTLY".spec_bytes());
        let p0 = ix + 1 + if conc {
            1int
        } else {
            0int
        };
        let p = if kw_at(t, p0, "IF".spec_bytes()) && kw_at(t, p0 + 1, "NOT".spec_bytes())
            && kw_at(t, p0 + 2, "EXISTS".spec_bytes()) {
            p0 + 3
        } else {
            p0
        };
        let q_opt: Option<int> = if kw_at(t, p, "ON".spec_bytes()) {
            Option::Some(p + 1)
        } else if name_of(t, p) is Some && kw_at(t, p + 1, "ON".spec_bytes()) {
            Option::Some(p + 2)
        } else {
            Option::None
        };
        match q_opt {
            Option::Some(q) => match name_of(t, q) {
                Option::Some(tb) => StatementKindS::CreateIndex {
                    unique,
                    concurrently: conc,
                    table: tb,
                    columns: names_until_rp(t, find_lp(t, q + 1) + 1),
                },
                Option::None => StatementKindS::Unparsed { raw },
            },
            Option::None => StatementKindS::Unparsed { raw },
        }
    } else {
        StatementKindS::Other { raw }
    }
}

/// Classify a statement beginning with `ALTER TABLE`.
pub open spec fn classify_alter(t: Seq<TokenS>, raw: Seq<u8>) -> StatementKindS {
    let p1: int = if kw_at(t, 2, "IF".spec_bytes()) && kw_at(t, 3, "EXISTS".spec_bytes()) {
        4
    } else {
        2
    };
    let p = if kw_at(t, p1, "ONLY".spec_bytes()) {
        p1 + 1
    } else {
        p1
    };
    match name_of(t, p) {
        Option::Some(tb) => StatementKindS::AlterTable {
            table: tb,
            actions: actions_from(t, p + 1),
        },
        Option::None => StatementKindS::Unparsed { raw },
    }
}

/// Classify a statement beginning with `DROP`.
pub open spec fn classify_drop(t: Seq<TokenS>, raw: Seq<u8>) -> StatementKindS {
    if kw_at(t, 1, "TABLE".spec_bytes()) {
        let q: int = if kw_at(t, 2, "IF".spec_bytes()) && kw_at(t, 3, "EXISTS".spec_bytes()) {
            4
        } else {
            2
        };
        match name_of(t, q) {
            Option::Some(nm) => StatementKindS::DropTable { table: nm },
            Option::None => StatementKindS::Unparsed { raw },
        }
    } else if kw_at(t, 1, "DATABASE".spec_bytes()) {
        let q: int = if kw_at(t, 2, "IF".spec_bytes()) && kw_at(t, 3, "EXISTS".spec_bytes()) {
            4
        } else {
            2
        };
        match name_of(t, q) {
            Option::Some(nm) => StatementKindS::DropDatabase { name: nm },
            Option::None => StatementKindS::Unparsed { raw },
        }
    } else {
        StatementKindS::Other { raw }
    }
}

/// Classify one tokenized statement. `raw` is the statement's source text,
/// kept when no recognizer extracts anything from it.
pub open spec fn classify_spec(t: Seq<TokenS>, raw: Seq<u8>) -> StatementKindS {
    if t.len() == 0 {
        StatementKindS::Unparsed { raw }
    } else if kw_at(t, 0, "CREATE".spec_bytes()) {
        classify_create(t, raw)
    } else if kw_at(t, 0, "ALTER".spec_bytes()) {
        if kw_at(t, 1, "TABLE".spec_bytes()) {
            classify_alter(t, raw)
        } else {
            StatementKindS::Other { raw }
        }
    } else if kw_at(t, 0, "DROP".spec_bytes()) {
        classify_drop(t, raw)
    } else if kw_at(t, 0, "TRUNCATE".spec_bytes()) {
        let j: int = if kw_at(t, 1, "TABLE".spec_bytes()) {
            2
        } else {
            1
        };
        StatementKindS::Truncate { tables: names_list(t, j) }
    } else if kw_at(t, 0, "BEGIN".spec_bytes()) || (kw_at(t, 0, "START".spec_bytes()) && kw_at(
        t,
        1,
        "TRANSACTION".spec_bytes(),
    )) {
        StatementKindS::Begin
    } else if kw_at(t, 0, "COMMIT".spec_bytes()) || kw_at(t, 0, "END".spec_bytes()) {
        StatementKindS::Commit
    } else if kw_at(t, 0, "ROLLBACK".spec_bytes()) || kw_at(t, 0, "ABORT".spec_bytes()) {
        StatementKindS::Rollback
    } else if kw_at(t, 0, "INSERT".spec_bytes()) {
        if kw_at(t, 1, "INTO".spec_bytes()) {
            match name_of(t, 2) {
                Option::Some(nm) => StatementKindS::Insert { table: nm },
                Option::None => StatementKindS::Unparsed { raw },
            }
        } else {
            StatementKindS::Unparsed { raw }
        }
    } else if kw_at(t, 0, "UPDATE".spec_bytes()) {
        match name_of(t, 1) {
            Option::Some(nm) => StatementKindS::Update { table: nm },
            Option::None => StatementKindS::Unparsed { raw },
        }
    } else if kw_at(t, 0, "DELETE".spec_bytes()) {
        if kw_at(t, 1, "FROM".spec_bytes()) {
            match name_of(t, 2) {
                Option::Some(nm) => StatementKindS::Delete { table: nm },
                Option::None => StatementKindS::Unparsed { raw },
            }
        } else {
            StatementKindS::Unparsed { raw }
        }
    } else if other_verb(t) {
        StatementKindS::Other { raw }
    } else {
        StatementKindS::Unparsed { raw }
    }
}

/// View of a vector of identifiers.
pub open spec fn names_view(v: Seq<Vec<u8>>) -> Seq<Seq<u8>> {
    v.map_values(|c: Vec<u8>| c@)
}

/// Executable mirror of [`find_lp`].
fn find_lp_x(t: &Vec<Token>, j: usize) -> (r: usize)
    ensures
        r == find_lp(toks_view(t@), j as int),
        r <= t@.len(),
{
    let n = t.len();
    let mut i: usize = j;
    if i > n {
        return n;
    }
    while i < n
        invariant
            i <= n == t@.len(),
            find_lp(toks_view(t@), j as int) == find_lp(toks_view(t@), i as int),
        decreases n - i,
    {
        proof {
            assert(toks_view(t@)[i as int] == t@[i as int]@);
        }
        match &t[i] {
            Token::LP => {
                return i;
            },
            _ => {},
        }
        i = i + 1;
    }
    n
}

/// Executable mirror of [`names_until_rp`].
fn names_until_rp_x(t: &Vec<Token>, j: usize) -> (out: Vec<Vec<u8>>)
    ensures
        names_view(out@) == names_until_rp(toks_view(t@), j as int),
{
    let n = t.len();
    let mut out: Vec<Vec<u8>> = Vec::new();
    let mut i: usize = j;
    proof {
        assert(names_view(out@) + names_until_rp(toks_view(t@), j as int) =~= names_until_rp(
            toks_view(t@),
            j as int,
        ));
    }
    while i < n
        invariant
            n == t@.len(),
            names_view(out@) + names_until_rp(toks_view(t@), i as int) == names_until_rp(
                toks_view(t@),
                j as int,
            ),
        decreases n - i,
    {
        let ghost pre = names_view(out@);
        proof {
            assert(toks_view(t@)[i as int] == t@[i as int]@);
        }
        match &t[i] {
            Token::RP => {
                proof {
                    assert(names_view(out@) + names_until_rp(toks_view(t@), i as int)
                        =~= names_view(out@));
                }
                return out;
            },
            Token::Word(w) => {
                let c = crate::kw::clone_bytes(w);
                let ghost cv = c@;
                out.push(c);
                proof {
                    assert(names_view(out@) =~= pre + seq![cv]);
                    assert(names_view(out@) + names_until_rp(toks_view(t@), i as int + 1) =~= pre
                        + names_until_rp(toks_view(t@), i as int));
                }
            },
            Token::Quoted(w) => {
                let c = crate::kw::clone_bytes(w);
                let ghost cv = c@;
                out.push(c);
                proof {
                    assert(names_view(out@) =~= pre + seq![cv]);
                    assert(names_view(out@) + names_until_rp(toks_view(t@), i as int + 1) =~= pre
                        + names_until_rp(toks_view(t@), i as int));
                }
            },
            _ => {},
        }
        i = i + 1;
    }
    proof {
        assert(names_view(out@) + names_until_rp(toks_view(t@), i as int) =~= names_view(out@));
    }
    out
}

/// Executable mirror of [`names_list`].
fn names_list_x(t: &Vec<Token>, j: usize) -> (out: Vec<Vec<u8>>)
    ensures
        names_view(out@) == names_list(toks_view(t@), j as int),
{
    let n = t.len();
    let mut out: Vec<Vec<u8>> = Vec::new();
    let mut i: usize = j;
    proof {
        assert(names_view(out@) + names_list(toks_view(t@), j as int) =~= names_list(
            toks_view(t@),
            j as int,
        ));
    }
    while i < n
        invariant
            n == t@.len(),
            names_view(out@) + names_list(toks_view(t@), i as int) == names_list(
                toks_view(t@),
                j as int,
            ),
        decreases n - i,
    {
        let ghost pre = names_view(out@);
        proof {
            assert(toks_view(t@)[i as int] == t@[i as int]@);
        }
        match &t[i] {
            Token::Word(w) => {
                let c = crate::kw::clone_bytes(w);
                let ghost cv = c@;
                out.push(c);
                proof {
                    assert(names_view(out@) =~= pre + seq![cv]);
                    assert(names_view(out@) + names_list(toks_view(t@), i as int + 1) =~= pre
                        + names_list(toks_view(t@), i as int));
                }
            },
            Token::Quoted(w) => {
                let c = crate::kw::clone_bytes(w);
                let ghost cv = c@;
                out.push(c);
                proof {
                    assert(names_view(out@) =~= pre + seq![cv]);
                    assert(names_view(out@) + names_list(toks_view(t@), i as int + 1) =~= pre
                        + names_list(toks_view(t@), i as int));
                }
            },
            _ => {},
        }
        i = i + 1;
    }
    proof {
        assert(names_view(out@) + names_list(toks_view(t@), i as int) =~= names_view(out@));
    }
    out
}

/// Executable mirror of [`other_verb`].
fn other_verb_x(t: &Vec<Token>) -> (r: bool)
    ensures
        r == other_verb(toks_view(t@)),
{
    is_kw_at(t, 0, "SELECT") || is_kw_at(t, 0, "SET") || is_kw_at(t, 0, "COMMENT") || is_kw_at(
        t,
        0,
        "GRANT",
    ) || is_kw_at(t, 0, "REVOKE") || is_kw_at(t, 0, "VACUUM") || is_kw_at(t, 0, "ANALYZE")
        || is_kw_at(t, 0, "EXPLAIN") || is_kw_at(t, 0, "SAVEPOINT") || is_kw_at(t, 0, "RELEASE")
        || is_kw_at(t, 0, "LOCK") || is_kw_at(t, 0, "SHOW") || is_kw_at(t, 0, "WITH") || is_kw_at(
        t,
        0,
        "COPY",
    ) || is_kw_at(t, 0, "CALL") || is_kw_at(t, 0, "DO") || is_kw_at(t, 0, "REINDEX") || is_kw_at(
        t,
        0,
        "VALUES",
    )
}

/// Executable mirror of [`classify_create`].
fn classify_create_x(t: &Vec<Token>, raw: Vec<u8>) -> (r: StatementKind)
    ensures
        r@ == classify_create(toks_view(t@), raw@),
{
    let unique = is_kw_at(t, 1, "UNIQUE");
    let ix: usize = if unique {
        2
    } else {
        1
    };
    if is_kw_at(t, ix, "INDEX") {
        let conc = is_kw_at(t, ix + 1, "CONCURRENTLY");
        let p0: usize = ix + 1 + if conc {
            1
        } else {
            0
        };
        let p: usize = if is_kw_at(t, p0, "IF") && is_kw_at(t, p0 + 1, "NOT") && is_kw_at(
            t,
            p0 + 2,
            "EXISTS",
        ) {
            p0 + 3
        } else {
            p0
        };
        let q_opt: Option<usize> = if is_kw_at(t, p, "ON") {
            Option::Some(p + 1)
        } else if get_name(t, p).is_some() && is_kw_at(t, p + 1, "ON") {
            Option::Some(p + 2)
        } else {
            Option::None
        };
        match q_opt {
            Option::Some(q) => {
                match get_name(t, q) {
                    Option::Some(tb) => {
                        let lp = find_lp_x(t, q + 1);
                        let cols = if lp >= t.len() {
                            let e: Vec<Vec<u8>> = Vec::new();
                            proof {
                                assert(names_view(e@) =~= Seq::<Seq<u8>>::empty());
                            }
                            e
                        } else {
                            names_until_rp_x(t, lp + 1)
                        };
                        StatementKind::CreateIndex {
                            unique,
                            concurrently: conc,
                            table: tb,
                            columns: cols,
                        }
                    },
                    Option::None => StatementKind::Unparsed { raw },
                }
            },
            Option::None => StatementKind::Unparsed { raw },
        }
    } else {
        StatementKind::Other { raw }
    }
}

/// Executable mirror of [`classify_alter`].
fn classify_alter_x(t: &Vec<Token>, raw: Vec<u8>) -> (r: StatementKind)
    ensures
        r@ == classify_alter(toks_view(t@), raw@),
{
    let p1: usize = if is_kw_at(t, 2, "IF") && is_kw_at(t, 3, "EXISTS") {
        4
    } else {
        2
    };
    let p: usize = if is_kw_at(t, p1, "ONLY") {
        p1 + 1
    } else {
        p1
    };
    match get_name(t, p) {
        Option::Some(tb) => {
            let acts = actions_from_x(t, if p + 1 > t.len() {
                t.len()
            } else {
                p + 1
            });
            proof {
                if p + 1 > t@.len() {
                    assert(actions_from(toks_view(t@), t@.len() as int) =~= actions_from(
                        toks_view(t@),
                        p as int + 1,
                    ));
                }
            }
            StatementKind::AlterTable { table: tb, actions: acts }
        },
        Option::None => StatementKind::Unparsed { raw },
    }
}

/// Executable mirror of [`classify_drop`].
fn classify_drop_x(t: &Vec<Token>, raw: Vec<u8>) -> (r: StatementKind)
    ensures
        r@ == classify_drop(toks_view(t@), raw@),
{
    if is_kw_at(t, 1, "TABLE") {
        let q: usize = if is_kw_at(t, 2, "IF") && is_kw_at(t, 3, "EXISTS") {
            4
        } else {
            2
        };
        match get_name(t, q) {
            Option::Some(nm) => StatementKind::DropTable { table: nm },
            Option::None => StatementKind::Unparsed { raw },
        }
    } else if is_kw_at(t, 1, "DATABASE") {
        let q: usize = if is_kw_at(t, 2, "IF") && is_kw_at(t, 3, "EXISTS") {
            4
        } else {
            2
        };
        match get_name(t, q) {
            Option::Some(nm) => StatementKind::DropDatabase { name: nm },
            Option::None => StatementKind::Unparsed { raw },
        }
    } else {
        StatementKind::Other { raw }
    }
}

/// Executable mirror of [`classify_spec`].
pub fn classify(t: &Vec<Token>, raw: Vec<u8>) -> (r: StatementKind)
    ensures
        r@ == classify_spec(toks_view(t@), raw@),
{
    if t.len() == 0 {
        StatementKind::Unparsed { raw }
    } else if is_kw_at(t, 0, "CREATE") {
        classify_create_x(t, raw)
    } else if is_kw_at(t, 0, "ALTER") {
        if is_kw_at(t, 1, "TABLE") {
            classify_alter_x(t, raw)
        } else {
            StatementKind::Other { raw }
        }
    } else if is_kw_at(t, 0, "DROP") {
        classify_drop_x(t, raw)
    } else if is_kw_at(t, 0, "TRUNCATE") {
        let j: usize = if is_kw_at(t, 1, "TABLE") {
            2
        } else {
            1
        };
        StatementKind::Truncate { tables: names_list_x(t, j) }
    } else if is_kw_at(t, 0, "BEGIN") || (is_kw_at(t, 0, "START") && is_kw_at(
        t,
        1,
        "TRANSACTION",
    )) {
        StatementKind::Begin
    } else if is_kw_at(t, 0, "COMMIT") || is_kw_at(t, 0, "END") {
        StatementKind::Commit
    } else if is_kw_at(t, 0, "ROLLBACK") || is_kw_at(t, 0, "ABORT") {
        StatementKind::Rollback
    } else if is_kw_at(t, 0, "INSERT") {
        if is_kw_at(t, 1, "INTO") {
            match get_name(t, 2) {
                Option::Some(nm) => StatementKind::Insert { table: nm },
                Option::None => StatementKind::Unparsed { raw },
            }
        } else {
            StatementKind::Unparsed { raw }
        }
    } else if is_kw_at(t, 0, "UPDATE") {
        match get_name(t, 1) {
            Option::Some(nm) => StatementKind::Update { table: nm },
            Option::None => StatementKind::Unparsed { raw },
        }
    } else if is_kw_at(t, 0, "DELETE") {
        if is_kw_at(t, 1, "FROM") {
            match get_name(t, 2) {
                Option::Some(nm) => StatementKind::Delete { table: nm },
                Option::None => StatementKind::Unparsed { raw },
            }
        } else {
            StatementKind::Unparsed { raw }
        }
    } else if other_verb_x(t) {
        StatementKind::Other { raw }
    } else {
        StatementKind::Unparsed { raw }
    }
}

} // verus!
