//! The rule registry: a fixed, immutable catalog of safety rules.
//!
//! Each rule is a pure predicate over the statement sequence and the
//! position of one statement in it; the transaction context a rule may
//! consult is itself a function of the preceding statements. The registry
//! order is the lexicographic order of the rule identifiers, which makes
//! `list` deterministic and gives tied violations a stable order.

use vstd::prelude::*;
use vstd::string::StrSliceExecFns;
use vstd::string::StringSliceAdditionalSpecFns;
use crate::ast::{
    AlterAction, AlterActionS, ConstraintKind, Statement, StatementS, StatementKind, StatementKindS,
};
use crate::kw::{upper, upper_seq};
use crate::parse::stmts_view;

verus! {

/// The identifier of one safety rule. The variants stand in the
/// lexicographic order of the textual identifiers.
#[derive(Clone, Copy, Debug, PartialEq, Eq, Structural)]
pub enum RuleId {
    AddingFieldWithDefault,
    BanDropDatabase,
    BanUnmatchedTransactionEnd,
    DisallowRenameColumn,
    RequireConcurrentIndexCreation,
    RequireNotValidForNewConstraint,
}

/// The registry, in identifier order.
pub open spec fn rule_list() -> Seq<RuleId> {
    seq![
        RuleId::AddingFieldWithDefault,
        RuleId::BanDropDatabase,
        RuleId::BanUnmatchedTransactionEnd,
        RuleId::DisallowRenameColumn,
        RuleId::RequireConcurrentIndexCreation,
        RuleId::RequireNotValidForNewConstraint,
    ]
}

/// The textual identifier of a rule.
pub open spec fn rule_name_bytes(r: RuleId) -> Seq<u8> {
    match r {
        RuleId::AddingFieldWithDefault => "adding-field-with-default".spec_bytes(),
        RuleId::BanDropDatabase => "ban-drop-database".spec_bytes(),
        RuleId::BanUnmatchedTransactionEnd => "ban-unmatched-transaction-end".spec_bytes(),
        RuleId::DisallowRenameColumn => "disallow-rename-column".spec_bytes(),
        RuleId::RequireConcurrentIndexCreation => "require-concurrent-index-creation".spec_bytes(),
        RuleId::RequireNotValidForNewConstraint => "require-not-valid-for-new-constraint".spec_bytes(),
    }
}

/// The rule with the given textual identifier, if any.
pub open spec fn rule_of(nm: Seq<u8>) -> Option<RuleId> {
    if nm == "adding-field-with-default".spec_bytes() {
        Option::Some(RuleId::AddingFieldWithDefault)
    } else if nm == "ban-drop-database".spec_bytes() {
        Option::Some(RuleId::BanDropDatabase)
    } else if nm == "ban-unmatched-transaction-end".spec_bytes() {
        Option::Some(RuleId::BanUnmatchedTransactionEnd)
    } else if nm == "disallow-rename-column".spec_bytes() {
        Option::Some(RuleId::DisallowRenameColumn)
    } else if nm == "require-concurrent-index-creation".spec_bytes() {
        Option::Some(RuleId::RequireConcurrentIndexCreation)
    } else if nm == "require-not-valid-for-new-constraint".spec_bytes() {
        Option::Some(RuleId::RequireNotValidForNewConstraint)
    } else {
        Option::None
    }
}

/// All rule identifiers, in registry (identifier) order.
pub fn all_rules() -> (r: Vec<RuleId>)
    ensures
        r@ == rule_list(),
{
    let mut v: Vec<RuleId> = Vec::new();
    v.push(RuleId::AddingFieldWithDefault);
    v.push(RuleId::BanDropDatabase);
    v.push(RuleId::BanUnmatchedTransactionEnd);
    v.push(RuleId::DisallowRenameColumn);
    v.push(RuleId::RequireConcurrentIndexCreation);
    v.push(RuleId::RequireNotValidForNewConstraint);
    proof {
        assert(v@ =~= rule_list());
    }
    v
}

/// The textual identifier of a rule.
pub fn rule_name(r: RuleId) -> (nm: &'static str)
    ensures
        nm.spec_bytes() == rule_name_bytes(r),
{
    match r {
        RuleId::AddingFieldWithDefault => "adding-field-with-default",
        RuleId::BanDropDatabase => "ban-drop-database",
        RuleId::BanUnmatchedTransactionEnd => "ban-unmatched-transaction-end",
        RuleId::DisallowRenameColumn => "disallow-rename-column",
        RuleId::RequireConcurrentIndexCreation => "require-concurrent-index-creation",
        RuleId::RequireNotValidForNewConstraint => "require-not-valid-for-new-constraint",
    }
}

/// The bytes of the fixed title of a rule.
pub open spec fn rule_title_bytes(r: RuleId) -> Seq<u8> {
    match r {
        RuleId::AddingFieldWithDefault => "Adding a field with a non-null default rewrites the table".spec_bytes(),
        RuleId::BanDropDatabase => "Dropping a database cannot be undone".spec_bytes(),
        RuleId::BanUnmatchedTransactionEnd => "COMMIT or ROLLBACK without a matching BEGIN".spec_bytes(),
        RuleId::DisallowRenameColumn => "Renaming a column breaks existing clients".spec_bytes(),
        RuleId::RequireConcurrentIndexCreation => "Index creation must not lock the table".spec_bytes(),
        RuleId::RequireNotValidForNewConstraint => "New constraints should be added NOT VALID".spec_bytes(),
    }
}

/// A short human-readable title for a rule.
pub fn rule_title(r: RuleId) -> (m: &'static str)
    ensures
        m.spec_bytes() == rule_title_bytes(r),
{
    match r {
        RuleId::AddingFieldWithDefault => "Adding a field with a non-null default rewrites the table",
        RuleId::BanDropDatabase => "Dropping a database cannot be undone",
        RuleId::BanUnmatchedTransactionEnd => "COMMIT or ROLLBACK without a matching BEGIN",
        RuleId::DisallowRenameColumn => "Renaming a column breaks existing clients",
        RuleId::RequireConcurrentIndexCreation => "Index creation must not lock the table",
        RuleId::RequireNotValidForNewConstraint => "New constraints should be added NOT VALID",
    }
}

/// The bytes of the fixed message of a rule.
pub open spec fn rule_message_bytes(r: RuleId) -> Seq<u8> {
    match r {
        RuleId::AddingFieldWithDefault => "adding a column with a non-null default forces a full-table rewrite on older servers; add it nullable, back-fill, then set the default".spec_bytes(),
        RuleId::BanDropDatabase => "dropping a database destroys all of its data; do this outside of a migration".spec_bytes(),
        RuleId::BanUnmatchedTransactionEnd => "this COMMIT or ROLLBACK has no matching BEGIN in this file".spec_bytes(),
        RuleId::DisallowRenameColumn => "renaming a column breaks clients that still read the old name; add a new column and migrate instead".spec_bytes(),
        RuleId::RequireConcurrentIndexCreation => "building an index non-concurrently holds a write lock on the table, and CONCURRENTLY cannot run inside a transaction block".spec_bytes(),
        RuleId::RequireNotValidForNewConstraint => "adding a CHECK or FOREIGN KEY constraint without NOT VALID scans and locks the whole table; add it NOT VALID and validate separately".spec_bytes(),
    }
}

/// The message attached to a violation of a rule.
pub fn rule_message(r: RuleId) -> (m: &'static str)
    ensures
        m.spec_bytes() == rule_message_bytes(r),
{
    match r {
        RuleId::AddingFieldWithDefault => "adding a column with a non-null default forces a full-table rewrite on older servers; add it nullable, back-fill, then set the default",
        RuleId::BanDropDatabase => "dropping a database destroys all of its data; do this outside of a migration",
        RuleId::BanUnmatchedTransactionEnd => "this COMMIT or ROLLBACK has no matching BEGIN in this file",
        RuleId::DisallowRenameColumn => "renaming a column breaks clients that still read the old name; add a new column and migrate instead",
        RuleId::RequireConcurrentIndexCreation => "building an index non-concurrently holds a write lock on the table, and CONCURRENTLY cannot run inside a transaction block",
        RuleId::RequireNotValidForNewConstraint => "adding a CHECK or FOREIGN KEY constraint without NOT VALID scans and locks the whole table; add it NOT VALID and validate separately",
    }
}

/// The bytes of the fixed explanation of a rule.
pub open spec fn rule_explain_bytes(r: RuleId) -> Seq<u8> {
    match r {
        RuleId::AddingFieldWithDefault => "Adding a column with a non-null DEFAULT used to force a rewrite of the whole table under an exclusive lock. Add the column without a default (or nullable), back-fill the values, and only then set the default.".spec_bytes(),
        RuleId::BanDropDatabase => "DROP DATABASE removes the database and all of its data. A migration script should never contain it; run such an operation by hand, outside of the migration pipeline.".spec_bytes(),
        RuleId::BanUnmatchedTransactionEnd => "A COMMIT or ROLLBACK that has no matching BEGIN in the same file most likely closes the transaction the migration tool itself opened, so later statements run outside of any transaction.".spec_bytes(),
        RuleId::DisallowRenameColumn => "Renaming a column breaks every client that still reads the old name. Create a new column, migrate readers and writers, and drop the old column once nothing uses it.".spec_bytes(),
        RuleId::RequireConcurrentIndexCreation => "CREATE INDEX without CONCURRENTLY takes a lock that blocks writes to the table for the whole build. Use CREATE INDEX CONCURRENTLY, and run it outside of a transaction block: inside one it is rejected by the server.".spec_bytes(),
        RuleId::RequireNotValidForNewConstraint => "Adding a CHECK or FOREIGN KEY constraint validates every existing row under a lock. Add the constraint NOT VALID, then run VALIDATE CONSTRAINT separately, which takes a weaker lock.".spec_bytes(),
    }
}

/// A longer explanation of a rule, for the `explain` interface.
pub fn rule_explain(r: RuleId) -> (m: &'static str)
    ensures
        m.spec_bytes() == rule_explain_bytes(r),
{
    match r {
        RuleId::AddingFieldWithDefault => "Adding a column with a non-null DEFAULT used to force a rewrite of the whole table under an exclusive lock. Add the column without a default (or nullable), back-fill the values, and only then set the default.",
        RuleId::BanDropDatabase => "DROP DATABASE removes the database and all of its data. A migration script should never contain it; run such an operation by hand, outside of the migration pipeline.",
        RuleId::BanUnmatchedTransactionEnd => "A COMMIT or ROLLBACK that has no matching BEGIN in the same file most likely closes the transaction the migration tool itself opened, so later statements run outside of any transaction.",
        RuleId::DisallowRenameColumn => "Renaming a column breaks every client that still reads the old name. Create a new column, migrate readers and writers, and drop the old column once nothing uses it.",
        RuleId::RequireConcurrentIndexCreation => "CREATE INDEX without CONCURRENTLY takes a lock that blocks writes to the table for the whole build. Use CREATE INDEX CONCURRENTLY, and run it outside of a transaction block: inside one it is rejected by the server.",
        RuleId::RequireNotValidForNewConstraint => "Adding a CHECK or FOREIGN KEY constraint validates every existing row under a lock. Add the constraint NOT VALID, then run VALIDATE CONSTRAINT separately, which takes a weaker lock.",
    }
}

/// True when the scan stands inside an explicit transaction block after
/// the first `i` statements: a `BEGIN` was seen whose block no `COMMIT`
/// or `ROLLBACK` has closed.
pub open spec fn txn_open(ss: Seq<StatementS>, i: int) -> bool
    decreases i,
{
    if i <= 0 {
        false
    } else {
        match ss[i - 1].kind {
            StatementKindS::Begin => true,
            StatementKindS::Commit => false,
            StatementKindS::Rollback => false,
            _ => txn_open(ss, i - 1),
        }
    }
}

/// True of an `ALTER TABLE` action that renames a column.
pub open spec fn is_rename(a: AlterActionS) -> bool {
    match a {
        AlterActionS::RenameColumn { .. } => true,
        _ => false,
    }
}

/// True of an action that adds a `CHECK` or `FOREIGN KEY` constraint
/// without `NOT VALID`.
pub open spec fn is_eager_constraint(a: AlterActionS) -> bool {
    match a {
        AlterActionS::AddConstraint { kind, validated } => validated && (kind
            == ConstraintKind::Check || kind == ConstraintKind::ForeignKey),
        _ => false,
    }
}

/// True of an action that adds a non-nullable column with a non-null
/// default.
pub open spec fn is_default_backfill(a: AlterActionS) -> bool {
    match a {
        AlterActionS::AddColumn { default, nullable, .. } => match default {
            Option::Some(d) => !nullable && upper_seq(d) != "NULL".spec_bytes(),
            Option::None => false,
        },
        _ => false,
    }
}

/// True when some action of the sequence satisfies `is_rename`.
pub open spec fn any_rename(acts: Seq<AlterActionS>) -> bool {
    exists|j: int| 0 <= j < acts.len() && is_rename(#[trigger] acts[j])
}

/// True when some action of the sequence satisfies `is_eager_constraint`.
pub open spec fn any_eager_constraint(acts: Seq<AlterActionS>) -> bool {
    exists|j: int| 0 <= j < acts.len() && is_eager_constraint(#[trigger] acts[j])
}

/// True when some action of the sequence satisfies `is_default_backfill`.
pub open spec fn any_default_backfill(acts: Seq<AlterActionS>) -> bool {
    exists|j: int| 0 <= j < acts.len() && is_default_backfill(#[trigger] acts[j])
}

/// Whether rule `r` flags statement `i` of `ss`.
///
/// `require-concurrent-index-creation` flags a non-concurrent index build
/// outside a transaction block (it holds a table-wide write lock) and a
/// `CONCURRENTLY` build inside one (the server rejects it there); a
/// non-concurrent build inside an explicit transaction is exempt, since
/// `CONCURRENTLY` is impossible there.
pub open spec fn rule_fires(r: RuleId, ss: Seq<StatementS>, i: int) -> bool {
    &&& 0 <= i < ss.len()
    &&& match r {
        RuleId::AddingFieldWithDefault => match ss[i].kind {
            StatementKindS::AlterTable { actions, .. } => any_default_backfill(actions),
            _ => false,
        },
        RuleId::BanDropDatabase => ss[i].kind is DropDatabase,
        RuleId::BanUnmatchedTransactionEnd => (ss[i].kind is Commit || ss[i].kind is Rollback)
            && !txn_open(ss, i),
        RuleId::DisallowRenameColumn => match ss[i].kind {
            StatementKindS::AlterTable { actions, .. } => any_rename(actions),
            _ => false,
        },
        RuleId::RequireConcurrentIndexCreation => match ss[i].kind {
            StatementKindS::CreateIndex { concurrently, .. } => concurrently == txn_open(ss, i),
            _ => false,
        },
        RuleId::RequireNotValidForNewConstraint => match ss[i].kind {
            StatementKindS::AlterTable { actions, .. } => any_eager_constraint(actions),
            _ => false,
        },
    }
}

/// Executable mirror of [`any_rename`].
fn any_rename_x(acts: &Vec<AlterAction>) -> (r: bool)
    ensures
        r == any_rename(crate::actions::actions_view(acts@)),
{
    let ghost av = crate::actions::actions_view(acts@);
    let mut j: usize = 0;
    while j < acts.len()
        invariant
            0 <= j <= acts@.len(),
            av == crate::actions::actions_view(acts@),
            forall|m: int| 0 <= m < j ==> !is_rename(#[trigger] av[m]),
        decreases acts@.len() - j,
    {
        proof {
            assert(av[j as int] == acts@[j as int]@);
        }
        match &acts[j] {
            AlterAction::RenameColumn { .. } => {
                assert(is_rename(av[j as int]));
                return true;
            },
            _ => {},
        }
        j = j + 1;
    }
    false
}

/// Executable mirror of [`any_eager_constraint`].
fn any_eager_constraint_x(acts: &Vec<AlterAction>) -> (r: bool)
    ensures
        r == any_eager_constraint(crate::actions::actions_view(acts@)),
{
    let ghost av = crate::actions::actions_view(acts@);
    let mut j: usize = 0;
    while j < acts.len()
        invariant
            0 <= j <= acts@.len(),
            av == crate::actions::actions_view(acts@),
            forall|m: int| 0 <= m < j ==> !is_eager_constraint(#[trigger] av[m]),
        decreases acts@.len() - j,
    {
        proof {
            assert(av[j as int] == acts@[j as int]@);
        }
        match &acts[j] {
            AlterAction::AddConstraint { kind, validated } => {
                if *validated && (match kind {
                    ConstraintKind::Check => true,
                    ConstraintKind::ForeignKey => true,
                    _ => false,
                }) {
                    assert(is_eager_constraint(av[j as int]));
                    return true;
                }
            },
            _ => {},
        }
        j = j + 1;
    }
    false
}

/// Executable test for a non-null default: the recorded default value is
/// not the word `NULL` (case-insensitively).
fn is_nonnull_default(d: &Vec<u8>) -> (r: bool)
    ensures
        r == (upper_seq(d@) != "NULL".spec_bytes()),
{
    let kb: Vec<u8> = "NULL".as_bytes_vec();
    if d.len() != kb.len() {
        assert(upper_seq(d@).len() == d@.len());
        return true;
    }
    let n = d.len();
    let mut i: usize = 0;
    while i < n
        invariant
            0 <= i <= n,
            n == d@.len() == kb@.len(),
            kb@ == "NULL".spec_bytes(),
            forall|j: int| 0 <= j < i ==> upper(d@[j]) == kb@[j],
        decreases n - i,
    {
        if crate::kw::upper_x(d[i]) != kb[i] {
            assert(upper_seq(d@)[i as int] == upper(d@[i as int]));
            assert(upper_seq(d@) != kb@);
            return true;
        }
        i = i + 1;
    }
    assert(upper_seq(d@) =~= kb@);
    false
}

/// Executable mirror of [`any_default_backfill`].
fn any_default_backfill_x(acts: &Vec<AlterAction>) -> (r: bool)
    ensures
        r == any_default_backfill(crate::actions::actions_view(acts@)),
{
    let ghost av = crate::actions::actions_view(acts@);
    let mut j: usize = 0;
    while j < acts.len()
        invariant
            0 <= j <= acts@.len(),
            av == crate::actions::actions_view(acts@),
            forall|m: int| 0 <= m < j ==> !is_default_backfill(#[trigger] av[m]),
        decreases acts@.len() - j,
    {
        proof {
            assert(av[j as int] == acts@[j as int]@);
        }
        match &acts[j] {
            AlterAction::AddColumn { default, nullable, .. } => {
                match default {
                    Option::Some(d) => {
                        if !*nullable && is_nonnull_default(d) {
                            assert(is_default_backfill(av[j as int]));
                            return true;
                        }
                    },
                    Option::None => {},
                }
            },
            _ => {},
        }
        j = j + 1;
    }
    false
}

/// Executable mirror of [`rule_fires`], given the transaction state at
/// statement `i`.
pub fn rule_fires_x(r: RuleId, stmts: &Vec<Statement>, i: usize, txn: bool) -> (f: bool)
    requires
        i < stmts@.len(),
        txn == txn_open(stmts_view(stmts@), i as int),
    ensures
        f == rule_fires(r, stmts_view(stmts@), i as int),
{
    proof {
        assert(stmts_view(stmts@)[i as int] == stmts@[i as int]@);
    }
    match r {
        RuleId::AddingFieldWithDefault => match &stmts[i].kind {
            StatementKind::AlterTable { actions, .. } => any_default_backfill_x(actions),
            _ => false,
        },
        RuleId::BanDropDatabase => match &stmts[i].kind {
            StatementKind::DropDatabase { .. } => true,
            _ => false,
        },
        RuleId::BanUnmatchedTransactionEnd => match &stmts[i].kind {
            StatementKind::Commit => !txn,
            StatementKind::Rollback => !txn,
            _ => false,
        },
        RuleId::DisallowRenameColumn => match &stmts[i].kind {
            StatementKind::AlterTable { actions, .. } => any_rename_x(actions),
            _ => false,
        },
        RuleId::RequireConcurrentIndexCreation => match &stmts[i].kind {
            StatementKind::CreateIndex { concurrently, .. } => *concurrently == txn,
            _ => false,
        },
        RuleId::RequireNotValidForNewConstraint => match &stmts[i].kind {
            StatementKind::AlterTable { actions, .. } => any_eager_constraint_x(actions),
            _ => false,
        },
    }
}

/// The rules of the registry, as `(identifier, title)` pairs in
/// identifier order, for the rule-listing interface.
pub fn list_rules() -> (r: Vec<(&'static str, &'static str)>)
    ensures
        r@.len() == rule_list().len(),
        forall|k: int| 0 <= k < r@.len() ==> (#[trigger] r@[k]).0.spec_bytes()
            == rule_name_bytes(rule_list()[k]) && r@[k].1.spec_bytes() == rule_title_bytes(
            rule_list()[k],
        ),
{
    let ids = all_rules();
    let mut out: Vec<(&'static str, &'static str)> = Vec::new();
    let mut k: usize = 0;
    while k < ids.len()
        invariant
            0 <= k <= ids@.len(),
            ids@ == rule_list(),
            out@.len() == k,
            forall|m: int| 0 <= m < k ==> (#[trigger] out@[m]).0.spec_bytes()
                == rule_name_bytes(rule_list()[m]) && out@[m].1.spec_bytes() == rule_title_bytes(
                rule_list()[m],
            ),
        decreases ids@.len() - k,
    {
        let id = ids[k];
        out.push((rule_name(id), rule_title(id)));
        k = k + 1;
    }
    out
}

} // verus!
