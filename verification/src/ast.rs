//! The statement model the parser produces and the rules consume:
//! source spans, statement kinds, and the actions of an `ALTER TABLE`.
//!
//! Each executable type has a ghost mirror (`...S`) over mathematical
//! sequences, reached through `View`; contracts speak of the mirrors.

use vstd::prelude::*;

verus! {

/// A half-open byte range `[start, end)` in the source text, together with
/// the zero-based line/column of its first byte and of the byte just past
/// its last byte.
#[derive(Clone, Copy, Debug, PartialEq, Eq)]
pub struct Span {
    pub start: usize,
    pub end: usize,
    pub start_line: usize,
    pub start_col: usize,
    pub end_line: usize,
    pub end_col: usize,
}

/// Number of line breaks among the first `i` bytes of `s`.
pub open spec fn line_of(s: Seq<u8>, i: int) -> int
    decreases i,
{
    if i <= 0 {
        0
    } else {
        line_of(s, i - 1) + if s[i - 1] == 10 {
            1int
        } else {
            0int
        }
    }
}

/// Column of byte offset `i` of `s`: bytes since the last line break.
pub open spec fn col_of(s: Seq<u8>, i: int) -> int
    decreases i,
{
    if i <= 0 {
        0
    } else if s[i - 1] == 10 {
        0
    } else {
        col_of(s, i - 1) + 1
    }
}

/// A span is well formed for source `s` when it is a non-empty range inside
/// `s` and its line/column fields agree with its byte offsets.
pub open spec fn span_wf(sp: Span, s: Seq<u8>) -> bool {
    &&& sp.start < sp.end <= s.len()
    &&& sp.start_line == line_of(s, sp.start as int)
    &&& sp.start_col == col_of(s, sp.start as int)
    &&& sp.end_line == line_of(s, sp.end as int)
    &&& sp.end_col == col_of(s, sp.end as int)
}

/// The kind of a constraint added by `ALTER TABLE ... ADD CONSTRAINT`.
#[derive(Clone, Copy, Debug, PartialEq, Eq)]
pub enum ConstraintKind {
    Check,
    ForeignKey,
    Unique,
    NotNull,
}

/// One action of an `ALTER TABLE` statement.
#[derive(Clone, Debug, PartialEq, Eq)]
pub enum AlterAction {
    AddColumn { name: Vec<u8>, col_type: Vec<u8>, default: Option<Vec<u8>>, nullable: bool },
    DropColumn { name: Vec<u8> },
    RenameColumn { from: Vec<u8>, to: Vec<u8> },
    AlterColumnType { name: Vec<u8>, new_type: Vec<u8> },
    AddConstraint { kind: ConstraintKind, validated: bool },
    DropConstraint { name: Vec<u8> },
}

/// Ghost mirror of [`AlterAction`].
pub enum AlterActionS {
    AddColumn { name: Seq<u8>, col_type: Seq<u8>, default: Option<Seq<u8>>, nullable: bool },
    DropColumn { name: Seq<u8> },
    RenameColumn { from: Seq<u8>, to: Seq<u8> },
    AlterColumnType { name: Seq<u8>, new_type: Seq<u8> },
    AddConstraint { kind: ConstraintKind, validated: bool },
    DropConstraint { name: Seq<u8> },
}

impl View for AlterAction {
    type V = AlterActionS;

    open spec fn view(&self) -> AlterActionS {
        match self {
            AlterAction::AddColumn { name, col_type, default, nullable } => AlterActionS::AddColumn {
                name: name@,
                col_type: col_type@,
                default: match default {
                    Option::Some(d) => Option::Some(d@),
                    Option::None => Option::None,
                },
                nullable: *nullable,
            },
            AlterAction::DropColumn { name } => AlterActionS::DropColumn { name: name@ },
            AlterAction::RenameColumn { from, to } => AlterActionS::RenameColumn {
                from: from@,
                to: to@,
            },
            AlterAction::AlterColumnType { name, new_type } => AlterActionS::AlterColumnType {
                name: name@,
                new_type: new_type@,
            },
            AlterAction::AddConstraint { kind, validated } => AlterActionS::AddConstraint {
                kind: *kind,
                validated: *validated,
            },
            AlterAction::DropConstraint { name } => AlterActionS::DropConstraint { name: name@ },
        }
    }
}

/// The kind of one parsed statement.
///
/// `Other` keeps a recognized-but-uninteresting statement for sequencing;
/// `Unparsed` keeps text the parser could not classify, and is always
/// accompanied by a parse diagnostic.
#[derive(Clone, Debug, PartialEq, Eq)]
pub enum StatementKind {
    CreateIndex { unique: bool, concurrently: bool, table: Vec<u8>, columns: Vec<Vec<u8>> },
    AlterTable { table: Vec<u8>, actions: Vec<AlterAction> },
    DropTable { table: Vec<u8> },
    DropDatabase { name: Vec<u8> },
    Truncate { tables: Vec<Vec<u8>> },
    Begin,
    Commit,
    Rollback,
    Insert { table: Vec<u8> },
    Update { table: Vec<u8> },
    Delete { table: Vec<u8> },
    Other { raw: Vec<u8> },
    Unparsed { raw: Vec<u8> },
}

/// Ghost mirror of [`StatementKind`].
pub enum StatementKindS {
    CreateIndex { unique: bool, concurrently: bool, table: Seq<u8>, columns: Seq<Seq<u8>> },
    AlterTable { table: Seq<u8>, actions: Seq<AlterActionS> },
    DropTable { table: Seq<u8> },
    DropDatabase { name: Seq<u8> },
    Truncate { tables: Seq<Seq<u8>> },
    Begin,
    Commit,
    Rollback,
    Insert { table: Seq<u8> },
    Update { table: Seq<u8> },
    Delete { table: Seq<u8> },
    Other { raw: Seq<u8> },
    Unparsed { raw: Seq<u8> },
}

impl View for StatementKind {
    type V = StatementKindS;

    open spec fn view(&self) -> StatementKindS {
        match self {
            StatementKind::CreateIndex { unique, concurrently, table, columns } => StatementKindS::CreateIndex {
                unique: *unique,
                concurrently: *concurrently,
                table: table@,
                columns: columns@.map_values(|c: Vec<u8>| c@),
            },
            StatementKind::AlterTable { table, actions } => StatementKindS::AlterTable {
                table: table@,
                actions: actions@.map_values(|a: AlterAction| a@),
            },
            StatementKind::DropTable { table } => StatementKindS::DropTable { table: table@ },
            StatementKind::DropDatabase { name } => StatementKindS::DropDatabase { name: name@ },
            StatementKind::Truncate { tables } => StatementKindS::Truncate {
                tables: tables@.map_values(|c: Vec<u8>| c@),
            },
            StatementKind::Begin => StatementKindS::Begin,
            StatementKind::Commit => StatementKindS::Commit,
            StatementKind::Rollback => StatementKindS::Rollback,
            StatementKind::Insert { table } => StatementKindS::Insert { table: table@ },
            StatementKind::Update { table } => StatementKindS::Update { table: table@ },
            StatementKind::Delete { table } => StatementKindS::Delete { table: table@ },
            StatementKind::Other { raw } => StatementKindS::Other { raw: raw@ },
            StatementKind::Unparsed { raw } => StatementKindS::Unparsed { raw: raw@ },
        }
    }
}

/// One parsed statement: its kind and the source span it occupies.
#[derive(Clone, Debug, PartialEq, Eq)]
pub struct Statement {
    pub kind: StatementKind,
    pub span: Span,
}

/// Ghost mirror of [`Statement`].
pub struct StatementS {
    pub kind: StatementKindS,
    pub span: Span,
}

impl View for Statement {
    type V = StatementS;

    open spec fn view(&self) -> StatementS {
        StatementS { kind: self.kind@, span: self.span }
    }
}

/// True when the statement is one the parser could not classify.
pub open spec fn is_unparsed(s: StatementS) -> bool {
    match s.kind {
        StatementKindS::Unparsed { .. } => true,
        _ => false,
    }
}

} // verus!
