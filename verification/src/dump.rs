//! A structured, self-describing dump of the parsed statement tree, for
//! callers that want to show the AST of a file independently of lint
//! evaluation.

use vstd::prelude::*;
use vstd::string::StrSliceExecFns;
use vstd::string::StringSliceAdditionalSpecFns;
use crate::ast::{
    AlterAction, ConstraintKind, Span, Statement, StatementKindS, StatementKind,
};
use crate::kw::clone_bytes;

verus! {

/// One node of the dumped tree: a variant tag, named fields holding the
/// extracted text, the node's source span, and child nodes (the actions
/// of an `ALTER TABLE`).
pub struct DumpNode {
    pub tag: &'static str,
    pub fields: Vec<(&'static str, Vec<u8>)>,
    pub span: Span,
    pub children: Vec<DumpNode>,
}

/// The tag of a statement kind's dump node.
pub open spec fn tag_of(k: StatementKindS) -> Seq<u8> {
    match k {
        StatementKindS::CreateIndex { .. } => "create_index".spec_bytes(),
        StatementKindS::AlterTable { .. } => "alter_table".spec_bytes(),
        StatementKindS::DropTable { .. } => "drop_table".spec_bytes(),
        StatementKindS::DropDatabase { .. } => "drop_database".spec_bytes(),
        StatementKindS::Truncate { .. } => "truncate".spec_bytes(),
        StatementKindS::Begin => "begin".spec_bytes(),
        StatementKindS::Commit => "commit".spec_bytes(),
        StatementKindS::Rollback => "rollback".spec_bytes(),
        StatementKindS::Insert { .. } => "insert".spec_bytes(),
        StatementKindS::Update { .. } => "update".spec_bytes(),
        StatementKindS::Delete { .. } => "delete".spec_bytes(),
        StatementKindS::Other { .. } => "other".spec_bytes(),
        StatementKindS::Unparsed { .. } => "unparsed".spec_bytes(),
    }
}

/// The number of children a statement's dump node has: one per action of
/// an `ALTER TABLE`, none otherwise.
pub open spec fn children_of(k: StatementKindS) -> int {
    match k {
        StatementKindS::AlterTable { actions, .. } => actions.len() as int,
        _ => 0,
    }
}

/// Dump one `ALTER TABLE` action as a leaf node carrying `span`.
fn dump_action(a: &AlterAction, span: Span) -> (r: DumpNode)
    ensures
        r.span == span,
{
    let mut fields: Vec<(&'static str, Vec<u8>)> = Vec::new();
    let tag: &'static str = match a {
        AlterAction::AddColumn { name, col_type, default, nullable } => {
            fields.push(("name", clone_bytes(name)));
            fields.push(("type", clone_bytes(col_type)));
            match default {
                Option::Some(d) => {
                    fields.push(("default", clone_bytes(d)));
                },
                Option::None => {},
            }
            if !*nullable {
                fields.push(("not_null", Vec::new()));
            }
            "add_column"
        },
        AlterAction::DropColumn { name } => {
            fields.push(("name", clone_bytes(name)));
            "drop_column"
        },
        AlterAction::RenameColumn { from, to } => {
            fields.push(("from", clone_bytes(from)));
            fields.push(("to", clone_bytes(to)));
            "rename_column"
        },
        AlterAction::AlterColumnType { name, new_type } => {
            fields.push(("name", clone_bytes(name)));
            fields.push(("type", clone_bytes(new_type)));
            "alter_column_type"
        },
        AlterAction::AddConstraint { kind, validated } => {
            let kname: &'static str = match kind {
                ConstraintKind::Check => "check",
                ConstraintKind::ForeignKey => "foreign_key",
                ConstraintKind::Unique => "unique",
                ConstraintKind::NotNull => "not_null",
            };
            fields.push(("kind", kname.as_bytes_vec()));
            if !*validated {
                fields.push(("not_valid", Vec::new()));
            }
            "add_constraint"
        },
        AlterAction::DropConstraint { name } => {
            fields.push(("name", clone_bytes(name)));
            "drop_constraint"
        },
    };
    DumpNode { tag, fields, span, children: Vec::new() }
}

/// Dump one statement as a tree node: its variant tag, the fields the
/// parser extracted, its span, and one child per `ALTER TABLE` action.
pub fn dump_statement(s: &Statement) -> (r: DumpNode)
    ensures
        r.tag.spec_bytes() == tag_of(s@.kind),
        r.span == s.span,
        r.children@.len() == children_of(s@.kind),
{
    let span = s.span;
    let mut fields: Vec<(&'static str, Vec<u8>)> = Vec::new();
    let mut children: Vec<DumpNode> = Vec::new();
    let tag: &'static str = match &s.kind {
        StatementKind::CreateIndex { unique, concurrently, table, columns } => {
            fields.push(("table", clone_bytes(table)));
            if *unique {
                fields.push(("unique", Vec::new()));
            }
            if *concurrently {
                fields.push(("concurrently", Vec::new()));
            }
            let mut j: usize = 0;
            while j < columns.len()
                invariant
                    0 <= j <= columns@.len(),
                decreases columns@.len() - j,
            {
                fields.push(("column", clone_bytes(&columns[j])));
                j = j + 1;
            }
            "create_index"
        },
        StatementKind::AlterTable { table, actions } => {
            fields.push(("table", clone_bytes(table)));
            let mut j: usize = 0;
            while j < actions.len()
                invariant
                    0 <= j <= actions@.len(),
                    children@.len() == j,
                decreases actions@.len() - j,
            {
                children.push(dump_action(&actions[j], span));
                j = j + 1;
            }
            "alter_table"
        },
        StatementKind::DropTable { table } => {
            fields.push(("table", clone_bytes(table)));
            "drop_table"
        },
        StatementKind::DropDatabase { name } => {
            fields.push(("name", clone_bytes(name)));
            "drop_database"
        },
        StatementKind::Truncate { tables } => {
            let mut j: usize = 0;
            while j < tables.len()
                invariant
                    0 <= j <= tables@.len(),
                decreases tables@.len() - j,
            {
                fields.push(("table", clone_bytes(&tables[j])));
                j = j + 1;
            }
            "truncate"
        },
        StatementKind::Begin => "begin",
        StatementKind::Commit => "commit",
        StatementKind::Rollback => "rollback",
        StatementKind::Insert { table } => {
            fields.push(("table", clone_bytes(table)));
            "insert"
        },
        StatementKind::Update { table } => {
            fields.push(("table", clone_bytes(table)));
            "update"
        },
        StatementKind::Delete { table } => {
            fields.push(("table", clone_bytes(table)));
            "delete"
        },
        StatementKind::Other { raw } => {
            fields.push(("text", clone_bytes(raw)));
            "other"
        },
        StatementKind::Unparsed { raw } => {
            fields.push(("text", clone_bytes(raw)));
            "unparsed"
        },
    };
    DumpNode { tag, fields, span, children }
}

/// Dump a whole parsed file, one node per statement, in document order.
pub fn dump_statements(stmts: &Vec<Statement>) -> (r: Vec<DumpNode>)
    ensures
        r@.len() == stmts@.len(),
        forall|i: int| 0 <= i < r@.len() ==> (#[trigger] r@[i]).tag.spec_bytes() == tag_of(
            stmts@[i]@.kind,
        ) && r@[i].span == stmts@[i].span,
{
    let mut out: Vec<DumpNode> = Vec::new();
    let mut i: usize = 0;
    while i < stmts.len()
        invariant
            0 <= i <= stmts@.len(),
            out@.len() == i,
            forall|j: int| 0 <= j < i ==> (#[trigger] out@[j]).tag.spec_bytes() == tag_of(
                stmts@[j]@.kind,
            ) && out@[j].span == stmts@[j].span,
        decreases stmts@.len() - i,
    {
        out.push(dump_statement(&stmts[i]));
        i = i + 1;
    }
    out
}

} // verus!
