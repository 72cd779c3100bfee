//! Parser-level tests: statement splitting, comments, strings, quoting,
//! spans, the registry interfaces, and the AST dump.

use sqlcheck::dump::dump_statements;
use sqlcheck::parse::parse;
use sqlcheck::rules::{list_rules, RuleId};
use sqlcheck::ast::StatementKind;

fn bytes(s: &str) -> Vec<u8> {
    s.as_bytes().to_vec()
}

#[test]
fn semicolon_inside_string_is_not_a_boundary() {
    let src = bytes("INSERT INTO t VALUES ('a;b'); SELECT 1;");
    let (stmts, _) = parse(&src);
    assert_eq!(stmts.len(), 2);
    assert!(matches!(stmts[0].kind, StatementKind::Insert { .. }));
}

#[test]
fn semicolon_inside_comment_is_not_a_boundary() {
    let src = bytes("SELECT 1 -- one; two\n; SELECT 2 /* a; b */;");
    let (stmts, _) = parse(&src);
    assert_eq!(stmts.len(), 2);
}

#[test]
fn semicolon_inside_parentheses_is_not_a_boundary() {
    // parenthesized content is kept inside one statement
    let src = bytes("SELECT f(';'); SELECT 2;");
    let (stmts, _) = parse(&src);
    assert_eq!(stmts.len(), 2);
}

#[test]
fn doubled_quote_inside_string_stays_inside() {
    let src = bytes("INSERT INTO t VALUES ('it''s; fine'); SELECT 1;");
    let (stmts, _) = parse(&src);
    assert_eq!(stmts.len(), 2);
}

#[test]
fn empty_statements_are_dropped() {
    let src = bytes(";;  ;\nSELECT 1;;");
    let (stmts, ds) = parse(&src);
    assert_eq!(stmts.len(), 1);
    assert_eq!(ds.len(), 0);
}

#[test]
fn unterminated_final_statement_is_parsed() {
    let src = bytes("SELECT 1; DROP DATABASE prod");
    let (stmts, _) = parse(&src);
    assert_eq!(stmts.len(), 2);
    assert!(matches!(stmts[1].kind, StatementKind::DropDatabase { .. }));
}

#[test]
fn keywords_are_case_insensitive() {
    let src = bytes("create index IDX on Users (Email);");
    let (stmts, _) = parse(&src);
    assert_eq!(stmts.len(), 1);
    match &stmts[0].kind {
        StatementKind::CreateIndex { concurrently, unique, table, columns } => {
            assert!(!concurrently);
            assert!(!unique);
            assert_eq!(table, &bytes("Users"));
            assert_eq!(columns, &vec![bytes("Email")]);
        }
        other => panic!("expected a create-index statement, got {:?}", other),
    }
}

#[test]
fn quoted_identifiers_are_stripped() {
    let src = bytes("ALTER TABLE \"My Table\" RENAME COLUMN \"Old\" TO \"New\";");
    let (stmts, _) = parse(&src);
    assert_eq!(stmts.len(), 1);
    match &stmts[0].kind {
        StatementKind::AlterTable { table, actions } => {
            assert_eq!(table, &bytes("My Table"));
            match &actions[0] {
                sqlcheck::ast::AlterAction::RenameColumn { from, to } => {
                    assert_eq!(from, &bytes("Old"));
                    assert_eq!(to, &bytes("New"));
                }
                other => panic!("expected a rename action, got {:?}", other),
            }
        }
        other => panic!("expected an alter-table statement, got {:?}", other),
    }
}

#[test]
fn create_unique_index_concurrently_if_not_exists() {
    let src = bytes("CREATE UNIQUE INDEX CONCURRENTLY IF NOT EXISTS i ON t (a, b);");
    let (stmts, _) = parse(&src);
    match &stmts[0].kind {
        StatementKind::CreateIndex { unique, concurrently, table, columns } => {
            assert!(unique);
            assert!(concurrently);
            assert_eq!(table, &bytes("t"));
            assert_eq!(columns, &vec![bytes("a"), bytes("b")]);
        }
        other => panic!("expected a create-index statement, got {:?}", other),
    }
}

#[test]
fn create_table_is_recognized_as_other() {
    let src = bytes("CREATE TABLE t (a int);");
    let (stmts, ds) = parse(&src);
    assert_eq!(stmts.len(), 1);
    assert!(matches!(stmts[0].kind, StatementKind::Other { .. }));
    assert_eq!(ds.len(), 0);
}

#[test]
fn transaction_verbs_are_classified() {
    let src = bytes("START TRANSACTION; COMMIT; BEGIN; ROLLBACK; END;");
    let (stmts, _) = parse(&src);
    assert_eq!(stmts.len(), 5);
    assert!(matches!(stmts[0].kind, StatementKind::Begin));
    assert!(matches!(stmts[1].kind, StatementKind::Commit));
    assert!(matches!(stmts[2].kind, StatementKind::Begin));
    assert!(matches!(stmts[3].kind, StatementKind::Rollback));
    assert!(matches!(stmts[4].kind, StatementKind::Commit));
}

#[test]
fn dml_verbs_are_classified() {
    let src = bytes("INSERT INTO a VALUES (1); UPDATE b SET x = 1; DELETE FROM c; TRUNCATE d, e;");
    let (stmts, _) = parse(&src);
    assert_eq!(stmts.len(), 4);
    assert!(matches!(&stmts[0].kind, StatementKind::Insert { table } if table == &bytes("a")));
    assert!(matches!(&stmts[1].kind, StatementKind::Update { table } if table == &bytes("b")));
    assert!(matches!(&stmts[2].kind, StatementKind::Delete { table } if table == &bytes("c")));
    match &stmts[3].kind {
        StatementKind::Truncate { tables } => assert_eq!(tables, &vec![bytes("d"), bytes("e")]),
        other => panic!("expected a truncate statement, got {:?}", other),
    }
}

#[test]
fn drop_table_is_classified() {
    let src = bytes("DROP TABLE IF EXISTS old_stuff;");
    let (stmts, _) = parse(&src);
    assert!(matches!(&stmts[0].kind, StatementKind::DropTable { table } if table == &bytes("old_stuff")));
}

#[test]
fn spans_carry_line_and_column() {
    let src = bytes("SELECT 1;\nDROP DATABASE prod;");
    let (stmts, _) = parse(&src);
    assert_eq!(stmts.len(), 2);
    assert_eq!(stmts[0].span.start_line, 0);
    assert_eq!(stmts[0].span.start_col, 0);
    assert_eq!(stmts[1].span.start_line, 1);
    assert_eq!(stmts[1].span.start_col, 0);
    assert_eq!(stmts[1].span.start, 10);
}

#[test]
fn leading_comment_is_excluded_from_span() {
    let src = bytes("-- intro\nSELECT 1;");
    let (stmts, _) = parse(&src);
    assert_eq!(stmts.len(), 1);
    assert_eq!(stmts[0].span.start, 9);
    assert_eq!(stmts[0].span.start_line, 1);
}

#[test]
fn multiple_statements_on_one_line_have_columns() {
    let src = bytes("SELECT 1; SELECT 2;");
    let (stmts, _) = parse(&src);
    assert_eq!(stmts.len(), 2);
    assert_eq!(stmts[1].span.start_col, 10);
    assert_eq!(stmts[1].span.start_line, 0);
}

#[test]
fn registry_lists_all_rules_in_identifier_order() {
    let rules = list_rules();
    let ids: Vec<&str> = rules.iter().map(|r| r.0).collect();
    assert_eq!(
        ids,
        vec![
            "adding-field-with-default",
            "ban-drop-database",
            "ban-unmatched-transaction-end",
            "disallow-rename-column",
            "require-concurrent-index-creation",
            "require-not-valid-for-new-constraint",
        ]
    );
    let mut sorted = ids.clone();
    sorted.sort();
    assert_eq!(ids, sorted);
}

#[test]
fn explain_rule_known_and_unknown() {
    let ok = sqlcheck::explain_rule(&bytes("ban-drop-database"));
    assert!(ok.is_ok());
    assert!(!ok.unwrap().is_empty());
    let bad = sqlcheck::explain_rule(&bytes("no-such-rule"));
    assert!(bad.is_err());
}

#[test]
fn dump_describes_each_statement() {
    let src = bytes("CREATE INDEX i ON t (a); ALTER TABLE t ADD COLUMN c int; NONSENSE;");
    let (stmts, _) = parse(&src);
    let nodes = dump_statements(&stmts);
    assert_eq!(nodes.len(), 3);
    assert_eq!(nodes[0].tag, "create_index");
    assert_eq!(nodes[1].tag, "alter_table");
    assert_eq!(nodes[1].children.len(), 1);
    assert_eq!(nodes[1].children[0].tag, "add_column");
    assert_eq!(nodes[2].tag, "unparsed");
    assert_eq!(nodes[0].span, stmts[0].span);
}

#[test]
fn set_not_null_is_an_implicit_constraint() {
    let src = bytes("ALTER TABLE t ALTER COLUMN c SET NOT NULL;");
    let (stmts, _) = parse(&src);
    match &stmts[0].kind {
        StatementKind::AlterTable { actions, .. } => {
            assert!(matches!(
                actions[0],
                sqlcheck::ast::AlterAction::AddConstraint {
                    kind: sqlcheck::ast::ConstraintKind::NotNull,
                    validated: true,
                }
            ));
        }
        other => panic!("expected an alter-table statement, got {:?}", other),
    }
    // a NOT NULL constraint is not an eager CHECK/FOREIGN KEY: no violation
    let (vs, _) = sqlcheck::check_source(&src, &Vec::new()).unwrap();
    assert_eq!(vs.len(), 0);
}

#[test]
fn alter_column_type_is_parsed() {
    let src = bytes("ALTER TABLE t ALTER COLUMN c TYPE bigint, DROP COLUMN d;");
    let (stmts, _) = parse(&src);
    match &stmts[0].kind {
        StatementKind::AlterTable { actions, .. } => {
            assert_eq!(actions.len(), 2);
            assert!(matches!(
                &actions[0],
                sqlcheck::ast::AlterAction::AlterColumnType { name, new_type }
                    if name == &bytes("c") && new_type == &bytes("bigint")
            ));
            assert!(matches!(
                &actions[1],
                sqlcheck::ast::AlterAction::DropColumn { name } if name == &bytes("d")
            ));
        }
        other => panic!("expected an alter-table statement, got {:?}", other),
    }
    // neither action violates any rule
    assert_eq!(sqlcheck::check_source(&src, &Vec::new()).unwrap().0.len(), 0);
}

#[test]
fn ids_mentioned_by_violations_match_names() {
    let src = bytes("DROP DATABASE prod;");
    let (vs, _) = sqlcheck::check_source(&src, &Vec::new()).unwrap();
    assert_eq!(vs[0].rule, RuleId::BanDropDatabase);
    assert_eq!(sqlcheck::rules::rule_name(vs[0].rule), "ban-drop-database");
    assert!(!vs[0].message.is_empty());
}
