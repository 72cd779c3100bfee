//! End-to-end scenarios: one input file each, checked against the exact
//! violations, spans and diagnostics the library must produce.

use sqlcheck::check_source;
use sqlcheck::eval::{evaluate, LintError};
use sqlcheck::parse::parse;
use sqlcheck::rules::RuleId;

fn bytes(s: &str) -> Vec<u8> {
    s.as_bytes().to_vec()
}

fn excl(names: &[&str]) -> Vec<Vec<u8>> {
    names.iter().map(|n| bytes(n)).collect()
}

#[test]
fn create_index_non_concurrent_is_flagged() {
    let src = bytes("CREATE INDEX idx ON users (email);");
    let (vs, ds) = check_source(&src, &excl(&[])).unwrap();
    assert_eq!(ds.len(), 0);
    assert_eq!(vs.len(), 1);
    assert_eq!(vs[0].rule, RuleId::RequireConcurrentIndexCreation);
    // the violation spans the whole statement
    assert_eq!(vs[0].span.start, 0);
    assert_eq!(vs[0].span.end, "CREATE INDEX idx ON users (email)".len());
}

#[test]
fn concurrent_index_inside_transaction_is_flagged() {
    let src = bytes("BEGIN; CREATE INDEX CONCURRENTLY idx ON users (email); COMMIT;");
    let (vs, ds) = check_source(&src, &excl(&[])).unwrap();
    assert_eq!(ds.len(), 0);
    assert_eq!(vs.len(), 1);
    assert_eq!(vs[0].rule, RuleId::RequireConcurrentIndexCreation);
    // the violation sits on the CREATE INDEX statement, not on BEGIN
    assert_eq!(vs[0].span.start, 7);
}

#[test]
fn non_concurrent_index_inside_transaction_is_exempt() {
    let src = bytes("BEGIN; CREATE INDEX idx ON users (email); COMMIT;");
    let (vs, _) = check_source(&src, &excl(&[])).unwrap();
    assert_eq!(vs.len(), 0);
}

#[test]
fn drop_database_is_flagged_and_excludable() {
    let src = bytes("DROP DATABASE prod;");
    let (vs, _) = check_source(&src, &excl(&[])).unwrap();
    assert_eq!(vs.len(), 1);
    assert_eq!(vs[0].rule, RuleId::BanDropDatabase);

    let (vs2, _) = check_source(&src, &excl(&["ban-drop-database"])).unwrap();
    assert_eq!(vs2.len(), 0);
}

#[test]
fn rename_column_is_flagged_with_names() {
    let src = bytes("ALTER TABLE t RENAME COLUMN a TO b;");
    let (vs, _) = check_source(&src, &excl(&[])).unwrap();
    assert_eq!(vs.len(), 1);
    assert_eq!(vs[0].rule, RuleId::DisallowRenameColumn);

    // the parsed action identifies the columns a -> b
    let (stmts, _) = parse(&src);
    assert_eq!(stmts.len(), 1);
    match &stmts[0].kind {
        sqlcheck::ast::StatementKind::AlterTable { table, actions } => {
            assert_eq!(table, &bytes("t"));
            assert_eq!(actions.len(), 1);
            match &actions[0] {
                sqlcheck::ast::AlterAction::RenameColumn { from, to } => {
                    assert_eq!(from, &bytes("a"));
                    assert_eq!(to, &bytes("b"));
                }
                other => panic!("expected a rename action, got {:?}", other),
            }
        }
        other => panic!("expected an alter-table statement, got {:?}", other),
    }
}

#[test]
fn comment_only_file_is_empty() {
    let src = bytes("-- comment\n");
    let (stmts, ds) = parse(&src);
    assert_eq!(stmts.len(), 0);
    assert_eq!(ds.len(), 0);
    let (vs, ds2) = check_source(&src, &excl(&[])).unwrap();
    assert_eq!(vs.len(), 0);
    assert_eq!(ds2.len(), 0);
}

#[test]
fn unknown_excluded_rule_is_a_fatal_error() {
    let src = bytes("DROP DATABASE prod;");
    let r = check_source(&src, &excl(&["not-a-real-rule"]));
    match r {
        Err(LintError::UnknownRule { name }) => assert_eq!(name, bytes("not-a-real-rule")),
        Ok(_) => panic!("an unknown excluded rule must abort the run"),
    }
}

#[test]
fn unparsed_statement_does_not_abort_the_rest() {
    let src = bytes("CREATE INDEX idx ON users (email);\nFROBNICATE THE WIDGET;\nDROP DATABASE prod;");
    let (stmts, ds) = parse(&src);
    assert_eq!(stmts.len(), 3);
    assert!(matches!(stmts[0].kind, sqlcheck::ast::StatementKind::CreateIndex { .. }));
    assert!(matches!(stmts[1].kind, sqlcheck::ast::StatementKind::Unparsed { .. }));
    assert!(matches!(stmts[2].kind, sqlcheck::ast::StatementKind::DropDatabase { .. }));
    assert_eq!(ds.len(), 1);
    assert_eq!(ds[0].span, stmts[1].span);
    // rules still run over what was classified
    let (vs, _) = check_source(&src, &excl(&[])).unwrap();
    assert_eq!(vs.len(), 2);
}

#[test]
fn parse_is_deterministic() {
    let src = bytes("BEGIN; ALTER TABLE t ADD COLUMN c int DEFAULT 5 NOT NULL; COMMIT; DROP TABLE t;");
    let (s1, d1) = parse(&src);
    let (s2, d2) = parse(&src);
    assert_eq!(s1, s2);
    assert_eq!(d1.len(), d2.len());
    for (a, b) in d1.iter().zip(d2.iter()) {
        assert_eq!(a.span, b.span);
    }
}

#[test]
fn evaluate_is_idempotent() {
    let src = bytes("DROP DATABASE prod; CREATE INDEX i ON t (c); COMMIT;");
    let (stmts, _) = parse(&src);
    let ex = excl(&[]);
    let v1 = evaluate(&stmts, &ex).unwrap();
    let v2 = evaluate(&stmts, &ex).unwrap();
    assert_eq!(v1.len(), v2.len());
    for (a, b) in v1.iter().zip(v2.iter()) {
        assert_eq!(a.rule, b.rule);
        assert_eq!(a.span, b.span);
        assert_eq!(a.message, b.message);
    }
}

#[test]
fn exclusion_removes_exactly_that_rule() {
    let src = bytes("DROP DATABASE prod; CREATE INDEX i ON t (c); ALTER TABLE t RENAME COLUMN a TO b;");
    let (stmts, _) = parse(&src);
    let all = evaluate(&stmts, &excl(&[])).unwrap();
    let without = evaluate(&stmts, &excl(&["ban-drop-database"])).unwrap();
    let kept: Vec<_> = all.iter().filter(|v| v.rule != RuleId::BanDropDatabase).collect();
    assert_eq!(without.len(), kept.len());
    for (a, b) in without.iter().zip(kept.iter()) {
        assert_eq!(a.rule, b.rule);
        assert_eq!(a.span, b.span);
    }
    assert_eq!(all.len(), without.len() + 1);
}

#[test]
fn violations_are_ordered_by_span_start() {
    let src = bytes("DROP DATABASE a; DROP DATABASE b; CREATE INDEX i ON t (c); COMMIT;");
    let (vs, _) = check_source(&src, &excl(&[])).unwrap();
    assert!(vs.len() >= 3);
    for w in vs.windows(2) {
        assert!(w[0].span.start <= w[1].span.start);
    }
}

#[test]
fn statement_spans_are_increasing_and_disjoint() {
    let src = bytes("SELECT 1; SELECT 2;\nSELECT 3; -- x\nSELECT 4");
    let (stmts, _) = parse(&src);
    assert_eq!(stmts.len(), 4);
    for s in stmts.iter() {
        assert!(s.span.start < s.span.end);
        assert!(s.span.end <= src.len());
    }
    for w in stmts.windows(2) {
        assert!(w[0].span.end <= w[1].span.start);
    }
}

#[test]
fn unmatched_commit_is_flagged() {
    let src = bytes("COMMIT;");
    let (vs, _) = check_source(&src, &excl(&[])).unwrap();
    assert_eq!(vs.len(), 1);
    assert_eq!(vs[0].rule, RuleId::BanUnmatchedTransactionEnd);
}

#[test]
fn add_column_with_default_not_null_is_flagged() {
    let src = bytes("ALTER TABLE t ADD COLUMN c integer DEFAULT 5 NOT NULL;");
    let (vs, _) = check_source(&src, &excl(&[])).unwrap();
    assert_eq!(vs.len(), 1);
    assert_eq!(vs[0].rule, RuleId::AddingFieldWithDefault);
}

#[test]
fn add_column_with_null_default_is_not_flagged() {
    let src = bytes("ALTER TABLE t ADD COLUMN c integer DEFAULT NULL;");
    let (vs, _) = check_source(&src, &excl(&[])).unwrap();
    assert_eq!(vs.len(), 0);
}

#[test]
fn nullable_column_with_default_is_not_flagged() {
    let src = bytes("ALTER TABLE t ADD COLUMN c integer DEFAULT 5;");
    let (vs, _) = check_source(&src, &excl(&[])).unwrap();
    assert_eq!(vs.len(), 0);
}

#[test]
fn eager_foreign_key_is_flagged() {
    let src = bytes("ALTER TABLE t ADD CONSTRAINT fk FOREIGN KEY (a) REFERENCES o (id);");
    let (vs, _) = check_source(&src, &excl(&[])).unwrap();
    assert_eq!(vs.len(), 1);
    assert_eq!(vs[0].rule, RuleId::RequireNotValidForNewConstraint);
}

#[test]
fn not_valid_constraint_is_not_flagged() {
    let src = bytes("ALTER TABLE t ADD CONSTRAINT fk FOREIGN KEY (a) REFERENCES o (id) NOT VALID;");
    let (vs, _) = check_source(&src, &excl(&[])).unwrap();
    assert_eq!(vs.len(), 0);
}

#[test]
fn unique_constraint_is_not_flagged() {
    let src = bytes("ALTER TABLE t ADD CONSTRAINT u UNIQUE (a);");
    let (vs, _) = check_source(&src, &excl(&[])).unwrap();
    assert_eq!(vs.len(), 0);
}

#[test]
fn concurrent_duplicate_is_not_double_flagged() {
    // the non-concurrent build is flagged once; its concurrent duplicate
    // (outside any transaction) is fine
    let src = bytes("CREATE INDEX i ON t (c); CREATE INDEX CONCURRENTLY i ON t (c);");
    let (vs, _) = check_source(&src, &excl(&[])).unwrap();
    assert_eq!(vs.len(), 1);
    assert_eq!(vs[0].span.start, 0);
}

#[test]
fn evaluate_rejects_unknown_exclusion_directly() {
    let (stmts, _) = parse(&bytes("DROP DATABASE prod;"));
    let r = evaluate(&stmts, &excl(&["ban-drop-database", "bogus"]));
    assert!(matches!(r, Err(LintError::UnknownRule { .. })));
}

#[test]
fn rollback_closes_a_block_like_commit() {
    let src = bytes("BEGIN; SELECT 1; ROLLBACK; COMMIT;");
    let (vs, _) = check_source(&src, &excl(&[])).unwrap();
    // only the final COMMIT is unmatched
    assert_eq!(vs.len(), 1);
    assert_eq!(vs[0].rule, RuleId::BanUnmatchedTransactionEnd);
    assert_eq!(vs[0].span.start, 27);
}

#[test]
fn block_comment_spanning_lines_is_skipped() {
    let src = bytes("/* a long\n   comment; BEGIN; */\nDROP DATABASE prod;");
    let (stmts, ds) = parse(&src);
    assert_eq!(stmts.len(), 1);
    assert_eq!(ds.len(), 0);
    assert_eq!(stmts[0].span.start_line, 2);
    let (vs, _) = check_source(&src, &excl(&[])).unwrap();
    assert_eq!(vs.len(), 1);
    assert_eq!(vs[0].rule, RuleId::BanDropDatabase);
}

#[test]
fn span_end_position_is_tracked() {
    let src = bytes("SELECT\n1;");
    let (stmts, _) = parse(&src);
    assert_eq!(stmts.len(), 1);
    assert_eq!(stmts[0].span.start_line, 0);
    assert_eq!(stmts[0].span.end_line, 1);
    assert_eq!(stmts[0].span.end_col, 1);
}
