use sqleibniz::lexer::Lexer;
use sqleibniz::nodes::Stmt;
use sqleibniz::parser::Parser;
use sqleibniz::types::Rule;

/// Lexes and parses `input`, asserting that neither step reports anything.
fn parse_clean(input: &str) -> Vec<Stmt> {
    let bytes = input.as_bytes().to_vec();
    let mut l = Lexer::new(&bytes, "parser_test_pass");
    let toks = l.run();
    assert_eq!(l.errors.len(), 0, "lexer errors: {:?}", l.errors);
    let mut parser = Parser::new(toks, "parser_test_pass");
    let ast = parser.parse();
    assert_eq!(parser.errors.len(), 0, "parser errors: {:?}", parser.errors);
    ast
}

/// Lexes `input` (asserting the lexer reports nothing), parses it, and gives the parser's
/// diagnostics' rules.
fn parse_diagnostics(input: &str) -> Vec<Rule> {
    let bytes = input.as_bytes().to_vec();
    let mut l = Lexer::new(&bytes, "parser_test_fail");
    let toks = l.run();
    assert_eq!(l.errors.len(), 0, "lexer errors: {:?}", l.errors);
    let mut parser = Parser::new(toks, "parser_test_fail");
    let _ = parser.parse();
    parser.errors.iter().map(|e| e.rule).collect()
}

#[test]
fn expect() {
    let ast = parse_clean(r"
    -- @sqleibniz::expect
    VACUUM 25;
    -- the above is skipped
    EXPLAIN VACUUM;
        ");
    assert_eq!(ast.len(), 1);
    assert!(matches!(ast[0], Stmt::Explain { .. }));
}

#[test]
fn expect_with_semicolons_in_comment() {
    let ast = parse_clean(r"
    -- @sqleibniz::expect lets skip this error;;;;;;;;
    VACUUM 25;
    EXPLAIN VACUUM;
        ");
    assert_eq!(ast.len(), 1);
    assert!(matches!(ast[0], Stmt::Explain { .. }));
}

#[test]
fn explain() {
    let ast = parse_clean(r#"EXPLAIN VACUUM;"#);
    assert_eq!(ast.len(), 1);
    assert!(matches!(ast[0], Stmt::Explain { .. }));
}

#[test]
fn sql_stmt_prefix_explain_query_plan() {
    let ast = parse_clean(r#"EXPLAIN QUERY PLAN VACUUM;"#);
    assert_eq!(ast.len(), 1);
    assert!(matches!(ast[0], Stmt::Explain { .. }));
}

#[test]
fn vacuum_first_path() {
    let ast = parse_clean(r#"VACUUM;"#);
    assert_eq!(ast.len(), 1);
    assert!(matches!(ast[0], Stmt::Vacuum { .. }));
}

#[test]
fn vacuum_second_path() {
    let ast = parse_clean(r#"VACUUM schema_name;"#);
    assert_eq!(ast.len(), 1);
    assert!(matches!(ast[0], Stmt::Vacuum { .. }));
}

#[test]
fn vacuum_third_path() {
    let ast = parse_clean(r#"VACUUM INTO 'filename';"#);
    assert_eq!(ast.len(), 1);
    assert!(matches!(ast[0], Stmt::Vacuum { .. }));
}

#[test]
fn vacuum_full_path() {
    let ast = parse_clean(r#"VACUUM schema_name INTO 'filename';"#);
    assert_eq!(ast.len(), 1);
    assert!(matches!(ast[0], Stmt::Vacuum { .. }));
}

#[test]
fn begin() {
    let ast = parse_clean(r#"BEGIN;"#);
    assert_eq!(ast.len(), 1);
    assert!(matches!(ast[0], Stmt::Begin { .. }));
}

#[test]
fn begin_transaction() {
    let ast = parse_clean(r#"BEGIN TRANSACTION;"#);
    assert_eq!(ast.len(), 1);
    assert!(matches!(ast[0], Stmt::Begin { .. }));
}

#[test]
fn begin_deferred() {
    let ast = parse_clean(r#"BEGIN DEFERRED;"#);
    assert_eq!(ast.len(), 1);
    assert!(matches!(ast[0], Stmt::Begin { .. }));
}

#[test]
fn begin_immediate() {
    let ast = parse_clean(r#"BEGIN IMMEDIATE;"#);
    assert_eq!(ast.len(), 1);
    assert!(matches!(ast[0], Stmt::Begin { .. }));
}

#[test]
fn begin_exclusive() {
    let ast = parse_clean(r#"BEGIN EXCLUSIVE;"#);
    assert_eq!(ast.len(), 1);
    assert!(matches!(ast[0], Stmt::Begin { .. }));
}

#[test]
fn begin_deferred_transaction() {
    let ast = parse_clean(r"BEGIN DEFERRED TRANSACTION;");
    assert_eq!(ast.len(), 1);
    assert!(matches!(ast[0], Stmt::Begin { .. }));
}

#[test]
fn begin_immediate_transaction() {
    let ast = parse_clean(r"BEGIN IMMEDIATE TRANSACTION;");
    assert_eq!(ast.len(), 1);
    assert!(matches!(ast[0], Stmt::Begin { .. }));
}

#[test]
fn begin_exclusive_transaction() {
    let ast = parse_clean(r"BEGIN EXCLUSIVE TRANSACTION;");
    assert_eq!(ast.len(), 1);
    assert!(matches!(ast[0], Stmt::Begin { .. }));
}

#[test]
fn commit() {
    let ast = parse_clean(r"COMMIT;");
    assert_eq!(ast.len(), 1);
    assert!(matches!(ast[0], Stmt::Commit { .. }));
}

#[test]
fn end() {
    let ast = parse_clean(r"END;");
    assert_eq!(ast.len(), 1);
    assert!(matches!(ast[0], Stmt::Commit { .. }));
}

#[test]
fn commit_transaction() {
    let ast = parse_clean(r"COMMIT TRANSACTION;");
    assert_eq!(ast.len(), 1);
    assert!(matches!(ast[0], Stmt::Commit { .. }));
}

#[test]
fn end_transaction() {
    let ast = parse_clean(r"END TRANSACTION;");
    assert_eq!(ast.len(), 1);
    assert!(matches!(ast[0], Stmt::Commit { .. }));
}

#[test]
fn rollback() {
    let ast = parse_clean(r"ROLLBACK;");
    assert_eq!(ast.len(), 1);
    assert!(matches!(ast[0], Stmt::Rollback { .. }));
}

#[test]
fn rollback_to_save_point() {
    let ast = parse_clean(r"ROLLBACK TO save_point;");
    assert_eq!(ast.len(), 1);
    assert!(matches!(ast[0], Stmt::Rollback { .. }));
}

#[test]
fn rollback_to_savepoint_save_point() {
    let ast = parse_clean(r"ROLLBACK TO SAVEPOINT save_point;");
    assert_eq!(ast.len(), 1);
    assert!(matches!(ast[0], Stmt::Rollback { .. }));
}

#[test]
fn rollback_transaction() {
    let ast = parse_clean(r"ROLLBACK TRANSACTION;");
    assert_eq!(ast.len(), 1);
    assert!(matches!(ast[0], Stmt::Rollback { .. }));
}

#[test]
fn rollback_transaction_to_save_point() {
    let ast = parse_clean(r"ROLLBACK TRANSACTION TO save_point;");
    assert_eq!(ast.len(), 1);
    assert!(matches!(ast[0], Stmt::Rollback { .. }));
}

#[test]
fn rollback_transaction_to_savepoint_save_point() {
    let ast = parse_clean(r"ROLLBACK TRANSACTION TO SAVEPOINT save_point;");
    assert_eq!(ast.len(), 1);
    assert!(matches!(ast[0], Stmt::Rollback { .. }));
}

#[test]
fn detach_schema_name() {
    let ast = parse_clean(r"DETACH schema_name;");
    assert_eq!(ast.len(), 1);
    assert!(matches!(ast[0], Stmt::Detach { .. }));
}

#[test]
fn detach_database_schema_name() {
    let ast = parse_clean(r"DETACH DATABASE schema_name;");
    assert_eq!(ast.len(), 1);
    assert!(matches!(ast[0], Stmt::Detach { .. }));
}

#[test]
fn analyze() {
    let ast = parse_clean(r"ANALYZE;");
    assert_eq!(ast.len(), 1);
    assert!(matches!(ast[0], Stmt::Analyze { .. }));
}

#[test]
fn analyze_schema_name() {
    let ast = parse_clean(r"ANALYZE schema_name;");
    assert_eq!(ast.len(), 1);
    assert!(matches!(ast[0], Stmt::Analyze { .. }));
}

#[test]
fn analyze_index_or_table_name() {
    let ast = parse_clean(r"ANALYZE index_or_table_name;");
    assert_eq!(ast.len(), 1);
    assert!(matches!(ast[0], Stmt::Analyze { .. }));
}

#[test]
fn analyze_schema_name_with_subtable() {
    let ast = parse_clean(r"ANALYZE schema_name.index_or_table_name;");
    assert_eq!(ast.len(), 1);
    assert!(matches!(ast[0], Stmt::Analyze { .. }));
}

#[test]
fn drop_index_index_name() {
    let ast = parse_clean(r"DROP INDEX index_name;");
    assert_eq!(ast.len(), 1);
    assert!(matches!(ast[0], Stmt::Drop { .. }));
}

#[test]
fn drop_index_if_exists_schema_name_index_name() {
    let ast = parse_clean(r"DROP INDEX IF EXISTS schema_name.index_name;");
    assert_eq!(ast.len(), 1);
    assert!(matches!(ast[0], Stmt::Drop { .. }));
}

#[test]
fn drop_table_table_name() {
    let ast = parse_clean(r"DROP TABLE table_name;");
    assert_eq!(ast.len(), 1);
    assert!(matches!(ast[0], Stmt::Drop { .. }));
}

#[test]
fn drop_table_if_exists_schema_name_table_name() {
    let ast = parse_clean(r"DROP TABLE IF EXISTS schema_name.table_name;");
    assert_eq!(ast.len(), 1);
    assert!(matches!(ast[0], Stmt::Drop { .. }));
}

#[test]
fn drop_trigger_trigger_name() {
    let ast = parse_clean(r"DROP TRIGGER trigger_name;");
    assert_eq!(ast.len(), 1);
    assert!(matches!(ast[0], Stmt::Drop { .. }));
}

#[test]
fn drop_trigger_if_exists_schema_name_trigger_name() {
    let ast = parse_clean(r"DROP TRIGGER IF EXISTS schema_name.trigger_name;");
    assert_eq!(ast.len(), 1);
    assert!(matches!(ast[0], Stmt::Drop { .. }));
}

#[test]
fn drop_view_view_name() {
    let ast = parse_clean(r"DROP VIEW view_name;");
    assert_eq!(ast.len(), 1);
    assert!(matches!(ast[0], Stmt::Drop { .. }));
}

#[test]
fn drop_view_if_exists_schema_name_view_name() {
    let ast = parse_clean(r"DROP VIEW IF EXISTS schema_name.view_name;");
    assert_eq!(ast.len(), 1);
    assert!(matches!(ast[0], Stmt::Drop { .. }));
}

#[test]
fn savepoint_savepoint_name() {
    let ast = parse_clean(r"SAVEPOINT savepoint_name;");
    assert_eq!(ast.len(), 1);
    assert!(matches!(ast[0], Stmt::Savepoint { .. }));
}

#[test]
fn release_savepoint_savepoint_name() {
    let ast = parse_clean(r"RELEASE SAVEPOINT savepoint_name;");
    assert_eq!(ast.len(), 1);
    assert!(matches!(ast[0], Stmt::Release { .. }));
}

#[test]
fn release_savepoint_name() {
    let ast = parse_clean(r"RELEASE savepoint_name;");
    assert_eq!(ast.len(), 1);
    assert!(matches!(ast[0], Stmt::Release { .. }));
}

#[test]
fn attach() {
    let ast = parse_clean(r"ATTACH 'database.db' AS db;");
    assert_eq!(ast.len(), 1);
    assert!(matches!(ast[0], Stmt::Attach { .. }));
}

#[test]
fn attach_database() {
    let ast = parse_clean(r"ATTACH DATABASE 'database.db' AS db;");
    assert_eq!(ast.len(), 1);
    assert!(matches!(ast[0], Stmt::Attach { .. }));
}

#[test]
fn reindex() {
    let ast = parse_clean(r"REINDEX;");
    assert_eq!(ast.len(), 1);
    assert!(matches!(ast[0], Stmt::Reindex { .. }));
}

#[test]
fn reindex_collation_name() {
    let ast = parse_clean(r"REINDEX collation_name;");
    assert_eq!(ast.len(), 1);
    assert!(matches!(ast[0], Stmt::Reindex { .. }));
}

#[test]
fn reindex_schema_name_table_name() {
    let ast = parse_clean(r"REINDEX schema_name.table_name;");
    assert_eq!(ast.len(), 1);
    assert!(matches!(ast[0], Stmt::Reindex { .. }));
}

#[test]
fn alter_rename_to() {
    let ast = parse_clean(r"ALTER TABLE schema.table_name RENAME TO new_table;");
    assert_eq!(ast.len(), 1);
    assert!(matches!(ast[0], Stmt::Alter(..)));
}

#[test]
fn alter_rename_column_to() {
    let ast = parse_clean(r"ALTER TABLE schema.table_name RENAME COLUMN old_column_name TO new_column_name;");
    assert_eq!(ast.len(), 1);
    assert!(matches!(ast[0], Stmt::Alter(..)));
}

#[test]
fn alter_rename_column_to_without_column_keyword() {
    let ast = parse_clean(r"ALTER TABLE schema.table_name RENAME old_column_name TO new_column_name;");
    assert_eq!(ast.len(), 1);
    assert!(matches!(ast[0], Stmt::Alter(..)));
}

#[test]
fn alter_add() {
    let ast = parse_clean(r"ALTER TABLE schema.table_name ADD COLUMN column_name TEXT;");
    assert_eq!(ast.len(), 1);
    assert!(matches!(ast[0], Stmt::Alter(..)));
}

#[test]
fn alter_add_without_column_keyword() {
    let ast = parse_clean(r"ALTER TABLE schema.table_name ADD column_name TEXT;");
    assert_eq!(ast.len(), 1);
    assert!(matches!(ast[0], Stmt::Alter(..)));
}

#[test]
fn alter_drop_column() {
    let ast = parse_clean(r"ALTER TABLE schema.table_name DROP COLUMN column_name;");
    assert_eq!(ast.len(), 1);
    assert!(matches!(ast[0], Stmt::Alter(..)));
}

#[test]
fn alter_drop_column_without_column_keyword() {
    let ast = parse_clean(r"ALTER TABLE schema.table_name DROP column_name;");
    assert_eq!(ast.len(), 1);
    assert!(matches!(ast[0], Stmt::Alter(..)));
}

#[test]
fn primary_key_no_order() {
    let ast = parse_clean(r"ALTER TABLE schema.table_name ADD COLUMN column_name TEXT PRIMARY KEY;");
    assert_eq!(ast.len(), 1);
    assert!(matches!(ast[0], Stmt::Alter(..)));
}

#[test]
fn primary_key_asc() {
    let ast = parse_clean(r"ALTER TABLE schema.table_name ADD COLUMN column_name TEXT PRIMARY KEY ASC;");
    assert_eq!(ast.len(), 1);
    assert!(matches!(ast[0], Stmt::Alter(..)));
}

#[test]
fn primary_key_desc_conflict_replace_autoincrement() {
    let ast = parse_clean(r"ALTER TABLE schema.table_name ADD COLUMN column_name TEXT PRIMARY KEY DESC ON CONFLICT REPLACE AUTOINCREMENT;");
    assert_eq!(ast.len(), 1);
    assert!(matches!(ast[0], Stmt::Alter(..)));
}

#[test]
fn not_null_no_conflict() {
    let ast = parse_clean(r"ALTER TABLE schema.table_name ADD COLUMN column_name TEXT NOT NULL;");
    assert_eq!(ast.len(), 1);
    assert!(matches!(ast[0], Stmt::Alter(..)));
}

#[test]
fn unique_conflict_replace() {
    let ast = parse_clean(r"ALTER TABLE schema.table_name ADD COLUMN column_name TEXT UNIQUE ON CONFLICT REPLACE;");
    assert_eq!(ast.len(), 1);
    assert!(matches!(ast[0], Stmt::Alter(..)));
}

#[test]
fn check_expr() {
    let ast = parse_clean(r"ALTER TABLE schema.table_name ADD COLUMN column_name TEXT CHECK ('literal string lol');");
    assert_eq!(ast.len(), 1);
    assert!(matches!(ast[0], Stmt::Alter(..)));
}

#[test]
fn default_literal() {
    let ast = parse_clean(r"ALTER TABLE schema.table_name ADD COLUMN column_name TEXT DEFAULT 'literal';");
    assert_eq!(ast.len(), 1);
    assert!(matches!(ast[0], Stmt::Alter(..)));
}

#[test]
fn collate() {
    let ast = parse_clean(r"ALTER TABLE schema.table_name ADD COLUMN column_name TEXT COLLATE collation_name;");
    assert_eq!(ast.len(), 1);
    assert!(matches!(ast[0], Stmt::Alter(..)));
}

#[test]
fn generated_stored() {
    let ast = parse_clean(r"ALTER TABLE schema.table_name ADD COLUMN column_name TEXT GENERATED ALWAYS AS ('literal') STORED;");
    assert_eq!(ast.len(), 1);
    assert!(matches!(ast[0], Stmt::Alter(..)));
}

#[test]
fn as_expr() {
    let ast = parse_clean(r"ALTER TABLE schema.table_name ADD COLUMN column_name TEXT AS ('literal');");
    assert_eq!(ast.len(), 1);
    assert!(matches!(ast[0], Stmt::Alter(..)));
}

#[test]
fn references_on_delete_set_null() {
    let ast = parse_clean(r"ALTER TABLE schema.table_name ADD COLUMN column_name TEXT REFERENCES foreign_table ON DELETE SET NULL;");
    assert_eq!(ast.len(), 1);
    assert!(matches!(ast[0], Stmt::Alter(..)));
}

#[test]
fn query() {
    let ast = parse_clean("PRAGMA database_list;");
    assert_eq!(ast.len(), 1);
    assert!(matches!(ast[0], Stmt::Pragma { .. }));
}

#[test]
fn assignment() {
    let ast = parse_clean("PRAGMA schema.cache_size = 5;");
    assert_eq!(ast.len(), 1);
    assert!(matches!(ast[0], Stmt::Pragma { .. }));
}

#[test]
fn assign_keyword() {
    let ast = parse_clean("PRAGMA schema.locking_mode = EXCLUSIVE;");
    assert_eq!(ast.len(), 1);
    assert!(matches!(ast[0], Stmt::Pragma { .. }));
}

#[test]
fn call() {
    let ast = parse_clean("PRAGMA schema.optimize(0xfffe);");
    assert_eq!(ast.len(), 1);
    assert!(matches!(ast[0], Stmt::Pragma { .. }));
}

#[test]
fn select_star() {
    let _ = parse_clean("SELECT *;");
}

#[test]
fn select_literal_number() {
    let _ = parse_clean("SELECT 1;");
}

#[test]
fn select_literal_string() {
    let _ = parse_clean("SELECT 'hello';");
}

#[test]
fn select_literal_null() {
    let _ = parse_clean("SELECT NULL;");
}

#[test]
fn select_literal_true() {
    let _ = parse_clean("SELECT true;");
}

#[test]
fn select_literal_false() {
    let _ = parse_clean("SELECT false;");
}

#[test]
fn select_literal_blob() {
    let _ = parse_clean("SELECT X'AABB';");
}

#[test]
fn select_current_time() {
    let _ = parse_clean("SELECT CURRENT_TIME;");
}

#[test]
fn select_current_date() {
    let _ = parse_clean("SELECT CURRENT_DATE;");
}

#[test]
fn select_current_timestamp() {
    let _ = parse_clean("SELECT CURRENT_TIMESTAMP;");
}

#[test]
fn select_multiple_cols() {
    let _ = parse_clean("SELECT 1, 2, 3;");
}

#[test]
fn select_column_name() {
    let _ = parse_clean("SELECT name;");
}

#[test]
fn select_table_column() {
    let _ = parse_clean("SELECT t.name;");
}

#[test]
fn select_schema_table_column() {
    let _ = parse_clean("SELECT s.t.name;");
}

#[test]
fn select_table_star() {
    let _ = parse_clean("SELECT t.*;");
}

#[test]
fn select_alias_as() {
    let _ = parse_clean("SELECT 1 AS one;");
}

#[test]
fn select_alias_implicit() {
    let _ = parse_clean("SELECT 1 one;");
}

#[test]
fn select_distinct() {
    let _ = parse_clean("SELECT DISTINCT name;");
}

#[test]
fn select_all() {
    let _ = parse_clean("SELECT ALL name;");
}

#[test]
fn select_mixed_cols() {
    let _ = parse_clean("SELECT id, name AS n, t.*, *;");
}

#[test]
fn select_negative_number() {
    let _ = parse_clean("SELECT -1;");
}

#[test]
fn select_positive_number() {
    let _ = parse_clean("SELECT +42;");
}

#[test]
fn select_bitwise_not() {
    let _ = parse_clean("SELECT ~0;");
}

#[test]
fn from_table() {
    let _ = parse_clean("SELECT * FROM users;");
}

#[test]
fn from_table_alias() {
    let _ = parse_clean("SELECT * FROM users u;");
}

#[test]
fn from_table_alias_as() {
    let _ = parse_clean("SELECT * FROM users AS u;");
}

#[test]
fn from_schema_table() {
    let _ = parse_clean("SELECT * FROM main.users;");
}

#[test]
fn from_multiple_tables() {
    let _ = parse_clean("SELECT * FROM users, orders;");
}

#[test]
fn from_subquery() {
    let _ = parse_clean("SELECT * FROM (SELECT 1);");
}

#[test]
fn from_subquery_alias() {
    let _ = parse_clean("SELECT * FROM (SELECT 1) AS t;");
}

#[test]
fn from_paren_tables() {
    let _ = parse_clean("SELECT * FROM (users, orders);");
}

#[test]
fn from_indexed_by() {
    let _ = parse_clean("SELECT * FROM users INDEXED BY idx_name;");
}

#[test]
fn from_not_indexed() {
    let _ = parse_clean("SELECT * FROM users NOT INDEXED;");
}

#[test]
fn from_table_function() {
    let _ = parse_clean("SELECT * FROM json_each('[]');");
}

#[test]
fn from_schema_table_func() {
    let _ = parse_clean("SELECT * FROM main.json_each('[]');");
}

#[test]
fn inner_join() {
    let _ = parse_clean("SELECT * FROM a JOIN b ON a.id = b.id;");
}

#[test]
fn inner_join_explicit() {
    let _ = parse_clean("SELECT * FROM a INNER JOIN b ON a.id = b.id;");
}

#[test]
fn left_join() {
    let _ = parse_clean("SELECT * FROM a LEFT JOIN b ON a.id = b.id;");
}

#[test]
fn left_outer_join() {
    let _ = parse_clean("SELECT * FROM a LEFT OUTER JOIN b ON a.id = b.id;");
}

#[test]
fn right_join() {
    let _ = parse_clean("SELECT * FROM a RIGHT JOIN b ON a.id = b.id;");
}

#[test]
fn full_join() {
    let _ = parse_clean("SELECT * FROM a FULL JOIN b ON a.id = b.id;");
}

#[test]
fn full_outer_join() {
    let _ = parse_clean("SELECT * FROM a FULL OUTER JOIN b ON a.id = b.id;");
}

#[test]
fn cross_join() {
    let _ = parse_clean("SELECT * FROM a CROSS JOIN b;");
}

#[test]
fn natural_join() {
    let _ = parse_clean("SELECT * FROM a NATURAL JOIN b;");
}

#[test]
fn natural_left_join() {
    let _ = parse_clean("SELECT * FROM a NATURAL LEFT JOIN b;");
}

#[test]
fn join_using() {
    let _ = parse_clean("SELECT * FROM a JOIN b USING (id);");
}

#[test]
fn join_using_multi() {
    let _ = parse_clean("SELECT * FROM a JOIN b USING (id, name);");
}

#[test]
fn multiple_joins() {
    let _ = parse_clean("SELECT * FROM a JOIN b ON a.id = b.a_id JOIN c ON b.id = c.b_id;");
}

#[test]
fn mixed_comma_and_join() {
    let _ = parse_clean("SELECT * FROM a, b JOIN c ON b.id = c.b_id;");
}

#[test]
fn where_simple() {
    let _ = parse_clean("SELECT * FROM t WHERE id = 1;");
}

#[test]
fn where_and() {
    let _ = parse_clean("SELECT * FROM t WHERE a = 1 AND b = 2;");
}

#[test]
fn where_or() {
    let _ = parse_clean("SELECT * FROM t WHERE a = 1 OR b = 2;");
}

#[test]
fn where_not() {
    let _ = parse_clean("SELECT * FROM t WHERE NOT active;");
}

#[test]
fn where_is_null() {
    let _ = parse_clean("SELECT * FROM t WHERE name IS NULL;");
}

#[test]
fn where_is_not_null() {
    let _ = parse_clean("SELECT * FROM t WHERE name IS NOT NULL;");
}

#[test]
fn where_isnull() {
    let _ = parse_clean("SELECT * FROM t WHERE name ISNULL;");
}

#[test]
fn where_notnull() {
    let _ = parse_clean("SELECT * FROM t WHERE name NOTNULL;");
}

#[test]
fn where_in_list() {
    let _ = parse_clean("SELECT * FROM t WHERE id IN (1, 2, 3);");
}

#[test]
fn where_not_in_list() {
    let _ = parse_clean("SELECT * FROM t WHERE id NOT IN (1, 2, 3);");
}

#[test]
fn where_in_subquery() {
    let _ = parse_clean("SELECT * FROM t WHERE id IN (SELECT id FROM other);");
}

#[test]
fn where_like() {
    let _ = parse_clean("SELECT * FROM t WHERE name LIKE '%test%';");
}

#[test]
fn where_like_escape() {
    let _ = parse_clean("SELECT * FROM t WHERE name LIKE '%\\%%' ESCAPE '\\';");
}

#[test]
fn where_not_like() {
    let _ = parse_clean("SELECT * FROM t WHERE name NOT LIKE 'test';");
}

#[test]
fn where_glob() {
    let _ = parse_clean("SELECT * FROM t WHERE name GLOB '*test*';");
}

#[test]
fn where_between() {
    let _ = parse_clean("SELECT * FROM t WHERE id BETWEEN 1 AND 10;");
}

#[test]
fn where_not_between() {
    let _ = parse_clean("SELECT * FROM t WHERE id NOT BETWEEN 1 AND 10;");
}

#[test]
fn where_exists() {
    let _ = parse_clean("SELECT * FROM t WHERE EXISTS (SELECT 1 FROM other);");
}

#[test]
fn where_complex() {
    let _ = parse_clean("SELECT * FROM t WHERE (a = 1 OR b = 2) AND NOT (c = 3);");
}

#[test]
fn expr_addition() {
    let _ = parse_clean("SELECT 1 + 2;");
}

#[test]
fn expr_subtraction() {
    let _ = parse_clean("SELECT 5 - 3;");
}

#[test]
fn expr_multiplication() {
    let _ = parse_clean("SELECT 2 * 3;");
}

#[test]
fn expr_division() {
    let _ = parse_clean("SELECT 10 / 2;");
}

#[test]
fn expr_modulo() {
    let _ = parse_clean("SELECT 10 % 3;");
}

#[test]
fn expr_concat() {
    let _ = parse_clean("SELECT 'a' || 'b';");
}

#[test]
fn expr_comparison_lt() {
    let _ = parse_clean("SELECT 1 < 2;");
}

#[test]
fn expr_comparison_gt() {
    let _ = parse_clean("SELECT 2 > 1;");
}

#[test]
fn expr_comparison_le() {
    let _ = parse_clean("SELECT 1 <= 2;");
}

#[test]
fn expr_comparison_ge() {
    let _ = parse_clean("SELECT 2 >= 1;");
}

#[test]
fn expr_comparison_ne() {
    let _ = parse_clean("SELECT 1 != 2;");
}

#[test]
fn expr_comparison_ne2() {
    let _ = parse_clean("SELECT 1 <> 2;");
}

#[test]
fn expr_comparison_eq2() {
    let _ = parse_clean("SELECT 1 == 1;");
}

#[test]
fn expr_bitwise_and() {
    let _ = parse_clean("SELECT 5 & 3;");
}

#[test]
fn expr_bitwise_or() {
    let _ = parse_clean("SELECT 5 | 3;");
}

#[test]
fn expr_shift_left() {
    let _ = parse_clean("SELECT 1 << 3;");
}

#[test]
fn expr_shift_right() {
    let _ = parse_clean("SELECT 8 >> 2;");
}

#[test]
fn expr_precedence() {
    let _ = parse_clean("SELECT 1 + 2 * 3;");
}

#[test]
fn expr_paren() {
    let _ = parse_clean("SELECT (1 + 2) * 3;");
}

#[test]
fn expr_nested_paren() {
    let _ = parse_clean("SELECT ((1 + 2) * (3 - 1));");
}

#[test]
fn expr_unary_minus() {
    let _ = parse_clean("SELECT -x FROM t;");
}

#[test]
fn expr_unary_plus() {
    let _ = parse_clean("SELECT +x FROM t;");
}

#[test]
fn expr_complex() {
    let _ = parse_clean("SELECT a + b * c - d / e FROM t;");
}

#[test]
fn cast_basic() {
    let _ = parse_clean("SELECT CAST(1 AS TEXT);");
}

#[test]
fn cast_in_where() {
    let _ = parse_clean("SELECT * FROM t WHERE CAST(val AS INTEGER) > 5;");
}

#[test]
fn case_simple() {
    let _ = parse_clean("SELECT CASE WHEN 1 THEN 'one' END;");
}

#[test]
fn case_multiple_when() {
    let _ = parse_clean("SELECT CASE WHEN 1 THEN 'one' WHEN 2 THEN 'two' END;");
}

#[test]
fn case_else() {
    let _ = parse_clean("SELECT CASE WHEN 1 THEN 'one' ELSE 'other' END;");
}

#[test]
fn case_with_operand() {
    let _ = parse_clean("SELECT CASE x WHEN 1 THEN 'one' WHEN 2 THEN 'two' ELSE 'other' END FROM t;");
}

#[test]
fn case_nested() {
    let _ = parse_clean("SELECT CASE WHEN a > 0 THEN CASE WHEN a > 10 THEN 'big' ELSE 'small' END ELSE 'neg' END FROM t;");
}

#[test]
fn func_count_star() {
    let _ = parse_clean("SELECT COUNT(*) FROM t;");
}

#[test]
fn func_count_col() {
    let _ = parse_clean("SELECT COUNT(id) FROM t;");
}

#[test]
fn func_count_distinct() {
    let _ = parse_clean("SELECT COUNT(DISTINCT name) FROM t;");
}

#[test]
fn func_sum() {
    let _ = parse_clean("SELECT SUM(amount) FROM t;");
}

#[test]
fn func_avg() {
    let _ = parse_clean("SELECT AVG(price) FROM t;");
}

#[test]
fn func_min() {
    let _ = parse_clean("SELECT MIN(id) FROM t;");
}

#[test]
fn func_max() {
    let _ = parse_clean("SELECT MAX(id) FROM t;");
}

#[test]
fn func_no_args() {
    let _ = parse_clean("SELECT random();");
}

#[test]
fn func_multi_args() {
    let _ = parse_clean("SELECT COALESCE(a, b, c) FROM t;");
}

#[test]
fn func_nested() {
    let _ = parse_clean("SELECT MAX(ABS(x)) FROM t;");
}

#[test]
fn func_upper() {
    let _ = parse_clean("SELECT UPPER(name) FROM t;");
}

#[test]
fn func_substr() {
    let _ = parse_clean("SELECT SUBSTR(name, 1, 3) FROM t;");
}

#[test]
fn func_ifnull() {
    let _ = parse_clean("SELECT IFNULL(a, 0) FROM t;");
}

#[test]
fn func_in_where() {
    let _ = parse_clean("SELECT * FROM t WHERE LENGTH(name) > 5;");
}

#[test]
fn group_by_single() {
    let _ = parse_clean("SELECT name, COUNT(*) FROM t GROUP BY name;");
}

#[test]
fn group_by_multiple() {
    let _ = parse_clean("SELECT a, b, COUNT(*) FROM t GROUP BY a, b;");
}

#[test]
fn group_by_having() {
    let _ = parse_clean("SELECT name, COUNT(*) FROM t GROUP BY name HAVING COUNT(*) > 1;");
}

#[test]
fn group_by_expr() {
    let _ = parse_clean("SELECT SUBSTR(name, 1, 1), COUNT(*) FROM t GROUP BY SUBSTR(name, 1, 1);");
}

#[test]
fn order_by_single() {
    let _ = parse_clean("SELECT * FROM t ORDER BY id;");
}

#[test]
fn order_by_asc() {
    let _ = parse_clean("SELECT * FROM t ORDER BY id ASC;");
}

#[test]
fn order_by_desc() {
    let _ = parse_clean("SELECT * FROM t ORDER BY id DESC;");
}

#[test]
fn order_by_multiple() {
    let _ = parse_clean("SELECT * FROM t ORDER BY a ASC, b DESC;");
}

#[test]
fn order_by_collate() {
    let _ = parse_clean("SELECT * FROM t ORDER BY name COLLATE NOCASE;");
}

#[test]
fn order_by_nulls_first() {
    let _ = parse_clean("SELECT * FROM t ORDER BY name NULLS FIRST;");
}

#[test]
fn order_by_nulls_last() {
    let _ = parse_clean("SELECT * FROM t ORDER BY name ASC NULLS LAST;");
}

#[test]
fn order_by_expr() {
    let _ = parse_clean("SELECT * FROM t ORDER BY a + b;");
}

#[test]
fn limit_only() {
    let _ = parse_clean("SELECT * FROM t LIMIT 10;");
}

#[test]
fn limit_offset() {
    let _ = parse_clean("SELECT * FROM t LIMIT 10 OFFSET 20;");
}

#[test]
fn limit_comma_syntax() {
    let _ = parse_clean("SELECT * FROM t LIMIT 20, 10;");
}

#[test]
fn limit_expr() {
    let _ = parse_clean("SELECT * FROM t LIMIT 5 + 5;");
}

#[test]
fn select_subqueries_subquery_in_from() {
    let _ = parse_clean("SELECT * FROM (SELECT id, name FROM users) AS t;");
}

#[test]
fn subquery_in_where() {
    let _ = parse_clean("SELECT * FROM t WHERE id = (SELECT MAX(id) FROM t);");
}

#[test]
fn subquery_in_select() {
    let _ = parse_clean("SELECT (SELECT COUNT(*) FROM t) AS cnt;");
}

#[test]
fn subquery_exists() {
    let _ = parse_clean("SELECT * FROM t WHERE EXISTS (SELECT 1 FROM other WHERE other.tid = t.id);");
}

#[test]
fn subquery_in_select_list() {
    let _ = parse_clean("SELECT id, (SELECT name FROM users WHERE users.id = orders.uid) FROM orders;");
}

#[test]
fn correlated_subquery() {
    let _ = parse_clean("SELECT * FROM t1 WHERE t1.a > (SELECT AVG(t2.a) FROM t2 WHERE t2.b = t1.b);");
}

#[test]
fn cte_simple() {
    let _ = parse_clean("WITH t AS (SELECT 1 AS x) SELECT * FROM t;");
}

#[test]
fn cte_columns() {
    let _ = parse_clean("WITH t(a, b) AS (SELECT 1, 2) SELECT * FROM t;");
}

#[test]
fn cte_multiple() {
    let _ = parse_clean("WITH a AS (SELECT 1), b AS (SELECT 2) SELECT * FROM a, b;");
}

#[test]
fn cte_recursive() {
    let _ = parse_clean("WITH RECURSIVE cnt(x) AS (SELECT 1 UNION ALL SELECT x + 1 FROM cnt WHERE x < 10) SELECT x FROM cnt;");
}

#[test]
fn cte_materialized() {
    let _ = parse_clean("WITH t AS MATERIALIZED (SELECT 1) SELECT * FROM t;");
}

#[test]
fn cte_not_materialized() {
    let _ = parse_clean("WITH t AS NOT MATERIALIZED (SELECT 1) SELECT * FROM t;");
}

#[test]
fn union_basic() {
    let _ = parse_clean("SELECT 1 UNION SELECT 2;");
}

#[test]
fn union_all() {
    let _ = parse_clean("SELECT 1 UNION ALL SELECT 2;");
}

#[test]
fn intersect_basic() {
    let _ = parse_clean("SELECT 1 INTERSECT SELECT 1;");
}

#[test]
fn except_basic() {
    let _ = parse_clean("SELECT 1 EXCEPT SELECT 2;");
}

#[test]
fn union_multiple() {
    let _ = parse_clean("SELECT 1 UNION SELECT 2 UNION SELECT 3;");
}

#[test]
fn compound_with_order() {
    let _ = parse_clean("SELECT a FROM t1 UNION SELECT b FROM t2 ORDER BY 1;");
}

#[test]
fn compound_with_limit() {
    let _ = parse_clean("SELECT a FROM t1 UNION ALL SELECT b FROM t2 LIMIT 10;");
}

#[test]
fn values_single() {
    let _ = parse_clean("VALUES (1, 'a');");
}

#[test]
fn values_multiple() {
    let _ = parse_clean("VALUES (1, 'a'), (2, 'b'), (3, 'c');");
}

#[test]
fn values_in_cte() {
    let _ = parse_clean("WITH t(a, b) AS (VALUES (1, 'x'), (2, 'y')) SELECT * FROM t;");
}

#[test]
fn window_row_number() {
    let _ = parse_clean("SELECT row_number() OVER (ORDER BY id) FROM t;");
}

#[test]
fn window_partition() {
    let _ = parse_clean("SELECT SUM(amt) OVER (PARTITION BY cat) FROM t;");
}

#[test]
fn window_partition_order() {
    let _ = parse_clean("SELECT SUM(amt) OVER (PARTITION BY cat ORDER BY dt) FROM t;");
}

#[test]
fn window_named() {
    let _ = parse_clean("SELECT SUM(amt) OVER w FROM t WINDOW w AS (PARTITION BY cat ORDER BY dt);");
}

#[test]
fn window_multiple_named() {
    let _ = parse_clean("SELECT SUM(a) OVER w1, AVG(b) OVER w2 FROM t WINDOW w1 AS (ORDER BY a), w2 AS (ORDER BY b);");
}

#[test]
fn window_rows_frame() {
    let _ = parse_clean("SELECT SUM(a) OVER (ORDER BY id ROWS BETWEEN 1 PRECEDING AND 1 FOLLOWING) FROM t;");
}

#[test]
fn window_range_unbounded() {
    let _ = parse_clean("SELECT SUM(a) OVER (ORDER BY id RANGE BETWEEN UNBOUNDED PRECEDING AND CURRENT ROW) FROM t;");
}

#[test]
fn window_filter() {
    let _ = parse_clean("SELECT COUNT(*) FILTER (WHERE a > 0) OVER (ORDER BY id) FROM t;");
}

#[test]
fn window_rows_current() {
    let _ = parse_clean("SELECT AVG(x) OVER (ORDER BY id ROWS BETWEEN CURRENT ROW AND UNBOUNDED FOLLOWING) FROM t;");
}

#[test]
fn window_groups_frame() {
    let _ = parse_clean("SELECT SUM(x) OVER (ORDER BY id GROUPS BETWEEN 1 PRECEDING AND 1 FOLLOWING) FROM t;");
}

#[test]
fn bind_question() {
    let _ = parse_clean("SELECT * FROM t WHERE id = ?1;");
}

#[test]
fn bind_colon() {
    let _ = parse_clean("SELECT * FROM t WHERE id = :id;");
}

#[test]
fn bind_at() {
    let _ = parse_clean("SELECT * FROM t WHERE id = @id;");
}

#[test]
fn bind_dollar() {
    let _ = parse_clean("SELECT * FROM t WHERE id = $id;");
}

#[test]
fn bind_in_limit() {
    let _ = parse_clean("SELECT * FROM t LIMIT ?1 OFFSET ?2;");
}

#[test]
fn complex_kitchen_sink() {
    let _ = parse_clean("SELECT u.id, u.name, COUNT(o.id) AS order_count, SUM(o.total) AS total_spent FROM users u LEFT JOIN orders o ON u.id = o.user_id WHERE u.active = 1 AND o.date > '2024-01-01' GROUP BY u.id, u.name HAVING COUNT(o.id) > 0 ORDER BY total_spent DESC LIMIT 10;");
}

#[test]
fn complex_nested_subqueries() {
    let _ = parse_clean("SELECT * FROM (SELECT id, name FROM users WHERE id IN (SELECT user_id FROM orders WHERE total > 100)) AS big_spenders ORDER BY name;");
}

#[test]
fn complex_cte_with_join() {
    let _ = parse_clean("WITH active_users AS (SELECT * FROM users WHERE active = 1) SELECT au.name, COUNT(o.id) FROM active_users au JOIN orders o ON au.id = o.user_id GROUP BY au.name;");
}

#[test]
fn complex_recursive_cte() {
    let _ = parse_clean("WITH RECURSIVE tree(id, parent_id, depth) AS (SELECT id, parent_id, 0 FROM nodes WHERE parent_id IS NULL UNION ALL SELECT n.id, n.parent_id, t.depth + 1 FROM nodes n JOIN tree t ON n.parent_id = t.id) SELECT * FROM tree ORDER BY depth, id;");
}

#[test]
fn complex_window_analytics() {
    let _ = parse_clean("SELECT id, amount, SUM(amount) OVER (ORDER BY id ROWS BETWEEN UNBOUNDED PRECEDING AND CURRENT ROW) AS running_total, AVG(amount) OVER (ORDER BY id ROWS BETWEEN 2 PRECEDING AND 2 FOLLOWING) AS moving_avg FROM transactions;");
}

#[test]
fn complex_case_in_select() {
    let _ = parse_clean("SELECT id, CASE WHEN status = 1 THEN 'active' WHEN status = 2 THEN 'suspended' ELSE 'unknown' END AS status_text FROM users;");
}

#[test]
fn complex_multiple_unions() {
    let _ = parse_clean("SELECT 'users' AS source, COUNT(*) AS cnt FROM users UNION ALL SELECT 'orders', COUNT(*) FROM orders UNION ALL SELECT 'products', COUNT(*) FROM products ORDER BY cnt DESC;");
}

#[test]
fn complex_correlated_exists() {
    let _ = parse_clean("SELECT * FROM users u WHERE EXISTS (SELECT 1 FROM orders o WHERE o.user_id = u.id AND o.total > 1000) AND NOT EXISTS (SELECT 1 FROM bans b WHERE b.user_id = u.id);");
}

#[test]
fn complex_multi_join() {
    let _ = parse_clean("SELECT p.name, c.name AS category, SUM(oi.quantity) AS total_sold FROM products p INNER JOIN categories c ON p.category_id = c.id LEFT JOIN order_items oi ON p.id = oi.product_id GROUP BY p.name, c.name ORDER BY total_sold DESC NULLS LAST LIMIT 20 OFFSET 0;");
}

#[test]
fn explain_select() {
    let _ = parse_clean("EXPLAIN SELECT * FROM users;");
}

#[test]
fn explain_query_plan_select() {
    let _ = parse_clean("EXPLAIN QUERY PLAN SELECT * FROM users WHERE id > 5;");
}

#[test]
fn simple() {
    let _ = parse_clean("CREATE TABLE users (id INTEGER PRIMARY KEY, name TEXT NOT NULL);");
}

#[test]
fn if_not_exists() {
    let _ = parse_clean("CREATE TABLE IF NOT EXISTS users (id INTEGER, name TEXT);");
}

#[test]
fn temp() {
    let _ = parse_clean("CREATE TEMP TABLE tmp (val TEXT);");
}

#[test]
fn temporary() {
    let _ = parse_clean("CREATE TEMPORARY TABLE tmp (val TEXT);");
}

#[test]
fn multiple_columns() {
    let _ = parse_clean("CREATE TABLE t (a INTEGER, b TEXT, c REAL, d BLOB);");
}

#[test]
fn with_constraints() {
    let _ = parse_clean("CREATE TABLE t (id INTEGER PRIMARY KEY AUTOINCREMENT, name TEXT UNIQUE NOT NULL);");
}

#[test]
fn with_default() {
    let _ = parse_clean("CREATE TABLE t (id INTEGER, status TEXT DEFAULT 'active');");
}

#[test]
fn with_foreign_key() {
    let _ = parse_clean("CREATE TABLE orders (id INTEGER, user_id INTEGER REFERENCES users(id));");
}

#[test]
fn schema_qualified() {
    let _ = parse_clean("CREATE TABLE main.users (id INTEGER);");
}

#[test]
fn without_rowid() {
    let _ = parse_clean("CREATE TABLE t (id INTEGER PRIMARY KEY) WITHOUT ROWID;");
}

#[test]
fn multiple_tables() {
    let _ = parse_clean("CREATE TABLE a (id INTEGER); CREATE TABLE b (id INTEGER);");
}

#[test]
fn create_as_select() {
    let _ = parse_clean("CREATE TABLE archive AS SELECT * FROM users;");
}

#[test]
fn simple_values() {
    let _ = parse_clean("INSERT INTO users VALUES (1, 'Alice');");
}

#[test]
fn with_columns() {
    let _ = parse_clean("INSERT INTO users (name, email) VALUES ('Alice', 'alice@example.com');");
}

#[test]
fn multiple_rows() {
    let _ = parse_clean("INSERT INTO users VALUES (1, 'Alice'), (2, 'Bob');");
}

#[test]
fn or_replace() {
    let _ = parse_clean("INSERT OR REPLACE INTO users VALUES (1, 'Alice');");
}

#[test]
fn or_ignore() {
    let _ = parse_clean("INSERT OR IGNORE INTO users VALUES (1, 'Alice');");
}

#[test]
fn or_abort() {
    let _ = parse_clean("INSERT OR ABORT INTO users VALUES (1, 'Alice');");
}

#[test]
fn or_rollback() {
    let _ = parse_clean("INSERT OR ROLLBACK INTO users VALUES (1, 'Alice');");
}

#[test]
fn or_fail() {
    let _ = parse_clean("INSERT OR FAIL INTO users VALUES (1, 'Alice');");
}

#[test]
fn replace_shorthand() {
    let _ = parse_clean("REPLACE INTO users VALUES (1, 'Alice');");
}

#[test]
fn default_values() {
    let _ = parse_clean("INSERT INTO users DEFAULT VALUES;");
}

#[test]
fn insert_select() {
    let _ = parse_clean("INSERT INTO archive SELECT * FROM users;");
}

#[test]
fn insert_basic_schema_qualified() {
    let _ = parse_clean("INSERT INTO main.users VALUES (1, 'Alice');");
}

#[test]
fn with_expressions() {
    let _ = parse_clean("INSERT INTO t VALUES (1 + 2, 'hello' || ' world');");
}

#[test]
fn update_basic_simple() {
    let _ = parse_clean("UPDATE users SET name = 'Bob';");
}

#[test]
fn with_where() {
    let _ = parse_clean("UPDATE users SET name = 'Bob' WHERE id = 1;");
}

#[test]
fn multiple_set() {
    let _ = parse_clean("UPDATE users SET name = 'Bob', email = 'bob@example.com' WHERE id = 1;");
}

#[test]
fn update_basic_or_replace() {
    let _ = parse_clean("UPDATE OR REPLACE users SET name = 'Bob';");
}

#[test]
fn update_basic_or_ignore() {
    let _ = parse_clean("UPDATE OR IGNORE users SET name = 'Bob';");
}

#[test]
fn update_basic_schema_qualified() {
    let _ = parse_clean("UPDATE main.users SET name = 'Bob';");
}

#[test]
fn with_alias() {
    let _ = parse_clean("UPDATE users AS u SET name = 'Bob' WHERE u.id = 1;");
}

#[test]
fn with_expression() {
    let _ = parse_clean("UPDATE inventory SET qty = qty - 1 WHERE product_id = 42;");
}

#[test]
fn delete_basic_simple() {
    let _ = parse_clean("DELETE FROM users;");
}

#[test]
fn delete_basic_with_where() {
    let _ = parse_clean("DELETE FROM users WHERE id = 1;");
}

#[test]
fn delete_basic_schema_qualified() {
    let _ = parse_clean("DELETE FROM main.users WHERE id = 1;");
}

#[test]
fn complex_where() {
    let _ = parse_clean("DELETE FROM log WHERE created_at < '2024-01-01' AND level = 'debug';");
}

#[test]
fn create_no_table_name() {
    assert!(!parse_diagnostics("CREATE TABLE;").is_empty());
}

#[test]
fn create_no_columns() {
    assert!(!parse_diagnostics("CREATE TABLE t;").is_empty());
}

#[test]
fn create_no_paren() {
    assert!(!parse_diagnostics("CREATE TABLE t id INTEGER;").is_empty());
}

#[test]
fn insert_no_into() {
    assert!(!parse_diagnostics("INSERT VALUES (1);").is_empty());
}

#[test]
fn insert_no_table() {
    assert!(!parse_diagnostics("INSERT INTO;").is_empty());
}

#[test]
fn insert_no_values() {
    assert!(!parse_diagnostics("INSERT INTO t;").is_empty());
}

#[test]
fn update_no_table() {
    assert!(!parse_diagnostics("UPDATE;").is_empty());
}

#[test]
fn update_no_set() {
    assert!(!parse_diagnostics("UPDATE t;").is_empty());
}

#[test]
fn update_set_no_col() {
    assert!(!parse_diagnostics("UPDATE t SET;").is_empty());
}

#[test]
fn delete_no_from() {
    assert!(!parse_diagnostics("DELETE;").is_empty());
}

#[test]
fn delete_no_table() {
    assert!(!parse_diagnostics("DELETE FROM;").is_empty());
}

#[test]
fn eof_semi() {
    assert!(!parse_diagnostics(";").is_empty());
}

#[test]
fn eof_literal() {
    assert!(!parse_diagnostics("'str'").is_empty());
}

#[test]
fn alter_no_table() {
    assert!(!parse_diagnostics("ALTER;").is_empty());
}

#[test]
fn alter_no_name() {
    assert!(!parse_diagnostics("ALTER TABLE;").is_empty());
}

#[test]
fn commit_no_semicolon() {
    assert!(!parse_diagnostics("COMMIT").is_empty());
}

#[test]
fn end_no_semicolon() {
    assert!(!parse_diagnostics("END").is_empty());
}

#[test]
fn rollback_no_semicolon() {
    assert!(!parse_diagnostics("ROLLBACK").is_empty());
}

#[test]
fn rollback_to_savepoint_no_name() {
    assert!(!parse_diagnostics("ROLLBACK TO SAVEPOINT").is_empty());
}

#[test]
fn begin_no_semicolon() {
    assert!(!parse_diagnostics("BEGIN").is_empty());
}

#[test]
fn begin_invalid_modifiers() {
    assert!(!parse_diagnostics("BEGIN DEFERRED IMMEDIATE EXCLUSIVE EXCLUSIVE;").is_empty());
}

#[test]
fn detach_no_name() {
    assert!(!parse_diagnostics("DETACH;").is_empty());
}

#[test]
fn detach_invalid_literal() {
    assert!(!parse_diagnostics("DETACH 'bad';").is_empty());
}

#[test]
fn drop_no_object() {
    assert!(!parse_diagnostics("DROP TABLE;").is_empty());
}

#[test]
fn drop_invalid_object() {
    assert!(!parse_diagnostics("DROP INDEX 5;").is_empty());
}

#[test]
fn savepoint_no_name() {
    assert!(!parse_diagnostics("SAVEPOINT;").is_empty());
}

#[test]
fn release_no_name() {
    assert!(!parse_diagnostics("RELEASE;").is_empty());
}

#[test]
fn reindex_no_name() {
    assert!(!parse_diagnostics("REINDEX").is_empty());
}

#[test]
fn reindex_invalid_literal() {
    assert!(!parse_diagnostics("REINDEX 25;").is_empty());
}

#[test]
fn vacuum_no_semicolon() {
    assert!(!parse_diagnostics("VACUUM").is_empty());
}

#[test]
fn vacuum_invalid_combined() {
    assert!(!parse_diagnostics("VACUUM 5 INTO 5;").is_empty());
}

#[test]
fn select_no_columns() {
    assert!(!parse_diagnostics("SELECT;").is_empty());
}

#[test]
fn select_no_semicolon() {
    assert!(!parse_diagnostics("SELECT 1").is_empty());
}

#[test]
fn select_where_no_expr() {
    assert!(!parse_diagnostics("SELECT * FROM t WHERE;").is_empty());
}

#[test]
fn select_from_no_table() {
    assert!(!parse_diagnostics("SELECT * FROM;").is_empty());
}

#[test]
fn select_group_by_no_expr() {
    assert!(!parse_diagnostics("SELECT * FROM t GROUP BY;").is_empty());
}

#[test]
fn select_order_by_no_expr() {
    assert!(!parse_diagnostics("SELECT * FROM t ORDER BY;").is_empty());
}

#[test]
fn select_limit_no_expr() {
    assert!(!parse_diagnostics("SELECT * FROM t LIMIT;").is_empty());
}

#[test]
fn select_join_no_table() {
    assert!(!parse_diagnostics("SELECT * FROM a JOIN;").is_empty());
}

#[test]
fn select_join_on_no_expr() {
    assert!(!parse_diagnostics("SELECT * FROM a JOIN b ON;").is_empty());
}

#[test]
fn select_bad_cte() {
    assert!(!parse_diagnostics("WITH AS (SELECT 1) SELECT 1;").is_empty());
}

#[test]
fn select_unclosed_paren() {
    assert!(!parse_diagnostics("SELECT (1 + 2;").is_empty());
}

#[test]
fn select_bad_between() {
    assert!(!parse_diagnostics("SELECT * FROM t WHERE x BETWEEN;").is_empty());
}

#[test]
fn select_bad_in() {
    assert!(!parse_diagnostics("SELECT * FROM t WHERE x IN;").is_empty());
}

#[test]
fn select_bad_cast() {
    assert!(!parse_diagnostics("SELECT CAST(1;").is_empty());
}

#[test]
fn select_bad_case() {
    assert!(!parse_diagnostics("SELECT CASE WHEN THEN 1 END;").is_empty());
}
