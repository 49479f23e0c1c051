use sqleibniz::lexer::Lexer;
use sqleibniz::nodes::{
    ColumnConstraint, ForeignKeyAction, JoinType, PragmaInvocation, ResultColumn, SchemaTableContainer,
    SqlExpr, Stmt, TableSource,
};
use sqleibniz::parser::Parser;
use sqleibniz::types::{Keyword, Rule, SqliteStorageClass, Type};

/// Lexes and parses `input`, asserting there is no diagnostic.
fn parse_ok(input: &str) -> Vec<Stmt> {
    let bytes = input.as_bytes().to_vec();
    let mut l = Lexer::new(&bytes, "parser_test_pass");
    let toks = l.run();
    assert_eq!(l.errors.len(), 0, "lexer errors: {:?}", l.errors);
    let mut parser = Parser::new(toks, "parser_test_pass");
    let ast = parser.parse();
    assert_eq!(parser.errors.len(), 0, "parser errors: {:?}", parser.errors);
    ast
}

/// Lexes and parses `input` and gives the parser's diagnostics' rules.
fn parse_rules(input: &str) -> Vec<Rule> {
    let bytes = input.as_bytes().to_vec();
    let mut l = Lexer::new(&bytes, "parser_test_fail");
    let toks = l.run();
    let mut parser = Parser::new(toks, "parser_test_fail");
    let _ = parser.parse();
    parser.errors.iter().map(|e| e.rule).collect()
}

#[test]
fn expect_instruction_skips_a_statement() {
    let ast = parse_ok("\n-- @sqleibniz::expect\nVACUUM 25;\n-- the above is skipped\nEXPLAIN VACUUM;\n");
    assert_eq!(ast.len(), 1);
    match &ast[0] {
        Stmt::Explain { child, .. } => {
            assert!(matches!(**child, Stmt::Vacuum { schema_name: None, filename: None, .. }))
        },
        other => panic!("unexpected {:?}", other),
    }
    let ast = parse_ok("-- @sqleibniz::expect lets skip this error;;;;;;;;\nVACUUM 25;\nEXPLAIN VACUUM;");
    assert_eq!(ast.len(), 1);
}

#[test]
fn explain_query_plan() {
    let ast = parse_ok("EXPLAIN QUERY PLAN VACUUM;");
    assert_eq!(ast.len(), 1);
    match &ast[0] {
        Stmt::Explain { t, child } => {
            assert_eq!(t.ttype, Type::Keyword(Keyword::EXPLAIN));
            match &**child {
                Stmt::Vacuum { t, schema_name: None, filename: None } => {
                    assert_eq!(t.ttype, Type::Keyword(Keyword::VACUUM))
                },
                other => panic!("unexpected {:?}", other),
            }
        },
        other => panic!("unexpected {:?}", other),
    }
}

/// The kind of a column reference's token and its parts.
fn column_ref(e: &SqlExpr) -> (Option<String>, Option<String>, String) {
    match e {
        SqlExpr::ColumnRef { schema, table, column, .. } => (schema.clone(), table.clone(), column.clone()),
        other => panic!("not a column reference: {:?}", other),
    }
}

/// The number a literal holds.
fn number_text(e: &SqlExpr) -> String {
    match e {
        SqlExpr::Literal(t) => match &t.ttype {
            Type::Number(n) => n.clone(),
            other => panic!("not a number: {:?}", other),
        },
        other => panic!("not a literal: {:?}", other),
    }
}

#[test]
fn select_mixed_cols_tree() {
    let ast = parse_ok("SELECT id, name AS n, t.*, *;");
    match &ast[0] {
        Stmt::Select(s) => {
            let cols = &s.body.first.columns;
            assert_eq!(cols.len(), 4);
            match &cols[0] {
                ResultColumn::Expr { expr, alias: None } => {
                    assert_eq!(column_ref(expr), (None, None, String::from("id")))
                },
                other => panic!("unexpected {:?}", other),
            }
            match &cols[1] {
                ResultColumn::Expr { expr, alias: Some(a) } => {
                    assert_eq!(column_ref(expr), (None, None, String::from("name")));
                    assert_eq!(a, "n");
                },
                other => panic!("unexpected {:?}", other),
            }
            assert_eq!(cols[2], ResultColumn::TableStar(String::from("t")));
            assert_eq!(cols[3], ResultColumn::Star);
        },
        other => panic!("unexpected {:?}", other),
    }
}

#[test]
fn from_schema_table_func_tree() {
    let ast = parse_ok("SELECT * FROM main.json_each('[]');");
    match &ast[0] {
        Stmt::Select(s) => {
            let from = s.body.first.from.as_ref().unwrap();
            assert!(from.joins.is_empty());
            assert_eq!(from.first.alias, None);
            assert_eq!(from.first.indexed, None);
            match &from.first.source {
                TableSource::TableFunction { schema, name, args } => {
                    assert_eq!(schema.as_deref(), Some("main"));
                    assert_eq!(name, "json_each");
                    assert_eq!(args.len(), 1);
                    match &args[0] {
                        SqlExpr::Literal(t) => assert_eq!(t.ttype, Type::String(String::from("[]"))),
                        other => panic!("unexpected {:?}", other),
                    }
                },
                other => panic!("unexpected {:?}", other),
            }
        },
        other => panic!("unexpected {:?}", other),
    }
}

#[test]
fn natural_left_join_tree() {
    let ast = parse_ok("SELECT * FROM a NATURAL LEFT JOIN b;");
    match &ast[0] {
        Stmt::Select(s) => {
            let from = s.body.first.from.as_ref().unwrap();
            assert_eq!(from.first.source, TableSource::Table { schema: None, name: String::from("a") });
            assert_eq!(from.first.alias, None);
            assert_eq!(from.joins.len(), 1);
            let j = &from.joins[0];
            assert!(j.natural);
            assert_eq!(j.join_type, JoinType::Left);
            assert_eq!(j.table.source, TableSource::Table { schema: None, name: String::from("b") });
            assert_eq!(j.constraint, None);
        },
        other => panic!("unexpected {:?}", other),
    }
}

#[test]
fn where_not_between_tree() {
    let ast = parse_ok("SELECT * FROM t WHERE id NOT BETWEEN 1 AND 10;");
    match &ast[0] {
        Stmt::Select(s) => match s.body.first.where_clause.as_ref().unwrap() {
            SqlExpr::Between { expr, negated, low, high } => {
                assert_eq!(column_ref(expr), (None, None, String::from("id")));
                assert!(*negated);
                assert_eq!(number_text(low), "1");
                assert_eq!(number_text(high), "10");
            },
            other => panic!("unexpected {:?}", other),
        },
        other => panic!("unexpected {:?}", other),
    }
}

#[test]
fn limit_with_comma_swaps_offset() {
    let ast = parse_ok("SELECT * FROM t LIMIT 20, 10;");
    match &ast[0] {
        Stmt::Select(s) => {
            assert_eq!(number_text(s.limit.as_ref().unwrap()), "10");
            assert_eq!(number_text(s.offset.as_ref().unwrap()), "20");
        },
        other => panic!("unexpected {:?}", other),
    }
}

#[test]
fn qualified_column_refs() {
    let ast = parse_ok("SELECT s.t.c, t.c FROM t;");
    match &ast[0] {
        Stmt::Select(s) => {
            match &s.body.first.columns[0] {
                ResultColumn::Expr { expr, .. } => assert_eq!(
                    column_ref(expr),
                    (Some(String::from("s")), Some(String::from("t")), String::from("c"))
                ),
                other => panic!("unexpected {:?}", other),
            }
            match &s.body.first.columns[1] {
                ResultColumn::Expr { expr, .. } => {
                    assert_eq!(column_ref(expr), (None, Some(String::from("t")), String::from("c")))
                },
                other => panic!("unexpected {:?}", other),
            }
        },
        other => panic!("unexpected {:?}", other),
    }
}

/// Lexes and parses `input` and gives the statements and the parser's diagnostics.
fn parse_all(input: &str) -> (Vec<Stmt>, Vec<sqleibniz::error::Error>) {
    let bytes = input.as_bytes().to_vec();
    let mut l = Lexer::new(&bytes, "parser_test_fail");
    let toks = l.run();
    let mut parser = Parser::new(toks, "parser_test_fail");
    let ast = parser.parse();
    (ast, parser.errors)
}

#[test]
fn lone_semicolon_is_an_unexpected_token() {
    let (ast, errors) = parse_all(";");
    assert!(ast.is_empty());
    assert_eq!(errors[0].msg, "Unexpected Token");
    assert_eq!(errors[0].rule, Rule::Syntax);
}

#[test]
fn select_without_columns_is_an_expression_error() {
    let (ast, errors) = parse_all("SELECT;");
    assert!(ast.is_empty());
    assert_eq!(errors[0].msg, "Unexpected Token in expression");
}

#[test]
fn trailing_comma_keeps_the_statement() {
    let (ast, errors) = parse_all("SELECT a, FROM t;");
    assert_eq!(ast.len(), 1);
    assert_eq!(errors.len(), 1);
    assert_eq!(errors[0].rule, Rule::TrailingComma);
    assert_eq!(errors[0].suggestion.as_ref().unwrap().replacement, "");
    match &ast[0] {
        Stmt::Select(s) => {
            assert_eq!(s.body.first.columns.len(), 1);
            match &s.body.first.columns[0] {
                ResultColumn::Expr { expr, alias: None } => {
                    assert_eq!(column_ref(expr), (None, None, String::from("a")))
                },
                other => panic!("unexpected {:?}", other),
            }
            assert_eq!(
                s.body.first.from.as_ref().unwrap().first.source,
                TableSource::Table { schema: None, name: String::from("t") }
            );
        },
        other => panic!("unexpected {:?}", other),
    }
}

#[test]
fn vacuum_paths() {
    let ast = parse_ok("VACUUM schema_name INTO 'filename';");
    match &ast[0] {
        Stmt::Vacuum { schema_name: Some(s), filename: Some(f), .. } => {
            assert_eq!(s.ttype, Type::Ident(String::from("schema_name")));
            assert_eq!(f.ttype, Type::String(String::from("filename")));
        },
        other => panic!("unexpected {:?}", other),
    }
}

#[test]
fn transactions() {
    assert!(matches!(parse_ok("BEGIN;")[0], Stmt::Begin { transaction_kind: None, .. }));
    assert!(matches!(
        parse_ok("BEGIN IMMEDIATE TRANSACTION;")[0],
        Stmt::Begin { transaction_kind: Some(Keyword::IMMEDIATE), .. }
    ));
    assert!(matches!(parse_ok("END TRANSACTION;")[0], Stmt::Commit { .. }));
    match &parse_ok("ROLLBACK TRANSACTION TO SAVEPOINT save_point;")[0] {
        Stmt::Rollback { save_point: Some(p), .. } => assert_eq!(p, "save_point"),
        other => panic!("unexpected {:?}", other),
    }
}

#[test]
fn drop_analyze_reindex() {
    match &parse_ok("DROP TABLE IF EXISTS schema_name.table_name;")[0] {
        Stmt::Drop { ttype, if_exists, argument, .. } => {
            assert_eq!(*ttype, Keyword::TABLE);
            assert!(*if_exists);
            assert_eq!(
                *argument,
                SchemaTableContainer::SchemaAndTable {
                    schema: String::from("schema_name"),
                    table: String::from("table_name")
                }
            );
        },
        other => panic!("unexpected {:?}", other),
    }
    assert!(matches!(parse_ok("ANALYZE;")[0], Stmt::Analyze { target: None, .. }));
    assert!(matches!(parse_ok("REINDEX collation_name;")[0], Stmt::Reindex { target: Some(_), .. }));
}

#[test]
fn attach_and_pragma() {
    match &parse_ok("ATTACH DATABASE 'database.db' AS db;")[0] {
        Stmt::Attach { schema_name, expr, .. } => {
            assert_eq!(schema_name, "db");
            assert_eq!(expr.literal.as_ref().unwrap().ttype, Type::String(String::from("database.db")));
        },
        other => panic!("unexpected {:?}", other),
    }
    match &parse_ok("PRAGMA schema.cache_size = 5;")[0] {
        Stmt::Pragma { invocation: PragmaInvocation::Assign { value }, .. } => {
            assert_eq!(value.ttype, Type::Number(String::from("5")))
        },
        other => panic!("unexpected {:?}", other),
    }
    assert!(matches!(
        parse_ok("PRAGMA database_list;")[0],
        Stmt::Pragma { invocation: PragmaInvocation::Query, .. }
    ));
    assert!(matches!(
        parse_ok("PRAGMA schema.optimize(0xfffe);")[0],
        Stmt::Pragma { invocation: PragmaInvocation::Call { .. }, .. }
    ));
}

#[test]
fn alter_add_column_with_constraints() {
    let ast = parse_ok(
        "ALTER TABLE schema.table_name ADD COLUMN column_name TEXT PRIMARY KEY DESC ON CONFLICT REPLACE AUTOINCREMENT;",
    );
    match &ast[0] {
        Stmt::Alter(a) => {
            let col = a.add_column.as_ref().unwrap();
            assert_eq!(col.name, "column_name");
            assert_eq!(col.storage_class, Some(SqliteStorageClass::Text));
            assert_eq!(
                col.constraints,
                vec![ColumnConstraint::PrimaryKey {
                    asc_desc: Some(Keyword::DESC),
                    on_conflict: Some(Keyword::REPLACE),
                    autoincrement: true
                }]
            );
        },
        other => panic!("unexpected {:?}", other),
    }
}

#[test]
fn alter_foreign_key() {
    let ast = parse_ok(
        "ALTER TABLE t ADD COLUMN c TEXT REFERENCES foreign_table ON DELETE SET NULL;",
    );
    match &ast[0] {
        Stmt::Alter(a) => match &a.add_column.as_ref().unwrap().constraints[0] {
            ColumnConstraint::ForeignKey(fk) => {
                assert_eq!(fk.foreign_table, "foreign_table");
                assert_eq!(fk.on_delete, Some(ForeignKeyAction::SetNull));
                assert!(!fk.deferrable);
            },
            other => panic!("unexpected {:?}", other),
        },
        other => panic!("unexpected {:?}", other),
    }
}

#[test]
fn alter_generated_column() {
    let ast = parse_ok("ALTER TABLE t ADD COLUMN c TEXT GENERATED ALWAYS AS ('literal') STORED;");
    match &ast[0] {
        Stmt::Alter(a) => assert!(matches!(
            a.add_column.as_ref().unwrap().constraints[0],
            ColumnConstraint::Generated { stored_virtual: Some(Keyword::STORED), .. }
        )),
        other => panic!("unexpected {:?}", other),
    }
}

#[test]
fn select_with_everything() {
    let ast = parse_ok(
        "WITH recent AS (SELECT id FROM orders WHERE total > 10) \
         SELECT DISTINCT u.name, count(*) AS n FROM users u LEFT JOIN recent r ON r.id = u.id \
         WHERE u.name LIKE 'a%' AND u.id BETWEEN 1 AND 10 GROUP BY u.name HAVING n > 1 \
         ORDER BY n DESC NULLS LAST LIMIT 5 OFFSET 2;",
    );
    match &ast[0] {
        Stmt::Select(s) => {
            assert_eq!(s.ctes.len(), 1);
            assert_eq!(s.body.first.columns.len(), 2);
            assert_eq!(s.body.first.from.as_ref().unwrap().joins.len(), 1);
            assert!(s.limit.is_some() && s.offset.is_some());
            assert_eq!(s.order_by.len(), 1);
        },
        other => panic!("unexpected {:?}", other),
    }
}

#[test]
fn expressions_by_precedence() {
    let ast = parse_ok("SELECT 1 + 2 * 3;");
    match &ast[0] {
        Stmt::Select(s) => match &s.body.first.columns[0] {
            sqleibniz::nodes::ResultColumn::Expr { expr: SqlExpr::BinaryOp { op, right, .. }, .. } => {
                assert_eq!(op.ttype, Type::Plus);
                assert!(matches!(**right, SqlExpr::BinaryOp { .. }));
            },
            other => panic!("unexpected {:?}", other),
        },
        other => panic!("unexpected {:?}", other),
    }
}

#[test]
fn insert_update_delete_create() {
    assert!(matches!(parse_ok("CREATE TABLE t (a INTEGER, b TEXT);")[0], Stmt::CreateTable(_)));
    assert!(matches!(parse_ok("INSERT INTO t (a, b) VALUES (1, 'x'), (2, 'y');")[0], Stmt::Insert(_)));
    assert!(matches!(parse_ok("UPDATE t SET a = 1 WHERE b = 'x';")[0], Stmt::Update(_)));
    assert!(matches!(parse_ok("DELETE FROM t WHERE a = 1;")[0], Stmt::Delete(_)));
    assert!(matches!(parse_ok("REPLACE INTO t VALUES (1, 'x');")[0], Stmt::Insert(_)));
}

#[test]
fn create_table_skips_table_constraints() {
    match &parse_ok("CREATE TABLE t (a INTEGER, b TEXT, PRIMARY KEY (a, b), UNIQUE (b)) WITHOUT ROWID;")[0] {
        Stmt::CreateTable(c) => {
            assert_eq!(c.name, "t");
            assert_eq!(c.columns.len(), 2);
        },
        other => panic!("unexpected {:?}", other),
    }
}

#[test]
fn missing_semicolon_is_reported() {
    let rules = parse_rules("VACUUM");
    assert_eq!(rules.last(), Some(&Rule::Semicolon));
    assert_eq!(parse_rules("VACUUM;"), Vec::<Rule>::new());
}

#[test]
fn trailing_comma_is_reported() {
    assert!(parse_rules("SELECT a, FROM t;").contains(&Rule::TrailingComma));
}

#[test]
fn unknown_keyword_gets_a_hint() {
    let bytes = "SELEC * FROM t;".as_bytes().to_vec();
    let mut l = Lexer::new(&bytes, "hint");
    let toks = l.run();
    let mut p = Parser::new(toks, "hint");
    let _ = p.parse();
    let e = &p.errors[0];
    assert_eq!(e.rule, Rule::UnknownKeyword);
    let s = e.suggestion.as_ref().unwrap();
    assert_eq!(s.replacement, "SELECT");
    assert!(e.note.contains("SELECT"));
}

#[test]
fn non_canonical_type_is_a_quirk() {
    let rules = parse_rules("CREATE TABLE t (a VARCHAR, b);");
    assert_eq!(rules, vec![Rule::Quirk, Rule::Quirk]);
}

#[test]
fn literal_cannot_start_a_statement() {
    assert_eq!(parse_rules("'text';"), vec![Rule::Syntax]);
    assert_eq!(parse_rules(";"), vec![Rule::Syntax, Rule::Semicolon]);
}

#[test]
fn empty_input_parses_to_nothing() {
    let mut p = Parser::new(Vec::new(), "empty");
    assert!(p.parse().is_empty());
    assert!(p.errors.is_empty());
}

#[test]
fn diagnostics_point_into_the_input() {
    let bytes = "SELECT FROM;\nDROP x;".as_bytes().to_vec();
    let mut l = Lexer::new(&bytes, "places");
    let toks = l.run();
    let places: Vec<(usize, usize, usize)> = toks.iter().map(|t| (t.line, t.start, t.end)).collect();
    let mut p = Parser::new(toks, "places");
    let _ = p.parse();
    assert!(!p.errors.is_empty());
    for e in &p.errors {
        assert_eq!(e.file, "places");
        assert!(places.contains(&(e.line, e.start, e.end)) || (e.line, e.start, e.end) == (0, 0, 0));
    }
}

#[test]
fn unsupported_create_is_unimplemented() {
    assert_eq!(parse_rules("CREATE INDEX i ON t (a);"), vec![Rule::Unimplemented]);
}

#[test]
fn clean_parse_starts_with_the_first_keyword() {
    let ast = parse_ok("DELETE FROM t WHERE a = 1; SELECT 1;");
    assert_eq!(ast.len(), 2);
    assert!(matches!(ast[0], Stmt::Delete(_)));
    assert!(matches!(ast[1], Stmt::Select(_)));
}

#[test]
fn simple_equality_shape() {
    let ast = parse_ok("SELECT * FROM t WHERE name = NULL;");
    match &ast[0] {
        Stmt::Select(s) => match s.body.first.where_clause.as_ref().unwrap() {
            SqlExpr::BinaryOp { left, op, right } => {
                assert!(matches!(**left, SqlExpr::ColumnRef { ref column, .. } if column == "name"));
                assert_eq!(op.ttype, Type::Equal);
                assert!(matches!(**right, SqlExpr::Literal(ref t) if t.ttype == Type::Keyword(Keyword::NULL)));
            },
            other => panic!("unexpected {:?}", other),
        },
        other => panic!("unexpected {:?}", other),
    }
}

#[test]
fn unknown_leading_word_gets_the_closest_keyword() {
    let (ast, errors) = parse_all("SELEC * FROM t;");
    assert!(ast.is_empty());
    assert_eq!(errors[0].rule, Rule::UnknownKeyword);
    assert_eq!(errors[0].suggestion.as_ref().unwrap().replacement, "SELECT");
}

#[test]
fn plain_statements_one_each() {
    let ast = parse_ok("VACUUM; BEGIN DEFERRED TRANSACTION; COMMIT; ROLLBACK TRANSACTION; END;");
    assert_eq!(ast.len(), 5);
}

#[test]
fn plain_insert_tree() {
    let ast = parse_ok("INSERT INTO t (a, b) VALUES (1, 'x');");
    match &ast[0] {
        Stmt::Insert(i) => {
            assert_eq!(i.table, "t");
            assert_eq!(i.columns, vec![String::from("a"), String::from("b")]);
            assert_eq!(i.values.len(), 1);
            assert_eq!(number_text(&i.values[0][0]), "1");
            match &i.values[0][1] {
                SqlExpr::Literal(t) => assert_eq!(t.ttype, Type::String(String::from("x"))),
                other => panic!("unexpected {:?}", other),
            }
            assert!(i.select.is_none() && !i.default_values);
        },
        other => panic!("unexpected {:?}", other),
    }
}

#[test]
fn plain_update_tree() {
    let ast = parse_ok("UPDATE t SET a = 1 WHERE b = 2;");
    match &ast[0] {
        Stmt::Update(u) => {
            assert_eq!(u.table, "t");
            assert_eq!(u.alias, None);
            assert_eq!(u.set_clauses.len(), 1);
            assert_eq!(u.set_clauses[0].column, "a");
            assert_eq!(number_text(&u.set_clauses[0].expr), "1");
            match u.where_clause.as_ref().unwrap() {
                SqlExpr::BinaryOp { left, op, right } => {
                    assert_eq!(column_ref(left), (None, None, String::from("b")));
                    assert_eq!(op.ttype, Type::Equal);
                    assert_eq!(number_text(right), "2");
                },
                other => panic!("unexpected {:?}", other),
            }
        },
        other => panic!("unexpected {:?}", other),
    }
}

#[test]
fn delete_keeps_its_where() {
    let ast = parse_ok("DELETE FROM t WHERE a = 1;");
    match &ast[0] {
        Stmt::Delete(d) => assert!(matches!(d.where_clause, Some(SqlExpr::BinaryOp { .. }))),
        other => panic!("unexpected {:?}", other),
    }
}

#[test]
fn plain_create_table_columns() {
    let ast = parse_ok("CREATE TABLE t (a INTEGER, b TEXT);");
    match &ast[0] {
        Stmt::CreateTable(c) => {
            assert_eq!(c.name, "t");
            assert_eq!(c.columns.len(), 2);
            assert_eq!(c.columns[0].name, "a");
            assert_eq!(c.columns[0].storage_class, Some(SqliteStorageClass::Integer));
            assert_eq!(c.columns[1].name, "b");
            assert_eq!(c.columns[1].storage_class, Some(SqliteStorageClass::Text));
        },
        other => panic!("unexpected {:?}", other),
    }
}

#[test]
fn plain_statement_list_counts() {
    let ast = parse_ok(
        "SELECT a FROM t WHERE a = 1; INSERT INTO t (a) VALUES (1); UPDATE t SET a = 2; \
         DELETE FROM t; CREATE TABLE u (x TEXT);",
    );
    assert_eq!(ast.len(), 5);
    assert!(matches!(ast[0], Stmt::Select(_)));
    assert!(matches!(ast[1], Stmt::Insert(_)));
    assert!(matches!(ast[2], Stmt::Update(_)));
    assert!(matches!(ast[3], Stmt::Delete(_)));
    assert!(matches!(ast[4], Stmt::CreateTable(_)));
}

/// The WHERE clause of the first core of the single SELECT that `input` parses to.
fn where_of(input: &str) -> SqlExpr {
    let mut ast = parse_ok(input);
    assert_eq!(ast.len(), 1);
    match ast.remove(0) {
        Stmt::Select(s) => s.body.first.where_clause.unwrap(),
        other => panic!("unexpected {:?}", other),
    }
}

#[test]
fn negated_predicates_keep_their_negation() {
    match where_of("SELECT * FROM t WHERE id NOT IN (1, 2);") {
        SqlExpr::InList { expr, negated, values } => {
            assert!(negated);
            assert_eq!(column_ref(&expr), (None, None, String::from("id")));
            assert_eq!(values.len(), 2);
        },
        other => panic!("unexpected {:?}", other),
    }
    match where_of("SELECT * FROM t WHERE name NOT LIKE 'a%';") {
        SqlExpr::Like { negated, op, escape, .. } => {
            assert!(negated);
            assert_eq!(op, Keyword::LIKE);
            assert!(escape.is_none());
        },
        other => panic!("unexpected {:?}", other),
    }
    match where_of("SELECT * FROM t WHERE name IS NOT NULL;") {
        SqlExpr::IsNull { expr, negated } => {
            assert!(negated);
            assert_eq!(column_ref(&expr), (None, None, String::from("name")));
        },
        other => panic!("unexpected {:?}", other),
    }
}

#[test]
fn count_distinct_call() {
    let ast = parse_ok("SELECT COUNT(DISTINCT name) FROM t;");
    match &ast[0] {
        Stmt::Select(s) => match &s.body.first.columns[0] {
            ResultColumn::Expr { expr: SqlExpr::FunctionCall { name, distinct, args }, alias: None } => {
                assert_eq!(name, "COUNT");
                assert!(*distinct);
                assert_eq!(args.len(), 1);
                assert_eq!(column_ref(&args[0]), (None, None, String::from("name")));
            },
            other => panic!("unexpected {:?}", other),
        },
        other => panic!("unexpected {:?}", other),
    }
}

#[test]
fn expression_errors_leave_no_statement() {
    for input in ["SELECT ) FROM t;", "SELECT , FROM t;", "SELECT 1 + ;"] {
        let (ast, errors) = parse_all(input);
        assert!(ast.is_empty(), "{}", input);
        assert_eq!(errors[0].msg, "Unexpected Token in expression", "{}", input);
    }
}

#[test]
fn update_alias_and_temp_table_flags() {
    let ast = parse_ok("UPDATE users AS u SET a = 1 WHERE id = 2; CREATE TEMP TABLE IF NOT EXISTS t (a INTEGER);");
    match &ast[0] {
        Stmt::Update(u) => assert_eq!(u.alias, Some(String::from("u"))),
        other => panic!("unexpected {:?}", other),
    }
    match &ast[1] {
        Stmt::CreateTable(c) => {
            assert!(c.temporary);
            assert!(c.if_not_exists);
        },
        other => panic!("unexpected {:?}", other),
    }
}

#[test]
fn delete_with_schema_and_insert_default_values() {
    let ast = parse_ok("DELETE FROM main.t; INSERT INTO t DEFAULT VALUES;");
    match &ast[0] {
        Stmt::Delete(d) => {
            assert_eq!(d.schema, Some(String::from("main")));
            assert_eq!(d.table, "t");
            assert!(d.where_clause.is_none());
        },
        other => panic!("unexpected {:?}", other),
    }
    match &ast[1] {
        Stmt::Insert(i) => {
            assert!(i.default_values);
            assert!(i.columns.is_empty() && i.values.is_empty() && i.select.is_none());
        },
        other => panic!("unexpected {:?}", other),
    }
    let rules = parse_rules("INSERT INTO t 5;");
    assert_eq!(rules.first(), Some(&Rule::Syntax));
}

#[test]
fn pragma_call_and_alter_rename() {
    let ast = parse_ok("PRAGMA table_info(t); ALTER TABLE t RENAME TO u; ALTER TABLE u RENAME COLUMN a TO b;");
    match &ast[0] {
        Stmt::Pragma { invocation: PragmaInvocation::Call { value }, .. } => {
            assert_eq!(value.ttype, Type::Ident(String::from("t")))
        },
        other => panic!("unexpected {:?}", other),
    }
    match &ast[1] {
        Stmt::Alter(a) => assert_eq!(a.rename_to, Some(String::from("u"))),
        other => panic!("unexpected {:?}", other),
    }
    match &ast[2] {
        Stmt::Alter(a) => {
            assert_eq!(a.rename_column_target, Some(String::from("a")));
            assert_eq!(a.new_column_name, Some(String::from("b")));
        },
        other => panic!("unexpected {:?}", other),
    }
}

#[test]
fn case_and_window_frame_trees() {
    let ast = parse_ok("SELECT CASE x WHEN 1 THEN 'one' ELSE 'other' END FROM t;");
    match &ast[0] {
        Stmt::Select(s) => match &s.body.first.columns[0] {
            ResultColumn::Expr { expr: SqlExpr::Case { operand, when_clauses, else_clause }, .. } => {
                assert!(operand.is_some());
                assert_eq!(when_clauses.len(), 1);
                assert!(else_clause.is_some());
            },
            other => panic!("unexpected {:?}", other),
        },
        other => panic!("unexpected {:?}", other),
    }
    let ast = parse_ok("SELECT SUM(a) OVER (ORDER BY id ROWS BETWEEN 1 PRECEDING AND CURRENT ROW) FROM t;");
    match &ast[0] {
        Stmt::Select(s) => match &s.body.first.columns[0] {
            ResultColumn::Expr { expr: SqlExpr::WindowFunctionCall { name, over, filter, .. }, .. } => {
                assert_eq!(name, "SUM");
                assert!(filter.is_none());
                match over.as_ref() {
                    sqleibniz::nodes::WindowOver::Spec(w) => {
                        assert_eq!(w.order_by.len(), 1);
                        let f = w.frame.as_ref().unwrap();
                        assert_eq!(f.mode, Keyword::ROWS);
                        assert_eq!(f.end.as_deref(), Some(&sqleibniz::nodes::FrameBound::CurrentRow));
                    },
                    other => panic!("unexpected {:?}", other),
                }
            },
            other => panic!("unexpected {:?}", other),
        },
        other => panic!("unexpected {:?}", other),
    }
}

#[test]
fn column_constraints_and_quirk_message() {
    let ast = parse_ok("CREATE TABLE t (a INTEGER PRIMARY KEY AUTOINCREMENT NOT NULL, b TEXT UNIQUE COLLATE nocase);");
    match &ast[0] {
        Stmt::CreateTable(c) => {
            assert_eq!(
                c.columns[0].constraints,
                vec![
                    ColumnConstraint::PrimaryKey { asc_desc: None, on_conflict: None, autoincrement: true },
                    ColumnConstraint::NotNull { on_conflict: None },
                ]
            );
            assert_eq!(
                c.columns[1].constraints,
                vec![ColumnConstraint::Unique { on_conflict: None }, ColumnConstraint::Collate(String::from("nocase"))]
            );
        },
        other => panic!("unexpected {:?}", other),
    }
    let (_, errors) = parse_all("CREATE TABLE t (a VARCHAR);");
    assert_eq!(errors[0].rule, Rule::Quirk);
    assert_eq!(errors[0].msg, "non-canonical SQLite type name `VARCHAR`");
}

#[test]
fn conflict_actions_distinct_paren_and_cast() {
    let ast = parse_ok(
        "INSERT OR IGNORE INTO t VALUES (1); REPLACE INTO t VALUES (1); UPDATE OR ROLLBACK t SET a = 1 WHERE b = 2; SELECT DISTINCT (a), CAST(b AS TEXT) FROM t;",
    );
    match &ast[0] {
        Stmt::Insert(i) => assert_eq!(i.or_action, Some(Keyword::IGNORE)),
        other => panic!("unexpected {:?}", other),
    }
    match &ast[1] {
        Stmt::Insert(i) => assert_eq!(i.or_action, Some(Keyword::REPLACE)),
        other => panic!("unexpected {:?}", other),
    }
    match &ast[2] {
        Stmt::Update(u) => assert_eq!(u.or_action, Some(Keyword::ROLLBACK)),
        other => panic!("unexpected {:?}", other),
    }
    match &ast[3] {
        Stmt::Select(s) => {
            assert_eq!(s.body.first.distinct, Some(Keyword::DISTINCT));
            match &s.body.first.columns[0] {
                ResultColumn::Expr { expr: SqlExpr::Paren(inner), .. } => {
                    assert_eq!(column_ref(inner), (None, None, String::from("a")))
                },
                other => panic!("unexpected {:?}", other),
            }
            match &s.body.first.columns[1] {
                ResultColumn::Expr { expr: SqlExpr::Cast { expr, target_type }, .. } => {
                    assert_eq!(column_ref(expr), (None, None, String::from("b")));
                    assert_eq!(target_type, "TEXT");
                },
                other => panic!("unexpected {:?}", other),
            }
        },
        other => panic!("unexpected {:?}", other),
    }
}

#[test]
fn insert_with_several_rows() {
    let ast = parse_ok("INSERT INTO t VALUES (1, 2), (3, 4), (a);");
    match &ast[0] {
        Stmt::Insert(i) => {
            assert!(i.columns.is_empty());
            assert_eq!(i.values.len(), 3);
            assert_eq!(number_text(&i.values[1][0]), "3");
            assert_eq!(i.values[1].len(), 2);
            assert_eq!(column_ref(&i.values[2][0]), (None, None, String::from("a")));
        },
        other => panic!("unexpected {:?}", other),
    }
}

#[test]
fn update_with_several_assignments() {
    let ast = parse_ok("UPDATE t SET a = 1, b = 'x', c = d;");
    match &ast[0] {
        Stmt::Update(u) => {
            assert_eq!(u.set_clauses.len(), 3);
            assert_eq!(u.set_clauses[1].column, "b");
            assert_eq!(u.set_clauses[2].column, "c");
            assert_eq!(column_ref(&u.set_clauses[2].expr), (None, None, String::from("d")));
            assert!(u.where_clause.is_none() && u.from.is_none() && u.alias.is_none());
        },
        other => panic!("unexpected {:?}", other),
    }
}
