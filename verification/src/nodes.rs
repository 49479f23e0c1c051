//! The syntax tree that the parser builds.

use vstd::prelude::*;

use crate::types::{Keyword, SqliteStorageClass, Token};

verus! {

/// `table` or `schema.table` (also used for pragma, index and view names).
#[derive(Debug, PartialEq)]
pub enum SchemaTableContainer {
    Table(String),
    SchemaAndTable { schema: String, table: String },
}

/// How a pragma is used: queried, assigned or called.
#[derive(Debug, PartialEq)]
pub enum PragmaInvocation {
    Query,
    Assign { value: Token },
    Call { value: Token },
}

/// A literal value.
#[derive(Debug, PartialEq)]
pub struct Literal {
    pub t: Token,
}

/// A bind parameter: `?`, `?NNN`, `:name`, `@name` or `$name`.
#[derive(Debug, PartialEq)]
pub struct BindParameter {
    pub t: Token,
    pub counter: Option<Literal>,
    pub name: Option<String>,
}

/// The simple expression form used by ATTACH and column constraints.
#[derive(Debug, PartialEq)]
pub struct Expr {
    pub t: Token,
    pub literal: Option<Token>,
    pub bind: Option<BindParameter>,
    pub schema: Option<String>,
    pub table: Option<String>,
    pub column: Option<String>,
}

/// What a foreign key does on DELETE or UPDATE.
#[derive(Debug, Clone, Copy, PartialEq, Eq)]
pub enum ForeignKeyAction {
    SetNull,
    SetDefault,
    Cascade,
    Restrict,
    NoAction,
}

/// The MATCH kind of a foreign key.
#[derive(Debug, Clone, Copy, PartialEq, Eq)]
pub enum ForeignKeyMatch {
    Full,
    Partial,
    Simple,
}

/// `REFERENCES foreign_table (columns) ...`
#[derive(Debug, PartialEq)]
pub struct ForeignKeyClause {
    pub foreign_table: String,
    pub references_columns: Vec<String>,
    pub on_delete: Option<ForeignKeyAction>,
    pub on_update: Option<ForeignKeyAction>,
    pub match_type: Option<ForeignKeyMatch>,
    pub deferrable: bool,
    pub initially_deferred: bool,
}

/// A constraint on one column.
#[derive(Debug, PartialEq)]
pub enum ColumnConstraint {
    PrimaryKey { asc_desc: Option<Keyword>, on_conflict: Option<Keyword>, autoincrement: bool },
    NotNull { on_conflict: Option<Keyword> },
    Unique { on_conflict: Option<Keyword> },
    Check(Expr),
    Default { expr: Option<Expr>, literal: Option<Literal> },
    Collate(String),
    ForeignKey(ForeignKeyClause),
    Generated { expr: Expr, stored_virtual: Option<Keyword> },
    As { expr: Expr, stored_virtual: Option<Keyword> },
}

/// A column definition.
#[derive(Debug, PartialEq)]
pub struct ColumnDef {
    pub t: Token,
    pub name: String,
    pub storage_class: Option<SqliteStorageClass>,
    pub constraints: Vec<ColumnConstraint>,
}

/// UNION, UNION ALL, INTERSECT or EXCEPT.
#[derive(Debug, Clone, Copy, PartialEq, Eq)]
pub enum CompoundOp {
    Union,
    UnionAll,
    Intersect,
    Except,
}

/// The kind of a join.
#[derive(Debug, Clone, Copy, PartialEq, Eq)]
pub enum JoinType {
    Inner,
    Left,
    Right,
    Full,
    Cross,
    Comma,
}

/// `INDEXED BY name` or `NOT INDEXED`.
#[derive(Debug, PartialEq)]
pub enum IndexedBy {
    Indexed(String),
    NotIndexed,
}

/// The EXCLUDE option of a window frame.
#[derive(Debug, Clone, Copy, PartialEq, Eq)]
pub enum FrameExclude {
    NoOthers,
    CurrentRow,
    Group,
    Ties,
}

/// One bound of a window frame.
#[derive(Debug, PartialEq)]
pub enum FrameBound {
    UnboundedPreceding,
    Preceding(Box<SqlExpr>),
    CurrentRow,
    Following(Box<SqlExpr>),
    UnboundedFollowing,
}

/// `RANGE|ROWS|GROUPS [BETWEEN] start [AND end] [EXCLUDE ...]`
#[derive(Debug, PartialEq)]
pub struct FrameSpec {
    pub mode: Keyword,
    pub start: Box<FrameBound>,
    pub end: Option<Box<FrameBound>>,
    pub exclude: Option<FrameExclude>,
}

/// A window definition.
#[derive(Debug, PartialEq)]
pub struct WindowSpec {
    pub base_window: Option<String>,
    pub partition_by: Vec<SqlExpr>,
    pub order_by: Vec<OrderingTerm>,
    pub frame: Option<FrameSpec>,
}

/// `OVER name` or `OVER (spec)`.
#[derive(Debug, PartialEq)]
pub enum WindowOver {
    Name(String),
    Spec(WindowSpec),
}

/// `WINDOW name AS (spec)`.
#[derive(Debug, PartialEq)]
pub struct NamedWindowDef {
    pub name: String,
    pub def: WindowSpec,
}

/// A term of an ORDER BY.
#[derive(Debug, PartialEq)]
pub struct OrderingTerm {
    pub expr: SqlExpr,
    pub collation: Option<String>,
    pub asc_desc: Option<Keyword>,
    pub nulls: Option<Keyword>,
}

/// A column of a SELECT's result.
#[derive(Debug, PartialEq)]
pub enum ResultColumn {
    Star,
    TableStar(String),
    Expr { expr: SqlExpr, alias: Option<String> },
}

/// What a FROM clause reads from.
#[derive(Debug, PartialEq)]
pub enum TableSource {
    Table { schema: Option<String>, name: String },
    TableFunction { schema: Option<String>, name: String, args: Vec<SqlExpr> },
    Subquery(Box<SelectStmt>),
    ParenFrom(Box<FromClause>),
}

/// A table reference in a FROM clause.
#[derive(Debug, PartialEq)]
pub struct TableRef {
    pub token: Token,
    pub source: TableSource,
    pub alias: Option<String>,
    pub indexed: Option<IndexedBy>,
}

/// `ON expr` or `USING (columns)`.
#[derive(Debug, PartialEq)]
pub enum JoinConstraint {
    On(SqlExpr),
    Using(Vec<String>),
}

/// A join in a FROM clause.
#[derive(Debug, PartialEq)]
pub struct JoinItem {
    pub natural: bool,
    pub join_type: JoinType,
    pub table: TableRef,
    pub constraint: Option<JoinConstraint>,
}

/// A FROM clause.
#[derive(Debug, PartialEq)]
pub struct FromClause {
    pub first: TableRef,
    pub joins: Vec<JoinItem>,
}

/// One SELECT (or VALUES) of a compound select.
#[derive(Debug, PartialEq)]
pub struct SelectCore {
    pub distinct: Option<Keyword>,
    pub columns: Vec<ResultColumn>,
    pub from: Option<FromClause>,
    pub where_clause: Option<SqlExpr>,
    pub group_by: Vec<SqlExpr>,
    pub having: Option<SqlExpr>,
    pub windows: Vec<NamedWindowDef>,
    pub is_values: bool,
    pub values_rows: Vec<Vec<SqlExpr>>,
}

/// Select cores joined by compound operators.
#[derive(Debug, PartialEq)]
pub struct CompoundSelect {
    pub first: SelectCore,
    pub rest: Vec<(CompoundOp, SelectCore)>,
}

/// A common table expression of a WITH clause.
#[derive(Debug, PartialEq)]
pub struct CommonTableExpr {
    pub name: String,
    pub columns: Vec<String>,
    pub materialized: Option<bool>,
    pub select: Box<SelectStmt>,
}

/// A SELECT statement.
#[derive(Debug, PartialEq)]
pub struct SelectStmt {
    pub t: Token,
    pub ctes: Vec<CommonTableExpr>,
    pub recursive: bool,
    pub body: CompoundSelect,
    pub order_by: Vec<OrderingTerm>,
    pub limit: Option<SqlExpr>,
    pub offset: Option<SqlExpr>,
}

/// An expression.
#[derive(Debug, PartialEq)]
pub enum SqlExpr {
    Literal(Token),
    ColumnRef { token: Token, schema: Option<String>, table: Option<String>, column: String },
    Star,
    BindParam { token: Token, name: Option<String>, counter: Option<Token> },
    UnaryOp { op: Token, operand: Box<SqlExpr> },
    BinaryOp { left: Box<SqlExpr>, op: Token, right: Box<SqlExpr> },
    FunctionCall { name: String, distinct: bool, args: Vec<SqlExpr> },
    WindowFunctionCall {
        name: String,
        distinct: bool,
        args: Vec<SqlExpr>,
        filter: Option<Box<SqlExpr>>,
        over: Box<WindowOver>,
    },
    Paren(Box<SqlExpr>),
    Subquery(Box<SelectStmt>),
    Exists { negated: bool, subquery: Box<SelectStmt> },
    InList { expr: Box<SqlExpr>, negated: bool, values: Vec<SqlExpr> },
    InSelect { expr: Box<SqlExpr>, negated: bool, subquery: Box<SelectStmt> },
    Between { expr: Box<SqlExpr>, negated: bool, low: Box<SqlExpr>, high: Box<SqlExpr> },
    IsNull { expr: Box<SqlExpr>, negated: bool },
    Like {
        expr: Box<SqlExpr>,
        negated: bool,
        op: Keyword,
        pattern: Box<SqlExpr>,
        escape: Option<Box<SqlExpr>>,
    },
    Cast { expr: Box<SqlExpr>, target_type: String },
    Case {
        operand: Option<Box<SqlExpr>>,
        when_clauses: Vec<(SqlExpr, SqlExpr)>,
        else_clause: Option<Box<SqlExpr>>,
    },
    Collate { expr: Box<SqlExpr>, collation: String },
}

/// `column = expr` of an UPDATE.
#[derive(Debug, PartialEq)]
pub struct SetClause {
    pub column: String,
    pub column_token: Token,
    pub expr: SqlExpr,
}

/// `CREATE [TEMP] TABLE ...`
#[derive(Debug, PartialEq)]
pub struct CreateTable {
    pub t: Token,
    pub if_not_exists: bool,
    pub schema: Option<String>,
    pub name: String,
    pub columns: Vec<ColumnDef>,
    pub temporary: bool,
}

/// `INSERT ...` / `REPLACE ...`
#[derive(Debug, PartialEq)]
pub struct InsertStmt {
    pub t: Token,
    pub or_action: Option<Keyword>,
    pub schema: Option<String>,
    pub table: String,
    pub table_token: Token,
    pub columns: Vec<String>,
    pub values: Vec<Vec<SqlExpr>>,
    pub select: Option<Box<SelectStmt>>,
    pub default_values: bool,
}

/// `UPDATE ...`
#[derive(Debug, PartialEq)]
pub struct UpdateStmt {
    pub t: Token,
    pub or_action: Option<Keyword>,
    pub schema: Option<String>,
    pub table: String,
    pub table_token: Token,
    pub alias: Option<String>,
    pub set_clauses: Vec<SetClause>,
    pub from: Option<FromClause>,
    pub where_clause: Option<SqlExpr>,
}

/// `DELETE FROM ...`
#[derive(Debug, PartialEq)]
pub struct DeleteStmt {
    pub t: Token,
    pub schema: Option<String>,
    pub table: String,
    pub table_token: Token,
    pub alias: Option<String>,
    pub where_clause: Option<SqlExpr>,
}

/// `ALTER TABLE ...`
#[derive(Debug, PartialEq)]
pub struct Alter {
    pub t: Token,
    pub target: SchemaTableContainer,
    pub rename_to: Option<String>,
    pub rename_column_target: Option<String>,
    pub new_column_name: Option<String>,
    pub add_column: Option<ColumnDef>,
    pub drop_column: Option<String>,
}

/// A statement.
#[derive(Debug, PartialEq)]
pub enum Stmt {
    Explain { t: Token, child: Box<Stmt> },
    Vacuum { t: Token, schema_name: Option<Token>, filename: Option<Token> },
    Begin { t: Token, transaction_kind: Option<Keyword> },
    Commit { t: Token },
    Rollback { t: Token, save_point: Option<String> },
    Detach { t: Token, schema_name: String },
    Analyze { t: Token, target: Option<SchemaTableContainer> },
    Drop { t: Token, ttype: Keyword, if_exists: bool, argument: SchemaTableContainer },
    Savepoint { t: Token, savepoint_name: String },
    Release { t: Token, savepoint_name: String },
    Attach { t: Token, schema_name: String, expr: Expr },
    Reindex { t: Token, target: Option<SchemaTableContainer> },
    Alter(Alter),
    Pragma { t: Token, name: SchemaTableContainer, invocation: PragmaInvocation },
    CreateTable(CreateTable),
    Insert(InsertStmt),
    Update(UpdateStmt),
    Delete(DeleteStmt),
    Select(SelectStmt),
}

} // verus!
