//! Semantic analysis in two passes: the CREATE TABLE statements give a symbol table,
//! then the SELECT, INSERT, UPDATE and DELETE statements are checked against it: unknown
//! tables and columns (with the closest names as hints), INSERT rows of the wrong width,
//! comparisons of incompatible types, `= NULL`, LIKE without wildcards, BETWEEN with its
//! bounds reversed, and UPDATE or DELETE without WHERE.

use vstd::prelude::*;
use vstd::utf8::encode_utf8;

use crate::error::{Error, Suggestion};
use crate::lev::{byte_distance, closest, closest_within, lemma_first_closest, lev};
use crate::nodes::{
    ColumnConstraint, CreateTable, DeleteStmt, FromClause, InsertStmt, JoinConstraint,
    ResultColumn, SelectCore, SelectStmt, SqlExpr, Stmt, TableRef, TableSource, UpdateStmt,
};
use crate::types::{
    ascii_lower_char, ascii_lower_seq, ascii_text, concat2, concat3, concat4, eq_ignore_ascii_case, eq_ignore_case,
    upper_char, upper_seq, lowercase, str_eq, to_lowercase,
    Keyword, Rule, SqliteStorageClass, Token, Type,
};

verus! {

/// What the analyzer knows of a column.
pub struct ColumnInfo {
    pub name: String,
    pub storage_class: Option<SqliteStorageClass>,
    pub is_primary_key: bool,
    pub is_not_null: bool,
    pub is_unique: bool,
}

/// What the analyzer knows of a table.
pub struct TableInfo {
    pub name: String,
    pub columns: Vec<ColumnInfo>,
}

/// A table of the symbol table, under its name in lower case.
pub(crate) struct TableEntry {
    pub(crate) key: String,
    pub(crate) info: TableInfo,
}

/// A name visible in a query: a table of the symbol table (by its index), or an opaque
/// source such as a subquery, whose columns are not known.
pub(crate) struct ScopeEntry {
    pub(crate) name: String,
    pub(crate) table: Option<usize>,
}

/// The names visible in a query, in lower case, each once.
pub(crate) struct QueryScope {
    pub(crate) entries: Vec<ScopeEntry>,
}

/// Whether a name of a scope may have a column `column`: an opaque source, or a table
/// that has the column (ignoring case).
pub(crate) open spec fn may_have_column(e: ScopeEntry, tables: Seq<TableEntry>, column: Seq<char>) -> bool {
    match e.table {
        None => true,
        Some(t) => has_column(tables[t as int].info.columns@, column),
    }
}

/// Whether expression `e` itself (not what it holds) gives rise to a diagnostic of rule
/// `rule`: a comparison with `= NULL` (EqualNull), a comparison of two literals of
/// incompatible storage classes (TypeMismatch), LIKE with a literal pattern without
/// wildcards (LikeNoWildcards), or BETWEEN with numeric bounds in the wrong order
/// (ReversedBetween).
pub open spec fn local_warning(e: SqlExpr, rule: Rule) -> bool {
    match e {
        SqlExpr::BinaryOp { left, op, right } => {
            ||| (rule == Rule::EqualNull && is_eq_op(op.ttype) && (*right matches SqlExpr::Literal(t)
                && t.ttype == Type::Keyword(Keyword::NULL)))
            ||| (rule == Rule::TypeMismatch && is_comparison(op.ttype) && (*left matches SqlExpr::Literal(a)
                && *right matches SqlExpr::Literal(b) && literal_class(a.ttype) matches Some(x)
                && literal_class(b.ttype) matches Some(y) && !compatible(x, y)))
        },
        SqlExpr::Like { op, pattern, .. } => rule == Rule::LikeNoWildcards && op == Keyword::LIKE && (
        *pattern matches SqlExpr::Literal(t) && t.ttype matches Type::String(s) && !has_wildcard(s@)),
        SqlExpr::Between { low, high, .. } => rule == Rule::ReversedBetween && (*low matches SqlExpr::Literal(a)
            && *high matches SqlExpr::Literal(b) && a.ttype matches Type::Number(x) && b.ttype matches Type::Number(
            y,
        ) && decimal_value(x@) matches Some(u) && decimal_value(y@) matches Some(v) && u > v),
        _ => false,
    }
}

/// Whether diagnostic `e` about the unknown table key `key` carries the fix that names the
/// closest table of `tables`: a fix exactly when some key of `tables` is within hint
/// distance four of `key`, and then one that replaces with a key at the least distance.
pub(crate) open spec fn table_hint_ok(e: Error, key: Seq<char>, tables: Seq<TableEntry>) -> bool {
    &&& e.suggestion is Some <==> exists|i: int| 0 <= i < tables.len() && hint_distance(key, tables[i].key@) <= 4
    &&& e.suggestion matches Some(f) ==> exists|i: int|
        0 <= i < tables.len() && f.replacement@ == tables[i].key@ && forall|j: int|
            0 <= j < tables.len() ==> hint_distance(key, tables[i].key@) <= #[trigger] hint_distance(
                key,
                tables[j].key@,
            )
}

/// Whether diagnostic `e` about the unknown name `input` carries the fix that names the
/// closest of `names`: a fix exactly when one of `names` is within hint distance four of
/// `input`, and then one that replaces with a name at the least distance.
pub(crate) open spec fn names_hint_ok(e: Error, input: Seq<char>, names: Seq<String>) -> bool {
    &&& e.suggestion is Some <==> exists|i: int| 0 <= i < names.len() && hint_distance(input, names[i]@) <= 4
    &&& e.suggestion matches Some(f) ==> exists|i: int|
        0 <= i < names.len() && f.replacement@ == names[i]@ && forall|j: int|
            0 <= j < names.len() ==> hint_distance(input, names[i]@) <= #[trigger] hint_distance(input, names[j]@)
}

/// A diagnostic whose fix is the first of the hints that `suggest_from_list` picks from
/// `names` for `input` (none without hints) names the closest of `names`.
proof fn lemma_hints_fit(e: Error, input: Seq<char>, names: Seq<String>, hints: Seq<String>)
    requires
        exists|idx: Seq<usize>|
            {
                &&& closest_within(hint_distances(input, names), 4, 3, idx)
                &&& hints.len() == idx.len()
                &&& forall|k: int| 0 <= k < idx.len() ==> #[trigger] hints[k] == names[idx[k] as int]
            },
        hints.len() == 0 ==> e.suggestion is None,
        hints.len() > 0 ==> (e.suggestion matches Some(f) && f.replacement@ == hints[0]@),
    ensures
        names_hint_ok(e, input, names),
{
    let dist = hint_distances(input, names);
    let idx = choose|idx: Seq<usize>|
        {
            &&& closest_within(dist, 4, 3, idx)
            &&& hints.len() == idx.len()
            &&& forall|k: int| 0 <= k < idx.len() ==> #[trigger] hints[k] == names[idx[k] as int]
        };
    lemma_first_closest(dist, 4, 3, idx);
    if exists|i: int| 0 <= i < names.len() && hint_distance(input, names[i]@) <= 4 {
        let i = choose|i: int| 0 <= i < names.len() && hint_distance(input, names[i]@) <= 4;
        assert(dist[i] <= 4);
    }
    if idx.len() > 0 {
        let m = idx[0] as int;
        assert(hints[0] == names[m]);
        assert forall|j: int| 0 <= j < names.len() implies hint_distance(input, names[m]@)
            <= #[trigger] hint_distance(input, names[j]@) by {
            assert(dist[j] == hint_distance(input, names[j]@));
        }
    }
}

/// The message of the fix of a MissingWhere diagnostic.
pub open spec fn where_fix_message() -> Seq<char> {
    "Add a WHERE clause to limit the affected rows"@
}

/// Whether `x` is expression `e`, or an operand `e` is built from (through operators,
/// parentheses, BETWEEN, IS NULL, LIKE, CAST and COLLATE, at any depth), and itself gives
/// rise to a diagnostic of rule `rule` (`local_warning`).
pub open spec fn warns_within(e: SqlExpr, x: SqlExpr, rule: Rule) -> bool
    decreases e,
{
    (x == e && local_warning(e, rule)) || match e {
        SqlExpr::BinaryOp { left, right, .. } => warns_within(*left, x, rule) || warns_within(*right, x, rule),
        SqlExpr::UnaryOp { operand, .. } => warns_within(*operand, x, rule),
        SqlExpr::Paren(inner) => warns_within(*inner, x, rule),
        SqlExpr::Between { expr, low, high, .. } => warns_within(*expr, x, rule) || warns_within(*low, x, rule)
            || warns_within(*high, x, rule),
        SqlExpr::IsNull { expr, .. } => warns_within(*expr, x, rule),
        SqlExpr::Like { expr, pattern, .. } => warns_within(*expr, x, rule) || warns_within(*pattern, x, rule),
        SqlExpr::Cast { expr, .. } => warns_within(*expr, x, rule),
        SqlExpr::Collate { expr, .. } => warns_within(*expr, x, rule),
        _ => false,
    }
}

/// The replacement text of the fix that the diagnostic of rule `rule` about expression
/// `e` (`local_warning`) carries: `IS NULL` for `= NULL` and `IS NOT NULL` for `!= NULL`
/// or `<> NULL`; for LIKE without wildcards the comparison with the same quoted text
/// (`= 'text'`, or `!= 'text'` for NOT LIKE); for reversed BETWEEN bounds
/// `BETWEEN high AND low`; none for a type mismatch.
pub open spec fn warning_fix(e: SqlExpr, rule: Rule) -> Option<Seq<char>> {
    match e {
        SqlExpr::BinaryOp { op, .. } => if rule == Rule::EqualNull {
            Some(
                if op.ttype == Type::Equal {
                    "IS NULL"@
                } else {
                    "IS NOT NULL"@
                },
            )
        } else {
            None
        },
        SqlExpr::Like { negated, pattern, .. } => match *pattern {
            SqlExpr::Literal(t) => match t.ttype {
                Type::String(text) => if rule == Rule::LikeNoWildcards {
                    Some(
                        if negated {
                            "!= "@
                        } else {
                            "= "@
                        } + "'"@ + text@ + "'"@,
                    )
                } else {
                    None
                },
                _ => None,
            },
            _ => None,
        },
        SqlExpr::Between { low, high, .. } => match (*low, *high) {
            (SqlExpr::Literal(a), SqlExpr::Literal(b)) => match (a.ttype, b.ttype) {
                (Type::Number(u), Type::Number(v)) => if rule == Rule::ReversedBetween {
                    Some("BETWEEN "@ + v@ + " AND "@ + u@)
                } else {
                    None
                },
                _ => None,
            },
            _ => None,
        },
        _ => None,
    }
}

/// Whether expression `e`, or an operand it is built from (as for `warns_within`), is a
/// reference to the column `column` without a table name.
pub open spec fn bare_column_in(e: SqlExpr, column: Seq<char>) -> bool
    decreases e,
{
    match e {
        SqlExpr::ColumnRef { table, column: c, .. } => table is None && c@ == column,
        SqlExpr::BinaryOp { left, right, .. } => bare_column_in(*left, column) || bare_column_in(*right, column),
        SqlExpr::UnaryOp { operand, .. } => bare_column_in(*operand, column),
        SqlExpr::Paren(inner) => bare_column_in(*inner, column),
        SqlExpr::Between { expr, low, high, .. } => bare_column_in(*expr, column) || bare_column_in(*low, column)
            || bare_column_in(*high, column),
        SqlExpr::IsNull { expr, .. } => bare_column_in(*expr, column),
        SqlExpr::Like { expr, pattern, .. } => bare_column_in(*expr, column) || bare_column_in(*pattern, column),
        SqlExpr::Cast { expr, .. } => bare_column_in(*expr, column),
        SqlExpr::Collate { expr, .. } => bare_column_in(*expr, column),
        _ => false,
    }
}

/// Whether an optional expression is there and `x` is it, or an operand of it, that gives
/// rise to a diagnostic of rule `rule` (`warns_within`).
pub open spec fn opt_warns(w: Option<SqlExpr>, x: SqlExpr, rule: Rule) -> bool {
    w matches Some(e) && warns_within(e, x, rule)
}

/// The WHERE clause of a SELECT core (none for VALUES).
pub open spec fn core_where(core: SelectCore) -> Option<SqlExpr> {
    if core.is_values {
        None
    } else {
        core.where_clause
    }
}

/// The WHERE clause of statement `s` (of the first SELECT of a compound one).
pub open spec fn stmt_where(s: Stmt) -> Option<SqlExpr>
    decreases s,
{
    match s {
        Stmt::Explain { child, .. } => stmt_where(*child),
        Stmt::Update(u) => u.where_clause,
        Stmt::Delete(d) => d.where_clause,
        Stmt::Select(sel) => core_where(sel.body.first),
        _ => None,
    }
}

/// Whether `x` is the WHERE clause of statement `s`, or an operand of it, that gives rise
/// to a diagnostic of rule `rule` (`warns_within`).
pub open spec fn where_warns(s: Stmt, x: SqlExpr, rule: Rule) -> bool {
    opt_warns(stmt_where(s), x, rule)
}

/// How many rows of `rows` do not hold `width` values.
pub open spec fn rows_off_width(rows: Seq<Vec<SqlExpr>>, width: int) -> nat
    decreases rows.len(),
{
    if rows.len() == 0 {
        0
    } else {
        rows_off_width(rows.drop_last(), width) + if rows.last()@.len() != width {
            1nat
        } else {
            0nat
        }
    }
}

/// How many diagnostics of `errs` are of rule `rule`.
pub open spec fn count_rule(errs: Seq<Error>, rule: Rule) -> nat
    decreases errs.len(),
{
    if errs.len() == 0 {
        0
    } else {
        count_rule(errs.drop_last(), rule) + if errs.last().rule == rule {
            1nat
        } else {
            0nat
        }
    }
}

/// The number of values each row of `ins` must hold, where it goes into `table`: one per
/// named column, or one per column of the table where it names none.
pub(crate) open spec fn insert_width(ins: InsertStmt, table: TableInfo) -> int {
    if ins.columns@.len() == 0 {
        table.columns@.len() as int
    } else {
        ins.columns@.len() as int
    }
}

/// Whether statement `s` is (or explains) an INSERT into one of `tables` with a row that
/// does not hold as many values as it must.
pub(crate) open spec fn width_mismatch(s: Stmt, tables: Seq<TableEntry>) -> bool
    decreases s,
{
    match s {
        Stmt::Explain { child, .. } => width_mismatch(*child, tables),
        Stmt::Insert(ins) => exists|t: int|
            0 <= t < tables.len() && (#[trigger] tables[t]).key@ == lowercase(ins.table@) && rows_off_width(
                ins.values@,
                insert_width(ins, tables[t].info),
            ) > 0,
        _ => false,
    }
}

/// A count of a rule grows by one with a diagnostic of that rule, and else stays.
proof fn lemma_count_push(errs: Seq<Error>, from: int, e: Error, rule: Rule)
    requires
        0 <= from <= errs.len(),
    ensures
        count_rule(errs.push(e).subrange(from, errs.len() as int + 1), rule) == count_rule(
            errs.subrange(from, errs.len() as int),
            rule,
        ) + if e.rule == rule {
            1nat
        } else {
            0nat
        },
{
    assert(errs.push(e).subrange(from, errs.len() as int + 1).drop_last() =~= errs.subrange(from, errs.len() as int));
}

/// Where the count of a rule is not zero, a diagnostic of that rule is there.
proof fn lemma_count_some(errs: Seq<Error>, rule: Rule)
    requires
        count_rule(errs, rule) > 0,
    ensures
        exists|k: int| 0 <= k < errs.len() && (#[trigger] errs[k]).rule == rule,
    decreases errs.len(),
{
    if errs.last().rule != rule {
        lemma_count_some(errs.drop_last(), rule);
        let k = choose|k: int| 0 <= k < errs.drop_last().len() && (#[trigger] errs.drop_last()[k]).rule == rule;
        assert(errs[k] == errs.drop_last()[k]);
    } else {
        assert(errs[errs.len() - 1].rule == rule);
    }
}

/// Whether a column reference to `column` (of the table named `table`, where it is
/// qualified) is unknown in a scope: it is not `*`, and either it is qualified by a name of
/// the scope that is a table without such a column, or it is unqualified, the scope is not
/// empty, and no name of the scope may have the column. Names of tables compare in lower
/// case and names of columns ignoring the case of ASCII letters.
pub(crate) open spec fn unknown_column_ref(
    table: Option<String>,
    column: Seq<char>,
    entries: Seq<ScopeEntry>,
    tables: Seq<TableEntry>,
) -> bool {
    &&& column != seq!['*']
    &&& match table {
        None => entries.len() > 0 && !(exists|i: int|
            0 <= i < entries.len() && may_have_column(#[trigger] entries[i], tables, column)),
        Some(name) => exists|i: int|
            0 <= i < entries.len() && (#[trigger] entries[i]).name@ == lowercase(name@)
                && entries[i].table is Some && !has_column(
                tables[entries[i].table->Some_0 as int].info.columns@,
                column,
            ),
    }
}

/// Whether `entries` names one table only, the table of `tables` keyed `key`.
pub(crate) open spec fn single_table_scope(entries: Seq<ScopeEntry>, tables: Seq<TableEntry>, key: Seq<char>) -> bool {
    &&& entries.len() == 1
    &&& entries[0].table is Some
    &&& 0 <= entries[0].table->Some_0 < tables.len()
    &&& tables[entries[0].table->Some_0 as int].key@ == key
}

/// Whether select core `core` reads one table of `tables` (with no join), which has no
/// column `column` (ignoring case), and names `column` without a table name in a result
/// column, WHERE, GROUP BY or HAVING (`core_names_column`).
pub(crate) open spec fn core_misses_column(core: SelectCore, column: Seq<char>, tables: Seq<TableEntry>) -> bool {
    &&& core_table_lacks(core, column, tables)
    &&& core_names_column(core, column)
}

/// Whether select core `core` reads one table of `tables` (with no join), which has no
/// column `column` (ignoring case).
pub(crate) open spec fn core_table_lacks(core: SelectCore, column: Seq<char>, tables: Seq<TableEntry>) -> bool {
    &&& !core.is_values
    &&& column != seq!['*']
    &&& core.from is Some
    &&& core.from->Some_0.joins@.len() == 0
    &&& core.from->Some_0.first.source is Table
    &&& exists|t: int|
        0 <= t < tables.len() && (#[trigger] tables[t]).key@ == lowercase(core.from->Some_0.first.source->Table_name@)
            && !has_column(tables[t].info.columns@, column)
}

/// Whether result column `rc` names column `column` without a table name
/// (`bare_column_in`).
pub open spec fn result_names_column(rc: ResultColumn, column: Seq<char>) -> bool {
    rc matches ResultColumn::Expr { expr, .. } && bare_column_in(expr, column)
}

/// Whether select core `core` names column `column` without a table name, as an operand
/// at any depth (`bare_column_in`), in a result column, its WHERE clause, a GROUP BY term
/// or its HAVING clause.
pub open spec fn core_names_column(core: SelectCore, column: Seq<char>) -> bool {
    ||| exists|j: int| 0 <= j < core.columns@.len() && result_names_column(#[trigger] core.columns@[j], column)
    ||| (core.where_clause matches Some(w) && bare_column_in(w, column))
    ||| exists|j: int| 0 <= j < core.group_by@.len() && bare_column_in(#[trigger] core.group_by@[j], column)
    ||| (core.having matches Some(h) && bare_column_in(h, column))
}

/// The column names of the table of `tables` keyed by the first FROM table of select core
/// `core`.
pub(crate) open spec fn core_table_columns(core: SelectCore, tables: Seq<TableEntry>) -> Seq<String> {
    let key = lowercase(core.from->Some_0.first.source->Table_name@);
    let t = choose|t: int| 0 <= t < tables.len() && (#[trigger] tables[t]).key@ == key;
    column_names(tables[t].info.columns@)
}

/// The column names of the table that statement `s` (or the statement it explains), a
/// SELECT, reads first (`core_table_columns`); none for other statements.
pub(crate) open spec fn stmt_table_columns(s: Stmt, tables: Seq<TableEntry>) -> Seq<String>
    decreases s,
{
    match s {
        Stmt::Explain { child, .. } => stmt_table_columns(*child, tables),
        Stmt::Select(sel) => core_table_columns(sel.body.first, tables),
        _ => Seq::empty(),
    }
}

/// Whether statement `s` is (or explains) a SELECT whose first core misses column
/// `column` (`core_misses_column`).
pub(crate) open spec fn stmt_misses_column(s: Stmt, column: Seq<char>, tables: Seq<TableEntry>) -> bool
    decreases s,
{
    match s {
        Stmt::Explain { child, .. } => stmt_misses_column(*child, column, tables),
        Stmt::Select(sel) => core_misses_column(sel.body.first, column, tables),
        _ => false,
    }
}

/// The names of the columns `cols`.
pub(crate) open spec fn column_names(cols: Seq<ColumnInfo>) -> Seq<String> {
    Seq::new(cols.len(), |j: int| cols[j].name)
}

/// The names of every column of every table of `entries`, in order.
pub(crate) open spec fn scope_column_names(entries: Seq<ScopeEntry>, tables: Seq<TableEntry>) -> Seq<String>
    decreases entries.len(),
{
    if entries.len() == 0 {
        Seq::empty()
    } else {
        scope_column_names(entries.drop_last(), tables) + match entries.last().table {
            Some(t) => column_names(tables[t as int].info.columns@),
            None => Seq::empty(),
        }
    }
}

/// The keys of the tables `tables`.
pub(crate) open spec fn table_keys(tables: Seq<TableEntry>) -> Seq<String> {
    Seq::new(tables.len(), |i: int| tables[i].key)
}

/// Whether no two tables share a key.
pub(crate) open spec fn keys_unique(tables: Seq<TableEntry>) -> bool {
    forall|i: int, j: int| 0 <= i < j < tables.len() ==> tables[i].key@ != tables[j].key@
}

/// Whether every table is keyed by its name in lower case.
pub(crate) open spec fn keyed_by_name(tables: Seq<TableEntry>) -> bool {
    forall|i: int| 0 <= i < tables.len() ==> (#[trigger] tables[i]).key@ == lowercase(tables[i].info.name@)
}

/// Whether no two names of a scope are equal.
pub(crate) open spec fn names_unique(s: Seq<ScopeEntry>) -> bool {
    forall|i: int, j: int| 0 <= i < j < s.len() ==> s[i].name@ != s[j].name@
}

/// Whether a scope's names are unique and its tables are among `n` tables.
pub(crate) open spec fn scope_ok(s: Seq<ScopeEntry>, n: int) -> bool {
    &&& names_unique(s)
    &&& forall|i: int| 0 <= i < s.len() ==> ((#[trigger] s[i]).table matches Some(t) ==> t < n)
}

/// The rules that only a symbol table can give rise to.
pub open spec fn schema_rule(r: Rule) -> bool {
    r == Rule::UnknownTable || r == Rule::UnknownColumn || r == Rule::InsertValueCountMismatch
}

/// Whether the comparison operator of kind `t` tests (in)equality.
pub open spec fn is_eq_op(t: Type) -> bool {
    t == Type::Equal || t == Type::BangEqual || t == Type::LessGreater
}

/// Whether the operator of kind `t` compares.
pub open spec fn is_comparison(t: Type) -> bool {
    ||| is_eq_op(t)
    ||| t == Type::Less
    ||| t == Type::Greater
    ||| t == Type::LessEqual
    ||| t == Type::GreaterEqual
}

/// Whether `s` holds one of LIKE's wildcards, `%` or `_`.
pub open spec fn has_wildcard(s: Seq<char>) -> bool {
    exists|i: int| 0 <= i < s.len() && (s[i] == '%' || s[i] == '_')
}

/// The value of a decimal digit string, if it is one and fits in 64 bits.
pub open spec fn decimal_value(s: Seq<char>) -> Option<int>
    decreases s.len(),
{
    if s.len() == 0 {
        None
    } else {
        let d = s.last() as int - '0' as int;
        if !(0 <= d <= 9) {
            None
        } else if s.len() == 1 {
            Some(d)
        } else {
            match decimal_value(s.drop_last()) {
                Some(v) => if v * 10 + d <= u64::MAX {
                    Some(v * 10 + d)
                } else {
                    None
                },
                None => None,
            }
        }
    }
}

/// Whether the storage classes `a` and `b` can be compared without surprises: NULL with
/// anything, a class with itself, and INTEGER with REAL.
pub open spec fn compatible(a: SqliteStorageClass, b: SqliteStorageClass) -> bool {
    ||| a == SqliteStorageClass::Null
    ||| b == SqliteStorageClass::Null
    ||| a == b
    ||| (a == SqliteStorageClass::Integer && b == SqliteStorageClass::Real)
    ||| (a == SqliteStorageClass::Real && b == SqliteStorageClass::Integer)
}

/// Column names compare ignoring the case of ASCII letters: two names that are equal in
/// lower case are found in the same columns, and a name written in upper case is found
/// exactly where the name itself is.
pub proof fn law_column_names_ignore_case(cols: Seq<ColumnInfo>, a: Seq<char>, b: Seq<char>)
    ensures
        ascii_lower_seq(a) == ascii_lower_seq(b) ==> has_column(cols, a) == has_column(cols, b),
        has_column(cols, upper_seq(a)) == has_column(cols, a),
{
    assert forall|i: int| 0 <= i < a.len() implies ascii_lower_char(upper_char(a[i])) == ascii_lower_char(
        a[i],
    ) by {
        let c = a[i];
        if 'a' <= c && c <= 'z' {
            assert(((c as u32 - 32) as char) as u32 == c as u32 - 32);
            assert((((c as u32 - 32) as char) as u32 + 32) as char == c);
        }
    }
    assert(ascii_lower_seq(upper_seq(a)) =~= ascii_lower_seq(a));
}

/// Table names compare in lower case: two ASCII names that differ only in the case of
/// their letters name the same table of the symbol table, or both none. The analyzer
/// lowers each name it looks up or registers with `to_lowercase`, whose contract gives
/// `lowercase(n) == ascii_lower_seq(n)` for ASCII `n`; `analyze` passes that on for the
/// names of created tables.
pub proof fn law_table_names_ignore_case(an: Analyzer, a: Seq<char>, b: Seq<char>)
    requires
        ascii_lower_seq(a) == ascii_lower_seq(b),
        lowercase(a) == ascii_lower_seq(a),
        lowercase(b) == ascii_lower_seq(b),
    ensures
        an.knows_table(lowercase(a)) == an.knows_table(lowercase(b)),
        an.knows_table(lowercase(a)) == an.knows_table(ascii_lower_seq(b)),
{
}

/// Compatibility of storage classes does not depend on their order.
pub proof fn lemma_compatible_symmetric(a: SqliteStorageClass, b: SqliteStorageClass)
    ensures
        compatible(a, b) == compatible(b, a),
{
}

/// The storage class of a literal token of kind `t`, if it has one.
pub open spec fn literal_class(t: Type) -> Option<SqliteStorageClass> {
    match t {
        Type::Number(_) => Some(SqliteStorageClass::Integer),
        Type::String(_) => Some(SqliteStorageClass::Text),
        Type::Blob(_) => Some(SqliteStorageClass::Blob),
        Type::Boolean(_) => Some(SqliteStorageClass::Integer),
        _ => None,
    }
}

/// The distance used for hints: of the UTF-8 bytes of the two names in lower case.
pub open spec fn hint_distance(a: Seq<char>, b: Seq<char>) -> usize {
    lev(encode_utf8(lowercase(a)), encode_utf8(lowercase(b))) as usize
}

/// The hint distances of `input` to each candidate.
pub open spec fn hint_distances(input: Seq<char>, candidates: Seq<String>) -> Seq<usize> {
    Seq::new(candidates.len(), |i: int| hint_distance(input, candidates[i]@))
}

/// Names among `candidates` close to `input`, for a "did you mean" hint: by Levenshtein
/// distance ignoring case, the up to three closest within distance four, closest first
/// (earlier candidates first among equally close ones).
pub fn suggest_from_list(input: &str, candidates: &Vec<String>) -> (r: Vec<String>)
    ensures
        exists|idx: Seq<usize>|
            {
                &&& closest_within(hint_distances(input@, candidates@), 4, 3, idx)
                &&& r@.len() == idx.len()
                &&& forall|k: int| 0 <= k < idx.len() ==> #[trigger] r@[k] == candidates@[idx[k] as int]
            },
{
    let lower_input = to_lowercase(input);
    let mut dist: Vec<usize> = Vec::new();
    let mut i: usize = 0;
    while i < candidates.len()
        invariant
            i <= candidates.len(),
            lower_input@ == lowercase(input@),
            dist@ =~= hint_distances(input@, candidates@).take(i as int),
        decreases candidates.len() - i,
    {
        let c = &candidates[i];
        let lower_c = to_lowercase(c.as_str());
        let d = byte_distance(lower_input.as_str().as_bytes(), lower_c.as_str().as_bytes());
        dist.push(d);
        i += 1;
    }
    let idx = closest(&dist, 4, 3);
    let mut out: Vec<String> = Vec::new();
    let mut k: usize = 0;
    while k < idx.len()
        invariant
            k <= idx.len(),
            dist@ == hint_distances(input@, candidates@),
            closest_within(dist@, 4, 3, idx@),
            out@.len() == k,
            forall|t: int| 0 <= t < k ==> #[trigger] out@[t] == candidates@[idx@[t] as int],
        decreases idx.len() - k,
    {
        proof {
            assert(crate::lev::is_next_closest(dist@, idx@.take(k as int), idx@[k as int] as int));
        }
        out.push(candidates[idx[k]].clone());
        k += 1;
    }
    out
}

/// The character of the decimal digit `d`.
pub open spec fn digit_char(d: nat) -> char {
    ((48 + d) as u8) as char
}

/// The decimal digits of `n`, most significant first, with no leading zeros.
pub open spec fn decimal_text(n: nat) -> Seq<char>
    decreases n,
{
    if n < 10 {
        seq![digit_char(n)]
    } else {
        decimal_text(n / 10).push(digit_char(n % 10))
    }
}

/// The decimal digits of `n`.
fn usize_text(n: usize) -> (r: String)
    ensures
        r@ == decimal_text(n as nat),
    decreases n,
{
    let mut out = if n >= 10 {
        usize_text(n / 10)
    } else {
        String::new()
    };
    let d = (n % 10) as u8;
    crate::types::push_char(&mut out, (48u8 + d) as char);
    proof {
        assert(out@ =~= decimal_text(n as nat));
    }
    out
}

/// The strings of `names` joined by ", ".
pub open spec fn joined(names: Seq<String>) -> Seq<char>
    decreases names.len(),
{
    if names.len() == 0 {
        Seq::empty()
    } else if names.len() == 1 {
        names[0]@
    } else {
        joined(names.drop_last()) + seq![',', ' '] + names.last()@
    }
}

/// `names` joined by ", ".
fn join_names(names: &Vec<String>) -> (r: String)
    ensures
        r@ == joined(names@),
{
    let mut out = String::new();
    let mut i: usize = 0;
    while i < names.len()
        invariant
            i <= names.len(),
            out@ == joined(names@.take(i as int)),
        decreases names.len() - i,
    {
        if i > 0 {
            out.append(", ");
            proof {
                reveal_strlit(", ");
            }
        }
        out.append(names[i].as_str());
        proof {
            assert(names@.take(i + 1).drop_last() =~= names@.take(i as int));
            assert(names@.take(i + 1).last() == names@[i as int]);
            if i == 0 {
                assert(out@ =~= joined(names@.take(1)));
            } else {
                assert(out@ =~= joined(names@.take(i + 1)));
            }
        }
        i += 1;
    }
    proof {
        assert(names@.take(names@.len() as int) =~= names@);
    }
    out
}

/// The value of a decimal digit string, if it is one and fits in 64 bits.
pub fn parse_decimal(s: &str) -> (r: Option<u64>)
    ensures
        r matches Some(v) ==> decimal_value(s@) == Some(v as int),
        r is None ==> decimal_value(s@) is None,
{
    let n = s.unicode_len();
    if n == 0 {
        return None;
    }
    let mut v: u64 = 0;
    let mut i: usize = 0;
    while i < n
        invariant
            n == s@.len(),
            0 < n,
            i <= n,
            i == 0 ==> v == 0,
            i > 0 ==> decimal_value(s@.take(i as int)) == Some(v as int),
        decreases n - i,
    {
        let c = s.get_char(i);
        proof {
            assert(s@.take(i + 1).drop_last() =~= s@.take(i as int));
            assert(s@.take(i + 1).last() == c);
        }
        if !('0' <= c && c <= '9') {
            proof {
                lemma_decimal_prefix_none(s@, i as int + 1);
            }
            return None;
        }
        let d = (c as u32 - '0' as u32) as u64;
        if v > (u64::MAX - d) / 10 {
            proof {
                lemma_decimal_prefix_none(s@, i as int + 1);
            }
            return None;
        }
        v = v * 10 + d;
        i += 1;
    }
    proof {
        assert(s@.take(n as int) =~= s@);
    }
    Some(v)
}

/// A digit string whose prefix is no number is no number either.
proof fn lemma_decimal_prefix_none(s: Seq<char>, k: int)
    requires
        0 < k <= s.len(),
        decimal_value(s.take(k)) is None,
    ensures
        decimal_value(s) is None,
    decreases s.len() - k,
{
    if k < s.len() {
        assert(s.take(k + 1).drop_last() =~= s.take(k));
        lemma_decimal_prefix_none(s, k + 1);
    } else {
        assert(s.take(k) =~= s);
    }
}

/// Whether `s` holds `%` or `_`.
fn has_wildcard_exec(s: &str) -> (r: bool)
    ensures
        r == has_wildcard(s@),
{
    let n = s.unicode_len();
    let mut i: usize = 0;
    while i < n
        invariant
            n == s@.len(),
            i <= n,
            forall|j: int| 0 <= j < i ==> !(s@[j] == '%' || s@[j] == '_'),
        decreases n - i,
    {
        let c = s.get_char(i);
        if c == '%' || c == '_' {
            return true;
        }
        i += 1;
    }
    false
}

/// Whether storage classes `a` and `b` can be compared without surprises.
pub fn types_compatible(a: SqliteStorageClass, b: SqliteStorageClass) -> (r: bool)
    ensures
        r == compatible(a, b),
{
    match (a, b) {
        (SqliteStorageClass::Null, _) | (_, SqliteStorageClass::Null) => true,
        (SqliteStorageClass::Integer, SqliteStorageClass::Integer)
        | (SqliteStorageClass::Real, SqliteStorageClass::Real)
        | (SqliteStorageClass::Text, SqliteStorageClass::Text)
        | (SqliteStorageClass::Blob, SqliteStorageClass::Blob) => true,
        (SqliteStorageClass::Integer, SqliteStorageClass::Real)
        | (SqliteStorageClass::Real, SqliteStorageClass::Integer) => true,
        _ => false,
    }
}

/// Whether the column list holds a column named `name`, ignoring case.
pub open spec fn has_column(cols: Seq<ColumnInfo>, name: Seq<char>) -> bool {
    exists|i: int| 0 <= i < cols.len() && eq_ignore_case(#[trigger] cols[i].name@, name)
}

/// The storage class declared for the first column of `cols` named `name` (ignoring
/// case); none where no column is named so, or where it is declared without a type.
pub open spec fn column_class(cols: Seq<ColumnInfo>, name: Seq<char>) -> Option<SqliteStorageClass>
    decreases cols.len(),
{
    if cols.len() == 0 {
        None
    } else if eq_ignore_case(cols[0].name@, name) {
        cols[0].storage_class
    } else {
        column_class(cols.drop_first(), name)
    }
}

/// The class `column_class` gives is that of the first column with the name.
pub proof fn law_column_class_first(cols: Seq<ColumnInfo>, name: Seq<char>, i: int)
    requires
        0 <= i < cols.len(),
        eq_ignore_case(cols[i].name@, name),
        forall|j: int| 0 <= j < i ==> !eq_ignore_case(#[trigger] cols[j].name@, name),
    ensures
        column_class(cols, name) == cols[i].storage_class,
    decreases i,
{
    if i > 0 {
        assert(!eq_ignore_case(cols[0].name@, name));
        assert forall|j: int| 0 <= j < i - 1 implies !eq_ignore_case(#[trigger] cols.drop_first()[j].name@, name) by {
            assert(cols.drop_first()[j] == cols[j + 1]);
        }
        law_column_class_first(cols.drop_first(), name, i - 1);
    }
}

/// Without a column of the name there is no class.
proof fn lemma_column_class_none(cols: Seq<ColumnInfo>, name: Seq<char>)
    requires
        !has_column(cols, name),
    ensures
        column_class(cols, name) is None,
    decreases cols.len(),
{
    if cols.len() > 0 {
        assert(!eq_ignore_case(cols[0].name@, name));
        assert forall|j: int| 0 <= j < cols.drop_first().len() implies !eq_ignore_case(
            #[trigger] cols.drop_first()[j].name@,
            name,
        ) by {
            assert(cols.drop_first()[j] == cols[j + 1]);
        }
        lemma_column_class_none(cols.drop_first(), name);
    }
}

/// Whether entry `i` of a scope `entries` is the first one that is a table of `tables`
/// with a column `column` (ignoring case).
pub(crate) open spec fn first_holder(entries: Seq<ScopeEntry>, tables: Seq<TableEntry>, column: Seq<char>, i: int) -> bool {
    &&& 0 <= i < entries.len()
    &&& entries[i].table is Some
    &&& has_column(tables[entries[i].table->Some_0 as int].info.columns@, column)
    &&& forall|j: int|
        0 <= j < i ==> !((#[trigger] entries[j]).table is Some && has_column(
            tables[entries[j].table->Some_0 as int].info.columns@,
            column,
        ))
}

/// Whether the analyzer knows expression `e` to be of storage class `x` in a query whose
/// names are `entries`: a literal of that class, a CAST to that class's canonical name, or
/// a reference to a column of a table of `tables` declared of that class
/// (`column_class`), qualified by a name of the query or bare and found in the first table
/// of the query that has it.
pub(crate) open spec fn class_known(e: SqlExpr, entries: Seq<ScopeEntry>, tables: Seq<TableEntry>, x: SqliteStorageClass) -> bool {
    match e {
        SqlExpr::Literal(t) => literal_class(t.ttype) == Some(x),
        SqlExpr::ColumnRef { table, column, .. } => match table {
            Some(name) => exists|i: int|
                0 <= i < entries.len() && (#[trigger] entries[i]).name@ == lowercase(name@) && entries[i].table is Some
                    && column_class(tables[entries[i].table->Some_0 as int].info.columns@, column@) == Some(x),
            None => exists|i: int|
                #[trigger] first_holder(entries, tables, column@, i) && column_class(
                    tables[entries[i].table->Some_0 as int].info.columns@,
                    column@,
                ) == Some(x),
        },
        SqlExpr::Cast { target_type, .. } => crate::types::canonical_class(target_type@) == Some(x),
        _ => false,
    }
}

/// The first column named `name` (ignoring case), if there is one.
fn find_column_in(cols: &Vec<ColumnInfo>, name: &str) -> (r: Option<usize>)
    ensures
        r matches Some(i) ==> i < cols.len() && eq_ignore_case(cols@[i as int].name@, name@),
        r matches Some(i) ==> forall|j: int| 0 <= j < i ==> !eq_ignore_case(#[trigger] cols@[j].name@, name@),
        r is None ==> !has_column(cols@, name@),
{
    let mut i: usize = 0;
    while i < cols.len()
        invariant
            i <= cols.len(),
            forall|j: int| 0 <= j < i ==> !eq_ignore_case(#[trigger] cols@[j].name@, name@),
        decreases cols.len() - i,
    {
        if eq_ignore_ascii_case(cols[i].name.as_str(), name) {
            return Some(i);
        }
        i += 1;
    }
    None
}

impl QueryScope {
    /// A scope with no names.
    pub(crate) fn empty() -> (r: QueryScope)
        ensures
            r.entries@.len() == 0,
    {
        QueryScope { entries: Vec::new() }
    }

    /// Whether the scope has no names.
    pub(crate) fn is_empty(&self) -> (r: bool)
        ensures
            r == (self.entries@.len() == 0),
    {
        self.entries.len() == 0
    }

    /// The index of the entry named `key` (in lower case), if there is one.
    fn position(&self, key: &str) -> (r: Option<usize>)
        ensures
            r matches Some(i) ==> i < self.entries@.len() && self.entries@[i as int].name@ == key@,
            r is None ==> forall|i: int| 0 <= i < self.entries@.len() ==> self.entries@[i].name@ != key@,
    {
        let mut i: usize = 0;
        while i < self.entries.len()
            invariant
                i <= self.entries@.len(),
                forall|j: int| 0 <= j < i ==> self.entries@[j].name@ != key@,
            decreases self.entries@.len() - i,
        {
            if str_eq(self.entries[i].name.as_str(), key) {
                return Some(i);
            }
            i += 1;
        }
        None
    }

    /// Makes `name` (in lower case) stand for `table`, replacing what it stood for.
    fn set(&mut self, name: &str, table: Option<usize>, Ghost(n): Ghost<int>)
        requires
            scope_ok(old(self).entries@, n),
            table matches Some(t) ==> t < n,
        ensures
            scope_ok(final(self).entries@, n),
            exists|i: int| 0 <= i < final(self).entries@.len() && final(self).entries@[i].name@ == lowercase(name@)
                && final(self).entries@[i].table == table,
            final(self).entries@.len() >= old(self).entries@.len(),
            final(self).entries@.len() <= old(self).entries@.len() + 1,
            forall|i: int| 0 <= i < old(self).entries@.len() && old(self).entries@[i].name@ != lowercase(name@)
                ==> #[trigger] final(self).entries@[i] == old(self).entries@[i],
    {
        let key = to_lowercase(name);
        match self.position(key.as_str()) {
            Some(i) => {
                let e = ScopeEntry { name: key, table };
                self.entries.set(i, e);
                assert(self.entries@[i as int].name@ == lowercase(name@));
            },
            None => {
                self.entries.push(ScopeEntry { name: key, table });
                assert(self.entries@[self.entries@.len() - 1].name@ == lowercase(name@));
            },
        }
    }

    /// Adds `name` as table `table` of the symbol table.
    pub(crate) fn add(&mut self, name: &str, table: usize, Ghost(n): Ghost<int>)
        requires
            scope_ok(old(self).entries@, n),
            table < n,
        ensures
            scope_ok(final(self).entries@, n),
            final(self).entries@.len() > 0,
            final(self).entries@.len() >= old(self).entries@.len(),
            final(self).entries@.len() <= old(self).entries@.len() + 1,
            exists|i: int| 0 <= i < final(self).entries@.len() && final(self).entries@[i].name@ == lowercase(name@)
                && final(self).entries@[i].table == Some(table),
            forall|i: int| 0 <= i < old(self).entries@.len() && old(self).entries@[i].name@ != lowercase(name@)
                ==> #[trigger] final(self).entries@[i] == old(self).entries@[i],
    {
        self.set(name, Some(table), Ghost(n));
    }

    /// Adds `name` as an opaque source.
    pub(crate) fn add_opaque(&mut self, name: &str, Ghost(n): Ghost<int>)
        requires
            scope_ok(old(self).entries@, n),
        ensures
            scope_ok(final(self).entries@, n),
            final(self).entries@.len() > 0,
            final(self).entries@.len() >= old(self).entries@.len(),
            exists|i: int| 0 <= i < final(self).entries@.len() && final(self).entries@[i].name@ == lowercase(name@)
                && final(self).entries@[i].table is None,
            forall|i: int| 0 <= i < old(self).entries@.len() && old(self).entries@[i].name@ != lowercase(name@)
                ==> #[trigger] final(self).entries@[i] == old(self).entries@[i],
    {
        self.set(name, None, Ghost(n));
    }

    /// Adds every name of `other`, which win over names already there.
    pub(crate) fn merge(&mut self, other: QueryScope, Ghost(n): Ghost<int>)
        requires
            scope_ok(old(self).entries@, n),
            scope_ok(other.entries@, n),
        ensures
            scope_ok(final(self).entries@, n),
            final(self).entries@.len() >= old(self).entries@.len(),
            other.entries@.len() > 0 ==> final(self).entries@.len() > 0,
    {
        let mut i: usize = 0;
        while i < other.entries.len()
            invariant
                i <= other.entries@.len(),
                scope_ok(self.entries@, n),
                scope_ok(other.entries@, n),
                self.entries@.len() >= old(self).entries@.len(),
                i > 0 ==> self.entries@.len() > 0,
            decreases other.entries@.len() - i,
        {
            let e = &other.entries[i];
            assert(other.entries@[i as int].table matches Some(t) ==> t < n);
            self.set(e.name.as_str(), e.table, Ghost(n));
            i += 1;
        }
    }

    /// The table that `name` stands for (ignoring case), unless it is unknown or opaque.
    pub(crate) fn resolve_table(&self, name: &str) -> (r: Option<usize>)
        requires
            names_unique(self.entries@),
        ensures
            r matches Some(t) ==> exists|i: int| 0 <= i < self.entries@.len() && self.entries@[i].table == Some(t)
                && self.entries@[i].name@ == lowercase(name@),
            r is None ==> forall|i: int| 0 <= i < self.entries@.len() && #[trigger] self.entries@[i].name@
                == lowercase(name@) ==> self.entries@[i].table is None,
    {
        let key = to_lowercase(name);
        match self.position(key.as_str()) {
            Some(i) => self.entries[i].table,
            None => None,
        }
    }
}


/// Whether statement `s` creates a table (also under EXPLAIN).
pub open spec fn creates_table(s: Stmt) -> bool
    decreases s,
{
    match s {
        Stmt::Explain { child, .. } => creates_table(*child),
        Stmt::CreateTable(_) => true,
        _ => false,
    }
}

/// Whether statement `s` is an UPDATE or DELETE without WHERE (also under EXPLAIN).
pub open spec fn lacks_where(s: Stmt) -> bool
    decreases s,
{
    match s {
        Stmt::Explain { child, .. } => lacks_where(*child),
        Stmt::Update(u) => u.where_clause is None,
        Stmt::Delete(d) => d.where_clause is None,
        _ => false,
    }
}

/// The first table of a SELECT's FROM clause, where it names a table directly.
pub open spec fn select_first_table(sel: SelectStmt) -> Option<String> {
    if !sel.body.first.is_values && sel.body.first.from is Some && sel.body.first.from->Some_0.first.source is Table {
        Some(sel.body.first.from->Some_0.first.source->Table_name)
    } else {
        None
    }
}

/// The table that statement `s` names first: that of an INSERT, UPDATE or DELETE, or the
/// first FROM table of a SELECT (also under EXPLAIN).
pub open spec fn first_table(s: Stmt) -> Option<String>
    decreases s,
{
    match s {
        Stmt::Explain { child, .. } => first_table(*child),
        Stmt::Insert(i) => Some(i.table),
        Stmt::Update(u) => Some(u.table),
        Stmt::Delete(d) => Some(d.table),
        Stmt::Select(sel) => select_first_table(sel),
        _ => None,
    }
}

/// Runs the semantic checks over parsed statements.
pub struct Analyzer {
    pub(crate) tables: Vec<TableEntry>,
    pub(crate) file: String,
    pub errors: Vec<Error>,
}

impl Analyzer {
    /// The analyzer's invariant: one table per key, each under its name in lower case,
    /// and every diagnostic names the analyzer's file.
    pub closed spec fn wf(&self) -> bool {
        &&& keys_unique(self.tables@)
        &&& keyed_by_name(self.tables@)
        &&& forall|i: int| 0 <= i < self.errors@.len() ==> (#[trigger] self.errors@[i]).file@ == self.file@
    }

    /// The file name that diagnostics carry.
    pub closed spec fn file_name(&self) -> Seq<char> {
        self.file@
    }

    /// The diagnostics found so far.
    pub closed spec fn diagnostics(&self) -> Seq<Error> {
        self.errors@
    }

    /// Whether the symbol table has a table whose name in lower case is `key`.
    pub closed spec fn knows_table(&self, key: Seq<char>) -> bool {
        exists|i: int| 0 <= i < self.tables@.len() && (#[trigger] self.tables@[i]).key@ == key
    }

    /// Whether statement `s` is (or explains) an INSERT into a known table with a row that
    /// does not hold as many values as it must.
    pub closed spec fn row_width_mismatch(&self, s: Stmt) -> bool {
        width_mismatch(s, self.tables@)
    }

    /// Whether statement `s` is (or explains) a SELECT whose first core reads one known
    /// table, with no join, that has no column `column` (ignoring case), while a result
    /// column, its WHERE clause, a GROUP BY term or its HAVING clause names `column`
    /// without a table name, as an operand at any depth (`core_names_column`).
    pub closed spec fn misses_column(&self, s: Stmt, column: Seq<char>) -> bool {
        stmt_misses_column(s, column, self.tables@)
    }

    /// Whether diagnostic `e` about the unknown table key `key` carries the fix that names
    /// the closest known table: a fix exactly when some known table's key is within hint
    /// distance four of `key` (`hint_distance`), and then one that replaces with a known
    /// key at the least distance.
    pub closed spec fn hint_fits(&self, e: Error, key: Seq<char>) -> bool {
        table_hint_ok(e, key, self.tables@)
    }

    /// Whether diagnostic `e` about the unknown column `column` of statement `s` (a SELECT
    /// on one known table, `misses_column`) carries the fix that names the closest column
    /// of that table: a fix exactly when one of its columns is within hint distance four of
    /// `column`, and then one that replaces with a column name at the least distance.
    pub closed spec fn column_hint_fits(&self, e: Error, s: Stmt, column: Seq<char>) -> bool {
        names_hint_ok(e, column, stmt_table_columns(s, self.tables@))
    }

    /// How many tables the symbol table holds.
    pub closed spec fn table_count(&self) -> nat {
        self.tables@.len()
    }

    /// `self` is `old` with diagnostics appended and nothing else changed.
    pub(crate) open spec fn extends(&self, old: Self) -> bool {
        &&& self.wf()
        &&& self.tables@ == old.tables@
        &&& self.file@ == old.file@
        &&& old.errors@.len() <= self.errors@.len()
        &&& forall|k: int| 0 <= k < old.errors@.len() ==> #[trigger] self.errors@[k] == old.errors@[k]
    }

    /// Without a symbol table, no diagnostic since `old` is one only a symbol table gives.
    pub(crate) open spec fn quiet_without_schema(&self, old: Self) -> bool {
        old.tables@.len() == 0 ==> forall|k: int|
            old.errors@.len() <= k < self.errors@.len() ==> !schema_rule(#[trigger] self.errors@[k].rule)
    }

    /// Whether a diagnostic of rule `rule` was added since `old`.
    pub(crate) open spec fn added(&self, old: Self, rule: Rule) -> bool {
        exists|k: int| old.errors@.len() <= k < self.errors@.len() && (#[trigger] self.errors@[k]).rule == rule
    }

    /// Appending diagnostics twice appends them once.
    proof fn lemma_extends_trans(a: Self, b: Self, c: Self)
        requires
            b.extends(a),
            c.extends(b),
        ensures
            c.extends(a),
    {
    }

    /// Whether a diagnostic of rule `rule` was added since `old`, whose fix replaces with
    /// `fix` where `fix` is given.
    pub(crate) open spec fn added_fix(&self, old: Self, rule: Rule, fix: Option<Seq<char>>) -> bool {
        exists|k: int|
            old.errors@.len() <= k < self.errors@.len() && (#[trigger] self.errors@[k]).rule == rule && (fix matches Some(
                f,
            ) ==> (self.errors@[k].suggestion matches Some(g) && g.replacement@ == f))
    }

    /// Whether an UnknownTable diagnostic was added since `old` that carries the fix
    /// `table_hint_ok` asks for the unknown key `key`.
    pub(crate) open spec fn added_table_hint(&self, old: Self, key: Seq<char>) -> bool {
        exists|k: int|
            old.errors@.len() <= k < self.errors@.len() && (#[trigger] self.errors@[k]).rule == Rule::UnknownTable
                && table_hint_ok(self.errors@[k], key, old.tables@)
    }

    /// An UnknownTable diagnostic with its fix added before stays when more are appended.
    proof fn lemma_hint_stays(a: Self, b: Self, c: Self, key: Seq<char>)
        requires
            b.added_table_hint(a, key),
            c.extends(b),
        ensures
            c.added_table_hint(a, key),
    {
        let k = choose|k: int|
            a.errors@.len() <= k < b.errors@.len() && (#[trigger] b.errors@[k]).rule == Rule::UnknownTable
                && table_hint_ok(b.errors@[k], key, a.tables@);
        assert(c.errors@[k] == b.errors@[k]);
    }

    /// An UnknownTable diagnostic with its fix added since a later state was added since
    /// an earlier one too.
    proof fn lemma_hint_since_earlier(a: Self, b: Self, c: Self, key: Seq<char>)
        requires
            b.extends(a),
            c.added_table_hint(b, key),
        ensures
            c.added_table_hint(a, key),
    {
        let k = choose|k: int|
            b.errors@.len() <= k < c.errors@.len() && (#[trigger] c.errors@[k]).rule == Rule::UnknownTable
                && table_hint_ok(c.errors@[k], key, b.tables@);
        assert(a.errors@.len() <= k);
    }

    /// Whether an UnknownColumn diagnostic was added since `old` that carries the fix
    /// `names_hint_ok` asks for the unknown name `input` among `names`.
    pub(crate) open spec fn added_names_hint(&self, old: Self, input: Seq<char>, names: Seq<String>) -> bool {
        exists|k: int|
            old.errors@.len() <= k < self.errors@.len() && (#[trigger] self.errors@[k]).rule == Rule::UnknownColumn
                && names_hint_ok(self.errors@[k], input, names)
    }

    /// An UnknownColumn diagnostic with its fix added before stays when more are appended.
    proof fn lemma_names_hint_stays(a: Self, b: Self, c: Self, input: Seq<char>, names: Seq<String>)
        requires
            b.added_names_hint(a, input, names),
            c.extends(b),
        ensures
            c.added_names_hint(a, input, names),
    {
        let k = choose|k: int|
            a.errors@.len() <= k < b.errors@.len() && (#[trigger] b.errors@[k]).rule == Rule::UnknownColumn
                && names_hint_ok(b.errors@[k], input, names);
        assert(c.errors@[k] == b.errors@[k]);
    }

    /// An UnknownColumn diagnostic with its fix added since a later state was added since
    /// an earlier one too.
    proof fn lemma_names_hint_since_earlier(a: Self, b: Self, c: Self, input: Seq<char>, names: Seq<String>)
        requires
            b.extends(a),
            c.added_names_hint(b, input, names),
        ensures
            c.added_names_hint(a, input, names),
    {
        let k = choose|k: int|
            b.errors@.len() <= k < c.errors@.len() && (#[trigger] c.errors@[k]).rule == Rule::UnknownColumn
                && names_hint_ok(c.errors@[k], input, names);
        assert(a.errors@.len() <= k);
    }

    /// Whether a MissingWhere diagnostic was added since `old` whose fix asks for a WHERE
    /// clause.
    pub(crate) open spec fn added_where_fix(&self, old: Self) -> bool {
        exists|k: int|
            old.errors@.len() <= k < self.errors@.len() && (#[trigger] self.errors@[k]).rule == Rule::MissingWhere
                && (self.errors@[k].suggestion matches Some(g) && g.message@ == where_fix_message())
    }

    /// A MissingWhere diagnostic with its fix added before stays when more are appended.
    proof fn lemma_where_fix_stays(a: Self, b: Self, c: Self)
        requires
            b.added_where_fix(a),
            c.extends(b),
        ensures
            c.added_where_fix(a),
    {
        let k = choose|k: int|
            a.errors@.len() <= k < b.errors@.len() && (#[trigger] b.errors@[k]).rule == Rule::MissingWhere
                && (b.errors@[k].suggestion matches Some(g) && g.message@ == where_fix_message());
        assert(c.errors@[k] == b.errors@[k]);
    }

    /// A MissingWhere diagnostic with its fix added since a later state was added since an
    /// earlier one too.
    proof fn lemma_where_fix_since_earlier(a: Self, b: Self, c: Self)
        requires
            b.extends(a),
            c.added_where_fix(b),
        ensures
            c.added_where_fix(a),
    {
        let k = choose|k: int|
            b.errors@.len() <= k < c.errors@.len() && (#[trigger] c.errors@[k]).rule == Rule::MissingWhere
                && (c.errors@[k].suggestion matches Some(g) && g.message@ == where_fix_message());
        assert(a.errors@.len() <= k);
    }

    /// A diagnostic added is one added with no fix asked of it.
    proof fn lemma_added_no_fix(a: Self, b: Self, rule: Rule)
        requires
            b.added(a, rule),
        ensures
            b.added_fix(a, rule, None),
    {
        let k = choose|k: int| a.errors@.len() <= k < b.errors@.len() && (#[trigger] b.errors@[k]).rule == rule;
        assert(b.errors@[k].rule == rule);
    }

    /// A diagnostic added before stays, with its fix, when more are appended.
    proof fn lemma_fix_stays(a: Self, b: Self, c: Self, rule: Rule, fix: Option<Seq<char>>)
        requires
            b.added_fix(a, rule, fix),
            c.extends(b),
        ensures
            c.added_fix(a, rule, fix),
    {
        let k = choose|k: int|
            a.errors@.len() <= k < b.errors@.len() && (#[trigger] b.errors@[k]).rule == rule && (fix matches Some(
                f,
            ) ==> (b.errors@[k].suggestion matches Some(g) && g.replacement@ == f));
        assert(c.errors@[k] == b.errors@[k]);
    }

    /// A diagnostic with a fix added since a later state was added since an earlier one too.
    proof fn lemma_fix_since_earlier(a: Self, b: Self, c: Self, rule: Rule, fix: Option<Seq<char>>)
        requires
            b.extends(a),
            c.added_fix(b, rule, fix),
        ensures
            c.added_fix(a, rule, fix),
    {
        let k = choose|k: int|
            b.errors@.len() <= k < c.errors@.len() && (#[trigger] c.errors@[k]).rule == rule && (fix matches Some(
                f,
            ) ==> (c.errors@[k].suggestion matches Some(g) && g.replacement@ == f));
        assert(a.errors@.len() <= k);
    }

    /// A diagnostic added before stays when more are appended.
    proof fn lemma_added_stays(a: Self, b: Self, c: Self, rule: Rule)
        requires
            b.added(a, rule),
            c.extends(b),
        ensures
            c.added(a, rule),
    {
        let k = choose|k: int| a.errors@.len() <= k < b.errors@.len() && (#[trigger] b.errors@[k]).rule == rule;
        assert(c.errors@[k] == b.errors@[k]);
    }

    /// An analyzer for file `file`, with an empty symbol table.
    pub fn new(file: &str) -> (r: Analyzer)
        ensures
            r.wf(),
            r.file_name() == file@,
            r.diagnostics() == Seq::<Error>::empty(),
            r.table_count() == 0,
    {
        Analyzer { tables: Vec::new(), file: String::from_str(file), errors: Vec::new() }
    }

    /// A diagnostic about `token`.
    fn err(&self, msg: &str, note: &str, token: &Token, rule: Rule) -> (r: Error)
        ensures
            r.file@ == self.file@,
            r.rule == rule,
            r.line == token.line,
            r.start == token.start,
            r.end == token.end,
            r.suggestion is None,
            r.msg@ == msg@,
            r.note@ == note@,
    {
        Error {
            improved_line: None,
            file: self.file.clone(),
            line: token.line,
            rule,
            note: String::from_str(note),
            msg: String::from_str(msg),
            start: token.start,
            end: token.end,
            doc_url: None,
            suggestion: None,
        }
    }

    /// Records `e`, which names the analyzer's file.
    fn push(&mut self, e: Error)
        requires
            old(self).wf(),
            e.file@ == old(self).file@,
        ensures
            final(self).extends(*old(self)),
            final(self).errors@ == old(self).errors@.push(e),
    {
        self.errors.push(e);
        proof {
            assert forall|k: int| 0 <= k < old(self).errors@.len() implies #[trigger] self.errors@[k]
                == old(self).errors@[k] by {
                assert(self.errors@ == old(self).errors@.push(e));
            }
            assert forall|i: int| 0 <= i < self.errors@.len() implies (#[trigger] self.errors@[i]).file@
                == self.file@ by {
                assert(self.errors@ == old(self).errors@.push(e));
                if i < old(self).errors@.len() {
                    assert(self.errors@[i] == old(self).errors@[i]);
                }
            }
        }
    }

    /// A fix that replaces `token` by `replacement`.
    fn replace_fix(message: String, replacement: String, token: &Token) -> (r: Suggestion)
        ensures
            r == (Suggestion {
                message,
                replacement,
                start_line: token.line,
                start_col: token.start,
                end_line: token.line,
                end_col: token.end,
            }),
    {
        Suggestion {
            message,
            replacement,
            start_line: token.line,
            start_col: token.start,
            end_line: token.line,
            end_col: token.end,
        }
    }

    /// The index of the table named `name` (ignoring case), if there is one.
    fn lookup(&self, name: &str) -> (r: Option<usize>)
        requires
            self.wf(),
        ensures
            r matches Some(i) ==> i < self.tables@.len() && self.tables@[i as int].key@ == lowercase(name@),
            r is None ==> !self.knows_table(lowercase(name@)),
            ascii_text(name@) ==> lowercase(name@) == ascii_lower_seq(name@),
    {
        let key = to_lowercase(name);
        let mut i: usize = 0;
        while i < self.tables.len()
            invariant
                i <= self.tables@.len(),
                key@ == lowercase(name@),
                ascii_text(name@) ==> lowercase(name@) == ascii_lower_seq(name@),
                forall|j: int| 0 <= j < i ==> (#[trigger] self.tables@[j]).key@ != key@,
            decreases self.tables@.len() - i,
        {
            if str_eq(self.tables[i].key.as_str(), key.as_str()) {
                return Some(i);
            }
            i += 1;
        }
        None
    }

    /// Enters the table that `ct` creates into the symbol table, replacing one of the same
    /// name (ignoring case).
    fn register_table(&mut self, ct: &CreateTable)
        requires
            old(self).wf(),
        ensures
            final(self).wf(),
            final(self).file@ == old(self).file@,
            final(self).errors == old(self).errors,
            final(self).knows_table(lowercase(ct.name@)),
            forall|k: Seq<char>| k != lowercase(ct.name@) ==> final(self).knows_table(k) == old(self).knows_table(k),
            ascii_text(ct.name@) ==> lowercase(ct.name@) == ascii_lower_seq(ct.name@),
    {
        let mut columns: Vec<ColumnInfo> = Vec::new();
        let mut i: usize = 0;
        while i < ct.columns.len()
            invariant
                i <= ct.columns.len(),
            decreases ct.columns.len() - i,
        {
            let col = &ct.columns[i];
            let mut is_pk = false;
            let mut is_nn = false;
            let mut is_uq = false;
            let mut j: usize = 0;
            while j < col.constraints.len()
                invariant
                    j <= col.constraints.len(),
                decreases col.constraints.len() - j,
            {
                match &col.constraints[j] {
                    ColumnConstraint::PrimaryKey { .. } => {
                        is_pk = true;
                        is_nn = true;
                    },
                    ColumnConstraint::NotNull { .. } => {
                        is_nn = true;
                    },
                    ColumnConstraint::Unique { .. } => {
                        is_uq = true;
                    },
                    _ => {},
                }
                j += 1;
            }
            columns.push(
                ColumnInfo {
                    name: col.name.clone(),
                    storage_class: col.storage_class,
                    is_primary_key: is_pk,
                    is_not_null: is_nn,
                    is_unique: is_uq,
                },
            );
            i += 1;
        }
        let key = to_lowercase(ct.name.as_str());
        let entry = TableEntry { key, info: TableInfo { name: ct.name.clone(), columns } };
        match self.lookup(ct.name.as_str()) {
            Some(i) => {
                self.tables.set(i, entry);
                proof {
                    assert(self.tables@[i as int].key@ == lowercase(ct.name@));
                    assert forall|k: Seq<char>| k != lowercase(ct.name@) implies self.knows_table(k)
                        == old(self).knows_table(k) by {
                        if old(self).knows_table(k) {
                            let j = choose|j: int| 0 <= j < old(self).tables@.len() && (#[trigger] old(self).tables@[j]).key@ == k;
                            assert(self.tables@[j].key@ == k);
                        }
                        if self.knows_table(k) {
                            let j = choose|j: int| 0 <= j < self.tables@.len() && (#[trigger] self.tables@[j]).key@ == k;
                            assert(old(self).tables@[j].key@ == k);
                        }
                    }
                }
            },
            None => {
                self.tables.push(entry);
                proof {
                    let n = old(self).tables@.len() as int;
                    assert(self.tables@[n].key@ == lowercase(ct.name@));
                    assert forall|k: Seq<char>| k != lowercase(ct.name@) implies self.knows_table(k)
                        == old(self).knows_table(k) by {
                        if old(self).knows_table(k) {
                            let j = choose|j: int| 0 <= j < old(self).tables@.len() && (#[trigger] old(self).tables@[j]).key@ == k;
                            assert(self.tables@[j].key@ == k);
                        }
                        if self.knows_table(k) {
                            let j = choose|j: int| 0 <= j < self.tables@.len() && (#[trigger] self.tables@[j]).key@ == k;
                            assert(j < n);
                            assert(old(self).tables@[j].key@ == k);
                        }
                    }
                }
            },
        }
    }

    /// The first pass over a statement: enters created tables into the symbol table.
    fn first_pass(&mut self, s: &Stmt)
        requires
            old(self).wf(),
        ensures
            final(self).wf(),
            final(self).file@ == old(self).file@,
            final(self).errors == old(self).errors,
            !creates_table(*s) ==> final(self).tables@ == old(self).tables@,
            *s matches Stmt::CreateTable(ct) ==> final(self).knows_table(lowercase(ct.name@)),
            *s matches Stmt::CreateTable(ct) ==> (ascii_text(ct.name@) ==> lowercase(ct.name@) == ascii_lower_seq(
                ct.name@,
            )),
            forall|k: Seq<char>| old(self).knows_table(k) ==> final(self).knows_table(k),
        decreases s,
    {
        match s {
            Stmt::Explain { child, .. } => self.first_pass(child),
            Stmt::CreateTable(ct) => self.register_table(ct),
            _ => {},
        }
    }

    /// Whether some name of `scope` may have a column `column`: an opaque source, or a
    /// table that has the column (ignoring case).
    fn scope_has_column(&self, scope: &QueryScope, column: &str) -> (r: bool)
        requires
            self.wf(),
            scope_ok(scope.entries@, self.tables@.len() as int),
        ensures
            (exists|i: int| 0 <= i < scope.entries@.len() && (#[trigger] scope.entries@[i]).table is None) ==> r,
            r == exists|i: int|
                0 <= i < scope.entries@.len() && may_have_column(
                    #[trigger] scope.entries@[i],
                    self.tables@,
                    column@,
                ),
    {
        let mut i: usize = 0;
        while i < scope.entries.len()
            invariant
                i <= scope.entries@.len(),
                scope_ok(scope.entries@, self.tables@.len() as int),
                forall|j: int| 0 <= j < i ==> (#[trigger] scope.entries@[j]).table is Some,
                forall|j: int|
                    0 <= j < i ==> !may_have_column(#[trigger] scope.entries@[j], self.tables@, column@),
            decreases scope.entries@.len() - i,
        {
            match scope.entries[i].table {
                None => {
                    assert(may_have_column(scope.entries@[i as int], self.tables@, column@));
                    return true;
                },
                Some(t) => {
                    assert(scope.entries@[i as int].table matches Some(t) ==> t < self.tables@.len());
                    let cols = &self.tables[t].info.columns;
                    match find_column_in(cols, column) {
                        Some(k) => {
                            assert(eq_ignore_case(cols@[k as int].name@, column@));
                            assert(has_column(cols@, column@));
                            assert(may_have_column(scope.entries@[i as int], self.tables@, column@));
                            return true;
                        },
                        None => {},
                    }
                },
            }
            i += 1;
        }
        false
    }

    /// The names of every column of every table in `scope`.
    fn scope_columns(&self, scope: &QueryScope) -> (r: Vec<String>)
        requires
            self.wf(),
            scope_ok(scope.entries@, self.tables@.len() as int),
        ensures
            r@ == scope_column_names(scope.entries@, self.tables@),
    {
        let mut out: Vec<String> = Vec::new();
        let mut i: usize = 0;
        while i < scope.entries.len()
            invariant
                i <= scope.entries@.len(),
                scope_ok(scope.entries@, self.tables@.len() as int),
                out@ == scope_column_names(scope.entries@.take(i as int), self.tables@),
            decreases scope.entries@.len() - i,
        {
            let ghost before = out@;
            proof {
                assert(scope.entries@.take(i + 1).drop_last() =~= scope.entries@.take(i as int));
                assert(scope.entries@.take(i + 1).last() == scope.entries@[i as int]);
            }
            if let Some(t) = scope.entries[i].table {
                assert(scope.entries@[i as int].table matches Some(t) ==> t < self.tables@.len());
                let cols = &self.tables[t].info.columns;
                let mut j: usize = 0;
                while j < cols.len()
                    invariant
                        j <= cols.len(),
                        out@ == before + column_names(cols@).take(j as int),
                    decreases cols.len() - j,
                {
                    out.push(cols[j].name.clone());
                    proof {
                        assert(out@ =~= before + column_names(cols@).take(j + 1));
                    }
                    j += 1;
                }
                proof {
                    assert(column_names(cols@).take(cols@.len() as int) =~= column_names(cols@));
                    assert(out@ =~= scope_column_names(scope.entries@.take(i + 1), self.tables@));
                }
            } else {
                proof {
                    assert(out@ =~= scope_column_names(scope.entries@.take(i + 1), self.tables@));
                }
            }
            i += 1;
        }
        proof {
            assert(scope.entries@.take(scope.entries@.len() as int) =~= scope.entries@);
        }
        out
    }

    /// Names of tables close to `name`, for a hint.
    fn suggest_table(&self, name: &str) -> (r: Vec<String>)
        ensures
            exists|idx: Seq<usize>|
                {
                    &&& closest_within(hint_distances(lowercase(name@), table_keys(self.tables@)), 4, 3, idx)
                    &&& r@.len() == idx.len()
                    &&& forall|k: int|
                        0 <= k < idx.len() ==> #[trigger] r@[k] == table_keys(self.tables@)[idx[k] as int]
                },
    {
        let mut keys: Vec<String> = Vec::new();
        let mut i: usize = 0;
        while i < self.tables.len()
            invariant
                i <= self.tables@.len(),
                keys@ =~= table_keys(self.tables@).take(i as int),
            decreases self.tables@.len() - i,
        {
            keys.push(self.tables[i].key.clone());
            i += 1;
        }
        proof {
            assert(keys@ =~= table_keys(self.tables@));
        }
        let lower = to_lowercase(name);
        suggest_from_list(lower.as_str(), &keys)
    }

    /// Names of columns of table `t` close to `name`, for a hint.
    fn suggest_column(&self, name: &str, t: usize) -> (r: Vec<String>)
        requires
            t < self.tables@.len(),
        ensures
            exists|idx: Seq<usize>|
                {
                    &&& closest_within(
                        hint_distances(name@, column_names(self.tables@[t as int].info.columns@)),
                        4,
                        3,
                        idx,
                    )
                    &&& r@.len() == idx.len()
                    &&& forall|k: int|
                        0 <= k < idx.len() ==> #[trigger] r@[k] == column_names(
                            self.tables@[t as int].info.columns@,
                        )[idx[k] as int]
                },
    {
        let cols = &self.tables[t].info.columns;
        let mut names: Vec<String> = Vec::new();
        let mut i: usize = 0;
        while i < cols.len()
            invariant
                i <= cols.len(),
                names@ =~= column_names(cols@).take(i as int),
            decreases cols.len() - i,
        {
            names.push(cols[i].name.clone());
            i += 1;
        }
        proof {
            assert(names@ =~= column_names(cols@));
        }
        suggest_from_list(name, &names)
    }

    /// Reports `what` as unknown at `token`, with `hints` (if any) in the note and the
    /// first one as a fix.
    fn push_unknown(&mut self, msg: &str, note: String, hints: &Vec<String>, token: &Token, rule: Rule)
        requires
            old(self).wf(),
        ensures
            final(self).extends(*old(self)),
            final(self).errors@.len() == old(self).errors@.len() + 1,
            final(self).errors@.last().rule == rule,
            final(self).errors@.last().msg@ == msg@,
            hints@.len() == 0 ==> final(self).errors@.last().suggestion is None,
            hints@.len() > 0 ==> (final(self).errors@.last().suggestion matches Some(f) && f.replacement@
                == hints@[0]@),
    {
        let mut note = note;
        if hints.len() > 0 {
            note.append(", did you mean: ");
            note.append(join_names(hints).as_str());
        }
        let mut e = self.err(msg, note.as_str(), token, rule);
        if hints.len() > 0 {
            let message = concat3("Did you mean `", hints[0].as_str(), "`?");
            e.suggestion = Some(Self::replace_fix(message, hints[0].clone(), token));
        }
        self.push(e);
    }

    /// Reports `name` as an unknown table, unless the symbol table is empty.
    fn check_table_exists(&mut self, name: &str, token: &Token) -> (r: Option<usize>)
        requires
            old(self).wf(),
        ensures
            final(self).extends(*old(self)),
            r matches Some(t) ==> t < old(self).tables@.len() && old(self).tables@[t as int].key@ == lowercase(name@),
            old(self).tables@.len() == 0 ==> r is None && final(self).errors == old(self).errors,
            old(self).tables@.len() > 0 && !old(self).knows_table(lowercase(name@)) ==> final(self).added_table_hint(
                *old(self),
                lowercase(name@),
            ) && final(self).errors@.len() == old(self).errors@.len() + 1 && final(self).errors@.last().msg@
                == "Unknown table"@,
            old(self).knows_table(lowercase(name@)) ==> r is Some && final(self).errors == old(self).errors,
            old(self).tables@.len() > 0 && ascii_text(name@) ==> lowercase(name@) == ascii_lower_seq(name@),
    {
        if self.tables.len() == 0 {
            return None;
        }
        match self.lookup(name) {
            Some(t) => Some(t),
            None => {
                let hints = self.suggest_table(name);
                let note = if hints.len() > 0 {
                    concat3("table '", name, "' does not exist")
                } else {
                    concat3("table '", name, "' does not exist in any CREATE TABLE")
                };
                self.push_unknown("Unknown table", note, &hints, token, Rule::UnknownTable);
                proof {
                    let key = lowercase(name@);
                    let tables = old(self).tables@;
                    let dist = hint_distances(key, table_keys(tables));
                    let idx = choose|idx: Seq<usize>|
                        {
                            &&& closest_within(dist, 4, 3, idx)
                            &&& hints@.len() == idx.len()
                            &&& forall|k: int| 0 <= k < idx.len() ==> #[trigger] hints@[k] == table_keys(tables)[idx[k] as int]
                        };
                    lemma_first_closest(dist, 4, 3, idx);
                    let k = old(self).errors@.len() as int;
                    let e = self.errors@[k];
                    assert(e == self.errors@.last());
                    assert(e.rule == Rule::UnknownTable);
                    if exists|i: int| 0 <= i < tables.len() && hint_distance(key, tables[i].key@) <= 4 {
                        let i = choose|i: int| 0 <= i < tables.len() && hint_distance(key, tables[i].key@) <= 4;
                        assert(dist[i] <= 4);
                    }
                    if idx.len() > 0 {
                        let m = idx[0] as int;
                        assert(hints@[0] == table_keys(tables)[m]);
                        assert forall|j: int| 0 <= j < tables.len() implies hint_distance(key, tables[m].key@)
                            <= #[trigger] hint_distance(key, tables[j].key@) by {
                            assert(dist[j] == hint_distance(key, tables[j].key@));
                        }
                    }
                    assert(table_hint_ok(e, key, tables));
                }
                None
            },
        }
    }

    /// Reports `column` unless table `t` has it (ignoring case).
    fn check_column_in_table(&mut self, column: &str, token: &Token, t: usize)
        requires
            old(self).wf(),
            t < old(self).tables@.len(),
        ensures
            final(self).extends(*old(self)),
            has_column(old(self).tables@[t as int].info.columns@, column@) ==> final(self).errors == old(self).errors,
            !has_column(old(self).tables@[t as int].info.columns@, column@) ==> final(self).added(*old(self), Rule::UnknownColumn)
                && final(self).errors@.len() == old(self).errors@.len() + 1 && final(self).errors@.last().rule
                == Rule::UnknownColumn,
    {
        if find_column_in(&self.tables[t].info.columns, column).is_some() {
            return;
        }
        let hints = self.suggest_column(column, t);
        let mut note = concat3("column '", column, "' does not exist in table '");
        note.append(self.tables[t].info.name.as_str());
        note.append("'");
        self.push_unknown("Unknown column", note, &hints, token, Rule::UnknownColumn);
        assert(self.errors@[old(self).errors@.len() as int].rule == Rule::UnknownColumn);
    }

    /// The storage class an expression has, where the analyzer can tell: that of a literal,
    /// of a column of a known table, or of a CAST to a canonical type.
    fn infer_type(&self, e: &SqlExpr, scope: &QueryScope) -> (r: Option<SqliteStorageClass>)
        requires
            self.wf(),
            scope_ok(scope.entries@, self.tables@.len() as int),
        ensures
            e matches SqlExpr::Literal(t) ==> r == literal_class(t.ttype),
            forall|x: SqliteStorageClass| #[trigger] class_known(*e, scope.entries@, self.tables@, x) ==> r == Some(x),
    {
        match e {
            SqlExpr::Literal(tok) => match &tok.ttype {
                Type::Number(_) => Some(SqliteStorageClass::Integer),
                Type::String(_) => Some(SqliteStorageClass::Text),
                Type::Blob(_) => Some(SqliteStorageClass::Blob),
                Type::Boolean(_) => Some(SqliteStorageClass::Integer),
                _ => None,
            },
            SqlExpr::ColumnRef { table, column, .. } => {
                match table {
                    Some(name) => {
                        match scope.resolve_table(name.as_str()) {
                            Some(t) => {
                                proof {
                                    let i0 = choose|i: int| 0 <= i < scope.entries@.len() && scope.entries@[i].table == Some(t)
                                        && scope.entries@[i].name@ == lowercase(name@);
                                    assert(scope.entries@[i0].table matches Some(t) ==> t < self.tables@.len());
                                    assert forall|i: int| 0 <= i < scope.entries@.len() && (#[trigger] scope.entries@[i]).name@
                                        == lowercase(name@) implies i == i0 by {
                                        if i < i0 {
                                            assert(scope.entries@[i].name@ != scope.entries@[i0].name@);
                                        } else if i > i0 {
                                            assert(scope.entries@[i0].name@ != scope.entries@[i].name@);
                                        }
                                    }
                                }
                                let cols = &self.tables[t].info.columns;
                                match find_column_in(cols, column.as_str()) {
                                    Some(c) => {
                                        proof {
                                            law_column_class_first(cols@, column@, c as int);
                                        }
                                        cols[c].storage_class
                                    },
                                    None => {
                                        proof {
                                            lemma_column_class_none(cols@, column@);
                                        }
                                        None
                                    },
                                }
                            },
                            None => None,
                        }
                    },
                    None => {
                        let mut i: usize = 0;
                        while i < scope.entries.len()
                            invariant
                                i <= scope.entries@.len(),
                                scope_ok(scope.entries@, self.tables@.len() as int),
                                e is ColumnRef,
                                e->ColumnRef_table is None,
                                e->ColumnRef_column == *column,
                                forall|j: int|
                                    0 <= j < i ==> !((#[trigger] scope.entries@[j]).table is Some && has_column(
                                        self.tables@[scope.entries@[j].table->Some_0 as int].info.columns@,
                                        column@,
                                    )),
                            decreases scope.entries@.len() - i,
                        {
                            if let Some(t) = scope.entries[i].table {
                                assert(scope.entries@[i as int].table matches Some(t) ==> t < self.tables@.len());
                                let cols = &self.tables[t].info.columns;
                                if let Some(c) = find_column_in(cols, column.as_str()) {
                                    proof {
                                        law_column_class_first(cols@, column@, c as int);
                                        assert(has_column(cols@, column@));
                                        assert(first_holder(scope.entries@, self.tables@, column@, i as int));
                                        assert forall|k: int| #[trigger] first_holder(scope.entries@, self.tables@, column@, k)
                                            implies k == i by {
                                            if k < i {
                                            } else if k > i {
                                                assert(scope.entries@[i as int].table is Some);
                                            }
                                        }
                                        assert(scope.entries@[i as int].table == Some(t));
                                        assert(self.tables@[t as int].info.columns@ == cols@);
                                        assert forall|x: SqliteStorageClass| #[trigger] class_known(
                                            *e,
                                            scope.entries@,
                                            self.tables@,
                                            x,
                                        ) implies cols@[c as int].storage_class == Some(x) by {
                                            assert(e->ColumnRef_table is None);
                                            assert(e->ColumnRef_column@ == column@);
                                            let k = choose|k: int|
                                                #[trigger] first_holder(scope.entries@, self.tables@, column@, k) && column_class(
                                                    self.tables@[scope.entries@[k].table->Some_0 as int].info.columns@,
                                                    column@,
                                                ) == Some(x);
                                            assert(k == i);
                                        }
                                    }
                                    return cols[c].storage_class;
                                }
                            }
                            i += 1;
                        }
                        proof {
                            assert forall|k: int| !#[trigger] first_holder(scope.entries@, self.tables@, column@, k) by {
                                if 0 <= k < scope.entries@.len() {
                                    assert(!(scope.entries@[k].table is Some && has_column(
                                        self.tables@[scope.entries@[k].table->Some_0 as int].info.columns@,
                                        column@,
                                    )));
                                }
                            }
                        }
                        None
                    },
                }
            },
            SqlExpr::Cast { target_type, .. } => SqliteStorageClass::from_str_strict(target_type.as_str()),
            _ => None,
        }
    }

    /// Reports a comparison of two expressions whose storage classes are incompatible.
    fn check_type_compat(&mut self, left: &SqlExpr, op: &Token, right: &SqlExpr, scope: &QueryScope)
        requires
            old(self).wf(),
            scope_ok(scope.entries@, old(self).tables@.len() as int),
        ensures
            final(self).extends(*old(self)),
            final(self).quiet_without_schema(*old(self)),
            ({
                &&& left matches SqlExpr::Literal(a)
                &&& right matches SqlExpr::Literal(b)
                &&& is_comparison(op.ttype)
                &&& literal_class(a.ttype) matches Some(x)
                &&& literal_class(b.ttype) matches Some(y)
                &&& !compatible(x, y)
            }) ==> final(self).added(*old(self), Rule::TypeMismatch),
            forall|x: SqliteStorageClass, y: SqliteStorageClass|
                is_comparison(op.ttype) && #[trigger] class_known(*left, scope.entries@, old(self).tables@, x)
                    && #[trigger] class_known(*right, scope.entries@, old(self).tables@, y) && !compatible(x, y)
                    ==> final(self).added(*old(self), Rule::TypeMismatch),
    {
        let compares = match &op.ttype {
            Type::Equal | Type::BangEqual | Type::LessGreater | Type::Less | Type::Greater
            | Type::LessEqual | Type::GreaterEqual => true,
            _ => false,
        };
        if !compares {
            return;
        }
        let lt = self.infer_type(left, scope);
        let rt = self.infer_type(right, scope);
        if let (Some(a), Some(b)) = (lt, rt) {
            if !types_compatible(a, b) {
                let mut note = concat4("comparing ", a.as_str(), " with ", b.as_str());
                note.append(" may produce unexpected results");
                let e = self.err("Type mismatch in comparison", note.as_str(), op, Rule::TypeMismatch);
                self.push(e);
                assert(self.errors@[old(self).errors@.len() as int].rule == Rule::TypeMismatch);
            }
        }
    }

    /// Reports `expr = NULL`, `expr != NULL` and `expr <> NULL`, which are never true, with
    /// IS NULL or IS NOT NULL as the fix.
    fn check_equal_null(&mut self, op: &Token, right: &SqlExpr)
        requires
            old(self).wf(),
        ensures
            final(self).extends(*old(self)),
            final(self).quiet_without_schema(*old(self)),
            is_eq_op(op.ttype) ==> (right matches SqlExpr::Literal(t) ==> (t.ttype == Type::Keyword(Keyword::NULL)
                ==> final(self).added_fix(
                *old(self),
                Rule::EqualNull,
                Some(
                    if op.ttype == Type::Equal {
                        "IS NULL"@
                    } else {
                        "IS NOT NULL"@
                    },
                ),
            ))),
    {
        let is_null = match right {
            SqlExpr::Literal(t) => match &t.ttype {
                Type::Keyword(k) => *k == Keyword::NULL,
                _ => false,
            },
            _ => false,
        };
        if !is_null {
            return;
        }
        let (fix, shown) = match &op.ttype {
            Type::Equal => ("IS NULL", "="),
            Type::BangEqual => ("IS NOT NULL", "!="),
            Type::LessGreater => ("IS NOT NULL", "<>"),
            _ => {
                return;
            },
        };
        let note = concat3("`", shown, " NULL` is never true: NULL is not equal (nor unequal) to anything");
        let mut e = self.err("Comparison with NULL", note.as_str(), op, Rule::EqualNull);
        let mut message = concat4("Replace `", shown, " NULL` with `", fix);
        message.append("`");
        let replacement = concat2(fix, "");
        let end_col = match right {
            SqlExpr::Literal(t) => if t.line == op.line {
                t.end
            } else {
                op.end
            },
            _ => op.end,
        };
        e.suggestion = Some(
            Suggestion {
                message,
                replacement,
                start_line: op.line,
                start_col: op.start,
                end_line: op.line,
                end_col,
            },
        );
        self.push(e);
        proof {
            reveal_strlit("");
            let k = old(self).errors@.len() as int;
            assert(self.errors@[k].rule == Rule::EqualNull);
            assert(self.errors@[k].suggestion->Some_0.replacement@ =~= fix@);
        }
    }

    /// Reports `LIKE 'text'` whose pattern has no wildcard, with `=` as the fix.
    fn check_like(&mut self, op: Keyword, negated: bool, pattern: &SqlExpr)
        requires
            old(self).wf(),
        ensures
            final(self).extends(*old(self)),
            final(self).quiet_without_schema(*old(self)),
            op == Keyword::LIKE ==> (pattern matches SqlExpr::Literal(t) ==> (t.ttype matches Type::String(s)
                ==> (!has_wildcard(s@) ==> final(self).added_fix(
                *old(self),
                Rule::LikeNoWildcards,
                Some(
                    if negated {
                        "!= "@
                    } else {
                        "= "@
                    } + "'"@ + s@ + "'"@,
                ),
            )))),
    {
        if op != Keyword::LIKE {
            return;
        }
        if let SqlExpr::Literal(t) = pattern {
            if let Type::String(text) = &t.ttype {
                if !has_wildcard_exec(text.as_str()) {
                    let quoted = concat3("'", text.as_str(), "'");
                    let relation = if negated {
                        "!= "
                    } else {
                        "= "
                    };
                    let replacement = concat2(relation, quoted.as_str());
                    let note = concat3(
                        "LIKE ",
                        quoted.as_str(),
                        " has no wildcard (% or _) and matches like a plain comparison",
                    );
                    let mut e = self.err("LIKE without wildcards", note.as_str(), t, Rule::LikeNoWildcards);
                    let mut message = concat2("Use `", replacement.as_str());
                    message.append("` instead of LIKE");
                    e.suggestion = Some(Self::replace_fix(message, replacement, t));
                    self.push(e);
                    proof {
                        let k = old(self).errors@.len() as int;
                        assert(self.errors@[k].rule == Rule::LikeNoWildcards);
                        assert(self.errors@[k].suggestion->Some_0.replacement@ =~= if negated {
                            "!= "@
                        } else {
                            "= "@
                        } + "'"@ + text@ + "'"@);
                    }
                }
            }
        }
    }

    /// Reports `BETWEEN low AND high` with integer bounds where low is above high, which
    /// matches nothing, with the bounds swapped as the fix.
    fn check_between(&mut self, low: &SqlExpr, high: &SqlExpr)
        requires
            old(self).wf(),
        ensures
            final(self).extends(*old(self)),
            final(self).quiet_without_schema(*old(self)),
            low matches SqlExpr::Literal(a) ==> (high matches SqlExpr::Literal(b) ==> (a.ttype matches Type::Number(x) ==> (
            b.ttype matches Type::Number(y) ==> (decimal_value(x@) matches Some(u) ==> (decimal_value(y@) matches Some(v)
                ==> (u > v ==> final(self).added_fix(
                *old(self),
                Rule::ReversedBetween,
                Some("BETWEEN "@ + y@ + " AND "@ + x@),
            ))))))),
    {
        if let (SqlExpr::Literal(a), SqlExpr::Literal(b)) = (low, high) {
            if let (Type::Number(x), Type::Number(y)) = (&a.ttype, &b.ttype) {
                if let (Some(u), Some(v)) = (parse_decimal(x.as_str()), parse_decimal(y.as_str())) {
                    if u > v {
                        let mut fixed = concat4("BETWEEN ", y.as_str(), " AND ", x.as_str());
                        let note = concat4("BETWEEN ", x.as_str(), " AND ", y.as_str());
                        let mut note = note;
                        note.append(" matches nothing: the lower bound is above the upper bound");
                        let mut e = self.err("Reversed BETWEEN bounds", note.as_str(), a, Rule::ReversedBetween);
                        let message = concat2("Swap the bounds: ", fixed.as_str());
                        e.suggestion = Some(
                            Suggestion {
                                message,
                                replacement: fixed,
                                start_line: a.line,
                                start_col: a.start,
                                end_line: b.line,
                                end_col: b.end,
                            },
                        );
                        self.push(e);
                        assert(self.errors@[old(self).errors@.len() as int].rule == Rule::ReversedBetween);
                    }
                }
            }
        }
    }

    /// Reports UPDATE or DELETE without WHERE, which touches every row of `table`.
    fn report_missing_where(&mut self, what: &str, table: &str, token: &Token)
        requires
            old(self).wf(),
        ensures
            final(self).extends(*old(self)),
            final(self).quiet_without_schema(*old(self)),
            final(self).added_where_fix(*old(self)),
    {
        let mut note = concat3(what, " without WHERE affects every row of table '", table);
        note.append("'");
        let mut e = self.err("Missing WHERE clause", note.as_str(), token, Rule::MissingWhere);
        e.suggestion = Some(
            Suggestion {
                message: String::from_str("Add a WHERE clause to limit the affected rows"),
                replacement: String::new(),
                start_line: token.line,
                start_col: token.end,
                end_line: token.line,
                end_col: token.end,
            },
        );
        self.push(e);
        assert(self.errors@[old(self).errors@.len() as int].rule == Rule::MissingWhere);
        assert(self.errors@[old(self).errors@.len() as int].suggestion->Some_0.message@ == where_fix_message());
    }

    /// Checks an expression: its column references against `scope`, its comparisons,
    /// NULL tests, LIKE patterns and BETWEEN bounds, and the queries nested in it.
    fn check_expr(&mut self, e: &SqlExpr, scope: &QueryScope)
        requires
            old(self).wf(),
            scope_ok(scope.entries@, old(self).tables@.len() as int),
        ensures
            final(self).extends(*old(self)),
            final(self).quiet_without_schema(*old(self)),
            *e matches SqlExpr::BinaryOp { op, right, .. } ==> (is_eq_op(op.ttype) ==> (*right matches SqlExpr::Literal(t)
                ==> (t.ttype == Type::Keyword(Keyword::NULL) ==> final(self).added(*old(self), Rule::EqualNull)))),
            *e matches SqlExpr::Like { op, pattern, .. } ==> (op == Keyword::LIKE ==> (*pattern matches SqlExpr::Literal(t)
                ==> (t.ttype matches Type::String(s) ==> (!has_wildcard(s@) ==> final(self).added(
                *old(self),
                Rule::LikeNoWildcards,
            ))))),
            forall|x: SqlExpr, rule: Rule| #[trigger] warns_within(*e, x, rule) ==> final(self).added_fix(
                *old(self),
                rule,
                warning_fix(x, rule),
            ),
            forall|c: Seq<char>|
                #[trigger] bare_column_in(*e, c) && unknown_column_ref(None, c, scope.entries@, old(self).tables@)
                    ==> final(self).added_names_hint(*old(self), c, scope_column_names(scope.entries@, old(self).tables@)),
            *e matches SqlExpr::ColumnRef { table, column, .. } ==> ({
                let unknown = unknown_column_ref(table, column@, scope.entries@, old(self).tables@);
                &&& unknown ==> final(self).errors@.len() == old(self).errors@.len() + 1
                    && final(self).errors@.last().rule == Rule::UnknownColumn
                &&& !unknown ==> final(self).errors == old(self).errors
            }),
        decreases e,
    {
        proof {
            assert(!(e is ColumnRef || e is BinaryOp || e is UnaryOp || e is Paren || e is Between || e is IsNull
                || e is Like || e is Cast || e is Collate) ==> forall|x: SqlExpr, rule: Rule| !warns_within(*e, x, rule));
            assert(!(e is ColumnRef || e is BinaryOp || e is UnaryOp || e is Paren || e is Between || e is IsNull
                || e is Like || e is Cast || e is Collate) ==> forall|c: Seq<char>| !bare_column_in(*e, c));
        }
        match e {
            SqlExpr::ColumnRef { token, table, column, .. } => {
                proof {
                    assert(forall|x: SqlExpr, rule: Rule| !warns_within(*e, x, rule));
                    reveal_strlit("*");
                    assert("*"@ =~= seq!['*']);
                }
                if str_eq(column.as_str(), "*") {
                    assert(!unknown_column_ref(*table, column@, scope.entries@, old(self).tables@));
                    return;
                }
                assert(column@ != seq!['*']);
                match table {
                    Some(name) => {
                        match scope.resolve_table(name.as_str()) {
                            Some(t) => {
                                proof {
                                    let i = choose|i: int| 0 <= i < scope.entries@.len() && scope.entries@[i].table == Some(t)
                                        && scope.entries@[i].name@ == lowercase(name@);
                                    assert(scope.entries@[i].table matches Some(t) ==> t < self.tables@.len());
                                    assert forall|j: int| 0 <= j < scope.entries@.len() && (#[trigger] scope.entries@[j]).name@
                                        == lowercase(name@) implies j == i by {
                                        if j < i {
                                            assert(scope.entries@[j].name@ != scope.entries@[i].name@);
                                        } else if j > i {
                                            assert(scope.entries@[i].name@ != scope.entries@[j].name@);
                                        }
                                    }
                                }
                                self.check_column_in_table(column.as_str(), token, t);
                                assert(unknown_column_ref(*table, column@, scope.entries@, old(self).tables@)
                                    == !has_column(old(self).tables@[t as int].info.columns@, column@));
                            },
                            None => {
                                assert(!unknown_column_ref(*table, column@, scope.entries@, old(self).tables@));
                            },
                        }
                    },
                    None => {
                        if !scope.is_empty() && !self.scope_has_column(scope, column.as_str()) {
                            let all = self.scope_columns(scope);
                            let hints = suggest_from_list(column.as_str(), &all);
                            let note = concat3("column '", column.as_str(), "' does not exist in any table in scope");
                            proof {
                                if old(self).tables@.len() == 0 {
                                    let j = 0int;
                                    assert(scope.entries@[j].table is None);
                                }
                            }
                            self.push_unknown("Unknown column", note, &hints, token, Rule::UnknownColumn);
                            assert(unknown_column_ref(*table, column@, scope.entries@, old(self).tables@));
                            proof {
                                let k = self.errors@.len() - 1;
                                lemma_hints_fit(
                                    self.errors@[k],
                                    column@,
                                    scope_column_names(scope.entries@, old(self).tables@),
                                    hints@,
                                );
                                assert(self.errors@[k].rule == Rule::UnknownColumn);
                            }
                        } else {
                            assert(!unknown_column_ref(*table, column@, scope.entries@, old(self).tables@));
                        }
                    },
                }
                proof {
                    if table is None && unknown_column_ref(*table, column@, scope.entries@, old(self).tables@) {
                        let k = self.errors@.len() - 1;
                        assert(self.errors@[k].rule == Rule::UnknownColumn);
                    }
                }
            },
            SqlExpr::BinaryOp { left, op, right } => {
                self.check_expr(left, scope);
                let ghost s1 = *self;
                self.check_expr(right, scope);
                let ghost before_compat = *self;
                self.check_type_compat(left, op, right, scope);
                let ghost after_compat = *self;
                self.check_equal_null(op, right);
                proof {
                    Self::lemma_extends_trans(s1, before_compat, after_compat);
                    Self::lemma_extends_trans(s1, after_compat, *self);
                    Self::lemma_extends_trans(before_compat, after_compat, *self);
                    assert forall|x: SqlExpr, rule: Rule| #[trigger] warns_within(*e, x, rule) implies self.added_fix(*old(self), rule, warning_fix(x, rule)) by {
                        if x == *e && local_warning(*e, rule) {
                            if rule == Rule::TypeMismatch {
                                Self::lemma_added_no_fix(before_compat, after_compat, rule);
                                Self::lemma_fix_since_earlier(*old(self), before_compat, after_compat, rule, warning_fix(x, rule));
                                Self::lemma_fix_stays(*old(self), after_compat, *self, rule, warning_fix(x, rule));
                            } else {
                                Self::lemma_fix_since_earlier(*old(self), after_compat, *self, rule, warning_fix(x, rule));
                            }
                        } else if warns_within(**left, x, rule) {
                            Self::lemma_fix_stays(*old(self), s1, *self, rule, warning_fix(x, rule));
                        } else {
                            assert(warns_within(**right, x, rule));
                            Self::lemma_fix_since_earlier(*old(self), s1, before_compat, rule, warning_fix(x, rule));
                            Self::lemma_fix_stays(*old(self), before_compat, *self, rule, warning_fix(x, rule));
                        }
                    }
                    assert forall|c: Seq<char>|
                        #[trigger] bare_column_in(*e, c) && unknown_column_ref(None, c, scope.entries@, old(self).tables@)
                        implies self.added_names_hint(*old(self), c, scope_column_names(scope.entries@, old(self).tables@)) by {
                        if bare_column_in(**left, c) {
                            Self::lemma_names_hint_stays(*old(self), s1, *self, c, scope_column_names(scope.entries@, old(self).tables@));
                        } else {
                            assert(bare_column_in(**right, c));
                            Self::lemma_names_hint_since_earlier(*old(self), s1, before_compat, c, scope_column_names(scope.entries@, old(self).tables@));
                            Self::lemma_names_hint_stays(*old(self), before_compat, *self, c, scope_column_names(scope.entries@, old(self).tables@));
                        }
                    }
                }
            },
            SqlExpr::UnaryOp { operand, .. } => {
                self.check_expr(operand, scope);
                proof {
                    assert forall|x: SqlExpr, rule: Rule| #[trigger] warns_within(*e, x, rule) implies self.added_fix(*old(self), rule, warning_fix(x, rule)) by {
                        assert(warns_within(**operand, x, rule));
                    }
                    assert forall|c: Seq<char>|
                        #[trigger] bare_column_in(*e, c) && unknown_column_ref(None, c, scope.entries@, old(self).tables@)
                        implies self.added_names_hint(*old(self), c, scope_column_names(scope.entries@, old(self).tables@)) by {
                        assert(bare_column_in(**operand, c));
                    }
                }
            },
            SqlExpr::FunctionCall { args, .. } => {
                let mut i: usize = 0;
                while i < args.len()
                    invariant
                self.extends(*old(self)),
                self.quiet_without_schema(*old(self)),
                scope_ok(scope.entries@, self.tables@.len() as int),
                        e is FunctionCall,
                        e->FunctionCall_args == *args,
                        i <= args.len(),
                    decreases args.len() - i,
                {
                    proof {
                        assert(decreases_to!(*e => e->FunctionCall_args));
                        assert(decreases_to!(*args => args@));
                        assert(decreases_to!(args@ => args@[i as int]));
                    }
                    self.check_expr(&args[i], scope);
                    i += 1;
                }
            },
            SqlExpr::WindowFunctionCall { args, filter, .. } => {
                let mut i: usize = 0;
                while i < args.len()
                    invariant
                self.extends(*old(self)),
                self.quiet_without_schema(*old(self)),
                scope_ok(scope.entries@, self.tables@.len() as int),
                        e is WindowFunctionCall,
                        e->WindowFunctionCall_args == *args,
                        i <= args.len(),
                    decreases args.len() - i,
                {
                    proof {
                        assert(decreases_to!(*e => e->WindowFunctionCall_args));
                        assert(decreases_to!(*args => args@));
                        assert(decreases_to!(args@ => args@[i as int]));
                    }
                    self.check_expr(&args[i], scope);
                    i += 1;
                }
                if let Some(f) = filter {
                    self.check_expr(f, scope);
                }
            },
            SqlExpr::Paren(inner) => {
                self.check_expr(inner, scope);
                proof {
                    assert forall|x: SqlExpr, rule: Rule| #[trigger] warns_within(*e, x, rule) implies self.added_fix(*old(self), rule, warning_fix(x, rule)) by {
                        assert(warns_within(**inner, x, rule));
                    }
                    assert forall|c: Seq<char>|
                        #[trigger] bare_column_in(*e, c) && unknown_column_ref(None, c, scope.entries@, old(self).tables@)
                        implies self.added_names_hint(*old(self), c, scope_column_names(scope.entries@, old(self).tables@)) by {
                        assert(bare_column_in(**inner, c));
                    }
                }
            },
            SqlExpr::Subquery(sel) => {
                self.check_select(sel);
            },
            SqlExpr::Exists { subquery, .. } => {
                self.check_select(subquery);
            },
            SqlExpr::InList { expr, values, .. } => {
                self.check_expr(expr, scope);
                let mut i: usize = 0;
                while i < values.len()
                    invariant
                self.extends(*old(self)),
                self.quiet_without_schema(*old(self)),
                scope_ok(scope.entries@, self.tables@.len() as int),
                        e is InList,
                        e->InList_values == *values,
                        i <= values.len(),
                    decreases values.len() - i,
                {
                    proof {
                        assert(decreases_to!(*e => e->InList_values));
                        assert(decreases_to!(*values => values@));
                        assert(decreases_to!(values@ => values@[i as int]));
                    }
                    self.check_expr(&values[i], scope);
                    i += 1;
                }
            },
            SqlExpr::InSelect { expr, subquery, .. } => {
                self.check_expr(expr, scope);
                self.check_select(subquery);
            },
            SqlExpr::Between { expr, low, high, .. } => {
                self.check_expr(expr, scope);
                let ghost s1 = *self;
                self.check_expr(low, scope);
                let ghost s2 = *self;
                self.check_expr(high, scope);
                let ghost before_between = *self;
                self.check_between(low, high);
                proof {
                    Self::lemma_extends_trans(s1, s2, before_between);
                    Self::lemma_extends_trans(s1, before_between, *self);
                    Self::lemma_extends_trans(s2, before_between, *self);
                    assert forall|x: SqlExpr, rule: Rule| #[trigger] warns_within(*e, x, rule) implies self.added_fix(*old(self), rule, warning_fix(x, rule)) by {
                        if x == *e && local_warning(*e, rule) {
                            Self::lemma_fix_since_earlier(*old(self), before_between, *self, rule, warning_fix(x, rule));
                        } else if warns_within(**expr, x, rule) {
                            Self::lemma_fix_stays(*old(self), s1, *self, rule, warning_fix(x, rule));
                        } else if warns_within(**low, x, rule) {
                            assert(warns_within(**low, x, rule));
                            Self::lemma_fix_since_earlier(*old(self), s1, s2, rule, warning_fix(x, rule));
                            Self::lemma_fix_stays(*old(self), s2, *self, rule, warning_fix(x, rule));
                        } else {
                            assert(warns_within(**high, x, rule));
                            Self::lemma_fix_since_earlier(*old(self), s2, before_between, rule, warning_fix(x, rule));
                            Self::lemma_fix_stays(*old(self), before_between, *self, rule, warning_fix(x, rule));
                        }
                    }
                    assert forall|c: Seq<char>|
                        #[trigger] bare_column_in(*e, c) && unknown_column_ref(None, c, scope.entries@, old(self).tables@)
                        implies self.added_names_hint(*old(self), c, scope_column_names(scope.entries@, old(self).tables@)) by {
                                                if bare_column_in(**expr, c) {
                            Self::lemma_names_hint_stays(*old(self), s1, *self, c, scope_column_names(scope.entries@, old(self).tables@));
                        } else if bare_column_in(**low, c) {
                            assert(bare_column_in(**low, c));
                            Self::lemma_names_hint_since_earlier(*old(self), s1, s2, c, scope_column_names(scope.entries@, old(self).tables@));
                            Self::lemma_names_hint_stays(*old(self), s2, *self, c, scope_column_names(scope.entries@, old(self).tables@));
                        } else {
                            assert(bare_column_in(**high, c));
                            Self::lemma_names_hint_since_earlier(*old(self), s2, before_between, c, scope_column_names(scope.entries@, old(self).tables@));
                            Self::lemma_names_hint_stays(*old(self), before_between, *self, c, scope_column_names(scope.entries@, old(self).tables@));
                        }
                    }
                }
            },
            SqlExpr::IsNull { expr, .. } => {
                self.check_expr(expr, scope);
                proof {
                    assert forall|x: SqlExpr, rule: Rule| #[trigger] warns_within(*e, x, rule) implies self.added_fix(*old(self), rule, warning_fix(x, rule)) by {
                        assert(warns_within(**expr, x, rule));
                    }
                    assert forall|c: Seq<char>|
                        #[trigger] bare_column_in(*e, c) && unknown_column_ref(None, c, scope.entries@, old(self).tables@)
                        implies self.added_names_hint(*old(self), c, scope_column_names(scope.entries@, old(self).tables@)) by {
                        assert(bare_column_in(**expr, c));
                    }
                }
            },
            SqlExpr::Like { expr, pattern, escape, op, negated } => {
                self.check_expr(expr, scope);
                let ghost s1 = *self;
                self.check_expr(pattern, scope);
                let ghost s2 = *self;
                if let Some(x) = escape {
                    self.check_expr(x, scope);
                }
                let ghost s3 = *self;
                self.check_like(*op, *negated, pattern);
                proof {
                    Self::lemma_extends_trans(s1, s2, s3);
                    Self::lemma_extends_trans(s1, s3, *self);
                    Self::lemma_extends_trans(s2, s3, *self);
                    assert forall|x: SqlExpr, rule: Rule| #[trigger] warns_within(*e, x, rule) implies self.added_fix(*old(self), rule, warning_fix(x, rule)) by {
                        if x == *e && local_warning(*e, rule) {
                            Self::lemma_fix_since_earlier(*old(self), s3, *self, rule, warning_fix(x, rule));
                        } else if warns_within(**expr, x, rule) {
                            Self::lemma_fix_stays(*old(self), s1, *self, rule, warning_fix(x, rule));
                        } else {
                            assert(warns_within(**pattern, x, rule));
                            Self::lemma_fix_since_earlier(*old(self), s1, s2, rule, warning_fix(x, rule));
                            Self::lemma_fix_stays(*old(self), s2, *self, rule, warning_fix(x, rule));
                        }
                    }
                    assert forall|c: Seq<char>|
                        #[trigger] bare_column_in(*e, c) && unknown_column_ref(None, c, scope.entries@, old(self).tables@)
                        implies self.added_names_hint(*old(self), c, scope_column_names(scope.entries@, old(self).tables@)) by {
                                                if bare_column_in(**expr, c) {
                            Self::lemma_names_hint_stays(*old(self), s1, *self, c, scope_column_names(scope.entries@, old(self).tables@));
                        } else {
                            assert(bare_column_in(**pattern, c));
                            Self::lemma_names_hint_since_earlier(*old(self), s1, s2, c, scope_column_names(scope.entries@, old(self).tables@));
                            Self::lemma_names_hint_stays(*old(self), s2, *self, c, scope_column_names(scope.entries@, old(self).tables@));
                        }
                    }
                }
            },
            SqlExpr::Cast { expr, .. } => {
                self.check_expr(expr, scope);
                proof {
                    assert forall|x: SqlExpr, rule: Rule| #[trigger] warns_within(*e, x, rule) implies self.added_fix(*old(self), rule, warning_fix(x, rule)) by {
                        assert(warns_within(**expr, x, rule));
                    }
                    assert forall|c: Seq<char>|
                        #[trigger] bare_column_in(*e, c) && unknown_column_ref(None, c, scope.entries@, old(self).tables@)
                        implies self.added_names_hint(*old(self), c, scope_column_names(scope.entries@, old(self).tables@)) by {
                        assert(bare_column_in(**expr, c));
                    }
                }
            },
            SqlExpr::Case { operand, when_clauses, else_clause } => {
                if let Some(o) = operand {
                    self.check_expr(o, scope);
                }
                let mut i: usize = 0;
                while i < when_clauses.len()
                    invariant
                self.extends(*old(self)),
                self.quiet_without_schema(*old(self)),
                scope_ok(scope.entries@, self.tables@.len() as int),
                        e is Case,
                        e->Case_when_clauses == *when_clauses,
                        i <= when_clauses.len(),
                    decreases when_clauses.len() - i,
                {
                    proof {
                        assert(decreases_to!(*e => e->Case_when_clauses));
                        assert(decreases_to!(*when_clauses => when_clauses@));
                        assert(decreases_to!(when_clauses@ => when_clauses@[i as int]));
                        assert(decreases_to!(when_clauses@[i as int] => when_clauses@[i as int].0));
                        assert(decreases_to!(when_clauses@[i as int] => when_clauses@[i as int].1));
                    }
                    self.check_expr(&when_clauses[i].0, scope);
                    self.check_expr(&when_clauses[i].1, scope);
                    i += 1;
                }
                if let Some(x) = else_clause {
                    self.check_expr(x, scope);
                }
            },
            SqlExpr::Collate { expr, .. } => {
                self.check_expr(expr, scope);
                proof {
                    assert forall|x: SqlExpr, rule: Rule| #[trigger] warns_within(*e, x, rule) implies self.added_fix(*old(self), rule, warning_fix(x, rule)) by {
                        assert(warns_within(**expr, x, rule));
                    }
                    assert forall|c: Seq<char>|
                        #[trigger] bare_column_in(*e, c) && unknown_column_ref(None, c, scope.entries@, old(self).tables@)
                        implies self.added_names_hint(*old(self), c, scope_column_names(scope.entries@, old(self).tables@)) by {
                        assert(bare_column_in(**expr, c));
                    }
                }
            },
            _ => {},
        }
    }

    /// Checks a SELECT: its common table expressions and each of its select cores.
    fn check_select(&mut self, sel: &SelectStmt)
        requires
            old(self).wf(),
        ensures
            select_first_table(*sel) matches Some(name) ==> (old(self).tables@.len() > 0 ==> (!old(self).knows_table(lowercase(name@)) ==> final(self).added_table_hint(*old(self), lowercase(name@)))),
            final(self).extends(*old(self)),
            final(self).quiet_without_schema(*old(self)),
            forall|x: SqlExpr, rule: Rule|
                #[trigger] opt_warns(core_where(sel.body.first), x, rule)
                    ==> final(self).added_fix(*old(self), rule, warning_fix(x, rule)),
            forall|c: Seq<char>|
                #[trigger] core_misses_column(sel.body.first, c, old(self).tables@) ==> final(self).added_names_hint(
                    *old(self),
                    c,
                    core_table_columns(sel.body.first, old(self).tables@),
                ),
        decreases sel,
    {
        let mut i: usize = 0;
        while i < sel.ctes.len()
            invariant
                self.extends(*old(self)),
                self.quiet_without_schema(*old(self)),
                i <= sel.ctes.len(),
            decreases sel.ctes.len() - i,
        {
            proof {
                assert(decreases_to!(*sel => sel.ctes));
                assert(decreases_to!(sel.ctes => sel.ctes@));
                assert(decreases_to!(sel.ctes@ => sel.ctes@[i as int]));
                assert(decreases_to!(sel.ctes@[i as int] => sel.ctes@[i as int].select));
            }
            self.check_select(&sel.ctes[i].select);
            i += 1;
        }
        proof {
            assert(decreases_to!(*sel => sel.body));
            assert(decreases_to!(sel.body => sel.body.first));
        }
        let ghost before_core = *self;
        self.check_select_core(&sel.body.first);
        let ghost after_core = *self;
        let mut i: usize = 0;
        while i < sel.body.rest.len()
            invariant
                self.extends(*old(self)),
                self.quiet_without_schema(*old(self)),
                self.extends(after_core),
                after_core.extends(before_core),
                before_core.extends(*old(self)),
                i <= sel.body.rest.len(),
            decreases sel.body.rest.len() - i,
        {
            proof {
                assert(decreases_to!(*sel => sel.body));
                assert(decreases_to!(sel.body => sel.body.rest));
                assert(decreases_to!(sel.body.rest => sel.body.rest@));
                assert(decreases_to!(sel.body.rest@ => sel.body.rest@[i as int]));
                assert(decreases_to!(sel.body.rest@[i as int] => sel.body.rest@[i as int].1));
            }
            self.check_select_core(&sel.body.rest[i].1);
            i += 1;
        }
        proof {
            if let Some(name) = select_first_table(*sel) {
                if old(self).tables@.len() > 0 && !old(self).knows_table(lowercase(name@)) {
                    Self::lemma_hint_stays(before_core, after_core, *self, lowercase(name@));
                    Self::lemma_hint_since_earlier(*old(self), before_core, *self, lowercase(name@));
                }
            }
            assert forall|x: SqlExpr, rule: Rule|
                #[trigger] opt_warns(core_where(sel.body.first), x, rule)
                    implies self.added_fix(*old(self), rule, warning_fix(x, rule)) by {
                Self::lemma_fix_stays(before_core, after_core, *self, rule, warning_fix(x, rule));
                Self::lemma_fix_since_earlier(*old(self), before_core, *self, rule, warning_fix(x, rule));
            }
            assert forall|c: Seq<char>|
                #[trigger] core_misses_column(sel.body.first, c, old(self).tables@) implies self.added_names_hint(
                    *old(self),
                    c,
                    core_table_columns(sel.body.first, old(self).tables@),
                ) by {
                let names = core_table_columns(sel.body.first, old(self).tables@);
                Self::lemma_names_hint_stays(before_core, after_core, *self, c, names);
                Self::lemma_names_hint_since_earlier(*old(self), before_core, *self, c, names);
            }
        }
    }

    /// Checks a select core: its FROM clause gives the scope its expressions are checked in.
    fn check_select_core(&mut self, core: &SelectCore)
        requires
            old(self).wf(),
        ensures
            !core.is_values ==> (core.from matches Some(f) ==> (f.first.source matches TableSource::Table { name, .. } ==> (old(self).tables@.len() > 0 ==> (!old(self).knows_table(lowercase(name@)) ==> final(self).added_table_hint(*old(self), lowercase(name@)))))),
            final(self).extends(*old(self)),
            final(self).quiet_without_schema(*old(self)),
            forall|x: SqlExpr, rule: Rule|
                #[trigger] opt_warns(core_where(*core), x, rule)
                    ==> final(self).added_fix(*old(self), rule, warning_fix(x, rule)),
            forall|c: Seq<char>|
                #[trigger] core_misses_column(*core, c, old(self).tables@) ==> final(self).added_names_hint(
                    *old(self),
                    c,
                    core_table_columns(*core, old(self).tables@),
                ),
        decreases core,
    {
        if core.is_values {
            return;
        }
        let scope = match &core.from {
            Some(from) => self.check_from_clause(from),
            None => QueryScope::empty(),
        };
        let ghost after_from = *self;
        let ghost tables = old(self).tables@;
        let ghost names = core_table_columns(*core, tables);
        proof {
            assert forall|c: Seq<char>| #[trigger] core_table_lacks(*core, c, tables) implies unknown_column_ref(
                None,
                c,
                scope.entries@,
                tables,
            ) && scope_column_names(scope.entries@, tables) == names by {
                let key = lowercase(core.from->Some_0.first.source->Table_name@);
                let t = choose|t: int|
                    0 <= t < tables.len() && (#[trigger] tables[t]).key@ == key && !has_column(tables[t].info.columns@, c);
                assert(old(self).knows_table(key));
                let u = scope.entries@[0].table->Some_0 as int;
                assert(single_table_scope(scope.entries@, tables, key));
                if u < t {
                    assert(tables[u].key@ != tables[t].key@);
                } else if t < u {
                    assert(tables[t].key@ != tables[u].key@);
                }
                assert(!may_have_column(scope.entries@[0], tables, c));
                let t2 = choose|t2: int| 0 <= t2 < tables.len() && (#[trigger] tables[t2]).key@ == key;
                if u < t2 {
                    assert(tables[u].key@ != tables[t2].key@);
                } else if t2 < u {
                    assert(tables[t2].key@ != tables[u].key@);
                }
                assert(scope.entries@.drop_last() =~= Seq::<ScopeEntry>::empty());
                assert(scope_column_names(scope.entries@.drop_last(), tables) =~= Seq::<String>::empty());
                assert(scope.entries@.last() == scope.entries@[0]);
                assert(scope_column_names(scope.entries@, tables) =~= column_names(tables[u].info.columns@));
            }
        }
        let mut i: usize = 0;
        while i < core.columns.len()
            invariant
                self.extends(*old(self)),
                self.quiet_without_schema(*old(self)),
                scope_ok(scope.entries@, self.tables@.len() as int),
                self.extends(after_from),
                after_from.extends(*old(self)),
                i <= core.columns.len(),
                tables == old(self).tables@,
                names == core_table_columns(*core, tables),
                forall|c: Seq<char>| #[trigger] core_table_lacks(*core, c, tables) ==> unknown_column_ref(
                    None,
                    c,
                    scope.entries@,
                    tables,
                ) && scope_column_names(scope.entries@, tables) == names,
                forall|c: Seq<char>, j: int|
                    0 <= j < i && core_table_lacks(*core, c, tables) && #[trigger] result_names_column(
                        core.columns@[j],
                        c,
                    ) ==> self.added_names_hint(*old(self), c, names),
            decreases core.columns.len() - i,
        {
            let ghost before = *self;
            if let ResultColumn::Expr { expr, .. } = &core.columns[i] {
                proof {
                    assert(decreases_to!(*core => core.columns));
                    assert(decreases_to!(core.columns => core.columns@));
                    assert(decreases_to!(core.columns@ => core.columns@[i as int]));
                }
                self.check_expr(expr, &scope);
            }
            proof {
                assert forall|c: Seq<char>, j: int|
                    0 <= j < i + 1 && core_table_lacks(*core, c, tables) && #[trigger] result_names_column(
                        core.columns@[j],
                        c,
                    ) implies self.added_names_hint(*old(self), c, names) by {
                    if j < i {
                        Self::lemma_names_hint_stays(*old(self), before, *self, c, names);
                    } else {
                        Self::lemma_names_hint_since_earlier(*old(self), before, *self, c, names);
                    }
                }
            }
            i += 1;
        }
        let ghost before_where = *self;
        if let Some(w) = &core.where_clause {
            self.check_expr(w, &scope);
        }
        let ghost after_where = *self;
        proof {
            assert forall|x: SqlExpr, rule: Rule|
                #[trigger] opt_warns(core.where_clause, x, rule) implies after_where.added_fix(*old(self), rule, warning_fix(x, rule)) by {
                Self::lemma_fix_since_earlier(*old(self), before_where, after_where, rule, warning_fix(x, rule));
            }
            assert forall|c: Seq<char>|
                core_table_lacks(*core, c, tables) && (core.where_clause matches Some(w) && bare_column_in(w, c)) implies after_where.added_names_hint(
                *old(self),
                c,
                names,
            ) by {
                assert(core_table_lacks(*core, c, tables));
                Self::lemma_names_hint_since_earlier(*old(self), before_where, after_where, c, names);
            }
            assert forall|c: Seq<char>, j: int|
                0 <= j < core.columns@.len() && core_table_lacks(*core, c, tables) && #[trigger] result_names_column(
                    core.columns@[j],
                    c,
                ) implies after_where.added_names_hint(*old(self), c, names) by {
                Self::lemma_names_hint_stays(*old(self), before_where, after_where, c, names);
            }
        }
        let mut i: usize = 0;
        while i < core.group_by.len()
            invariant
                self.extends(*old(self)),
                self.quiet_without_schema(*old(self)),
                scope_ok(scope.entries@, self.tables@.len() as int),
                self.extends(after_from),
                after_from.extends(*old(self)),
                self.extends(after_where),
                i <= core.group_by.len(),
                tables == old(self).tables@,
                names == core_table_columns(*core, tables),
                forall|c: Seq<char>| #[trigger] core_table_lacks(*core, c, tables) ==> unknown_column_ref(
                    None,
                    c,
                    scope.entries@,
                    tables,
                ) && scope_column_names(scope.entries@, tables) == names,
                forall|c: Seq<char>, j: int|
                    0 <= j < i && core_table_lacks(*core, c, tables) && #[trigger] bare_column_in(core.group_by@[j], c)
                        ==> self.added_names_hint(*old(self), c, names),
            decreases core.group_by.len() - i,
        {
            proof {
                assert(decreases_to!(*core => core.group_by));
                assert(decreases_to!(core.group_by => core.group_by@));
                assert(decreases_to!(core.group_by@ => core.group_by@[i as int]));
            }
            let ghost before = *self;
            self.check_expr(&core.group_by[i], &scope);
            proof {
                assert forall|c: Seq<char>, j: int|
                    0 <= j < i + 1 && core_table_lacks(*core, c, tables) && #[trigger] bare_column_in(core.group_by@[j], c)
                        implies self.added_names_hint(*old(self), c, names) by {
                    if j < i {
                        Self::lemma_names_hint_stays(*old(self), before, *self, c, names);
                    } else {
                        Self::lemma_names_hint_since_earlier(*old(self), before, *self, c, names);
                    }
                }
            }
            i += 1;
        }
        let ghost before_having = *self;
        if let Some(h) = &core.having {
            self.check_expr(h, &scope);
        }
        proof {
            assert forall|x: SqlExpr, rule: Rule|
                #[trigger] opt_warns(core_where(*core), x, rule) implies self.added_fix(*old(self), rule, warning_fix(x, rule)) by {
                Self::lemma_fix_stays(*old(self), after_where, *self, rule, warning_fix(x, rule));
            }
            assert forall|c: Seq<char>| #[trigger] core_misses_column(*core, c, old(self).tables@) implies self.added_names_hint(
                *old(self),
                c,
                core_table_columns(*core, old(self).tables@),
            ) by {
                if exists|j: int| 0 <= j < core.columns@.len() && result_names_column(#[trigger] core.columns@[j], c) {
                    let j = choose|j: int| 0 <= j < core.columns@.len() && result_names_column(#[trigger] core.columns@[j], c);
                    Self::lemma_names_hint_stays(*old(self), after_where, *self, c, names);
                } else if core.where_clause matches Some(w) && bare_column_in(w, c) {
                    Self::lemma_names_hint_stays(*old(self), after_where, *self, c, names);
                } else if exists|j: int| 0 <= j < core.group_by@.len() && bare_column_in(#[trigger] core.group_by@[j], c) {
                    let j = choose|j: int| 0 <= j < core.group_by@.len() && bare_column_in(#[trigger] core.group_by@[j], c);
                    Self::lemma_names_hint_stays(*old(self), before_having, *self, c, names);
                } else {
                    Self::lemma_names_hint_since_earlier(*old(self), before_having, *self, c, names);
                }
            }
            if let Some(f) = &core.from {
                if let TableSource::Table { name, .. } = &f.first.source {
                    if old(self).tables@.len() > 0 && !old(self).knows_table(lowercase(name@)) {
                        Self::lemma_hint_stays(*old(self), after_from, *self, lowercase(name@));
                    }
                }
            }
        }
    }

    /// Checks a FROM clause and gives the scope it makes visible; an ON condition is
    /// checked in the scope built up to it.
    fn check_from_clause(&mut self, from: &FromClause) -> (r: QueryScope)
        requires
            old(self).wf(),
        ensures
            from.first.source matches TableSource::Table { name, .. } ==> (old(self).tables@.len() > 0 ==> (!old(self).knows_table(lowercase(name@)) ==> final(self).added_table_hint(*old(self), lowercase(name@)))),
            from.first.source matches TableSource::Table { name, .. } ==> (from.joins@.len() == 0 ==> (old(self).knows_table(lowercase(name@)) ==> single_table_scope(
                r.entries@,
                old(self).tables@,
                lowercase(name@),
            ))),
            final(self).extends(*old(self)),
            final(self).quiet_without_schema(*old(self)),
            scope_ok(r.entries@, old(self).tables@.len() as int),
        decreases from,
    {
        let mut scope = QueryScope::empty();
        self.check_table_ref_into_scope(&from.first, &mut scope);
        let ghost after_first = *self;
        let ghost first_scope = scope.entries@;
        let mut i: usize = 0;
        while i < from.joins.len()
            invariant
                i == 0 ==> scope.entries@ == first_scope,
                self.extends(*old(self)),
                self.quiet_without_schema(*old(self)),
                scope_ok(scope.entries@, self.tables@.len() as int),
                self.extends(after_first),
                after_first.extends(*old(self)),
                i <= from.joins.len(),
            decreases from.joins.len() - i,
        {
            proof {
                assert(decreases_to!(*from => from.joins));
                assert(decreases_to!(from.joins => from.joins@));
                assert(decreases_to!(from.joins@ => from.joins@[i as int]));
                assert(decreases_to!(from.joins@[i as int] => from.joins@[i as int].table));
            }
            self.check_table_ref_into_scope(&from.joins[i].table, &mut scope);
            if let Some(JoinConstraint::On(expr)) = &from.joins[i].constraint {
                proof {
                    assert(decreases_to!(from.joins@[i as int] => from.joins@[i as int].constraint));
                }
                self.check_expr(expr, &scope);
            }
            i += 1;
        }
        proof {
            if let TableSource::Table { name, .. } = &from.first.source {
                if old(self).tables@.len() > 0 && !old(self).knows_table(lowercase(name@)) {
                    Self::lemma_hint_stays(*old(self), after_first, *self, lowercase(name@));
                }
            }
        }
        scope
    }

    /// Checks a table reference and adds the name it makes visible to `scope`: a known
    /// table under its alias or name, or an aliased subquery or table function as opaque.
    /// An unknown table is reported, unless the symbol table is empty.
    fn check_table_ref_into_scope(&mut self, tref: &TableRef, scope: &mut QueryScope)
        requires
            old(self).wf(),
            scope_ok(old(scope).entries@, old(self).tables@.len() as int),
        ensures
            final(self).extends(*old(self)),
            final(self).quiet_without_schema(*old(self)),
            scope_ok(final(scope).entries@, old(self).tables@.len() as int),
            final(scope).entries@.len() >= old(scope).entries@.len(),
            tref.source matches TableSource::Table { name, .. } ==> (old(self).tables@.len() > 0
                ==> (!old(self).knows_table(lowercase(name@)) ==> final(self).added_table_hint(*old(self), lowercase(name@)))),
            tref.source matches TableSource::Table { name, .. } ==> (old(scope).entries@.len() == 0
                ==> (old(self).knows_table(lowercase(name@)) ==> single_table_scope(
                final(scope).entries@,
                old(self).tables@,
                lowercase(name@),
            ))),
        decreases tref,
    {
        let ghost n = self.tables@.len() as int;
        match &tref.source {
            TableSource::Table { name, .. } => {
                if let Some(t) = self.check_table_exists(name.as_str(), &tref.token) {
                    match &tref.alias {
                        Some(a) => scope.add(a.as_str(), t, Ghost(n)),
                        None => scope.add(name.as_str(), t, Ghost(n)),
                    }
                }
            },
            TableSource::Subquery(sel) => {
                self.check_select(sel);
                if let Some(a) = &tref.alias {
                    scope.add_opaque(a.as_str(), Ghost(n));
                }
            },
            TableSource::TableFunction { .. } => {
                if let Some(a) = &tref.alias {
                    scope.add_opaque(a.as_str(), Ghost(n));
                }
            },
            TableSource::ParenFrom(inner) => {
                let inner_scope = self.check_from_clause(inner);
                scope.merge(inner_scope, Ghost(n));
            },
        }
    }

    /// Checks an INSERT: its table and columns exist, and each VALUES row has as many
    /// values as there are columns to fill; a SELECT it inserts is checked as a query.
    fn check_insert(&mut self, ins: &InsertStmt)
        requires
            old(self).wf(),
        ensures
            final(self).extends(*old(self)),
            final(self).quiet_without_schema(*old(self)),
            old(self).tables@.len() > 0 && !old(self).knows_table(lowercase(ins.table@)) ==> final(self).added_table_hint(*old(self), lowercase(ins.table@)),
            old(self).tables@.len() > 0 && !old(self).knows_table(lowercase(ins.table@)) && ins.select is None
                ==> final(self).errors@.len() == old(self).errors@.len() + 1,
            forall|t: int|
                0 <= t < old(self).tables@.len() && (#[trigger] old(self).tables@[t]).key@ == lowercase(ins.table@)
                    ==> {
                    let off = rows_off_width(ins.values@, insert_width(*ins, old(self).tables@[t].info));
                    &&& ins.select is None ==> count_rule(
                        final(self).errors@.subrange(old(self).errors@.len() as int, final(self).errors@.len() as int),
                        Rule::InsertValueCountMismatch,
                    ) == off
                    &&& off > 0 ==> final(self).added(*old(self), Rule::InsertValueCountMismatch)
                },
    {
        let table = self.check_table_exists(ins.table.as_str(), &ins.table_token);
        let ghost after_table = *self;
        let ghost o = old(self).errors@.len() as int;
        proof {
            assert(self.errors@.subrange(o, o) =~= Seq::<Error>::empty());
            if table is None {
                assert forall|t: int|
                    0 <= t < old(self).tables@.len() implies (#[trigger] old(self).tables@[t]).key@ != lowercase(
                    ins.table@,
                ) by {
                    if old(self).tables@[t].key@ == lowercase(ins.table@) {
                        assert(old(self).knows_table(lowercase(ins.table@)));
                    }
                }
            }
        }
        if let Some(t) = table {
            proof {
                assert(old(self).knows_table(lowercase(ins.table@)));
                assert(self.errors == old(self).errors);
                assert forall|u: int|
                    0 <= u < old(self).tables@.len() && (#[trigger] old(self).tables@[u]).key@ == lowercase(
                        ins.table@,
                    ) implies u == t by {
                    if u < t {
                        assert(old(self).tables@[u].key@ != old(self).tables@[t as int].key@);
                    } else if u > t {
                        assert(old(self).tables@[t as int].key@ != old(self).tables@[u].key@);
                    }
                }
            }
            let mut i: usize = 0;
            while i < ins.columns.len()
                invariant
                    self.extends(*old(self)),
                    self.quiet_without_schema(*old(self)),
                    t < self.tables@.len(),
                    i <= ins.columns.len(),
                    o == old(self).errors@.len(),
                    count_rule(self.errors@.subrange(o, self.errors@.len() as int), Rule::InsertValueCountMismatch)
                        == 0,
                decreases ins.columns.len() - i,
            {
                let col = &ins.columns[i];
                if find_column_in(&self.tables[t].info.columns, col.as_str()).is_none() {
                    let hints = self.suggest_column(col.as_str(), t);
                    let mut note = concat3("column '", col.as_str(), "' does not exist in table '");
                    note.append(ins.table.as_str());
                    note.append("'");
                    let ghost before = self.errors@;
                    self.push_unknown("Unknown column", note, &hints, &ins.table_token, Rule::UnknownColumn);
                    proof {
                        assert(self.errors@ =~= before.push(self.errors@.last()));
                        lemma_count_push(before, o, self.errors@.last(), Rule::InsertValueCountMismatch);
                    }
                }
                i += 1;
            }
            let expected = if ins.columns.len() == 0 {
                self.tables[t].info.columns.len()
            } else {
                ins.columns.len()
            };
            let mut i: usize = 0;
            while i < ins.values.len()
                invariant
                    self.extends(*old(self)),
                    self.quiet_without_schema(*old(self)),
                    t < self.tables@.len(),
                    i <= ins.values.len(),
                    o == old(self).errors@.len(),
                    expected == insert_width(*ins, old(self).tables@[t as int].info),
                    count_rule(self.errors@.subrange(o, self.errors@.len() as int), Rule::InsertValueCountMismatch)
                        == rows_off_width(ins.values@.take(i as int), expected as int),
                decreases ins.values.len() - i,
            {
                proof {
                    assert(ins.values@.take(i + 1).drop_last() =~= ins.values@.take(i as int));
                    assert(ins.values@.take(i + 1).last() == ins.values@[i as int]);
                }
                let ghost before = self.errors@;
                if ins.values[i].len() != expected {
                    let mut names: Vec<String> = Vec::new();
                    let cols = &self.tables[t].info.columns;
                    let mut j: usize = 0;
                    while j < cols.len()
                        invariant
                            j <= cols.len(),
                        decreases cols.len() - j,
                    {
                        names.push(cols[j].name.clone());
                        j += 1;
                    }
                    let mut note = String::from_str("row ");
                    note.append(usize_text(i + 1).as_str());
                    note.append(" has ");
                    note.append(usize_text(ins.values[i].len()).as_str());
                    note.append(" value(s) but ");
                    note.append(usize_text(expected).as_str());
                    note.append(" column(s) are expected (table '");
                    note.append(ins.table.as_str());
                    note.append("' has columns: ");
                    note.append(join_names(&names).as_str());
                    note.append(")");
                    let e = self.err("INSERT value count mismatch", note.as_str(), &ins.t, Rule::InsertValueCountMismatch);
                    self.push(e);
                    proof {
                        lemma_count_push(before, o, e, Rule::InsertValueCountMismatch);
                    }
                }
                i += 1;
            }
            proof {
                assert(ins.values@.take(ins.values@.len() as int) =~= ins.values@);
                let sub = self.errors@.subrange(o, self.errors@.len() as int);
                if count_rule(sub, Rule::InsertValueCountMismatch) > 0 {
                    lemma_count_some(sub, Rule::InsertValueCountMismatch);
                    let k = choose|k: int| 0 <= k < sub.len() && (#[trigger] sub[k]).rule == Rule::InsertValueCountMismatch;
                    assert(self.errors@[o + k] == sub[k]);
                }
            }
        }
        let ghost after_rows = *self;
        if let Some(sel) = &ins.select {
            self.check_select(sel);
            proof {
                if after_rows.added(*old(self), Rule::InsertValueCountMismatch) {
                    Self::lemma_added_stays(*old(self), after_rows, *self, Rule::InsertValueCountMismatch);
                }
            }
        }
        proof {
            if old(self).tables@.len() > 0 && !old(self).knows_table(lowercase(ins.table@)) {
                Self::lemma_hint_stays(*old(self), after_table, *self, lowercase(ins.table@));
            }
        }
    }

    /// Checks an UPDATE: its table and assigned columns exist, its expressions in the scope
    /// of its table and FROM clause; without WHERE it is reported.
    fn check_update(&mut self, upd: &UpdateStmt)
        requires
            old(self).wf(),
        ensures
            old(self).tables@.len() > 0 ==> (!old(self).knows_table(lowercase(upd.table@)) ==> final(self).added_table_hint(*old(self), lowercase(upd.table@))),
            final(self).extends(*old(self)),
            final(self).quiet_without_schema(*old(self)),
            upd.where_clause is None ==> final(self).added_where_fix(*old(self)),
            forall|x: SqlExpr, rule: Rule|
                #[trigger] opt_warns(upd.where_clause, x, rule) ==> final(self).added_fix(*old(self), rule, warning_fix(x, rule)),
    {
        let table = self.check_table_exists(upd.table.as_str(), &upd.table_token);
        let ghost after_table = *self;
        let ghost n = self.tables@.len() as int;
        let mut scope = QueryScope::empty();
        if let Some(t) = self.lookup(upd.table.as_str()) {
            match &upd.alias {
                Some(a) => scope.add(a.as_str(), t, Ghost(n)),
                None => scope.add(upd.table.as_str(), t, Ghost(n)),
            }
        }
        if let Some(from) = &upd.from {
            let from_scope = self.check_from_clause(from);
            scope.merge(from_scope, Ghost(n));
        }
        if let Some(t) = table {
            let mut i: usize = 0;
            while i < upd.set_clauses.len()
                invariant
                    self.extends(*old(self)),
                    self.quiet_without_schema(*old(self)),
                    scope_ok(scope.entries@, self.tables@.len() as int),
                    self.extends(after_table),
                    after_table.extends(*old(self)),
                    t < self.tables@.len(),
                    i <= upd.set_clauses.len(),
                decreases upd.set_clauses.len() - i,
            {
                let set = &upd.set_clauses[i];
                self.check_column_in_table(set.column.as_str(), &set.column_token, t);
                self.check_expr(&set.expr, &scope);
                i += 1;
            }
        }
        let ghost before_where = *self;
        match &upd.where_clause {
            Some(w) => self.check_expr(w, &scope),
            None => self.report_missing_where("UPDATE", upd.table.as_str(), &upd.table_token),
        }
        proof {
            assert forall|x: SqlExpr, rule: Rule|
                #[trigger] opt_warns(upd.where_clause, x, rule) implies self.added_fix(*old(self), rule, warning_fix(x, rule)) by {
                Self::lemma_fix_since_earlier(*old(self), before_where, *self, rule, warning_fix(x, rule));
            }
        }
        proof {
            if old(self).tables@.len() > 0 && !old(self).knows_table(lowercase(upd.table@)) {
                Self::lemma_hint_stays(*old(self), after_table, *self, lowercase(upd.table@));
            }
        }
    }

    /// Checks a DELETE: its table exists, its WHERE expression in the table's scope; without
    /// WHERE it is reported.
    fn check_delete(&mut self, del: &DeleteStmt)
        requires
            old(self).wf(),
        ensures
            final(self).extends(*old(self)),
            final(self).quiet_without_schema(*old(self)),
            del.where_clause is None ==> final(self).added_where_fix(*old(self)),
            forall|x: SqlExpr, rule: Rule|
                #[trigger] opt_warns(del.where_clause, x, rule) ==> final(self).added_fix(*old(self), rule, warning_fix(x, rule)),
            old(self).tables@.len() > 0 && !old(self).knows_table(lowercase(del.table@)) ==> final(self).added_table_hint(*old(self), lowercase(del.table@)),
    {
        let _ = self.check_table_exists(del.table.as_str(), &del.table_token);
        let ghost after_table = *self;
        let ghost n = self.tables@.len() as int;
        let mut scope = QueryScope::empty();
        if let Some(t) = self.lookup(del.table.as_str()) {
            match &del.alias {
                Some(a) => scope.add(a.as_str(), t, Ghost(n)),
                None => scope.add(del.table.as_str(), t, Ghost(n)),
            }
        }
        let ghost before_where = *self;
        match &del.where_clause {
            Some(w) => self.check_expr(w, &scope),
            None => self.report_missing_where("DELETE", del.table.as_str(), &del.table_token),
        }
        proof {
            assert forall|x: SqlExpr, rule: Rule|
                #[trigger] opt_warns(del.where_clause, x, rule) implies self.added_fix(*old(self), rule, warning_fix(x, rule)) by {
                Self::lemma_fix_since_earlier(*old(self), before_where, *self, rule, warning_fix(x, rule));
            }
        }
        proof {
            if old(self).tables@.len() > 0 && !old(self).knows_table(lowercase(del.table@)) {
                Self::lemma_hint_stays(*old(self), after_table, *self, lowercase(del.table@));
            }
        }
    }

    /// The second pass over a statement: checks queries and changes against the symbol
    /// table.
    fn second_pass(&mut self, s: &Stmt)
        requires
            old(self).wf(),
        ensures
            first_table(*s) matches Some(name) ==> (old(self).tables@.len() > 0 ==> (!old(self).knows_table(lowercase(name@)) ==> final(self).added_table_hint(*old(self), lowercase(name@)))),
            final(self).extends(*old(self)),
            final(self).quiet_without_schema(*old(self)),
            lacks_where(*s) ==> final(self).added_where_fix(*old(self)),
            width_mismatch(*s, old(self).tables@) ==> final(self).added(*old(self), Rule::InsertValueCountMismatch),
            forall|x: SqlExpr, rule: Rule| #[trigger] where_warns(*s, x, rule) ==> final(self).added_fix(
                *old(self),
                rule,
                warning_fix(x, rule),
            ),
            forall|c: Seq<char>|
                #[trigger] stmt_misses_column(*s, c, old(self).tables@) ==> final(self).added_names_hint(
                    *old(self),
                    c,
                    stmt_table_columns(*s, old(self).tables@),
                ),
        decreases s,
    {
        match s {
            Stmt::Explain { child, .. } => {
                self.second_pass(child);
                proof {
                    assert forall|x: SqlExpr, rule: Rule| #[trigger] where_warns(*s, x, rule) implies self.added_fix(
                        *old(self),
                        rule,
                        warning_fix(x, rule),
                    ) by {
                        assert(where_warns(**child, x, rule));
                    }
                    assert forall|c: Seq<char>| #[trigger] stmt_misses_column(*s, c, old(self).tables@) implies self.added_names_hint(
                        *old(self),
                        c,
                        stmt_table_columns(*s, old(self).tables@),
                    ) by {
                        assert(stmt_misses_column(**child, c, old(self).tables@));
                    }
                }
            },
            Stmt::Select(sel) => self.check_select(sel),
            Stmt::Insert(ins) => self.check_insert(ins),
            Stmt::Update(upd) => self.check_update(upd),
            Stmt::Delete(del) => self.check_delete(del),
            _ => {},
        }
    }

    /// Analyses the statements in two passes: first every CREATE TABLE enters the symbol
    /// table, then every query and change is checked against it.
    ///
    /// Every diagnostic names the analyzer's file; every created table is known
    /// afterwards; an UPDATE or DELETE without WHERE is always reported, with a fix that
    /// asks for a WHERE clause (`where_fix_message`); where the symbol
    /// table is not empty, a statement that names an unknown table first (INSERT, UPDATE,
    /// DELETE, or the first FROM table of a SELECT) is reported, with a fix naming the
    /// closest known table where one is within hint distance four (`hint_fits`); a WHERE
    /// clause that, at
    /// any depth of its operands, compares with `= NULL`, compares literals of incompatible
    /// classes, uses LIKE without wildcards or gives BETWEEN reversed bounds is reported,
    /// with the fix `warning_fix` names (`IS [NOT] NULL`, the plain comparison, the bounds
    /// swapped); a column named in a result column, WHERE, GROUP BY or HAVING of a SELECT
    /// on one known table that
    /// lacks it is reported, with a fix naming the closest column of that table where one
    /// is within hint distance four (`column_hint_fits`); and without a symbol table (no
    /// table known before and none created) no diagnostic is about unknown tables or
    /// columns or the width of INSERT rows.
    pub fn analyze(&mut self, ast: &Vec<Stmt>)
        requires
            old(self).wf(),
        ensures
            final(self).wf(),
            final(self).file_name() == old(self).file_name(),
            old(self).diagnostics().len() <= final(self).diagnostics().len(),
            forall|k: int| 0 <= k < old(self).diagnostics().len() ==> #[trigger] final(self).diagnostics()[k]
                == old(self).diagnostics()[k],
            forall|k: int| 0 <= k < final(self).diagnostics().len() ==> (#[trigger] final(self).diagnostics()[k]).file@
                == final(self).file_name(),
            forall|i: int| #![trigger ast@[i]] 0 <= i < ast@.len() ==> (ast@[i] matches Stmt::CreateTable(ct)
                ==> final(self).knows_table(lowercase(ct.name@))),
            forall|i: int| #![trigger ast@[i]] 0 <= i < ast@.len() ==> (ast@[i] matches Stmt::CreateTable(ct)
                ==> (ascii_text(ct.name@) ==> lowercase(ct.name@) == ascii_lower_seq(ct.name@))),
            (exists|i: int| 0 <= i < ast@.len() && lacks_where(#[trigger] ast@[i])) ==> exists|k: int|
                old(self).diagnostics().len() <= k < final(self).diagnostics().len()
                    && (#[trigger] final(self).diagnostics()[k]).rule == Rule::MissingWhere && (
                final(self).diagnostics()[k].suggestion matches Some(g) && g.message@ == where_fix_message()),
            forall|i: int| #![trigger ast@[i]] 0 <= i < ast@.len() ==> (first_table(ast@[i]) matches Some(n) ==> (
            final(self).table_count() > 0 && !final(self).knows_table(lowercase(n@)) ==> exists|k: int|
                old(self).diagnostics().len() <= k < final(self).diagnostics().len()
                    && (#[trigger] final(self).diagnostics()[k]).rule == Rule::UnknownTable && final(self).hint_fits(
                    final(self).diagnostics()[k],
                    lowercase(n@),
                ))),
            (exists|i: int| 0 <= i < ast@.len() && final(self).row_width_mismatch(#[trigger] ast@[i])) ==> exists|k: int|
                old(self).diagnostics().len() <= k < final(self).diagnostics().len()
                    && (#[trigger] final(self).diagnostics()[k]).rule == Rule::InsertValueCountMismatch,
            forall|x: SqlExpr, rule: Rule, i: int|
                0 <= i < ast@.len() && #[trigger] where_warns(ast@[i], x, rule) ==> exists|k: int|
                    old(self).diagnostics().len() <= k < final(self).diagnostics().len()
                        && (#[trigger] final(self).diagnostics()[k]).rule == rule && (warning_fix(x, rule) matches Some(f)
                        ==> (final(self).diagnostics()[k].suggestion matches Some(g) && g.replacement@ == f)),
            forall|c: Seq<char>, i: int|
                0 <= i < ast@.len() && #[trigger] final(self).misses_column(ast@[i], c) ==> exists|k: int|
                    old(self).diagnostics().len() <= k < final(self).diagnostics().len()
                        && (#[trigger] final(self).diagnostics()[k]).rule == Rule::UnknownColumn
                        && final(self).column_hint_fits(final(self).diagnostics()[k], ast@[i], c),
            old(self).table_count() == 0 && (forall|i: int| 0 <= i < ast@.len() ==> !creates_table(#[trigger] ast@[i]))
                ==> forall|k: int| old(self).diagnostics().len() <= k < final(self).diagnostics().len()
                ==> !schema_rule(#[trigger] final(self).diagnostics()[k].rule),
    {
        let mut i: usize = 0;
        while i < ast.len()
            invariant
                self.wf(),
                self.file@ == old(self).file@,
                self.errors == old(self).errors,
                i <= ast@.len(),
                forall|j: int| #![trigger ast@[j]] 0 <= j < i ==> (ast@[j] matches Stmt::CreateTable(ct)
                    ==> self.knows_table(lowercase(ct.name@))),
                forall|j: int| #![trigger ast@[j]] 0 <= j < i ==> (ast@[j] matches Stmt::CreateTable(ct)
                    ==> (ascii_text(ct.name@) ==> lowercase(ct.name@) == ascii_lower_seq(ct.name@))),
                (forall|j: int| 0 <= j < i ==> !creates_table(#[trigger] ast@[j])) ==> self.tables@ == old(self).tables@,
            decreases ast@.len() - i,
        {
            let ghost before = *self;
            self.first_pass(&ast[i]);
            proof {
                assert forall|j: int| #![trigger ast@[j]] 0 <= j < i + 1 implies (ast@[j] matches Stmt::CreateTable(ct)
                    ==> self.knows_table(lowercase(ct.name@))) by {
                    if j < i {
                        if let Stmt::CreateTable(ct) = ast@[j] {
                            assert(before.knows_table(lowercase(ct.name@)));
                        }
                    }
                }
            }
            i += 1;
        }
        let ghost mid = *self;
        let mut i: usize = 0;
        while i < ast.len()
            invariant
                self.extends(mid),
                self.quiet_without_schema(mid),
                mid.errors == old(self).errors,
                i <= ast@.len(),
                (exists|j: int| 0 <= j < i && lacks_where(#[trigger] ast@[j])) ==> self.added_where_fix(mid),
                forall|j: int| #![trigger ast@[j]] 0 <= j < i ==> (first_table(ast@[j]) matches Some(n) ==> (
                mid.tables@.len() > 0 && !mid.knows_table(lowercase(n@)) ==> self.added_table_hint(mid, lowercase(n@)))),
                (exists|j: int| 0 <= j < i && width_mismatch(#[trigger] ast@[j], mid.tables@)) ==> self.added(
                    mid,
                    Rule::InsertValueCountMismatch,
                ),
                forall|x: SqlExpr, rule: Rule, j: int|
                    0 <= j < i && #[trigger] where_warns(ast@[j], x, rule) ==> self.added_fix(mid, rule, warning_fix(x, rule)),
                forall|c: Seq<char>, j: int|
                    0 <= j < i && #[trigger] stmt_misses_column(ast@[j], c, mid.tables@) ==> self.added_names_hint(
                        mid,
                        c,
                        stmt_table_columns(ast@[j], mid.tables@),
                    ),
            decreases ast@.len() - i,
        {
            let ghost before = *self;
            self.second_pass(&ast[i]);
            proof {
                if exists|j: int| 0 <= j < i + 1 && lacks_where(#[trigger] ast@[j]) {
                    if exists|j: int| 0 <= j < i && lacks_where(#[trigger] ast@[j]) {
                        Self::lemma_where_fix_stays(mid, before, *self);
                    } else {
                        Self::lemma_where_fix_since_earlier(mid, before, *self);
                        assert(lacks_where(ast@[i as int]));
                    }
                }
                assert forall|j: int| #![trigger ast@[j]] 0 <= j < i + 1 implies (first_table(ast@[j]) matches Some(n) ==> (
                mid.tables@.len() > 0 && !mid.knows_table(lowercase(n@)) ==> self.added_table_hint(mid, lowercase(n@)))) by {
                    if let Some(n) = first_table(ast@[j]) {
                        if mid.tables@.len() > 0 && !mid.knows_table(lowercase(n@)) {
                            if j < i {
                                Self::lemma_hint_stays(mid, before, *self, lowercase(n@));
                            } else {
                                Self::lemma_hint_since_earlier(mid, before, *self, lowercase(n@));
                            }
                        }
                    }
                }
                assert forall|c: Seq<char>, j: int|
                    0 <= j < i + 1 && #[trigger] stmt_misses_column(ast@[j], c, mid.tables@) implies self.added_names_hint(
                        mid,
                        c,
                        stmt_table_columns(ast@[j], mid.tables@),
                    ) by {
                    let names = stmt_table_columns(ast@[j], mid.tables@);
                    if j < i {
                        Self::lemma_names_hint_stays(mid, before, *self, c, names);
                    } else {
                        Self::lemma_names_hint_since_earlier(mid, before, *self, c, names);
                    }
                }
                assert forall|x: SqlExpr, rule: Rule, j: int|
                    0 <= j < i + 1 && #[trigger] where_warns(ast@[j], x, rule) implies self.added_fix(
                        mid,
                        rule,
                        warning_fix(x, rule),
                    ) by {
                    if j < i {
                        Self::lemma_fix_stays(mid, before, *self, rule, warning_fix(x, rule));
                    } else {
                        Self::lemma_fix_since_earlier(mid, before, *self, rule, warning_fix(x, rule));
                    }
                }
                if exists|j: int| 0 <= j < i + 1 && width_mismatch(#[trigger] ast@[j], mid.tables@) {
                    if exists|j: int| 0 <= j < i && width_mismatch(#[trigger] ast@[j], mid.tables@) {
                        Self::lemma_added_stays(mid, before, *self, Rule::InsertValueCountMismatch);
                    } else {
                        assert(width_mismatch(ast@[i as int], mid.tables@));
                    }
                }
            }
            i += 1;
        }
        proof {
            assert forall|k: Seq<char>| mid.knows_table(k) implies self.knows_table(k) by {}
        }
    }
}

} // verus!
