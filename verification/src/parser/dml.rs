//! CREATE TABLE, INSERT, UPDATE and DELETE.

use vstd::prelude::*;

use super::Parser;
use super::column::{declared_class, quirky_type};
use super::stmt::kind_at;
use super::query::{continues_at, operand_row_from, simple_equality_in, single_expr, single_operand};
use crate::nodes::{ColumnDef, CreateTable, DeleteStmt, InsertStmt, SetClause, SqlExpr, Stmt, UpdateStmt};
use crate::types::{concat2, equals_ci, equals_ci_exec, Keyword, Rule, Token, Type};

verus! {

/// A table name at index `i` of `toks`: `name` (with no `.` after it) or `schema.name`,
/// as its schema, its name and the index after it.
pub open spec fn table_name_in(toks: Seq<Token>, i: int) -> Option<(Option<String>, String, int)> {
    match kind_at(toks, i) {
        Type::Ident(a) => if kind_at(toks, i + 1) != Type::Dot {
            Some((None, a, i + 1))
        } else {
            match kind_at(toks, i + 2) {
                Type::Ident(b) => Some((Some(a), b, i + 3)),
                _ => None,
            }
        },
        _ => None,
    }
}

/// Whether `k` is a conflict resolution that may follow `INSERT OR` / `UPDATE OR`.
pub open spec fn is_or_action(k: Keyword) -> bool {
    k == Keyword::REPLACE || k == Keyword::ABORT || k == Keyword::ROLLBACK || k == Keyword::FAIL
        || k == Keyword::IGNORE
}

/// How many more `(` than `)` the tokens `toks[from..to]` hold.
pub open spec fn bracket_depth(toks: Seq<Token>, from: int, to: int) -> int
    decreases to - from,
{
    if to <= from {
        0
    } else {
        bracket_depth(toks, from, to - 1) + if toks[to - 1].ttype == Type::BraceLeft {
            1int
        } else if toks[to - 1].ttype == Type::BraceRight {
            -1int
        } else {
            0int
        }
    }
}

/// How many plain column definitions (`name type`, the type one of SQLite's canonical
/// names) stand from index `i` of `toks` on, separated by commas and closed by `)`; none
/// where the tokens there are not such a list.
pub open spec fn plain_columns_from(toks: Seq<Token>, i: int) -> Option<nat>
    decreases toks.len() - i,
{
    if 0 <= i && i + 2 < toks.len() && kind_at(toks, i) is Ident && !quirky_type(kind_at(toks, i + 1)) {
        if kind_at(toks, i + 2) == Type::BraceRight {
            Some(1)
        } else if kind_at(toks, i + 2) == Type::Comma {
            match plain_columns_from(toks, i + 3) {
                Some(n) => Some(n + 1),
                None => None,
            }
        } else {
            None
        }
    } else {
        None
    }
}

/// How many identifiers stand from index `i` of `toks` on, separated by commas and closed
/// by `)`; none where the tokens there are not such a list.
pub open spec fn ident_list_from(toks: Seq<Token>, i: int) -> Option<nat>
    decreases toks.len() - i,
{
    if 0 <= i && i + 1 < toks.len() && kind_at(toks, i) is Ident {
        if kind_at(toks, i + 1) == Type::BraceRight {
            Some(1)
        } else if kind_at(toks, i + 1) == Type::Comma {
            match ident_list_from(toks, i + 2) {
                Some(n) => Some(n + 1),
                None => None,
            }
        } else {
            None
        }
    } else {
        None
    }
}

/// The numbers of columns and of values of a plain `INSERT INTO name (columns) VALUES
/// (values);` from index `p` of `toks`: a bare table name, identifiers as columns
/// (`ident_list_from`), one row of single-token operands (`operand_row_from`), nothing else.
pub open spec fn plain_insert_in(toks: Seq<Token>, p: int) -> Option<(nat, nat)> {
    if kind_at(toks, p) == Type::Keyword(Keyword::INSERT) && kind_at(toks, p + 1) == Type::Keyword(Keyword::INTO)
        && kind_at(toks, p + 2) is Ident && kind_at(toks, p + 3) == Type::BraceLeft {
        match ident_list_from(toks, p + 4) {
            Some(k) => if kind_at(toks, p + 4 + 2 * k) == Type::Keyword(Keyword::VALUES) && kind_at(
                toks,
                p + 5 + 2 * k,
            ) == Type::BraceLeft {
                match operand_row_from(toks, p + 6 + 2 * k) {
                    Some(m) => if kind_at(toks, p + 6 + 2 * k + 2 * m) == Type::Semicolon {
                        Some((k, m))
                    } else {
                        None
                    },
                    None => None,
                }
            } else {
                None
            },
            None => None,
        }
    } else {
        None
    }
}

/// The rows of single-token operands `(a, b), (c, d), ...` from index `i` of `toks` up to
/// a semicolon, each as the index of its first value and its number of values, with the
/// index of the semicolon; none where the tokens there are not such rows.
pub open spec fn value_rows_from(toks: Seq<Token>, i: int) -> Option<(Seq<(int, nat)>, int)>
    decreases toks.len() - i,
{
    if 0 <= i < toks.len() && kind_at(toks, i) == Type::BraceLeft {
        match operand_row_from(toks, i + 1) {
            Some(m) => {
                let e = i + 1 + 2 * m;
                if kind_at(toks, e) == Type::Semicolon {
                    Some((seq![(i + 1, m)], e))
                } else if kind_at(toks, e) == Type::Comma {
                    match value_rows_from(toks, e + 1) {
                        Some((rest, f)) => Some((seq![(i + 1, m)] + rest, f)),
                        None => None,
                    }
                } else {
                    None
                }
            },
            None => None,
        }
    } else {
        None
    }
}

/// Whether `values` are the rows `rows` of `value_rows_from`: each value the single-token
/// operand at its place.
pub open spec fn rows_match(toks: Seq<Token>, values: Seq<Vec<SqlExpr>>, rows: Seq<(int, nat)>) -> bool {
    &&& values.len() == rows.len()
    &&& forall|r: int| 0 <= r < rows.len() ==> (#[trigger] values[r])@.len() == rows[r].1
    &&& forall|r: int, j: int|
        0 <= r < rows.len() && 0 <= j < rows[r].1 ==> #[trigger] values[r]@[j] == single_expr(
            super::query::tok_at(toks, rows[r].0 + 2 * j),
        )
}

/// The number of `column = value` assignments with single-token values from index `i` of
/// `toks` on, separated by commas, and the index after the last; none where the tokens
/// there are not such a list.
pub open spec fn set_list_from(toks: Seq<Token>, i: int) -> Option<(nat, int)>
    decreases toks.len() - i,
{
    if 0 <= i < toks.len() && kind_at(toks, i) is Ident && kind_at(toks, i + 1) == Type::Equal && single_operand(
        kind_at(toks, i + 2),
        kind_at(toks, i + 3),
    ) && !continues_at(11, kind_at(toks, i + 3)) {
        if kind_at(toks, i + 3) == Type::Comma {
            match set_list_from(toks, i + 4) {
                Some((n, e)) => Some((n + 1, e)),
                None => None,
            }
        } else {
            Some((1, i + 3))
        }
    } else {
        None
    }
}

/// A list of assignments has at least one.
proof fn lemma_set_list_from(toks: Seq<Token>, i: int)
    ensures
        set_list_from(toks, i) matches Some((n, e)) ==> n >= 1,
    decreases toks.len() - i,
{
    if 0 <= i && i + 4 <= toks.len() {
        lemma_set_list_from(toks, i + 4);
    }
}

/// The assignment at index `i` of `toks` (`set_list_from`).
pub open spec fn set_clause_at(toks: Seq<Token>, i: int) -> SetClause {
    SetClause {
        column: kind_at(toks, i)->Ident_0,
        column_token: super::query::tok_at(toks, i),
        expr: single_expr(super::query::tok_at(toks, i + 2)),
    }
}

/// Whether the tokens of `toks` from index `p` are a plain `UPDATE name SET column =
/// value` with a bare table name and a single-token value, then either a semicolon or
/// `WHERE a = b;` (`simple_equality_in`).
pub open spec fn plain_update_in(toks: Seq<Token>, p: int) -> bool {
    &&& kind_at(toks, p) == Type::Keyword(Keyword::UPDATE)
    &&& kind_at(toks, p + 1) is Ident
    &&& kind_at(toks, p + 2) == Type::Keyword(Keyword::SET)
    &&& kind_at(toks, p + 3) is Ident
    &&& kind_at(toks, p + 4) == Type::Equal
    &&& single_operand(kind_at(toks, p + 5), kind_at(toks, p + 6))
    &&& (kind_at(toks, p + 6) == Type::Semicolon || (kind_at(toks, p + 6) == Type::Keyword(Keyword::WHERE)
        && simple_equality_in(toks, p + 7)))
}

/// Whether a token of kind `t` starts a table constraint: PRIMARY, UNIQUE, CHECK, FOREIGN
/// or CONSTRAINT.
pub open spec fn starts_table_constraint(t: Type) -> bool {
    ||| t == Type::Keyword(Keyword::PRIMARY)
    ||| t == Type::Keyword(Keyword::UNIQUE)
    ||| t == Type::Keyword(Keyword::CHECK)
    ||| t == Type::Keyword(Keyword::FOREIGN)
    ||| t == Type::Keyword(Keyword::CONSTRAINT)
}

/// The index of the first token from index `q` of `toks` on that ends the table constraint
/// starting at index `j`: a `,` or `)` outside the constraint's own brackets; the length of
/// `toks` where there is none.
pub open spec fn constraint_end(toks: Seq<Token>, j: int, q: int) -> int
    decreases toks.len() - q,
{
    if q >= toks.len() {
        toks.len() as int
    } else if bracket_depth(toks, j, q) == 0 && ends_constraint(toks[q].ttype) {
        q
    } else {
        constraint_end(toks, j, q + 1)
    }
}

/// How many plain column definitions (as for `plain_columns_from`) stand from index `i`
/// of `toks` on, separated by commas, the last one followed by a comma and the start of a
/// table constraint; none where the tokens there are not such a list.
pub open spec fn columns_before_constraint(toks: Seq<Token>, i: int) -> Option<nat>
    decreases toks.len() - i,
{
    if 0 <= i && i + 3 < toks.len() && kind_at(toks, i) is Ident && !quirky_type(kind_at(toks, i + 1))
        && kind_at(toks, i + 2) == Type::Comma {
        if starts_table_constraint(kind_at(toks, i + 3)) {
            Some(1)
        } else {
            match columns_before_constraint(toks, i + 3) {
                Some(n) => Some(n + 1),
                None => None,
            }
        }
    } else {
        None
    }
}

/// A `CREATE TABLE name (columns, constraint);` from index `p` of `toks` with a bare table
/// name, plain column definitions and one table constraint after them
/// (`columns_before_constraint`, `constraint_end`), as the number of columns and the index
/// of the closing `)`.
pub open spec fn create_with_constraint_in(toks: Seq<Token>, p: int) -> Option<(nat, int)> {
    if kind_at(toks, p + 1) == Type::Keyword(Keyword::TABLE) && kind_at(toks, p + 2) is Ident && kind_at(
        toks,
        p + 3,
    ) == Type::BraceLeft {
        match columns_before_constraint(toks, p + 4) {
            Some(n) => {
                let j = p + 4 + 3 * n;
                let q = constraint_end(toks, j, j);
                if q < toks.len() && kind_at(toks, q) == Type::BraceRight && kind_at(toks, q + 1) == Type::Semicolon {
                    Some((n, q))
                } else {
                    None
                }
            },
            None => None,
        }
    } else {
        None
    }
}

/// A list of plain columns before a table constraint has at least one column.
proof fn lemma_columns_before_constraint(toks: Seq<Token>, i: int)
    ensures
        columns_before_constraint(toks, i) matches Some(n) ==> n >= 1,
    decreases toks.len() - i,
{
    if 0 <= i && i + 3 < toks.len() {
        lemma_columns_before_constraint(toks, i + 3);
    }
}

/// The first end of a table constraint after `q` is where skipping it stops.
proof fn lemma_constraint_end(toks: Seq<Token>, j: int, q: int, e: int)
    requires
        j <= q <= e <= toks.len(),
        e == toks.len() || (bracket_depth(toks, j, e) == 0 && ends_constraint(toks[e].ttype)),
        forall|r: int| q <= r < e ==> !(#[trigger] bracket_depth(toks, j, r) == 0 && ends_constraint(toks[r].ttype)),
    ensures
        constraint_end(toks, j, q) == e,
    decreases e - q,
{
    if q < e {
        lemma_constraint_end(toks, j, q + 1, e);
    }
}

/// The number of columns of a plain `CREATE TABLE name (columns);` from index `p` of
/// `toks`: a bare table name and plain column definitions (`plain_columns_from`).
pub open spec fn plain_create_in(toks: Seq<Token>, p: int) -> Option<nat> {
    if kind_at(toks, p + 1) == Type::Keyword(Keyword::TABLE) && kind_at(toks, p + 2) is Ident && kind_at(
        toks,
        p + 3,
    ) == Type::BraceLeft {
        match plain_columns_from(toks, p + 4) {
            Some(n) => if kind_at(toks, p + 4 + 3 * n) == Type::Semicolon {
                Some(n)
            } else {
                None
            },
            None => None,
        }
    } else {
        None
    }
}

/// Where a plain `DELETE FROM name;` or `DELETE FROM name WHERE a = b;` from index `p` of
/// `toks` ends (the index of its semicolon), or -1 where there is none.
pub open spec fn plain_delete_end(toks: Seq<Token>, p: int) -> int {
    if kind_at(toks, p) == Type::Keyword(Keyword::DELETE) && kind_at(toks, p + 1) == Type::Keyword(Keyword::FROM)
        && kind_at(toks, p + 2) is Ident {
        if kind_at(toks, p + 3) == Type::Semicolon {
            p + 3
        } else if kind_at(toks, p + 3) == Type::Keyword(Keyword::WHERE) && simple_equality_in(toks, p + 4) {
            p + 7
        } else {
            -1
        }
    } else {
        -1
    }
}

/// Whether a token of kind `t` ends a table constraint that is not inside brackets:
/// a comma or a closing bracket.
pub open spec fn ends_constraint(t: Type) -> bool {
    t == Type::Comma || t == Type::BraceRight
}

impl<'a> Parser<'a> {
    /// The numbers of columns and of values of a plain INSERT here (`plain_insert_in`).
    pub(crate) open spec fn plain_insert_at(&self) -> Option<(nat, nat)> {
        plain_insert_in(self.tokens@, self.pos as int)
    }

    /// Whether the input here is a plain UPDATE (`plain_update_in`).
    pub(crate) open spec fn plain_update_at(&self) -> bool {
        plain_update_in(self.tokens@, self.pos as int)
    }

    /// The number of columns of a plain CREATE TABLE here (`plain_create_in`).
    pub(crate) open spec fn plain_create_at(&self) -> Option<nat> {
        plain_create_in(self.tokens@, self.pos as int)
    }

    /// `[schema_name.]table_name`. Anything else is reported (with `after_schema` or
    /// `bare` before the token's kind) and the rest of the statement is skipped.
    fn table_name(&mut self, after_schema: &str, bare: &str) -> (r: Option<(Option<String>, String)>)
        requires
            old(self).wf(),
        ensures
            final(self).evolved_from(*old(self)),
            r is None ==> final(self).errors@.len() > old(self).errors@.len(),
            r is Some ==> final(self).pos > old(self).pos,
            ({
                let p = old(self).pos as int;
                &&& old(self).ty(p) matches Type::Ident(n) ==> (old(self).ty(p + 1) != Type::Dot ==> (r
                    matches Some((sc, tn)) && sc is None && tn == n) && final(self).pos == p + 1 && final(self).errors@
                    == old(self).errors@)
                &&& table_name_in(old(self).tokens@, p) matches Some((sc, n, q)) ==> r == Some((sc, n))
                    && final(self).pos == q && final(self).errors@ == old(self).errors@
                &&& old(self).ty(p) matches Type::Ident(s) ==> (old(self).ty(p + 1) == Type::Dot ==> (
                old(self).ty(p + 2) matches Type::Ident(n) ==> r == Some((Some(s), n))
                    && final(self).pos == p + 3 && final(self).errors@ == old(self).errors@))
            }),
    {
        let first = match &self.cur().ttype {
            Type::Ident(n) => n.clone(),
            _ => {
                let cur = self.cur().clone();
                let got = cur.ttype.debug_text();
                let note = concat2(bare, got.as_str());
                self.push_err("Expected table name", note.as_str(), &cur, Rule::Syntax);
                self.skip_until_semicolon_or_eof();
                return None;
            },
        };
        if self.next_is(Type::Dot) {
            self.advance();
            self.advance();
            match &self.cur().ttype {
                Type::Ident(n) => {
                    let table = n.clone();
                    self.advance();
                    Some((Some(first), table))
                },
                _ => {
                    let cur = self.cur().clone();
                    let got = cur.ttype.debug_text();
                    let note = concat2(after_schema, got.as_str());
                    self.push_err("Expected table name", note.as_str(), &cur, Rule::Syntax);
                    self.skip_until_semicolon_or_eof();
                    None
                },
            }
        } else {
            self.advance();
            Some((None, first))
        }
    }

    /// Skips a table constraint up to the comma or closing bracket that ends it, counting
    /// brackets.
    fn skip_table_constraint(&mut self)
        requires
            old(self).wf(),
        ensures
            final(self).evolved_from(*old(self)),
            final(self).errors@ == old(self).errors@,
            final(self).pos == final(self).tokens.len() || (bracket_depth(
                final(self).tokens@,
                old(self).pos as int,
                final(self).pos as int,
            ) == 0 && ends_constraint(final(self).ty(final(self).pos as int))),
            forall|q: int|
                old(self).pos <= q < final(self).pos ==> !(#[trigger] bracket_depth(
                    final(self).tokens@,
                    old(self).pos as int,
                    q,
                ) == 0 && ends_constraint(final(self).tokens@[q].ttype)),
    {
        let ghost p0 = self.pos;
        let mut depth: usize = 0;
        loop
            invariant
                self.evolved_from(*old(self)),
                self.errors@ == old(self).errors@,
                p0 == old(self).pos,
                depth <= self.pos - p0,
                depth == bracket_depth(self.tokens@, p0 as int, self.pos as int),
                forall|q: int|
                    p0 <= q < self.pos ==> !(#[trigger] bracket_depth(self.tokens@, p0 as int, q) == 0
                        && ends_constraint(self.tokens@[q].ttype)),
            ensures
                self.evolved_from(*old(self)),
                self.errors@ == old(self).errors@,
                p0 == old(self).pos,
                self.pos == self.tokens.len() || (bracket_depth(self.tokens@, p0 as int, self.pos as int) == 0
                    && ends_constraint(self.ty(self.pos as int))),
                forall|q: int|
                    p0 <= q < self.pos ==> !(#[trigger] bracket_depth(self.tokens@, p0 as int, q) == 0
                        && ends_constraint(self.tokens@[q].ttype)),
            decreases self.remaining(),
        {
            if self.is_eof() {
                break;
            }
            if self.is(Type::BraceLeft) {
                depth = depth + 1;
            }
            if self.is(Type::BraceRight) {
                if depth == 0 {
                    break;
                }
                depth = depth - 1;
            }
            if self.is(Type::Comma) && depth == 0 {
                break;
            }
            self.advance();
        }
    }

    /// Whether the current token is an identifier spelling `word` (in upper case),
    /// ignoring case.
    fn at_word(&self, word: &str) -> (r: bool)
        requires
            self.wf(),
        ensures
            r == (self.cur_spec().ttype matches Type::Ident(s) && equals_ci(s@, word@)),
    {
        match &self.cur().ttype {
            Type::Ident(s) => equals_ci_exec(s.as_str(), word),
            _ => false,
        }
    }

    /// `CREATE [TEMP|TEMPORARY] TABLE [IF NOT EXISTS] [schema.]name (column_def, ...
    /// [table_constraint, ...]) [WITHOUT ROWID] [STRICT]` or `... AS select`, see
    /// <https://www.sqlite.org/lang_createtable.html>. Table constraints are skipped; other
    /// CREATE statements are reported as not supported.
    #[verifier::rlimit(100)]
    pub(crate) fn create_stmt(&mut self) -> (r: Option<Stmt>)
        requires
            old(self).wf(),
            old(self).pos < old(self).tokens.len(),
        ensures
            final(self).evolved_from(*old(self)),
            final(self).pos > old(self).pos,
            r is None ==> final(self).errors@.len() > old(self).errors@.len(),
            final(self).errors@ == old(self).errors@ ==> final(self).cur_spec().ttype
                == Type::Semicolon,
            r matches Some(s) ==> s matches Stmt::CreateTable(c) && c.t == old(self).cur_spec(),
            ({
                let p = old(self).pos as int;
                old(self).ty(p + 1) == Type::Keyword(Keyword::TABLE) ==> (old(self).ty(p + 2) matches Type::Ident(n)
                    ==> (old(self).ty(p + 3) == Type::BraceLeft ==> (r matches Some(s) ==> s matches Stmt::CreateTable(c)
                    && c.name == n && c.schema is None && !c.temporary && !c.if_not_exists)))
            }),
            ({
                let p = old(self).pos as int;
                let k = old(self).ty(p + 1);
                !(k == Type::Keyword(Keyword::TABLE) || k == Type::Keyword(Keyword::TEMP) || k
                    == Type::Keyword(Keyword::TEMPORARY)) ==> r is None && final(self).errors@[old(
                    self,
                ).errors@.len() as int].rule == Rule::Unimplemented && final(self).errors@.len() == old(
                    self,
                ).errors@.len() + 1
            }),
            ({
                let p = old(self).pos as int;
                let tmp = old(self).ty(p + 1) == Type::Keyword(Keyword::TEMP) || old(self).ty(p + 1)
                    == Type::Keyword(Keyword::TEMPORARY);
                let q = if tmp {
                    p + 3
                } else {
                    p + 2
                };
                r matches Some(Stmt::CreateTable(c)) ==> c.temporary == tmp && c.if_not_exists == (old(self).ty(q)
                    == Type::Keyword(Keyword::IF))
            }),
            old(self).plain_create_at() matches Some(n) ==> (r matches Some(Stmt::CreateTable(c)) && c.columns@.len()
                == n && forall|k: int|
                0 <= k < n ==> (#[trigger] c.columns@[k]).t == old(self).tok(old(self).pos + 4 + 3 * k)
                    && c.columns@[k].storage_class == declared_class(old(self).ty(old(self).pos + 5 + 3 * k))
                    && c.columns@[k].constraints@.len() == 0) && final(self).errors@ == old(self).errors@
                && final(self).pos == old(self).pos + 4 + 3 * n,
            create_with_constraint_in(old(self).tokens@, old(self).pos as int) matches Some((n, q)) ==> (r matches Some(
                Stmt::CreateTable(c),
            ) && c.columns@.len() == n && forall|k: int|
                0 <= k < n ==> (#[trigger] c.columns@[k]).t == old(self).tok(old(self).pos + 4 + 3 * k)
                    && c.columns@[k].storage_class == declared_class(old(self).ty(old(self).pos + 5 + 3 * k))
                    && c.columns@[k].constraints@.len() == 0) && final(self).errors@ == old(self).errors@
                && final(self).pos == q + 1,
    {
        let t = self.cur().clone();
        self.advance();
        let temporary = if self.is_keyword(Keyword::TEMP) || self.is_keyword(Keyword::TEMPORARY) {
            self.advance();
            true
        } else {
            false
        };
        if !self.is_keyword(Keyword::TABLE) {
            let cur = self.cur().clone();
            let got = cur.ttype.debug_text();
            let note = concat2(
                "CREATE is only supported by sqleibniz as CREATE TABLE, got CREATE ",
                got.as_str(),
            );
            self.push_err("Unimplemented", note.as_str(), &cur, Rule::Unimplemented);
            let ghost pushed = *self;
            self.skip_until_semicolon_or_eof();
            assert(self.errors@[old(self).errors@.len() as int] == pushed.errors@[old(
                self,
            ).errors@.len() as int]);
            return None;
        }
        self.advance();
        let if_not_exists = if self.is_keyword(Keyword::IF) {
            self.advance();
            self.consume_keyword(Keyword::NOT);
            self.consume_keyword(Keyword::EXISTS);
            true
        } else {
            false
        };
        let (schema, name) = self.table_name(
            "expected table name after schema., got ",
            "expected table name, got ",
        )?;
        if self.is_keyword(Keyword::AS) {
            self.advance();
            let _ = self.select_stmt_inner();
            self.expect_end("https://www.sqlite.org/lang_createtable.html");
            return Some(
                Stmt::CreateTable(
                    CreateTable { t, if_not_exists, schema, name, columns: Vec::new(), temporary },
                ),
            );
        }
        self.consume(Type::BraceLeft);
        let ghost p = old(self).pos as int;
        let ghost plain = old(self).plain_create_at() is Some;
        let ghost total: nat = if plain {
            old(self).plain_create_at()->Some_0
        } else {
            0
        };
        let ghost pc = create_with_constraint_in(old(self).tokens@, p) is Some;
        let ghost ncon: nat = create_with_constraint_in(old(self).tokens@, p)->Some_0.0;
        let ghost qcon: int = create_with_constraint_in(old(self).tokens@, p)->Some_0.1;
        proof {
            if plain || pc {
                assert(self.pos == p + 4);
                assert(self.errors@ == old(self).errors@);
            }
            if pc {
                lemma_columns_before_constraint(old(self).tokens@, p + 4);
            }
        }
        let mut columns: Vec<ColumnDef> = Vec::new();
        if !self.is(Type::BraceRight) {
            if let Some(col) = self.column_def() {
                columns.push(col);
            }
            proof {
                if plain || pc {
                    assert(kind_at(self.tokens@, p + 4) == old(self).ty(p + 4));
                    assert(kind_at(self.tokens@, p + 5) == old(self).ty(p + 5));
                    assert(kind_at(self.tokens@, p + 6) == old(self).ty(p + 6));
                }
                if pc && ncon > 1 {
                    lemma_columns_before_constraint(old(self).tokens@, p + 7);
                }
            }
            while self.is(Type::Comma)
                invariant
                    self.evolved_from(*old(self)),
                    self.pos > old(self).pos,
                    self.tokens@ == old(self).tokens@,
                    p == old(self).pos,
                    plain == (old(self).plain_create_at() is Some),
                    plain ==> old(self).plain_create_at() == Some(total),
                    plain ==> {
                        &&& self.errors@ == old(self).errors@
                        &&& 1 <= columns@.len() <= total
                        &&& self.pos == p + 3 + 3 * columns@.len()
                        &&& self.cur_spec().ttype == Type::Comma ==> plain_columns_from(
                            self.tokens@,
                            self.pos + 1,
                        ) == Some((total - columns@.len()) as nat) && columns@.len() < total
                        &&& self.cur_spec().ttype != Type::Comma ==> columns@.len() == total
                        &&& self.cur_spec().ttype == Type::Comma || self.cur_spec().ttype == Type::BraceRight
                        &&& forall|k: int|
                            0 <= k < columns@.len() ==> (#[trigger] columns@[k]).t == old(self).tok(p + 4 + 3 * k)
                                && columns@[k].storage_class == declared_class(old(self).ty(p + 5 + 3 * k))
                                && columns@[k].constraints@.len() == 0
                    },
                    pc == (create_with_constraint_in(old(self).tokens@, p) is Some),
                    pc ==> create_with_constraint_in(old(self).tokens@, p) == Some((ncon, qcon)),
                    pc ==> {
                        &&& self.errors@ == old(self).errors@
                        &&& 1 <= columns@.len() <= ncon
                        &&& forall|k: int|
                            0 <= k < columns@.len() ==> (#[trigger] columns@[k]).t == old(self).tok(p + 4 + 3 * k)
                                && columns@[k].storage_class == declared_class(old(self).ty(p + 5 + 3 * k))
                                && columns@[k].constraints@.len() == 0
                        &&& (self.pos == p + 3 + 3 * columns@.len() && self.cur_spec().ttype == Type::Comma && (
                        columns@.len() < ncon ==> columns_before_constraint(self.tokens@, self.pos + 1) == Some(
                            (ncon - columns@.len()) as nat,
                        )) && (columns@.len() == ncon ==> starts_table_constraint(self.ty(self.pos + 1)))) || (self.pos
                            == qcon && columns@.len() == ncon)
                    },
                ensures
                    self.evolved_from(*old(self)),
                    self.tokens@ == old(self).tokens@,
                    plain ==> {
                        &&& self.errors@ == old(self).errors@
                        &&& columns@.len() == total
                        &&& self.cur_spec().ttype == Type::BraceRight
                        &&& self.pos == p + 3 + 3 * columns@.len()
                        &&& forall|k: int|
                            0 <= k < columns@.len() ==> (#[trigger] columns@[k]).t == old(self).tok(p + 4 + 3 * k)
                                && columns@[k].storage_class == declared_class(old(self).ty(p + 5 + 3 * k))
                                && columns@[k].constraints@.len() == 0
                    },
                    pc ==> {
                        &&& self.errors@ == old(self).errors@
                        &&& columns@.len() == ncon
                        &&& self.pos == qcon
                        &&& forall|k: int|
                            0 <= k < columns@.len() ==> (#[trigger] columns@[k]).t == old(self).tok(p + 4 + 3 * k)
                                && columns@[k].storage_class == declared_class(old(self).ty(p + 5 + 3 * k))
                                && columns@[k].constraints@.len() == 0
                    },
                decreases self.remaining(),
            {
                self.advance();
                if self.is_keyword(Keyword::PRIMARY) || self.is_keyword(Keyword::UNIQUE)
                    || self.is_keyword(Keyword::CHECK) || self.is_keyword(Keyword::FOREIGN)
                    || self.is_keyword(Keyword::CONSTRAINT) {
                    let ghost j = self.pos as int;
                    proof {
                        if pc {
                            assert(columns@.len() == ncon);
                            assert(j == p + 4 + 3 * ncon);
                        }
                    }
                    self.skip_table_constraint();
                    proof {
                        if pc {
                            lemma_constraint_end(self.tokens@, j, j, self.pos as int);
                        }
                    }
                    continue;
                }
                if self.is(Type::BraceRight) {
                    break;
                }
                let ghost i = self.pos as int;
                proof {
                    if pc {
                        assert(columns@.len() < ncon);
                        assert(kind_at(self.tokens@, i) == self.ty(i));
                        assert(kind_at(self.tokens@, i + 1) == self.ty(i + 1));
                        assert(kind_at(self.tokens@, i + 2) == self.ty(i + 2));
                        lemma_columns_before_constraint(self.tokens@, i + 3);
                    }
                }
                if let Some(col) = self.column_def() {
                    columns.push(col);
                }
            }
        }
        let ghost before_close = *self;
        self.consume(Type::BraceRight);
        proof {
            if plain {
                assert(self.pos == p + 4 + 3 * total);
                assert(self.errors@ == old(self).errors@);
                assert(self.cur_spec().ttype == Type::Semicolon);
            }
            if pc {
                assert(self.pos == qcon + 1);
                assert(self.errors@ == old(self).errors@);
                assert(self.cur_spec().ttype == Type::Semicolon);
            }
        }
        if self.is_keyword(Keyword::WITHOUT) {
            self.advance();
            if self.at_word("ROWID") {
                self.advance();
            }
        }
        if self.at_word("STRICT") {
            self.advance();
        }
        self.expect_end("https://www.sqlite.org/lang_createtable.html");
        Some(Stmt::CreateTable(CreateTable { t, if_not_exists, schema, name, columns, temporary }))
    }

    /// `OR action` after INSERT or UPDATE, where the current token is OR.
    fn or_action(&mut self, note_prefix: &str) -> (r: Option<Keyword>)
        requires
            old(self).wf(),
            old(self).cur_spec().ttype == Type::Keyword(Keyword::OR),
        ensures
            final(self).evolved_from(*old(self)),
            final(self).pos > old(self).pos,
            r matches Some(k) ==> is_or_action(k),
            old(self).ty(old(self).pos + 1) matches Type::Keyword(k) ==> (is_or_action(k) ==> r == Some(k)
                && final(self).pos == old(self).pos + 2 && final(self).errors@ == old(self).errors@),
    {
        self.advance();
        let found = match &self.cur().ttype {
            Type::Keyword(k) => {
                if *k == Keyword::REPLACE || *k == Keyword::ABORT || *k == Keyword::ROLLBACK || *k
                    == Keyword::FAIL || *k == Keyword::IGNORE {
                    Some(*k)
                } else {
                    None
                }
            },
            _ => None,
        };
        match found {
            Some(k) => {
                self.advance();
                Some(k)
            },
            None => {
                let cur = self.cur().clone();
                let got = cur.ttype.debug_text();
                let note = concat2(note_prefix, got.as_str());
                self.push_err("Expected conflict action", note.as_str(), &cur, Rule::Syntax);
                None
            },
        }
    }

    /// `INSERT [OR action] | REPLACE INTO [schema.]table [(column, ...)] VALUES (expr,
    /// ...), ... | select | DEFAULT VALUES`, see <https://www.sqlite.org/lang_insert.html>.
    pub(crate) fn insert_stmt(&mut self) -> (r: Option<Stmt>)
        requires
            old(self).wf(),
            old(self).pos < old(self).tokens.len(),
        ensures
            final(self).evolved_from(*old(self)),
            final(self).pos > old(self).pos,
            r is None ==> final(self).errors@.len() > old(self).errors@.len(),
            final(self).errors@ == old(self).errors@ ==> final(self).cur_spec().ttype
                == Type::Semicolon,
            r matches Some(s) ==> s matches Stmt::Insert(i) && i.t == old(self).cur_spec(),
            ({
                let p = old(self).pos as int;
                old(self).cur_spec().ttype == Type::Keyword(Keyword::INSERT) && old(self).ty(p + 1) == Type::Keyword(
                    Keyword::INTO,
                ) && old(self).ty(p + 2) is Ident && old(self).ty(p + 3) == Type::Keyword(Keyword::VALUES) ==> (
                value_rows_from(old(self).tokens@, p + 4) matches Some((rows, e)) ==> (r matches Some(Stmt::Insert(ins))
                    && ins.columns@.len() == 0 && rows_match(old(self).tokens@, ins.values@, rows) && ins.select is None
                    && !ins.default_values) && final(self).errors@ == old(self).errors@ && final(self).pos == e)
            }),
            old(self).cur_spec().ttype == Type::Keyword(Keyword::REPLACE) ==> (r matches Some(Stmt::Insert(i))
                ==> i.or_action == Some(Keyword::REPLACE)),
            old(self).cur_spec().ttype == Type::Keyword(Keyword::INSERT) && old(self).ty(old(self).pos + 1)
                == Type::Keyword(Keyword::OR) ==> (old(self).ty(old(self).pos + 2) matches Type::Keyword(k) ==> (
            is_or_action(k) ==> (r matches Some(Stmt::Insert(i)) ==> i.or_action == Some(k)))),
            ({
                let p = old(self).pos as int;
                old(self).cur_spec().ttype == Type::Keyword(Keyword::INSERT) && old(self).ty(p + 1)
                    == Type::Keyword(Keyword::INTO) ==> (old(self).ty(p + 2) matches Type::Ident(n) ==> (
                old(self).ty(p + 3) != Type::Dot ==> (r matches Some(s) ==> s matches Stmt::Insert(i)
                    && i.table == n && i.schema is None && i.table_token == old(self).tok(p + 2)
                    && i.or_action is None)))
            }),
            old(self).plain_insert_at() matches Some((k, m)) ==> {
                let p = old(self).pos as int;
                &&& final(self).errors@ == old(self).errors@
                &&& final(self).pos == p + 6 + 2 * k + 2 * m
                &&& r matches Some(Stmt::Insert(ins))
                &&& ins.columns@.len() == k
                &&& forall|j: int| 0 <= j < k ==> #[trigger] ins.columns@[j] == old(self).ty(p + 4 + 2 * j)->Ident_0
                &&& ins.values@.len() == 1
                &&& ins.values@[0]@.len() == m
                &&& forall|j: int|
                    0 <= j < m ==> #[trigger] ins.values@[0]@[j] == single_expr(old(self).tok(p + 6 + 2 * k + 2 * j))
                &&& ins.select is None
                &&& !ins.default_values
            },
            ({
                let p = old(self).pos as int;
                old(self).cur_spec().ttype == Type::Keyword(Keyword::INSERT) && old(self).ty(p + 1)
                    == Type::Keyword(Keyword::INTO) ==> (table_name_in(old(self).tokens@, p + 2) matches Some(
                    (sc, n, q),
                ) ==> {
                    &&& old(self).ty(q) == Type::Keyword(Keyword::DEFAULT) && old(self).ty(q + 1) == Type::Keyword(
                        Keyword::VALUES,
                    ) && old(self).ty(q + 2) == Type::Semicolon ==> final(self).errors@ == old(self).errors@
                        && final(self).pos == q + 2 && (r matches Some(Stmt::Insert(ins)) && ins.t == old(
                        self,
                    ).cur_spec() && ins.or_action is None && ins.schema == sc && ins.table == n && ins.table_token
                        == old(self).tok(p + 2) && ins.columns@.len() == 0 && ins.values@.len() == 0
                        && ins.select is None && ins.default_values)
                    &&& !(old(self).ty(q) == Type::Keyword(Keyword::DEFAULT) || old(self).ty(q) == Type::Keyword(
                        Keyword::VALUES,
                    ) || old(self).ty(q) == Type::Keyword(Keyword::SELECT) || old(self).ty(q) == Type::Keyword(
                        Keyword::WITH,
                    ) || old(self).ty(q) == Type::BraceLeft) ==> r is None && final(self).one_more_error(
                        *old(self),
                        old(self).tok(q),
                        Rule::Syntax,
                    ) && final(self).errors@.last().msg@ == "Expected VALUES, DEFAULT VALUES, or SELECT"@
                })
            }),
    {
        let t = self.cur().clone();
        let or_action = if self.is_keyword(Keyword::REPLACE) {
            self.advance();
            Some(Keyword::REPLACE)
        } else {
            self.advance();
            if self.is_keyword(Keyword::OR) {
                self.or_action("expected REPLACE, ABORT, ROLLBACK, FAIL, or IGNORE after INSERT OR, got ")
            } else {
                None
            }
        };
        self.consume_keyword(Keyword::INTO);
        let table_token = self.cur().clone();
        let (schema, table) = self.table_name(
            "expected table name, got ",
            "expected table name after INTO, got ",
        )?;
        let ghost p = old(self).pos as int;
        let ghost tn = old(self).cur_spec().ttype == Type::Keyword(Keyword::INSERT) && old(self).ty(p + 1)
            == Type::Keyword(Keyword::INTO) && table_name_in(old(self).tokens@, p + 2) is Some;
        let ghost q = table_name_in(old(self).tokens@, p + 2)->Some_0.2;
        proof {
            if tn {
                assert(self.pos == q);
            }
        }
        let ghost mr = old(self).cur_spec().ttype == Type::Keyword(Keyword::INSERT) && old(self).ty(p + 1)
            == Type::Keyword(Keyword::INTO) && old(self).ty(p + 2) is Ident && old(self).ty(p + 3) == Type::Keyword(
            Keyword::VALUES,
        ) && value_rows_from(old(self).tokens@, p + 4) is Some;
        let ghost rows = value_rows_from(old(self).tokens@, p + 4)->Some_0.0;
        let ghost rows_end = value_rows_from(old(self).tokens@, p + 4)->Some_0.1;
        proof {
            if mr {
                assert(self.pos == p + 3);
                assert(self.errors@ == old(self).errors@);
            }
        }
        let ghost plain = old(self).plain_insert_at() is Some;
        let ghost ncols: nat = if plain {
            old(self).plain_insert_at()->Some_0.0
        } else {
            0
        };
        let ghost nvals: nat = if plain {
            old(self).plain_insert_at()->Some_0.1
        } else {
            0
        };
        proof {
            if plain {
                assert(self.pos == p + 3);
                assert(self.errors@ == old(self).errors@);
                assert(kind_at(self.tokens@, p + 4) == self.ty(p + 4));
            }
        }
        let mut columns: Vec<String> = Vec::new();
        if self.is(Type::BraceLeft) && !self.next_is(Type::Keyword(Keyword::SELECT)) {
            let looks_like_columns = match self.peek_at(1) {
                Some(tok) => matches!(tok.ttype, Type::Ident(_)),
                None => false,
            };
            if looks_like_columns {
                self.advance();
                loop
                    invariant_except_break
                        plain ==> self.pos == p + 4 + 2 * columns@.len() && columns@.len() < ncols
                            && ident_list_from(self.tokens@, self.pos as int) == Some((ncols - columns@.len()) as nat),
                    invariant
                        self.evolved_from(*old(self)),
                        self.pos > old(self).pos,
                        self.tokens@ == old(self).tokens@,
                        p == old(self).pos,
                        plain == (old(self).plain_insert_at() is Some),
                        plain ==> old(self).plain_insert_at() == Some((ncols, nvals)),
                        plain ==> self.errors@ == old(self).errors@,
                        plain ==> forall|j: int|
                            0 <= j < columns@.len() ==> #[trigger] columns@[j] == old(self).ty(p + 4 + 2 * j)->Ident_0,
                        tn == (old(self).cur_spec().ttype == Type::Keyword(Keyword::INSERT) && old(self).ty(p + 1)
                            == Type::Keyword(Keyword::INTO) && table_name_in(old(self).tokens@, p + 2) is Some),
                        q == table_name_in(old(self).tokens@, p + 2)->Some_0.2,
                        tn ==> old(self).ty(q) == Type::BraceLeft,
                    ensures
                        self.evolved_from(*old(self)),
                        self.pos > old(self).pos,
                        plain ==> self.errors@ == old(self).errors@ && columns@.len() == ncols && self.pos == p + 3 + 2
                            * ncols && self.cur_spec().ttype == Type::BraceRight,
                        plain ==> forall|j: int|
                            0 <= j < columns@.len() ==> #[trigger] columns@[j] == old(self).ty(p + 4 + 2 * j)->Ident_0,
                    decreases self.remaining(),
                {
                    proof {
                        if plain {
                            let i = self.pos as int;
                            assert(kind_at(self.tokens@, i) == self.ty(i));
                            assert(kind_at(self.tokens@, i + 1) == self.ty(i + 1));
                        }
                    }
                    let c = self.consume_ident("https://www.sqlite.org/lang_insert.html", "column_name")?;
                    columns.push(c);
                    if !self.is(Type::Comma) {
                        break;
                    }
                    self.advance();
                }
                self.consume(Type::BraceRight);
            }
        }
        let mut values: Vec<Vec<SqlExpr>> = Vec::new();
        let mut select = None;
        let mut default_values = false;
        if self.is_keyword(Keyword::DEFAULT) {
            self.advance();
            self.consume_keyword(Keyword::VALUES);
            default_values = true;
        } else if self.is_keyword(Keyword::VALUES) {
            self.advance();
            proof {
                if plain {
                    assert(self.pos == p + 5 + 2 * ncols);
                    assert(self.errors@ == old(self).errors@);
                }
            }
            proof {
                if mr {
                    assert(self.pos == p + 4);
                    assert(values@.skip(0) =~= values@);
                    assert(rows.skip(0) =~= rows);
                }
            }
            loop
                invariant_except_break
                    plain ==> self.pos == p + 5 + 2 * ncols && values@.len() == 0,
                    mr ==> values@.len() < rows.len() && value_rows_from(self.tokens@, self.pos as int) == Some(
                        (rows.skip(values@.len() as int), rows_end),
                    ),
                invariant
                    mr == (old(self).cur_spec().ttype == Type::Keyword(Keyword::INSERT) && old(self).ty(p + 1)
                        == Type::Keyword(Keyword::INTO) && old(self).ty(p + 2) is Ident && old(self).ty(p + 3)
                        == Type::Keyword(Keyword::VALUES) && value_rows_from(old(self).tokens@, p + 4) is Some),
                    rows == value_rows_from(old(self).tokens@, p + 4)->Some_0.0,
                    rows_end == value_rows_from(old(self).tokens@, p + 4)->Some_0.1,
                    mr ==> self.errors@ == old(self).errors@ && values@.len() <= rows.len() && rows_match(
                        old(self).tokens@,
                        values@,
                        rows.take(values@.len() as int),
                    ),
                    self.evolved_from(*old(self)),
                    self.pos > old(self).pos,
                    self.tokens@ == old(self).tokens@,
                    p == old(self).pos,
                    plain == (old(self).plain_insert_at() is Some),
                    plain ==> old(self).plain_insert_at() == Some((ncols, nvals)),
                    plain ==> self.errors@ == old(self).errors@,
                    tn == (old(self).cur_spec().ttype == Type::Keyword(Keyword::INSERT) && old(self).ty(p + 1)
                        == Type::Keyword(Keyword::INTO) && table_name_in(old(self).tokens@, p + 2) is Some),
                    q == table_name_in(old(self).tokens@, p + 2)->Some_0.2,
                    tn ==> old(self).ty(q) == Type::BraceLeft || old(self).ty(q) == Type::Keyword(Keyword::VALUES),
                ensures
                    self.evolved_from(*old(self)),
                    self.pos > old(self).pos,
                    plain ==> self.errors@ == old(self).errors@ && self.pos == p + 6 + 2 * ncols + 2 * nvals
                        && values@.len() == 1 && values@[0]@.len() == nvals && forall|j: int|
                        0 <= j < nvals ==> #[trigger] values@[0]@[j] == single_expr(
                            old(self).tok(p + 6 + 2 * ncols + 2 * j),
                        ),
                    mr ==> self.errors@ == old(self).errors@ && self.pos == rows_end && rows_match(
                        old(self).tokens@,
                        values@,
                        rows,
                    ) && self.cur_spec().ttype == Type::Semicolon,
                decreases self.remaining(),
            {
                let ghost n = values@.len() as int;
                let ghost start = self.pos as int;
                self.consume(Type::BraceLeft);
                proof {
                    if plain {
                        assert(self.pos == p + 6 + 2 * ncols);
                        assert(operand_row_from(self.tokens@, self.pos as int) == Some(nvals));
                    }
                }
                let row = self.expr_row()?;
                values.push(row);
                proof {
                    if mr {
                        let rest = rows.skip(n);
                        assert(rest[0] == rows[n]);
                        assert(rows.skip(n + 1) =~= rest.drop_first());
                        assert(rows.take(n + 1) =~= rows.take(n).push(rows[n]));
                        assert forall|r: int| 0 <= r < n + 1 implies (#[trigger] values@[r])@.len() == rows.take(n + 1)[r].1 by {
                        }
                        assert forall|r: int, j: int|
                            0 <= r < n + 1 && 0 <= j < rows.take(n + 1)[r].1 implies #[trigger] values@[r]@[j] == single_expr(
                            super::query::tok_at(old(self).tokens@, rows.take(n + 1)[r].0 + 2 * j),
                        ) by {
                            if r == n {
                                assert(values@[r]@[j] == single_expr(super::query::tok_at(self.tokens@, start + 1 + 2 * j)));
                            } else {
                                assert(rows.take(n + 1)[r] == rows.take(n)[r]);
                            }
                        }
                        if rest.len() == 1 {
                            assert(rows.take(n + 1) =~= rows);
                        }
                    }
                }
                if !self.is(Type::Comma) {
                    break;
                }
                self.advance();
            }
        } else if self.is_keyword(Keyword::SELECT) || self.is_keyword(Keyword::WITH) {
            select = Some(Box::new(self.select_stmt_inner()?));
        } else {
            let cur = self.cur().clone();
            let got = cur.ttype.debug_text();
            let note = concat2("got ", got.as_str());
            self.push_err("Expected VALUES, DEFAULT VALUES, or SELECT", note.as_str(), &cur, Rule::Syntax);
            self.skip_until_semicolon_or_eof();
            return None;
        }
        self.expect_end("https://www.sqlite.org/lang_insert.html");
        Some(
            Stmt::Insert(
                InsertStmt {
                    t,
                    or_action,
                    schema,
                    table,
                    table_token,
                    columns,
                    values,
                    select,
                    default_values,
                },
            ),
        )
    }

    /// `[AS] alias` after the table of UPDATE or DELETE; `stop` is the keyword that
    /// follows when there is no alias.
    fn statement_alias(&mut self, stop: Keyword, doc: &'static str) -> (r: Option<String>)
        requires
            old(self).wf(),
            stop != Keyword::AS,
        ensures
            final(self).evolved_from(*old(self)),
            old(self).cur_spec().ttype == Type::Keyword(stop) ==> *final(self) == *old(self)
                && r is None,
            old(self).cur_spec().ttype != Type::Keyword(Keyword::AS) && !(old(self).cur_spec().ttype is Ident)
                ==> *final(self) == *old(self) && r is None,
            old(self).cur_spec().ttype is Ident ==> r == super::stmt::name_of(old(self).cur_spec().ttype)
                && final(self).pos == old(self).pos + 1 && final(self).errors@ == old(self).errors@,
            old(self).cur_spec().ttype == Type::Keyword(Keyword::AS) ==> ({
                let q = old(self).pos + 1;
                &&& old(self).ty(q) is Ident ==> r == super::stmt::name_of(old(self).ty(q)) && final(self).pos
                    == q + 1 && final(self).errors@ == old(self).errors@
                &&& !(old(self).ty(q) is Ident) ==> r is None && final(self).pos == (if q < old(self).tokens.len() {
                    q + 1
                } else {
                    q
                }) && final(self).one_more_error(*old(self), old(self).tok(q), Rule::Syntax)
            }),
    {
        if self.is_keyword(Keyword::AS) {
            self.advance();
            self.consume_ident(doc, "alias")
        } else if !self.is_keyword(stop) {
            match &self.cur().ttype {
                Type::Ident(n) => {
                    let n = n.clone();
                    self.advance();
                    Some(n)
                },
                _ => None,
            }
        } else {
            None
        }
    }

    /// `UPDATE [OR action] [schema.]table [[AS] alias] SET column = expr, ... [FROM ...]
    /// [WHERE expr]`, see <https://www.sqlite.org/lang_update.html>.
    pub(crate) fn update_stmt(&mut self) -> (r: Option<Stmt>)
        requires
            old(self).wf(),
            old(self).pos < old(self).tokens.len(),
        ensures
            final(self).evolved_from(*old(self)),
            final(self).pos > old(self).pos,
            r is None ==> final(self).errors@.len() > old(self).errors@.len(),
            final(self).errors@ == old(self).errors@ ==> final(self).cur_spec().ttype
                == Type::Semicolon,
            r matches Some(s) ==> s matches Stmt::Update(u) && u.t == old(self).cur_spec(),
            old(self).ty(old(self).pos + 1) == Type::Keyword(Keyword::OR) ==> (old(self).ty(old(self).pos + 2) matches Type::Keyword(
                k,
            ) ==> (is_or_action(k) ==> (r matches Some(Stmt::Update(u)) ==> u.or_action == Some(k)))),
            old(self).ty(old(self).pos + 1) != Type::Keyword(Keyword::OR) ==> (r matches Some(Stmt::Update(u))
                ==> u.or_action is None),
            ({
                let p = old(self).pos as int;
                old(self).ty(p + 1) is Ident && old(self).ty(p + 2) == Type::Keyword(Keyword::SET) ==> (set_list_from(
                    old(self).tokens@,
                    p + 3,
                ) matches Some((n, e)) ==> (old(self).ty(e) == Type::Semicolon ==> (r matches Some(Stmt::Update(u))
                    && u.alias is None && u.from is None && u.where_clause is None && u.set_clauses@.len() == n
                    && forall|k: int|
                    0 <= k < n ==> #[trigger] u.set_clauses@[k] == set_clause_at(old(self).tokens@, p + 3 + 4 * k))
                    && final(self).errors@ == old(self).errors@ && final(self).pos == e))
            }),
            ({
                let p = old(self).pos as int;
                old(self).ty(p + 1) matches Type::Ident(n) ==> (old(self).ty(p + 2) != Type::Dot ==> (r matches Some(s)
                    ==> s matches Stmt::Update(u) && u.table == n && u.schema is None
                    && u.table_token == old(self).tok(p + 1) && u.or_action is None))
            }),
            old(self).plain_update_at() ==> {
                let p = old(self).pos as int;
                &&& final(self).errors@ == old(self).errors@
                &&& r matches Some(Stmt::Update(u))
                &&& u.table_token == old(self).tok(p + 1)
                &&& u.alias is None
                &&& u.from is None
                &&& u.set_clauses@ == seq![
                    SetClause {
                        column: old(self).ty(p + 3)->Ident_0,
                        column_token: old(self).tok(p + 3),
                        expr: single_expr(old(self).tok(p + 5)),
                    },
                ]
                &&& old(self).ty(p + 6) == Type::Semicolon ==> u.where_clause is None && final(self).pos == p + 6
                &&& old(self).ty(p + 6) == Type::Keyword(Keyword::WHERE) ==> u.where_clause == Some(
                    old(self).equality_expr_from(p + 7),
                ) && final(self).pos == p + 10
            },
            ({
                let p = old(self).pos as int;
                let q = p + 2;
                old(self).ty(p + 1) is Ident && old(self).ty(p + 2) != Type::Dot ==> (r matches Some(Stmt::Update(u))
                    ==> {
                    &&& old(self).ty(q) is Ident ==> u.alias == super::stmt::name_of(old(self).ty(q))
                    &&& old(self).ty(q) == Type::Keyword(Keyword::AS) && old(self).ty(q + 1) is Ident ==> u.alias
                        == super::stmt::name_of(old(self).ty(q + 1))
                    &&& old(self).ty(q) == Type::Keyword(Keyword::SET) ==> u.alias is None
                })
            }),
    {
        let t = self.cur().clone();
        self.advance();
        let or_action = if self.is_keyword(Keyword::OR) {
            self.or_action("expected conflict action after UPDATE OR, got ")
        } else {
            None
        };
        let table_token = self.cur().clone();
        let (schema, table) = self.table_name(
            "expected table name, got ",
            "expected table name after UPDATE, got ",
        )?;
        let alias = self.statement_alias(Keyword::SET, "https://www.sqlite.org/lang_update.html");
        self.consume_keyword(Keyword::SET);
        let mut set_clauses: Vec<SetClause> = Vec::new();
        let ghost plain = old(self).plain_update_at();
        let ghost p = old(self).pos as int;
        let ghost ms = old(self).ty(p + 1) is Ident && old(self).ty(p + 2) == Type::Keyword(Keyword::SET)
            && set_list_from(old(self).tokens@, p + 3) is Some && old(self).ty(
            set_list_from(old(self).tokens@, p + 3)->Some_0.1,
        ) == Type::Semicolon;
        let ghost ns: nat = set_list_from(old(self).tokens@, p + 3)->Some_0.0;
        let ghost es: int = set_list_from(old(self).tokens@, p + 3)->Some_0.1;
        proof {
            if plain || ms {
                assert(self.pos == p + 3);
                assert(self.errors@ == old(self).errors@);
            }
            if ms {
                lemma_set_list_from(old(self).tokens@, p + 3);
            }
        }
        loop
            invariant_except_break
                plain ==> self.pos == p + 3 && set_clauses@.len() == 0 && self.errors@ == old(self).errors@,
                ms ==> set_clauses@.len() < ns && self.pos == p + 3 + 4 * set_clauses@.len() && set_list_from(
                    self.tokens@,
                    self.pos as int,
                ) == Some(((ns - set_clauses@.len()) as nat, es)),
            invariant
                ms == (old(self).ty(p + 1) is Ident && old(self).ty(p + 2) == Type::Keyword(Keyword::SET)
                    && set_list_from(old(self).tokens@, p + 3) is Some && old(self).ty(
                    set_list_from(old(self).tokens@, p + 3)->Some_0.1,
                ) == Type::Semicolon),
                ns == set_list_from(old(self).tokens@, p + 3)->Some_0.0,
                es == set_list_from(old(self).tokens@, p + 3)->Some_0.1,
                ms ==> self.errors@ == old(self).errors@ && set_clauses@.len() <= ns && forall|k: int|
                    0 <= k < set_clauses@.len() ==> #[trigger] set_clauses@[k] == set_clause_at(
                        old(self).tokens@,
                        p + 3 + 4 * k,
                    ),
                self.evolved_from(*old(self)),
                self.pos > old(self).pos,
                self.tokens@ == old(self).tokens@,
                plain == old(self).plain_update_at(),
                p == old(self).pos,
            ensures
                self.evolved_from(*old(self)),
                self.pos > old(self).pos,
                plain ==> self.pos == p + 6 && self.errors@ == old(self).errors@ && set_clauses@ == seq![
                    SetClause {
                        column: old(self).ty(p + 3)->Ident_0,
                        column_token: old(self).tok(p + 3),
                        expr: single_expr(old(self).tok(p + 5)),
                    },
                ],
                ms ==> self.pos == es && self.errors@ == old(self).errors@ && set_clauses@.len() == ns && forall|k: int|
                    0 <= k < set_clauses@.len() ==> #[trigger] set_clauses@[k] == set_clause_at(
                        old(self).tokens@,
                        p + 3 + 4 * k,
                    ),
            decreases self.remaining(),
        {
            let ghost i = self.pos as int;
            proof {
                if ms {
                    assert(kind_at(self.tokens@, i) == self.ty(i));
                    assert(kind_at(self.tokens@, i + 2) == self.ty(i + 2));
                    assert(kind_at(self.tokens@, i + 3) == self.ty(i + 3));
                    lemma_set_list_from(self.tokens@, i + 4);
                }
            }
            proof {
                if plain {
                    assert(self.ty(p + 6) == old(self).ty(p + 6));
                    assert(!continues_at(11, self.ty(p + 6)));
                }
            }
            let column_token = self.cur().clone();
            let column = self.consume_ident("https://www.sqlite.org/lang_update.html", "column_name")?;
            self.consume(Type::Equal);
            let expr = self.sql_expr()?;
            set_clauses.push(SetClause { column, column_token, expr });
            if !self.is(Type::Comma) {
                break;
            }
            self.advance();
        }
        let from = if self.is_keyword(Keyword::FROM) {
            self.advance();
            Some(self.from_clause()?)
        } else {
            None
        };
        let where_clause = if self.is_keyword(Keyword::WHERE) {
            self.advance();
            Some(self.sql_expr()?)
        } else {
            None
        };
        self.expect_end("https://www.sqlite.org/lang_update.html");
        Some(
            Stmt::Update(
                UpdateStmt {
                    t,
                    or_action,
                    schema,
                    table,
                    table_token,
                    alias,
                    set_clauses,
                    from,
                    where_clause,
                },
            ),
        )
    }

    /// `DELETE FROM [schema.]table [[AS] alias] [WHERE expr]`, see
    /// <https://www.sqlite.org/lang_delete.html>.
    pub(crate) fn delete_stmt(&mut self) -> (r: Option<Stmt>)
        requires
            old(self).wf(),
            old(self).pos < old(self).tokens.len(),
        ensures
            final(self).evolved_from(*old(self)),
            final(self).pos > old(self).pos,
            r is None ==> final(self).errors@.len() > old(self).errors@.len(),
            final(self).errors@ == old(self).errors@ ==> final(self).cur_spec().ttype
                == Type::Semicolon,
            r matches Some(s) ==> s matches Stmt::Delete(d) && d.t == old(self).cur_spec(),
            ({
                let p = old(self).pos as int;
                old(self).ty(p + 1) == Type::Keyword(Keyword::FROM) ==> (table_name_in(old(self).tokens@, p + 2) matches Some(
                    (sc, n, q),
                ) ==> (old(self).ty(q) == Type::Semicolon ==> {
                    &&& final(self).errors@ == old(self).errors@
                    &&& final(self).pos == q
                    &&& r == Some(
                        Stmt::Delete(
                            DeleteStmt {
                                t: old(self).cur_spec(),
                                schema: sc,
                                table: n,
                                table_token: old(self).tok(p + 2),
                                alias: None,
                                where_clause: None,
                            },
                        ),
                    )
                }))
            }),
            ({
                let p = old(self).pos as int;
                old(self).ty(p + 1) == Type::Keyword(Keyword::FROM) ==> (table_name_in(old(self).tokens@, p + 2) matches Some(
                    (sc, n, q),
                ) ==> (old(self).ty(q) == Type::Keyword(Keyword::WHERE) ==> (old(self).simple_equality_from(q + 1)
                    ==> {
                    &&& final(self).errors@ == old(self).errors@
                    &&& final(self).pos == q + 4
                    &&& r == Some(
                        Stmt::Delete(
                            DeleteStmt {
                                t: old(self).cur_spec(),
                                schema: sc,
                                table: n,
                                table_token: old(self).tok(p + 2),
                                alias: None,
                                where_clause: Some(old(self).equality_expr_from(q + 1)),
                            },
                        ),
                    )
                })))
            }),
            plain_delete_end(old(self).tokens@, old(self).pos as int) >= 0 ==> r is Some && final(self).errors@
                == old(self).errors@ && final(self).pos == plain_delete_end(old(self).tokens@, old(self).pos as int),
    {
        let t = self.cur().clone();
        self.advance();
        self.consume_keyword(Keyword::FROM);
        let table_token = self.cur().clone();
        let (schema, table) = self.table_name(
            "expected table name, got ",
            "expected table name after DELETE FROM, got ",
        )?;
        let alias = self.statement_alias(Keyword::WHERE, "https://www.sqlite.org/lang_delete.html");
        let where_clause = if self.is_keyword(Keyword::WHERE) {
            self.advance();
            proof {
                let p = old(self).pos as int;
                if old(self).ty(p + 1) == Type::Keyword(Keyword::FROM) && table_name_in(old(self).tokens@, p + 2) is Some {
                    let q = table_name_in(old(self).tokens@, p + 2)->Some_0.2;
                    if old(self).ty(q) == Type::Keyword(Keyword::WHERE) && old(self).simple_equality_from(q + 1) {
                        assert(self.pos == q + 1);
                        assert(self.simple_equality_at(11));
                        assert(self.simple_equality_expr() == old(self).equality_expr_from(q + 1));
                    }
                }
            }
            Some(self.sql_expr()?)
        } else {
            None
        };
        self.expect_end("https://www.sqlite.org/lang_delete.html");
        Some(Stmt::Delete(DeleteStmt { t, schema, table, table_token, alias, where_clause }))
    }
}

} // verus!
