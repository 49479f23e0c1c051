//! Transaction, savepoint and maintenance statements.

use vstd::prelude::*;

use super::Parser;
use crate::nodes::{Alter, DeleteStmt, Expr, PragmaInvocation, SchemaTableContainer, SetClause, Stmt};
use super::column::is_literal_type;
use crate::types::{concat2, concat3, concat4, Keyword, Rule, Token, Type};

verus! {

/// Whether `t` is one of BEGIN's transaction modifiers.
pub open spec fn is_begin_modifier(t: Type) -> bool {
    t == Type::Keyword(Keyword::DEFERRED) || t == Type::Keyword(Keyword::IMMEDIATE) || t
        == Type::Keyword(Keyword::EXCLUSIVE)
}

/// The kind of the token at index `i` of `toks` (the end-of-input kind outside them).
pub open spec fn kind_at(toks: Seq<Token>, i: int) -> Type {
    if 0 <= i < toks.len() {
        toks[i].ttype
    } else {
        Type::Eof
    }
}

/// Where a plain statement that starts at index `p` ends: the index of its semicolon, or
/// -1 where none starts there. The plain statements are `VACUUM;`, `BEGIN [DEFERRED |
/// IMMEDIATE | EXCLUSIVE] [TRANSACTION];`, `COMMIT [TRANSACTION];`, `END
/// [TRANSACTION];`, `ROLLBACK [TRANSACTION];`, and the plain SELECT, INSERT, UPDATE,
/// DELETE and CREATE TABLE forms (`plain_select_core_in`, `plain_insert_in`,
/// `plain_update_in`, `plain_delete_end`, `plain_create_in`).
pub open spec fn plain_stmt_end(toks: Seq<Token>, p: int) -> int {
    let k = kind_at(toks, p);
    if k == Type::Keyword(Keyword::VACUUM) {
        if kind_at(toks, p + 1) == Type::Semicolon {
            p + 1
        } else {
            -1
        }
    } else if k == Type::Keyword(Keyword::BEGIN) {
        let a = if is_begin_modifier(kind_at(toks, p + 1)) {
            p + 2
        } else {
            p + 1
        };
        if kind_at(toks, a) == Type::Semicolon {
            a
        } else if kind_at(toks, a) == Type::Keyword(Keyword::TRANSACTION) && kind_at(toks, a + 1)
            == Type::Semicolon {
            a + 1
        } else {
            -1
        }
    } else if k == Type::Keyword(Keyword::COMMIT) || k == Type::Keyword(Keyword::END) {
        if kind_at(toks, p + 1) == Type::Semicolon {
            p + 1
        } else if kind_at(toks, p + 1) == Type::Keyword(Keyword::TRANSACTION) && kind_at(toks, p + 2)
            == Type::Semicolon {
            p + 2
        } else {
            -1
        }
    } else if k == Type::Keyword(Keyword::ROLLBACK) {
        let q = if kind_at(toks, p + 1) == Type::Keyword(Keyword::TRANSACTION) {
            p + 2
        } else {
            p + 1
        };
        if kind_at(toks, q) == Type::Semicolon {
            q
        } else {
            -1
        }
    } else if k == Type::Keyword(Keyword::SELECT) {
        super::query::plain_select_stmt_end(toks, p)
    } else if k == Type::Keyword(Keyword::INSERT) {
        match super::dml::plain_insert_in(toks, p) {
            Some((n, m)) => p + 6 + 2 * n + 2 * m,
            None => -1,
        }
    } else if k == Type::Keyword(Keyword::UPDATE) {
        if super::dml::plain_update_in(toks, p) {
            if kind_at(toks, p + 6) == Type::Semicolon {
                p + 6
            } else {
                p + 10
            }
        } else {
            -1
        }
    } else if k == Type::Keyword(Keyword::DELETE) {
        super::dml::plain_delete_end(toks, p)
    } else if k == Type::Keyword(Keyword::CREATE) {
        match super::dml::plain_create_in(toks, p) {
            Some(n) => p + 4 + 3 * n,
            None => -1,
        }
    } else {
        -1
    }
}

/// Where the statement after an `EXPLAIN [QUERY PLAN]` prefix at index `p` starts (`p`
/// itself where there is no prefix).
pub open spec fn explain_skip(toks: Seq<Token>, p: int) -> int {
    if kind_at(toks, p) == Type::Keyword(Keyword::EXPLAIN) {
        if kind_at(toks, p + 1) == Type::Keyword(Keyword::QUERY) && kind_at(toks, p + 2) == Type::Keyword(
            Keyword::PLAN,
        ) {
            p + 3
        } else {
            p + 1
        }
    } else {
        p
    }
}

/// Where a plain statement at index `p`, with an optional `EXPLAIN [QUERY PLAN]` prefix,
/// ends (the index of its semicolon), or -1 where none starts there.
pub open spec fn plain_full_end(toks: Seq<Token>, p: int) -> int {
    plain_stmt_end(toks, explain_skip(toks, p))
}

/// Whether `s` is the tree of the plain DELETE at index `q` of `toks` (`plain_delete_end`).
pub open spec fn plain_delete_tree(toks: Seq<Token>, q: int, s: Stmt) -> bool {
    s == Stmt::Delete(
        DeleteStmt {
            t: toks[q],
            schema: None,
            table: kind_at(toks, q + 2)->Ident_0,
            table_token: super::query::tok_at(toks, q + 2),
            alias: None,
            where_clause: if kind_at(toks, q + 3) == Type::Keyword(Keyword::WHERE) {
                Some(super::query::equality_expr_in(toks, q + 4))
            } else {
                None
            },
        },
    )
}

/// Whether `s` is the tree of the plain UPDATE at index `q` of `toks` (`plain_update_in`):
/// its one SET clause, its WHERE comparison if it has one, no alias and no FROM.
pub open spec fn plain_update_tree(toks: Seq<Token>, q: int, s: Stmt) -> bool {
    &&& s matches Stmt::Update(u)
    &&& u.t == toks[q]
    &&& u.table_token == super::query::tok_at(toks, q + 1)
    &&& u.alias is None
    &&& u.from is None
    &&& u.set_clauses@ == seq![
        SetClause {
            column: kind_at(toks, q + 3)->Ident_0,
            column_token: super::query::tok_at(toks, q + 3),
            expr: super::query::single_expr(super::query::tok_at(toks, q + 5)),
        },
    ]
    &&& u.where_clause == if kind_at(toks, q + 6) == Type::Keyword(Keyword::WHERE) {
        Some(super::query::equality_expr_in(toks, q + 7))
    } else {
        None
    }
}

/// Whether `s` is the tree of the plain INSERT at index `q` of `toks` (`plain_insert_in`):
/// its named columns and its one row of single-token values.
pub open spec fn plain_insert_tree(toks: Seq<Token>, q: int, s: Stmt) -> bool {
    let (k, m) = super::dml::plain_insert_in(toks, q)->Some_0;
    &&& s matches Stmt::Insert(ins)
    &&& ins.t == toks[q]
    &&& ins.columns@.len() == k
    &&& forall|j: int| 0 <= j < k ==> #[trigger] ins.columns@[j] == kind_at(toks, q + 4 + 2 * j)->Ident_0
    &&& ins.values@.len() == 1
    &&& ins.values@[0]@.len() == m
    &&& forall|j: int|
        0 <= j < m ==> #[trigger] ins.values@[0]@[j] == super::query::single_expr(
            super::query::tok_at(toks, q + 6 + 2 * k + 2 * j),
        )
    &&& ins.select is None
    &&& !ins.default_values
}

/// Whether `s` is the tree of the plain CREATE TABLE at index `q` of `toks`
/// (`plain_create_in`): its columns, by token and declared class, with no constraint.
pub open spec fn plain_create_tree(toks: Seq<Token>, q: int, s: Stmt) -> bool {
    let n = super::dml::plain_create_in(toks, q)->Some_0;
    &&& s matches Stmt::CreateTable(c)
    &&& c.t == toks[q]
    &&& c.name == kind_at(toks, q + 2)->Ident_0
    &&& c.schema is None
    &&& !c.temporary
    &&& !c.if_not_exists
    &&& c.columns@.len() == n
    &&& forall|j: int|
        0 <= j < n ==> (#[trigger] c.columns@[j]).t == super::query::tok_at(toks, q + 4 + 3 * j)
            && c.columns@[j].storage_class == super::column::declared_class(kind_at(toks, q + 5 + 3 * j))
            && c.columns@[j].constraints@.len() == 0
}

/// Whether `s` is the statement that the plain statement at index `q` of `toks` (no
/// prefix) gives: VACUUM, BEGIN, COMMIT/END, ROLLBACK and DELETE exactly, SELECT, UPDATE,
/// INSERT and CREATE TABLE by their parts.
pub open spec fn plain_body_ok(toks: Seq<Token>, q: int, s: Stmt) -> bool {
    let k = kind_at(toks, q);
    let t = toks[q];
    if k == Type::Keyword(Keyword::VACUUM) {
        s == Stmt::Vacuum { t, schema_name: None, filename: None }
    } else if k == Type::Keyword(Keyword::BEGIN) {
        s == Stmt::Begin {
            t,
            transaction_kind: if is_begin_modifier(kind_at(toks, q + 1)) {
                Some(kind_at(toks, q + 1)->Keyword_0)
            } else {
                None
            },
        }
    } else if k == Type::Keyword(Keyword::COMMIT) || k == Type::Keyword(Keyword::END) {
        s == Stmt::Commit { t }
    } else if k == Type::Keyword(Keyword::ROLLBACK) {
        s == Stmt::Rollback { t, save_point: None }
    } else if k == Type::Keyword(Keyword::SELECT) {
        s matches Stmt::Select(sel) && super::query::plain_select_tree(toks, q, sel)
    } else if k == Type::Keyword(Keyword::DELETE) {
        plain_delete_tree(toks, q, s)
    } else if k == Type::Keyword(Keyword::UPDATE) {
        plain_update_tree(toks, q, s)
    } else if k == Type::Keyword(Keyword::INSERT) {
        plain_insert_tree(toks, q, s)
    } else if k == Type::Keyword(Keyword::CREATE) {
        plain_create_tree(toks, q, s)
    } else {
        k matches Type::Keyword(kw) && super::program::stmt_of_kind(kw, s)
    }
}

/// Whether `s` is the statement that the plain statement at index `p` of `toks` gives,
/// under an `Explain` node where it has the prefix.
pub open spec fn plain_stmt_ok(toks: Seq<Token>, p: int, s: Stmt) -> bool {
    let q = explain_skip(toks, p);
    if q != p {
        s matches Stmt::Explain { t, child } && t == toks[p] && plain_body_ok(toks, q, *child)
    } else {
        plain_body_ok(toks, p, s)
    }
}

/// The index of the first semicolon of `toks` from index `i` on, or the length of `toks`.
pub open spec fn next_semicolon(toks: Seq<Token>, i: int) -> int
    decreases toks.len() - i,
{
    if i >= toks.len() {
        toks.len() as int
    } else if kind_at(toks, i) == Type::Semicolon {
        i
    } else {
        next_semicolon(toks, i + 1)
    }
}

/// Where the first semicolon from `i` on is at `j`, `next_semicolon` finds it.
pub proof fn lemma_next_semicolon(toks: Seq<Token>, i: int, j: int)
    requires
        0 <= i <= j <= toks.len(),
        j == toks.len() || kind_at(toks, j) == Type::Semicolon,
        forall|k: int| i <= k < j ==> #[trigger] kind_at(toks, k) != Type::Semicolon,
    ensures
        next_semicolon(toks, i) == j,
    decreases j - i,
{
    if i < j {
        lemma_next_semicolon(toks, i + 1, j);
    }
}

/// The indices where the statements of `toks` from index `p` on start, where `toks` from
/// there is made up of plain statements (`plain_full_end`), each with its semicolon, and
/// of `--@sqleibniz::expect` instructions, each of which takes the statement after it up
/// to its semicolon away; none where it is not.
pub open spec fn plain_stmts(toks: Seq<Token>, p: int) -> Option<Seq<int>>
    decreases toks.len() - p,
{
    if p < 0 {
        None
    } else if p >= toks.len() {
        Some(Seq::empty())
    } else if kind_at(toks, p) == Type::InstructionExpect {
        let s = next_semicolon(toks, p);
        if p <= s < toks.len() {
            plain_stmts(toks, s + 1)
        } else {
            None
        }
    } else {
        let e = plain_full_end(toks, p);
        if p < e < toks.len() {
            match plain_stmts(toks, e + 1) {
                Some(rest) => Some(seq![p] + rest),
                None => None,
            }
        } else {
            None
        }
    }
}

/// The name that an identifier or a string token carries.
pub open spec fn name_of(t: Type) -> Option<String> {
    match t {
        Type::Ident(s) => Some(s),
        Type::String(s) => Some(s),
        _ => None,
    }
}

impl<'a> Parser<'a> {
    /// `BEGIN [DEFERRED|IMMEDIATE|EXCLUSIVE] [TRANSACTION]`, see
    /// <https://www.sqlite.org/syntax/begin-stmt.html>.
    pub(crate) fn begin_stmt(&mut self) -> (r: Option<Stmt>)
        requires
            old(self).wf(),
            old(self).pos < old(self).tokens.len(),
        ensures
            final(self).evolved_from(*old(self)),
            final(self).pos > old(self).pos,
            r == Some(
                Stmt::Begin {
                    t: old(self).cur_spec(),
                    transaction_kind: if is_begin_modifier(old(self).ty(old(self).pos + 1)) {
                        Some(old(self).ty(old(self).pos + 1)->Keyword_0)
                    } else {
                        None
                    },
                },
            ),
            ({
                let p = old(self).pos as int;
                let after = if is_begin_modifier(old(self).ty(p + 1)) {
                    p + 2
                } else {
                    p + 1
                };
                final(self).errors@ == old(self).errors@ <==> (old(self).ty(after) == Type::Semicolon
                    || (old(self).ty(after) == Type::Keyword(Keyword::TRANSACTION) && old(self).ty(
                    after + 1) == Type::Semicolon))
            }),
            final(self).errors@ == old(self).errors@ ==> final(self).cur_spec().ttype
                == Type::Semicolon,
            old(self).cur_spec().ttype == Type::Keyword(Keyword::BEGIN) && plain_stmt_end(old(self).tokens@, old(self).pos as int) >= 0 ==> final(self).errors@ == old(
                self,
            ).errors@ && final(self).pos == plain_stmt_end(old(self).tokens@, old(self).pos as int),
            ({
                let p = old(self).pos as int;
                let k = old(self).errors@.len() as int;
                is_begin_modifier(old(self).ty(p + 1)) && is_begin_modifier(old(self).ty(p + 2)) ==> {
                    &&& final(self).errors@.len() > k
                    &&& old(self).diag_at(final(self).errors@[k], old(self).tok(p + 2), Rule::Syntax)
                    &&& final(self).errors@[k].msg@ == "Unexpected Token"@
                    &&& final(self).errors@[k].note@ == "BEGIN does not allow multiple transaction behaviour modifiers"@
                }
            }),
    {
        let t = self.cur().clone();
        self.advance();
        let mut transaction_kind: Option<Keyword> = None;
        if self.is(Type::Semicolon) {
            return Some(Stmt::Begin { t, transaction_kind });
        }
        if self.is_keyword(Keyword::DEFERRED) || self.is_keyword(Keyword::IMMEDIATE)
            || self.is_keyword(Keyword::EXCLUSIVE) {
            if let Type::Keyword(word) = &self.cur().ttype {
                transaction_kind = Some(*word);
            }
            self.advance();
        }
        if self.is(Type::Semicolon) {
            return Some(Stmt::Begin { t, transaction_kind });
        }
        if self.is_keyword(Keyword::TRANSACTION) {
            self.advance();
        } else if self.is_keyword(Keyword::DEFERRED) || self.is_keyword(Keyword::IMMEDIATE)
            || self.is_keyword(Keyword::EXCLUSIVE) {
            let cur = self.cur().clone();
            let mut err = self.err(
                "Unexpected Token",
                "BEGIN does not allow multiple transaction behaviour modifiers",
                &cur,
                Rule::Syntax,
            );
            err.doc_url = Some("https://www.sqlite.org/lang_transaction.html");
            self.push_error(err);
            self.skip_until_semicolon_or_eof();
        } else {
            let cur = self.cur().clone();
            let got = cur.ttype.debug_text();
            let note = concat2(
                "Wanted any of TRANSACTION, DEFERRED, IMMEDIATE or EXCLUSIVE before this point, got ",
                got.as_str(),
            );
            let mut err = self.err("Unexpected Token", note.as_str(), &cur, Rule::Syntax);
            err.doc_url = Some("https://www.sqlite.org/lang_transaction.html");
            self.push_error(err);
        }
        let ghost before_end = *self;
        self.expect_end("https://www.sqlite.org/lang_transaction.html");
        proof {
            if self.errors@ == old(self).errors@ {
                assert(before_end.errors@.len() == old(self).errors@.len());
            }
        }
        Some(Stmt::Begin { t, transaction_kind })
    }

    /// `COMMIT|END [TRANSACTION]`, see <https://www.sqlite.org/syntax/commit-stmt.html>.
    pub(crate) fn commit_stmt(&mut self) -> (r: Option<Stmt>)
        requires
            old(self).wf(),
            old(self).pos < old(self).tokens.len(),
        ensures
            final(self).evolved_from(*old(self)),
            final(self).pos > old(self).pos,
            r == Some(Stmt::Commit { t: old(self).cur_spec() }),
            ({
                let p = old(self).pos as int;
                final(self).errors@ == old(self).errors@ <==> (old(self).ty(p + 1) == Type::Semicolon
                    || (old(self).ty(p + 1) == Type::Keyword(Keyword::TRANSACTION) && old(self).ty(
                    p + 2) == Type::Semicolon))
            }),
            final(self).errors@ == old(self).errors@ ==> final(self).cur_spec().ttype
                == Type::Semicolon,
            (old(self).cur_spec().ttype == Type::Keyword(Keyword::COMMIT) || old(self).cur_spec().ttype == Type::Keyword(Keyword::END)) && plain_stmt_end(old(self).tokens@, old(self).pos as int) >= 0 ==> final(self).errors@ == old(
                self,
            ).errors@ && final(self).pos == plain_stmt_end(old(self).tokens@, old(self).pos as int),
    {
        let t = self.cur().clone();
        self.advance();
        if self.is(Type::Semicolon) {
        } else if self.is_keyword(Keyword::TRANSACTION) {
            self.advance();
        } else {
            let cur = self.cur().clone();
            let got = cur.ttype.debug_text();
            let note = concat2("Wanted Keyword(TRANSACTION) or Semicolon, got ", got.as_str());
            let mut err = self.err("Unexpected Token", note.as_str(), &cur, Rule::Syntax);
            err.doc_url = Some("https://www.sqlite.org/lang_transaction.html");
            self.push_error(err);
            self.advance();
        }
        let ghost before_end = *self;
        self.expect_end("https://www.sqlite.org/lang_transaction.html");
        proof {
            let p = old(self).pos as int;
            assert(kind_at(old(self).tokens@, p + 1) == old(self).ty(p + 1));
            assert(kind_at(old(self).tokens@, p + 2) == old(self).ty(p + 2));
            if self.errors@ == old(self).errors@ {
                assert(before_end.errors@.len() == old(self).errors@.len());
            }
            if (old(self).cur_spec().ttype == Type::Keyword(Keyword::COMMIT) || old(self).cur_spec().ttype
                == Type::Keyword(Keyword::END)) && plain_stmt_end(old(self).tokens@, p) >= 0 {
                assert(before_end.pos == plain_stmt_end(old(self).tokens@, p));
                assert(before_end.cur_spec().ttype == Type::Semicolon);
            }
        }
        Some(Stmt::Commit { t })
    }
    /// `ROLLBACK [TRANSACTION] [TO [SAVEPOINT] savepoint_name]`, see
    /// <https://www.sqlite.org/syntax/rollback-stmt.html>.
    pub(crate) fn rollback_stmt(&mut self) -> (r: Option<Stmt>)
        requires
            old(self).wf(),
            old(self).pos < old(self).tokens.len(),
        ensures
            r is None ==> final(self).errors@.len() > old(self).errors@.len(),
            final(self).evolved_from(*old(self)),
            final(self).pos > old(self).pos,
            r matches Some(Stmt::Rollback { t, save_point }) && t == old(self).cur_spec(),
            ({
                let p = old(self).pos as int;
                let q = if old(self).ty(p + 1) == Type::Keyword(Keyword::TRANSACTION) {
                    p + 2
                } else {
                    p + 1
                };
                let n = if old(self).ty(q + 1) == Type::Keyword(Keyword::SAVEPOINT) {
                    q + 2
                } else {
                    q + 1
                };
                final(self).errors@ == old(self).errors@ <==> (old(self).ty(q) == Type::Semicolon
                    || (old(self).ty(q) == Type::Keyword(Keyword::TO) && old(self).ty(n) is Ident
                    && old(self).ty(n + 1) == Type::Semicolon))
            }),
            final(self).errors@ == old(self).errors@ ==> final(self).cur_spec().ttype
                == Type::Semicolon,
            old(self).cur_spec().ttype == Type::Keyword(Keyword::ROLLBACK) && plain_stmt_end(old(self).tokens@, old(self).pos as int) >= 0 ==> final(self).errors@ == old(
                self,
            ).errors@ && final(self).pos == plain_stmt_end(old(self).tokens@, old(self).pos as int),
            old(self).cur_spec().ttype == Type::Keyword(Keyword::ROLLBACK) && plain_stmt_end(old(self).tokens@, old(self).pos as int) >= 0
                ==> r == Some(Stmt::Rollback { t: old(self).cur_spec(), save_point: None }),
    {
        let t = self.cur().clone();
        let mut save_point: Option<String> = None;
        self.advance();
        if !(self.is_keyword(Keyword::TRANSACTION) || self.is_keyword(Keyword::TO) || self.is(
            Type::Semicolon,
        )) {
            let cur = self.cur().clone();
            let got = cur.ttype.debug_text();
            let note = concat2(
                "ROLLBACK requires TRANSACTION, TO or to end at this point, got ",
                got.as_str(),
            );
            let mut err = self.err("Unexpected Token", note.as_str(), &cur, Rule::Syntax);
            err.doc_url = Some("https://www.sqlite.org/lang_transaction.html");
            self.push_error(err);
        }
        let ghost after_first = *self;
        if self.is_keyword(Keyword::TRANSACTION) {
            self.advance();
        }
        if self.is_keyword(Keyword::TO) {
            self.advance();
            if self.is_keyword(Keyword::SAVEPOINT) {
                self.advance();
            }
            let is_ident = matches!(self.cur().ttype, Type::Ident(_));
            if !(self.is_keyword(Keyword::SAVEPOINT) || is_ident || self.is(Type::Semicolon)) {
                let cur = self.cur().clone();
                let got = cur.ttype.debug_text();
                let note = concat2(
                    "ROLLBACK requires SAVEPOINT, Ident or to end at this point, got ",
                    got.as_str(),
                );
                let mut err = self.err("Unexpected Token", note.as_str(), &cur, Rule::Syntax);
                err.doc_url = Some("https://www.sqlite.org/lang_transaction.html");
                self.push_error(err);
                self.advance();
            }
            if let Type::Ident(name) = &self.cur().ttype {
                save_point = Some(name.clone());
            } else {
                let cur = self.cur().clone();
                let got = cur.ttype.debug_text();
                let note = concat2("ROLLBACK wants Ident as <savepoint-name>, got ", got.as_str());
                let mut err = self.err("Unexpected Token", note.as_str(), &cur, Rule::Syntax);
                err.doc_url = Some("https://www.sqlite.org/lang_transaction.html");
                self.push_error(err);
            }
            self.advance();
        }
        let ghost before_end = *self;
        self.expect_end("https://www.sqlite.org/lang_transaction.html");
        proof {
            let p = old(self).pos as int;
            assert(kind_at(old(self).tokens@, p + 1) == old(self).ty(p + 1));
            assert(kind_at(old(self).tokens@, p + 2) == old(self).ty(p + 2));
            if self.errors@ == old(self).errors@ {
                assert(before_end.errors@.len() == old(self).errors@.len());
                assert(after_first.errors@.len() == old(self).errors@.len());
            }
            if old(self).cur_spec().ttype == Type::Keyword(Keyword::ROLLBACK) && plain_stmt_end(old(self).tokens@, p) >= 0 {
                assert(after_first.errors@ == old(self).errors@);
                assert(before_end.pos == plain_stmt_end(old(self).tokens@, p));
                assert(before_end.cur_spec().ttype == Type::Semicolon);
            }
        }
        Some(Stmt::Rollback { t, save_point })
    }

    /// `SAVEPOINT savepoint_name`, see <https://www.sqlite.org/syntax/savepoint-stmt.html>.
    pub(crate) fn savepoint_stmt(&mut self) -> (r: Option<Stmt>)
        requires
            old(self).wf(),
            old(self).pos < old(self).tokens.len(),
        ensures
            r is None ==> final(self).errors@.len() > old(self).errors@.len(),
            final(self).evolved_from(*old(self)),
            final(self).pos > old(self).pos,
            ({
                let p = old(self).pos as int;
                &&& old(self).ty(p + 1) matches Type::Ident(n) ==> r == Some(
                    Stmt::Savepoint { t: old(self).cur_spec(), savepoint_name: n },
                )
                &&& !(old(self).ty(p + 1) is Ident) ==> r is None
                &&& final(self).errors@ == old(self).errors@ <==> (old(self).ty(p + 1) is Ident
                    && old(self).ty(p + 2) == Type::Semicolon)
            }),
            final(self).errors@ == old(self).errors@ ==> final(self).cur_spec().ttype
                == Type::Semicolon,
    {
        let t = self.cur().clone();
        self.advance();
        let savepoint_name = self.consume_ident(
            "https://www.sqlite.org/syntax/savepoint-stmt.html",
            "savepoint_name",
        )?;
        self.expect_end("https://www.sqlite.org/lang_savepoint.html");
        Some(Stmt::Savepoint { t, savepoint_name })
    }

    /// `RELEASE [SAVEPOINT] savepoint_name`, see
    /// <https://www.sqlite.org/syntax/release-stmt.html>.
    pub(crate) fn release_stmt(&mut self) -> (r: Option<Stmt>)
        requires
            old(self).wf(),
            old(self).pos < old(self).tokens.len(),
        ensures
            r is None ==> final(self).errors@.len() > old(self).errors@.len(),
            final(self).evolved_from(*old(self)),
            final(self).pos > old(self).pos,
            ({
                let p = old(self).pos as int;
                let q = if old(self).ty(p + 1) == Type::Keyword(Keyword::SAVEPOINT) {
                    p + 2
                } else {
                    p + 1
                };
                &&& old(self).ty(q) matches Type::Ident(n) ==> r == Some(
                    Stmt::Release { t: old(self).cur_spec(), savepoint_name: n },
                )
                &&& !(old(self).ty(q) is Ident) ==> r is None
                &&& final(self).errors@ == old(self).errors@ <==> (old(self).ty(q) is Ident
                    && old(self).ty(q + 1) == Type::Semicolon)
            }),
            final(self).errors@ == old(self).errors@ ==> final(self).cur_spec().ttype
                == Type::Semicolon,
    {
        let t = self.cur().clone();
        self.advance();
        if self.is_keyword(Keyword::SAVEPOINT) {
            self.advance();
        }
        let savepoint_name = self.consume_ident(
            "https://www.sqlite.org/syntax/release-stmt.html",
            "savepoint_name",
        )?;
        self.expect_end("https://www.sqlite.org/syntax/release-stmt.html");
        Some(Stmt::Release { t, savepoint_name })
    }

    /// `DETACH [DATABASE] schema_name`, see <https://www.sqlite.org/syntax/detach-stmt.html>.
    pub(crate) fn detach_stmt(&mut self) -> (r: Option<Stmt>)
        requires
            old(self).wf(),
            old(self).pos < old(self).tokens.len(),
        ensures
            r is None ==> final(self).errors@.len() > old(self).errors@.len(),
            final(self).evolved_from(*old(self)),
            final(self).pos > old(self).pos,
            ({
                let p = old(self).pos as int;
                let q = if old(self).ty(p + 1) == Type::Keyword(Keyword::DATABASE) {
                    p + 2
                } else {
                    p + 1
                };
                &&& old(self).ty(q) matches Type::Ident(n) ==> r == Some(
                    Stmt::Detach { t: old(self).cur_spec(), schema_name: n },
                )
                &&& !(old(self).ty(q) is Ident) ==> r is None
                &&& final(self).errors@ == old(self).errors@ <==> (old(self).ty(q) is Ident
                    && old(self).ty(q + 1) == Type::Semicolon)
            }),
            final(self).errors@ == old(self).errors@ ==> final(self).cur_spec().ttype
                == Type::Semicolon,
    {
        let t = self.cur().clone();
        self.advance();
        if self.is_keyword(Keyword::DATABASE) {
            self.advance();
        }
        let schema_name = self.consume_ident(
            "https://www.sqlite.org/lang_detach.html",
            "schema_name",
        )?;
        self.expect_end("https://www.sqlite.org/lang_detach.html");
        Some(Stmt::Detach { t, schema_name })
    }
    /// `schema_name.name` or `name`, where a name is an identifier or a string; anything
    /// else is reported (as a malformed `target_name`, "table" by default) and skipped.
    pub(crate) fn schema_table_container(&mut self, target_name: Option<&str>) -> (r: Option<
        SchemaTableContainer,
    >)
        requires
            old(self).wf(),
        ensures
            final(self).evolved_from(*old(self)),
            final(self).pos > old(self).pos || old(self).pos == old(self).tokens.len(),
            ({
                let p = old(self).pos as int;
                if old(self).ty(p) is Ident && old(self).ty(p + 1) == Type::Dot {
                    if name_of(old(self).ty(p + 2)) is Some {
                        &&& r == Some(
                            SchemaTableContainer::SchemaAndTable {
                                schema: old(self).ty(p)->Ident_0,
                                table: name_of(old(self).ty(p + 2))->Some_0,
                            },
                        )
                        &&& final(self).errors@ == old(self).errors@
                        &&& final(self).pos == p + 3
                    } else {
                        &&& r is None
                        &&& final(self).one_more_error(
                            *old(self),
                            old(self).tok(p + 2),
                            Rule::Syntax,
                        )
                    }
                } else if name_of(old(self).ty(p)) is Some {
                    &&& r == Some(SchemaTableContainer::Table(name_of(old(self).ty(p))->Some_0))
                    &&& final(self).errors@ == old(self).errors@
                    &&& final(self).pos == p + 1
                } else {
                    &&& r is None
                    &&& final(self).one_more_error(*old(self), old(self).cur_spec(), Rule::Syntax)
                    &&& final(self).pos == old(self).next_pos()
                }
            }),
    {
        let target = match target_name {
            Some(n) => n,
            None => "table",
        };
        let is_ident = matches!(self.cur().ttype, Type::Ident(_));
        if is_ident && self.next_is(Type::Dot) {
            let schema = match &self.cur().ttype {
                Type::Ident(s) => s.clone(),
                _ => String::new(),
            };
            self.advance();
            self.advance();
            match &self.cur().ttype {
                Type::Ident(table) | Type::String(table) => {
                    let table = table.clone();
                    self.advance();
                    Some(SchemaTableContainer::SchemaAndTable { schema, table })
                },
                _ => {
                    let cur = self.cur().clone();
                    let msg = concat3("Malformed ", target, " name");
                    let err = match &cur.ttype {
                        Type::Keyword(keyword) => {
                            let kw = keyword.as_str();
                            let mut note = concat3("`", kw, "` is a keyword, if you want to use it as a ");
                            note.append(target);
                            note.append(" or column name, quote it: '");
                            note.append(kw);
                            note.append("'");
                            self.err(msg.as_str(), note.as_str(), &cur, Rule::Syntax)
                        },
                        _ => {
                            let got = cur.ttype.debug_text();
                            let note = concat4(
                                "expected a ",
                                target,
                                " name after <schema_name>. - got ",
                                got.as_str(),
                            );
                            self.err(msg.as_str(), note.as_str(), &cur, Rule::Syntax)
                        },
                    };
                    self.push_error(err);
                    proof {
                        assert(self.errors@.drop_last() =~= old(self).errors@);
                    }
                    self.advance();
                    None
                },
            }
        } else {
            match &self.cur().ttype {
                Type::Ident(table_name) | Type::String(table_name) => {
                    let table_name = table_name.clone();
                    self.advance();
                    Some(SchemaTableContainer::Table(table_name))
                },
                _ => {
                    let cur = self.cur().clone();
                    let msg = concat3("Malformed ", target, " name");
                    let got = cur.ttype.debug_text();
                    let mut note = concat4("expected either schema_name.", target, " or ", target);
                    note.append(", got ");
                    note.append(got.as_str());
                    self.push_err(msg.as_str(), note.as_str(), &cur, Rule::Syntax);
                    self.advance();
                    None
                },
            }
        }
    }

    /// `ANALYZE [schema_name | index_or_table_name | schema_name.index_or_table_name]`, see
    /// <https://www.sqlite.org/syntax/analyze-stmt.html>.
    pub(crate) fn analyse_stmt(&mut self) -> (r: Option<Stmt>)
        requires
            old(self).wf(),
            old(self).pos < old(self).tokens.len(),
        ensures
            final(self).evolved_from(*old(self)),
            final(self).pos > old(self).pos,
            r matches Some(Stmt::Analyze { t, target }) && t == old(self).cur_spec(),
            ({
                let p = old(self).pos as int;
                old(self).ty(p + 1) == Type::Semicolon ==> final(self).errors@ == old(self).errors@
                    && r == Some(Stmt::Analyze { t: old(self).cur_spec(), target: None })
            }),
            final(self).errors@ == old(self).errors@ ==> final(self).cur_spec().ttype
                == Type::Semicolon,
    {
        let t = self.cur().clone();
        self.advance();
        let is_ident = matches!(self.cur().ttype, Type::Ident(_));
        let target = if is_ident && self.next_is(Type::Dot) {
            let schema = match &self.cur().ttype {
                Type::Ident(s) => s.clone(),
                _ => String::new(),
            };
            self.advance();
            self.advance();
            match &self.cur().ttype {
                Type::Ident(table) | Type::String(table) => {
                    let table = table.clone();
                    self.advance();
                    Some(SchemaTableContainer::SchemaAndTable { schema, table })
                },
                _ => {
                    let cur = self.cur().clone();
                    let err = match &cur.ttype {
                        Type::Keyword(keyword) => {
                            let kw = keyword.as_str();
                            let mut note = concat3(
                                "`",
                                kw,
                                "` is a keyword, if you want to use it as a table or column name, quote it: '",
                            );
                            note.append(kw);
                            note.append("'");
                            self.err("Malformed table name", note.as_str(), &cur, Rule::Syntax)
                        },
                        _ => {
                            let got = cur.ttype.debug_text();
                            let note = concat2(
                                "expected a table name after <schema_name>. - got ",
                                got.as_str(),
                            );
                            self.err("Malformed table name", note.as_str(), &cur, Rule::Syntax)
                        },
                    };
                    self.push_error(err);
                    proof {
                        assert(self.errors@.drop_last() =~= old(self).errors@);
                    }
                    self.advance();
                    None
                },
            }
        } else {
            match &self.cur().ttype {
                Type::Ident(table_name) | Type::String(table_name) => {
                    let table_name = table_name.clone();
                    self.advance();
                    Some(SchemaTableContainer::Table(table_name))
                },
                _ => None,
            }
        };
        self.expect_end("https://www.sqlite.org/lang_analyze.html");
        Some(Stmt::Analyze { t, target })
    }

    /// `DROP INDEX|TABLE|TRIGGER|VIEW [IF EXISTS] [schema_name.]name`, see
    /// <https://www.sqlite.org/lang_droptable.html> and its siblings.
    pub(crate) fn drop_stmt(&mut self) -> (r: Option<Stmt>)
        requires
            old(self).wf(),
            old(self).pos < old(self).tokens.len(),
        ensures
            r is None ==> final(self).errors@.len() > old(self).errors@.len(),
            final(self).evolved_from(*old(self)),
            final(self).pos > old(self).pos,
            ({
                let p = old(self).pos as int;
                let kind = old(self).ty(p + 1);
                &&& r matches Some(Stmt::Drop { t, ttype, if_exists, argument }) ==> t == old(
                    self,
                ).cur_spec() && kind == Type::Keyword(ttype) && if_exists == (old(self).ty(p + 2)
                    == Type::Keyword(Keyword::IF))
                &&& r matches Some(s) ==> s is Drop
                &&& !(kind == Type::Keyword(Keyword::INDEX) || kind == Type::Keyword(Keyword::TABLE)
                    || kind == Type::Keyword(Keyword::TRIGGER) || kind == Type::Keyword(
                    Keyword::VIEW)) ==> r is None && final(self).one_more_error(
                    *old(self),
                    old(self).tok(p + 1),
                    Rule::Syntax,
                )
            }),
    {
        let t = self.cur().clone();
        self.advance();
        if !(self.is_keyword(Keyword::INDEX) || self.is_keyword(Keyword::TABLE) || self.is_keyword(
            Keyword::TRIGGER,
        ) || self.is_keyword(Keyword::VIEW)) {
            let cur = self.cur().clone();
            let got = cur.ttype.debug_text();
            let note = concat2(
                "DROP requires either TRIGGER, TABLE, TRIGGER or VIEW at this point, got ",
                got.as_str(),
            );
            let mut err = self.err("Unexpected Token", note.as_str(), &cur, Rule::Syntax);
            err.doc_url = Some("https://www.sqlite.org/lang.html");
            self.push_error(err);
            proof {
                assert(self.errors@.drop_last() =~= old(self).errors@);
            }
            self.advance();
            return None;
        }
        let ttype = match &self.cur().ttype {
            Type::Keyword(keyword) => *keyword,
            _ => Keyword::TABLE,
        };
        self.advance();
        let if_exists = if self.is_keyword(Keyword::IF) {
            self.advance();
            self.consume(Type::Keyword(Keyword::EXISTS));
            true
        } else {
            false
        };
        let argument = self.schema_table_container(None)?;
        Some(Stmt::Drop { t, ttype, if_exists, argument })
    }

    /// `REINDEX [collation_name | [schema_name.]table_or_index_name]`, see
    /// <https://www.sqlite.org/syntax/reindex-stmt.html>.
    pub(crate) fn reindex_stmt(&mut self) -> (r: Option<Stmt>)
        requires
            old(self).wf(),
            old(self).pos < old(self).tokens.len(),
        ensures
            final(self).evolved_from(*old(self)),
            final(self).pos > old(self).pos,
            r matches Some(Stmt::Reindex { t, target }) && t == old(self).cur_spec(),
            old(self).ty(old(self).pos + 1) == Type::Semicolon ==> final(self).errors@ == old(
                self,
            ).errors@ && r == Some(Stmt::Reindex { t: old(self).cur_spec(), target: None }),
            final(self).errors@ == old(self).errors@ ==> final(self).cur_spec().ttype
                == Type::Semicolon,
    {
        let t = self.cur().clone();
        self.advance();
        if self.is(Type::Semicolon) {
            return Some(Stmt::Reindex { t, target: None });
        }
        let target = self.schema_table_container(None);
        self.expect_end("https://www.sqlite.org/syntax/reindex-stmt.html");
        Some(Stmt::Reindex { t, target })
    }

    /// `VACUUM [schema_name] [INTO filename]`, see <https://www.sqlite.org/lang_vacuum.html>.
    pub(crate) fn vacuum_stmt(&mut self) -> (r: Option<Stmt>)
        requires
            old(self).wf(),
            old(self).cur_spec().ttype == Type::Keyword(Keyword::VACUUM),
        ensures
            final(self).evolved_from(*old(self)),
            final(self).pos > old(self).pos,
            r matches Some(Stmt::Vacuum { t, schema_name, filename }) && t == old(self).cur_spec(),
            ({
                let p = old(self).pos as int;
                let q = if old(self).ty(p + 1) is Ident {
                    p + 2
                } else {
                    p + 1
                };
                final(self).errors@ == old(self).errors@ <==> (old(self).ty(q) == Type::Semicolon
                    || (old(self).ty(q) == Type::Keyword(Keyword::INTO) && old(self).ty(q + 1) is String
                    && old(self).ty(q + 2) == Type::Semicolon))
            }),
            final(self).errors@ == old(self).errors@ ==> final(self).cur_spec().ttype
                == Type::Semicolon,
            plain_stmt_end(old(self).tokens@, old(self).pos as int) >= 0 ==> final(self).errors@ == old(
                self,
            ).errors@ && final(self).pos == plain_stmt_end(old(self).tokens@, old(self).pos as int),
            plain_stmt_end(old(self).tokens@, old(self).pos as int) >= 0 ==> r == Some(
                Stmt::Vacuum { t: old(self).cur_spec(), schema_name: None, filename: None },
            ),
    {
        let t = self.cur().clone();
        let mut schema_name = None;
        let mut filename = None;
        self.consume(Type::Keyword(Keyword::VACUUM));
        let is_ident = matches!(self.cur().ttype, Type::Ident(_));
        if !(self.is(Type::Semicolon) || is_ident || self.is_keyword(Keyword::INTO)) {
            let cur = self.cur().clone();
            let got = cur.ttype.debug_text();
            let note = concat2(
                "Wanted Keyword(INTO) with String(\"<filename>\") or Ident(\"<schema_name>\") for VACUUM stmt, got ",
                got.as_str(),
            );
            let mut err = self.err("Unexpected Token", note.as_str(), &cur, Rule::Syntax);
            err.doc_url = Some("https://www.sqlite.org/lang_vacuum.html");
            self.push_error(err);
            self.advance();
        }
        let ghost after_first = *self;
        if self.is(Type::Semicolon) {
            return Some(Stmt::Vacuum { t, schema_name, filename });
        }
        if matches!(self.cur().ttype, Type::Ident(_)) {
            schema_name = Some(self.cur().clone());
            self.advance();
        }
        if self.is_keyword(Keyword::INTO) {
            self.advance();
            if matches!(self.cur().ttype, Type::String(_)) {
                filename = Some(self.cur().clone());
            } else {
                let cur = self.cur().clone();
                let got = cur.ttype.debug_text();
                let note = concat2(
                    "Wanted String(\"<filename>\") for VACUUM stmt with Keyword(INTO), got ",
                    got.as_str(),
                );
                let mut err = self.err("Unexpected Token", note.as_str(), &cur, Rule::Syntax);
                err.doc_url = Some("https://www.sqlite.org/lang_vacuum.html");
                self.push_error(err);
            }
            self.advance();
        }
        let ghost before_end = *self;
        self.expect_end("https://www.sqlite.org/lang_vacuum.html");
        proof {
            if self.errors@ == old(self).errors@ {
                assert(before_end.errors@.len() == old(self).errors@.len());
                assert(after_first.errors@.len() == old(self).errors@.len());
            }
        }
        Some(Stmt::Vacuum { t, schema_name, filename })
    }

    /// `ATTACH [DATABASE] expr AS schema_name`, see
    /// <https://www.sqlite.org/syntax/attach-stmt.html>.
    pub(crate) fn attach_stmt(&mut self) -> (r: Option<Stmt>)
        requires
            old(self).wf(),
            old(self).pos < old(self).tokens.len(),
        ensures
            final(self).evolved_from(*old(self)),
            final(self).pos > old(self).pos,
            r is None ==> final(self).errors@.len() > old(self).errors@.len(),
            final(self).errors@ == old(self).errors@ ==> final(self).cur_spec().ttype
                == Type::Semicolon,
            r matches Some(s) ==> s matches Stmt::Attach { t, .. } && t == old(self).cur_spec(),
            ({
                let p = old(self).pos as int;
                let q = if old(self).ty(p + 1) == Type::Keyword(Keyword::DATABASE) {
                    p + 2
                } else {
                    p + 1
                };
                is_literal_type(old(self).ty(q)) && old(self).ty(q + 1) == Type::Keyword(Keyword::AS)
                    && old(self).ty(q + 2) is Ident && old(self).ty(q + 3) == Type::Semicolon ==> {
                    &&& final(self).errors@ == old(self).errors@
                    &&& r == Some(
                        Stmt::Attach {
                            t: old(self).cur_spec(),
                            schema_name: old(self).ty(q + 2)->Ident_0,
                            expr: Expr {
                                t: old(self).tok(q),
                                literal: Some(old(self).tok(q)),
                                bind: None,
                                schema: None,
                                table: None,
                                column: None,
                            },
                        },
                    )
                }
            }),
    {
        let t = self.cur().clone();
        self.advance();
        if self.is_keyword(Keyword::DATABASE) {
            self.advance();
        }
        let expr = self.expr()?;
        self.consume(Type::Keyword(Keyword::AS));
        let schema_name = self.consume_ident(
            "https://www.sqlite.org/lang_attach.html",
            "schema_name",
        )?;
        self.expect_end("https://www.sqlite.org/lang_attach.html");
        Some(Stmt::Attach { t, schema_name, expr })
    }

    /// The value of a pragma assignment or call: a string, number, identifier or keyword;
    /// anything else is reported and skipped first.
    fn pragma_value(&mut self, what: &str) -> (r: crate::types::Token)
        requires
            old(self).wf(),
        ensures
            final(self).evolved_from(*old(self)),
            final(self).pos >= old(self).next_pos(),
            ({
                let t = old(self).cur_spec().ttype;
                t is String || t is Number || t is Ident || t is Keyword
            }) ==> final(self).errors@ == old(self).errors@ && r == old(self).cur_spec()
                && final(self).pos == old(self).next_pos(),
    {
        let ok = match &self.cur().ttype {
            Type::String(_) | Type::Number(_) | Type::Ident(_) | Type::Keyword(_) => true,
            _ => false,
        };
        if !ok {
            let cur = self.cur().clone();
            let got = cur.ttype.debug_text();
            let mut note = concat3(
                "A pragmas ",
                what,
                " value has to be either String, Number, Ident or a Keyword, got ",
            );
            note.append(got.as_str());
            note.append(" instead");
            self.push_err("Bad pragma value", note.as_str(), &cur, Rule::Syntax);
            self.advance();
        }
        let value = self.cur().clone();
        self.advance();
        value
    }

    /// `PRAGMA [schema_name.]pragma_name [= value | (value)]`, see
    /// <https://www.sqlite.org/pragma.html>.
    pub(crate) fn pragma_stmt(&mut self) -> (r: Option<Stmt>)
        requires
            old(self).wf(),
            old(self).pos < old(self).tokens.len(),
        ensures
            final(self).evolved_from(*old(self)),
            final(self).pos > old(self).pos,
            r is None ==> final(self).errors@.len() > old(self).errors@.len(),
            final(self).errors@ == old(self).errors@ ==> final(self).cur_spec().ttype
                == Type::Semicolon,
            r matches Some(s) ==> s matches Stmt::Pragma { t, .. } && t == old(self).cur_spec(),
            ({
                let p = old(self).pos as int;
                old(self).ty(p + 1) is Ident && old(self).ty(p + 2) == Type::Semicolon ==> {
                    &&& final(self).errors@ == old(self).errors@
                    &&& r == Some(
                        Stmt::Pragma {
                            t: old(self).cur_spec(),
                            name: SchemaTableContainer::Table(old(self).ty(p + 1)->Ident_0),
                            invocation: PragmaInvocation::Query,
                        },
                    )
                }
            }),
            ({
                let p = old(self).pos as int;
                let v = old(self).ty(p + 3);
                old(self).ty(p + 1) is Ident && old(self).ty(p + 2) == Type::Equal && (v is String
                    || v is Number || v is Ident || v is Keyword) && old(self).ty(p + 4)
                    == Type::Semicolon ==> {
                    &&& final(self).errors@ == old(self).errors@
                    &&& r == Some(
                        Stmt::Pragma {
                            t: old(self).cur_spec(),
                            name: SchemaTableContainer::Table(old(self).ty(p + 1)->Ident_0),
                            invocation: PragmaInvocation::Assign { value: old(self).tok(p + 3) },
                        },
                    )
                }
            }),
            ({
                let p = old(self).pos as int;
                let v = old(self).ty(p + 3);
                old(self).ty(p + 1) is Ident && old(self).ty(p + 2) == Type::BraceLeft && (v is String
                    || v is Number || v is Ident || v is Keyword) && old(self).ty(p + 4) == Type::BraceRight
                    && old(self).ty(p + 5) == Type::Semicolon ==> {
                    &&& final(self).errors@ == old(self).errors@
                    &&& r == Some(
                        Stmt::Pragma {
                            t: old(self).cur_spec(),
                            name: SchemaTableContainer::Table(old(self).ty(p + 1)->Ident_0),
                            invocation: PragmaInvocation::Call { value: old(self).tok(p + 3) },
                        },
                    )
                }
            }),
    {
        let t = self.cur().clone();
        self.advance();
        let name = self.schema_table_container(Some("pragma"))?;
        let invocation = if self.is(Type::Semicolon) {
            PragmaInvocation::Query
        } else if self.is(Type::Equal) {
            self.advance();
            let value = self.pragma_value("assignment");
            PragmaInvocation::Assign { value }
        } else if self.is(Type::BraceLeft) {
            self.advance();
            let value = self.pragma_value("call");
            self.consume(Type::BraceRight);
            PragmaInvocation::Call { value }
        } else {
            let cur = self.cur().clone();
            let got = cur.ttype.debug_text();
            let note = concat3(
                "A pragmas rhs value has to be either an assignment via '=', a call via '(<arg>)' or simply be a query, got ",
                got.as_str(),
                " instead",
            );
            self.push_err("Bad pragma value", note.as_str(), &cur, Rule::Syntax);
            self.advance();
            return None;
        };
        self.expect_end("https://www.sqlite.org/pragma.html");
        Some(Stmt::Pragma { t, name, invocation })
    }

    /// `ALTER TABLE [schema_name.]table_name RENAME TO new_name | RENAME [COLUMN] column TO
    /// new_column | ADD [COLUMN] column_def | DROP [COLUMN] column`, see
    /// <https://www.sqlite.org/lang_altertable.html>.
    pub(crate) fn alter_stmt(&mut self) -> (r: Option<Stmt>)
        requires
            old(self).wf(),
            old(self).pos < old(self).tokens.len(),
        ensures
            final(self).evolved_from(*old(self)),
            final(self).pos > old(self).pos,
            r is None ==> final(self).errors@.len() > old(self).errors@.len(),
            final(self).errors@ == old(self).errors@ ==> final(self).cur_spec().ttype
                == Type::Semicolon,
            r matches Some(s) ==> s matches Stmt::Alter(a) && a.t == old(self).cur_spec(),
            ({
                let p = old(self).pos as int;
                old(self).ty(p + 1) == Type::Keyword(Keyword::TABLE) && old(self).ty(p + 2) is Ident
                    && old(self).ty(p + 3) == Type::Keyword(Keyword::DROP) && old(self).ty(p + 4) is Ident
                    && old(self).ty(p + 5) == Type::Semicolon ==> {
                    &&& final(self).errors@ == old(self).errors@
                    &&& r == Some(
                        Stmt::Alter(
                            Alter {
                                t: old(self).cur_spec(),
                                target: SchemaTableContainer::Table(old(self).ty(p + 2)->Ident_0),
                                rename_to: None,
                                rename_column_target: None,
                                new_column_name: None,
                                add_column: None,
                                drop_column: Some(old(self).ty(p + 4)->Ident_0),
                            },
                        ),
                    )
                }
            }),
            ({
                let p = old(self).pos as int;
                old(self).ty(p + 1) == Type::Keyword(Keyword::TABLE) && old(self).ty(p + 2) is Ident
                    && old(self).ty(p + 3) == Type::Keyword(Keyword::RENAME) && old(self).ty(p + 4) == Type::Keyword(
                    Keyword::TO,
                ) && old(self).ty(p + 5) is Ident && old(self).ty(p + 6) == Type::Semicolon ==> {
                    &&& final(self).errors@ == old(self).errors@
                    &&& r == Some(
                        Stmt::Alter(
                            Alter {
                                t: old(self).cur_spec(),
                                target: SchemaTableContainer::Table(old(self).ty(p + 2)->Ident_0),
                                rename_to: Some(old(self).ty(p + 5)->Ident_0),
                                rename_column_target: None,
                                new_column_name: None,
                                add_column: None,
                                drop_column: None,
                            },
                        ),
                    )
                }
            }),
            ({
                let p = old(self).pos as int;
                let c = if old(self).ty(p + 4) == Type::Keyword(Keyword::COLUMN) {
                    p + 5
                } else {
                    p + 4
                };
                old(self).ty(p + 1) == Type::Keyword(Keyword::TABLE) && old(self).ty(p + 2) is Ident
                    && old(self).ty(p + 3) == Type::Keyword(Keyword::RENAME) && old(self).ty(c) is Ident
                    && old(self).ty(c + 1) == Type::Keyword(Keyword::TO) && old(self).ty(c + 2) is Ident
                    && old(self).ty(c + 3) == Type::Semicolon ==> {
                    &&& final(self).errors@ == old(self).errors@
                    &&& r == Some(
                        Stmt::Alter(
                            Alter {
                                t: old(self).cur_spec(),
                                target: SchemaTableContainer::Table(old(self).ty(p + 2)->Ident_0),
                                rename_to: None,
                                rename_column_target: Some(old(self).ty(c)->Ident_0),
                                new_column_name: Some(old(self).ty(c + 2)->Ident_0),
                                add_column: None,
                                drop_column: None,
                            },
                        ),
                    )
                }
            }),
    {
        let t = self.cur().clone();
        self.advance();
        self.consume(Type::Keyword(Keyword::TABLE));
        let target = self.schema_table_container(None)?;
        let mut a = Alter {
            t,
            target,
            rename_to: None,
            rename_column_target: None,
            new_column_name: None,
            add_column: None,
            drop_column: None,
        };
        if self.is_keyword(Keyword::RENAME) {
            self.advance();
            if self.is_keyword(Keyword::TO) {
                self.advance();
                let new_table_name = self.consume_ident(
                    "https://www.sqlite.org/lang_altertable.html",
                    "new_table_name",
                )?;
                a.rename_to = Some(new_table_name);
            } else {
                if self.is_keyword(Keyword::COLUMN) {
                    self.advance();
                }
                a.rename_column_target = self.consume_ident(
                    "https://www.sqlite.org/lang_altertable.html",
                    "column_name",
                );
                self.consume(Type::Keyword(Keyword::TO));
                a.new_column_name = self.consume_ident(
                    "https://www.sqlite.org/lang_altertable.html",
                    "column_name",
                );
            }
        } else if self.is_keyword(Keyword::ADD) {
            self.advance();
            if self.is_keyword(Keyword::COLUMN) {
                self.advance();
            }
            a.add_column = self.column_def();
        } else if self.is_keyword(Keyword::DROP) {
            self.advance();
            if self.is_keyword(Keyword::COLUMN) {
                self.advance();
            }
            a.drop_column = self.consume_ident(
                "https://www.sqlite.org/lang_altertable.html",
                "column_name",
            );
        } else {
            let cur = self.cur().clone();
            let got = cur.ttype.debug_text();
            let note = concat2(
                "ALTER requires either RENAME, ADD or DROP at this point, got ",
                got.as_str(),
            );
            let mut err = self.err("Unexpected Token", note.as_str(), &cur, Rule::Syntax);
            err.doc_url = Some("https://www.sqlite.org/lang_altertable.html");
            self.push_error(err);
            self.advance();
            return None;
        }
        self.expect_end("https://www.sqlite.org/lang_altertable.html");
        Some(Stmt::Alter(a))
    }
}

} // verus!
