//! Column definitions, constraints and the simple expression form they use.

use vstd::prelude::*;

use super::Parser;
use super::stmt::kind_at;
use super::query::tok_at;
use crate::nodes::{
    BindParameter, ColumnConstraint, ColumnDef, Expr, ForeignKeyAction, ForeignKeyClause,
    ForeignKeyMatch, Literal,
};
use crate::types::{
    affinity, canonical_class, concat2, concat3, Keyword, Rule, SqliteStorageClass, Token, Type,
};

verus! {

/// Whether a token of kind `t` starts a further ON or MATCH part of a foreign key clause.
pub open spec fn starts_fk_part(t: Type) -> bool {
    t == Type::Keyword(Keyword::ON) || t == Type::Keyword(Keyword::MATCH)
}

/// The action that the tokens of kinds `t0 t1` after `ON DELETE` / `ON UPDATE` give, with
/// the number of tokens it takes: CASCADE and RESTRICT one, NO ACTION and SET NULL two,
/// SET DEFAULT three (the token after DEFAULT is passed over too).
pub open spec fn fk_action(t0: Type, t1: Type) -> Option<(ForeignKeyAction, int)> {
    if t0 == Type::Keyword(Keyword::CASCADE) {
        Some((ForeignKeyAction::Cascade, 1int))
    } else if t0 == Type::Keyword(Keyword::RESTRICT) {
        Some((ForeignKeyAction::Restrict, 1int))
    } else if t0 == Type::Keyword(Keyword::NO) && t1 == Type::Keyword(Keyword::ACTION) {
        Some((ForeignKeyAction::NoAction, 2int))
    } else if t0 == Type::Keyword(Keyword::SET) && t1 == Type::Keyword(Keyword::NULL) {
        Some((ForeignKeyAction::SetNull, 2int))
    } else if t0 == Type::Keyword(Keyword::SET) && t1 == Type::Keyword(Keyword::DEFAULT) {
        Some((ForeignKeyAction::SetDefault, 3int))
    } else {
        None
    }
}

/// The MATCH kind that a token of kind `t` names, if it names one.
pub open spec fn fk_match(t: Type) -> Option<ForeignKeyMatch> {
    if t == Type::Keyword(Keyword::FULL) {
        Some(ForeignKeyMatch::Full)
    } else if t == Type::Keyword(Keyword::PARTIAL) {
        Some(ForeignKeyMatch::Partial)
    } else if t == Type::Keyword(Keyword::SIMPLE) {
        Some(ForeignKeyMatch::Simple)
    } else {
        None
    }
}

/// Whether a token of kind `t` starts a named bind parameter: `:`, `@` or `$`.
pub open spec fn is_named_bind(t: Type) -> bool {
    t == Type::Colon || t == Type::At || t == Type::Dollar
}

/// The simple expression that is the bind parameter at token `t`.
pub open spec fn bind_expr(t: Token, counter: Option<Literal>, name: Option<String>) -> Expr {
    Expr {
        t,
        literal: None,
        bind: Some(BindParameter { t, counter, name }),
        schema: None,
        table: None,
        column: None,
    }
}

/// Whether a token of kind `t` is a literal value
/// (<https://www.sqlite.org/syntax/literal-value.html>).
pub open spec fn is_literal_type(t: Type) -> bool {
    ||| t is String
    ||| t is Number
    ||| t is Blob
    ||| t is Boolean
    ||| t == Type::Keyword(Keyword::NULL)
    ||| t == Type::Keyword(Keyword::CURRENT_TIME)
    ||| t == Type::Keyword(Keyword::CURRENT_DATE)
    ||| t == Type::Keyword(Keyword::CURRENT_TIMESTAMP)
}

/// Whether a token of kind `t` is a literal value.
pub fn is_literal(t: &Type) -> (r: bool)
    ensures
        r == is_literal_type(*t),
{
    match t {
        Type::String(_) | Type::Number(_) | Type::Blob(_) | Type::Boolean(_) => true,
        Type::Keyword(Keyword::NULL) | Type::Keyword(Keyword::CURRENT_TIME) | Type::Keyword(
            Keyword::CURRENT_DATE,
        ) | Type::Keyword(Keyword::CURRENT_TIMESTAMP) => true,
        _ => false,
    }
}

/// Whether `k` is a conflict resolution of <https://www.sqlite.org/syntax/conflict-clause.html>.
pub open spec fn is_conflict_action(k: Keyword) -> bool {
    k == Keyword::ROLLBACK || k == Keyword::ABORT || k == Keyword::FAIL || k == Keyword::IGNORE || k
        == Keyword::REPLACE
}

/// Whether a token of kind `t` starts a column constraint.
pub open spec fn starts_constraint(t: Type) -> bool {
    ||| t == Type::Keyword(Keyword::CONSTRAINT)
    ||| t == Type::Keyword(Keyword::PRIMARY)
    ||| t == Type::Keyword(Keyword::NOT)
    ||| t == Type::Keyword(Keyword::UNIQUE)
    ||| t == Type::Keyword(Keyword::CHECK)
    ||| t == Type::Keyword(Keyword::DEFAULT)
    ||| t == Type::Keyword(Keyword::COLLATE)
    ||| t == Type::Keyword(Keyword::REFERENCES)
    ||| t == Type::Keyword(Keyword::GENERATED)
    ||| t == Type::Keyword(Keyword::AS)
}

/// The storage class a column declared with a type token of kind `t` gets: by SQLite's
/// affinity rules where `t` is a type name, none where the column has no type.
pub open spec fn declared_class(t: Type) -> Option<SqliteStorageClass> {
    match t {
        Type::Ident(name) => Some(affinity(name@)),
        _ => None,
    }
}

/// Whether a column whose type token is of kind `t` is reported as a quirk: its type is
/// missing, or is not one of SQLite's canonical names.
pub open spec fn quirky_type(t: Type) -> bool {
    match t {
        Type::Ident(name) => canonical_class(name@) is None,
        _ => true,
    }
}

/// The simple expression that is the literal at token `t`.
pub open spec fn literal_expr(t: Token) -> Expr {
    Expr { t, literal: Some(t), bind: None, schema: None, table: None, column: None }
}

/// STORED or VIRTUAL at index `j` of `toks`, if it stands there, and the index after it.
pub open spec fn stored_virtual_at(toks: Seq<Token>, j: int) -> (Option<Keyword>, int) {
    if kind_at(toks, j) == Type::Keyword(Keyword::STORED) {
        (Some(Keyword::STORED), j + 1)
    } else if kind_at(toks, j) == Type::Keyword(Keyword::VIRTUAL) {
        (Some(Keyword::VIRTUAL), j + 1)
    } else {
        (None, j)
    }
}

/// A plain column constraint at index `i` of `toks`, with no CONSTRAINT name and no ON
/// CONFLICT clause: `PRIMARY KEY [ASC|DESC] [AUTOINCREMENT]`, `NOT NULL`, `UNIQUE`,
/// `COLLATE name`, `CHECK (literal)`, or `[GENERATED ALWAYS] AS (literal) [STORED|VIRTUAL]`,
/// as the constraint and the index after it.
pub open spec fn plain_constraint_in(toks: Seq<Token>, i: int) -> Option<(ColumnConstraint, int)> {
    let k0 = kind_at(toks, i);
    if k0 == Type::Keyword(Keyword::PRIMARY) && kind_at(toks, i + 1) == Type::Keyword(Keyword::KEY) {
        let (asc_desc, j) = if kind_at(toks, i + 2) == Type::Keyword(Keyword::ASC) {
            (Some(Keyword::ASC), i + 3)
        } else if kind_at(toks, i + 2) == Type::Keyword(Keyword::DESC) {
            (Some(Keyword::DESC), i + 3)
        } else {
            (None, i + 2)
        };
        if kind_at(toks, j) == Type::Keyword(Keyword::ON) {
            None
        } else if kind_at(toks, j) == Type::Keyword(Keyword::AUTOINCREMENT) {
            Some((ColumnConstraint::PrimaryKey { asc_desc, on_conflict: None, autoincrement: true }, j + 1))
        } else {
            Some((ColumnConstraint::PrimaryKey { asc_desc, on_conflict: None, autoincrement: false }, j))
        }
    } else if k0 == Type::Keyword(Keyword::NOT) && kind_at(toks, i + 1) == Type::Keyword(Keyword::NULL)
        && kind_at(toks, i + 2) != Type::Keyword(Keyword::ON) {
        Some((ColumnConstraint::NotNull { on_conflict: None }, i + 2))
    } else if k0 == Type::Keyword(Keyword::UNIQUE) && kind_at(toks, i + 1) != Type::Keyword(Keyword::ON) {
        Some((ColumnConstraint::Unique { on_conflict: None }, i + 1))
    } else if k0 == Type::Keyword(Keyword::COLLATE) && kind_at(toks, i + 1) is Ident {
        Some((ColumnConstraint::Collate(kind_at(toks, i + 1)->Ident_0), i + 2))
    } else if k0 == Type::Keyword(Keyword::CHECK) && kind_at(toks, i + 1) == Type::BraceLeft && is_literal_type(
        kind_at(toks, i + 2),
    ) && kind_at(toks, i + 3) == Type::BraceRight {
        Some((ColumnConstraint::Check(literal_expr(tok_at(toks, i + 2))), i + 4))
    } else if k0 == Type::Keyword(Keyword::GENERATED) && kind_at(toks, i + 1) == Type::Keyword(Keyword::ALWAYS)
        && kind_at(toks, i + 2) == Type::Keyword(Keyword::AS) && kind_at(toks, i + 3) == Type::BraceLeft
        && is_literal_type(kind_at(toks, i + 4)) && kind_at(toks, i + 5) == Type::BraceRight {
        let (stored_virtual, e) = stored_virtual_at(toks, i + 6);
        Some((ColumnConstraint::Generated { expr: literal_expr(tok_at(toks, i + 4)), stored_virtual }, e))
    } else if k0 == Type::Keyword(Keyword::AS) && kind_at(toks, i + 1) == Type::BraceLeft && is_literal_type(
        kind_at(toks, i + 2),
    ) && kind_at(toks, i + 3) == Type::BraceRight {
        let (stored_virtual, e) = stored_virtual_at(toks, i + 4);
        Some((ColumnConstraint::As { expr: literal_expr(tok_at(toks, i + 2)), stored_virtual }, e))
    } else {
        None
    }
}

/// The column constraints from index `i` of `toks` up to the first token that starts
/// none, where each is one of `plain_constraint_in`, and the index after them.
pub open spec fn plain_constraints_from(toks: Seq<Token>, i: int) -> Option<(Seq<ColumnConstraint>, int)>
    decreases toks.len() - i,
{
    if !(0 <= i < toks.len() && starts_constraint(kind_at(toks, i))) {
        Some((Seq::empty(), i))
    } else {
        match plain_constraint_in(toks, i) {
            Some((c, e)) => if e > i {
                match plain_constraints_from(toks, e) {
                    Some((cs, f)) => Some((seq![c] + cs, f)),
                    None => None,
                }
            } else {
                None
            },
            None => None,
        }
    }
}

/// The message of the quirk reported for a column whose type token is of kind `t`: a
/// non-canonical type name, or a missing type.
pub open spec fn quirk_msg(t: Type) -> Seq<char> {
    match t {
        Type::Ident(name) => "non-canonical SQLite type name `"@ + name@ + "`"@,
        _ => "Possibly unintended flexible typed column"@,
    }
}

impl<'a> Parser<'a> {
    /// A literal value; anything else is reported and skipped.
    pub(crate) fn literal_value(&mut self) -> (r: Option<Literal>)
        requires
            old(self).wf(),
        ensures
            final(self).evolved_from(*old(self)),
            final(self).pos == old(self).next_pos(),
            is_literal_type(old(self).cur_spec().ttype) ==> (r == Some(
                Literal { t: old(self).cur_spec() },
            )) && final(self).errors@ == old(self).errors@,
            !is_literal_type(old(self).cur_spec().ttype) ==> (r is None) && final(self).one_more_error(
                *old(self),
                old(self).cur_spec(),
                Rule::Syntax,
            ),
    {
        let cur = self.cur().clone();
        if is_literal(&cur.ttype) {
            self.advance();
            Some(Literal { t: cur })
        } else {
            let got = cur.ttype.debug_text();
            let note = concat2(
                "Wanted a literal (any of number,string,blob,null,true,false,CURRENT_TIME,CURRENT_DATE,CURRENT_DATE), got ",
                got.as_str(),
            );
            let mut err = self.err("Unexpected Token", note.as_str(), &cur, Rule::Syntax);
            err.doc_url = Some("https://www.sqlite.org/syntax/literal-value.html");
            self.push_error(err);
            proof {
                assert(self.errors@.drop_last() =~= old(self).errors@);
            }
            self.advance();
            None
        }
    }

    /// The simple expression form (<https://www.sqlite.org/syntax/expr.html>): a literal
    /// or a bind parameter. Column references and function calls are reported as not
    /// supported here.
    pub(crate) fn expr(&mut self) -> (r: Option<Expr>)
        requires
            old(self).wf(),
        ensures
            final(self).evolved_from(*old(self)),
            final(self).pos > old(self).pos || old(self).pos == old(self).tokens.len(),
            is_literal_type(old(self).cur_spec().ttype) ==> (r == Some(
                Expr {
                    t: old(self).cur_spec(),
                    literal: Some(old(self).cur_spec()),
                    bind: None,
                    schema: None,
                    table: None,
                    column: None,
                },
            )) && final(self).errors@ == old(self).errors@ && final(self).pos == old(self).pos + 1,
            r is None ==> final(self).errors@.len() == old(self).errors@.len() + 1,
            ({
                let p = old(self).pos as int;
                let t = old(self).cur_spec();
                &&& t.ttype == Type::Question ==> (old(self).ty(p + 1) is Number ==> r == Some(
                    bind_expr(t, Some(Literal { t: old(self).tok(p + 1) }), None),
                ) && final(self).pos == p + 2 && final(self).errors@ == old(self).errors@)
                &&& t.ttype == Type::Question ==> (!(old(self).ty(p + 1) is Number) ==> r == Some(
                    bind_expr(t, None, None),
                ) && final(self).pos == p + 1 && final(self).errors@ == old(self).errors@)
                &&& is_named_bind(t.ttype) ==> (old(self).ty(p + 1) is Ident ==> r == Some(
                    bind_expr(t, None, super::stmt::name_of(old(self).ty(p + 1))),
                ) && final(self).pos == p + 2 && final(self).errors@ == old(self).errors@)
                &&& is_named_bind(t.ttype) ==> (!(old(self).ty(p + 1) is Ident) ==> r is None
                    && final(self).one_more_error(*old(self), t, Rule::Syntax))
            }),
    {
        let t = self.cur().clone();
        let mut e = Expr { t, literal: None, bind: None, schema: None, table: None, column: None };
        let cur = self.cur().clone();
        if is_literal(&cur.ttype) {
            e.literal = match self.literal_value() {
                Some(l) => Some(l.t),
                None => None,
            };
        } else if matches!(cur.ttype, Type::Question) {
            let mut param = BindParameter { t: cur, counter: None, name: None };
            self.advance();
            if matches!(self.cur().ttype, Type::Number(_)) {
                param.counter = self.literal_value();
            }
            e.bind = Some(param);
        } else if matches!(cur.ttype, Type::Colon | Type::At | Type::Dollar) {
            let mut bind = BindParameter { t: cur, counter: None, name: None };
            self.advance();
            if let Type::Ident(ident) = &self.cur().ttype {
                bind.name = Some(ident.clone());
                self.advance();
            } else {
                let got = bind.t.ttype.debug_text();
                let note = concat3(
                    "Bind parameter with ",
                    got.as_str(),
                    " requires an identifier as a postfix",
                );
                self.push_err("Invalid bind parameter", note.as_str(), &bind.t, Rule::Syntax);
                self.advance();
                return None;
            }
            e.bind = Some(bind);
        } else if matches!(cur.ttype, Type::Ident(_)) {
            self.push_err(
                "Unimplemented",
                "sqleibniz can not yet analyse column references or function calls in this expression",
                &cur,
                Rule::Unimplemented,
            );
            self.advance();
            return None;
        } else {
            let got = cur.ttype.debug_text();
            let note = concat3(
                "At this point in an expression, ",
                got.as_str(),
                " is not a valid construct",
            );
            self.push_err("Invalid construct", note.as_str(), &cur, Rule::Syntax);
            self.advance();
            return None;
        }
        Some(e)
    }

    /// `ON CONFLICT ROLLBACK|ABORT|FAIL|IGNORE|REPLACE`, see
    /// <https://www.sqlite.org/syntax/conflict-clause.html>.
    pub(crate) fn conflict_clause(&mut self) -> (r: Option<Keyword>)
        requires
            old(self).wf(),
        ensures
            final(self).evolved_from(*old(self)),
            old(self).cur_spec().ttype != Type::Keyword(Keyword::ON) ==> *final(self) == *old(self)
                && r is None,
            r matches Some(k) ==> is_conflict_action(k) && old(self).ty(old(self).pos + 2)
                == Type::Keyword(k),
            ({
                let p = old(self).pos as int;
                old(self).cur_spec().ttype == Type::Keyword(Keyword::ON) ==> (final(self).errors@
                    == old(self).errors@ <==> (old(self).ty(p + 1) == Type::Keyword(
                    Keyword::CONFLICT) && old(self).ty(p + 2) is Keyword && is_conflict_action(
                    old(self).ty(p + 2)->Keyword_0)))
            }),
    {
        if self.is_keyword(Keyword::ON) {
            self.advance();
            self.consume_keyword(Keyword::CONFLICT);
            let cur = self.cur().clone();
            let mut found: Option<Keyword> = None;
            if let Type::Keyword(keyword) = &cur.ttype {
                if *keyword == Keyword::ROLLBACK || *keyword == Keyword::ABORT || *keyword
                    == Keyword::FAIL || *keyword == Keyword::IGNORE || *keyword == Keyword::REPLACE {
                    found = Some(*keyword);
                }
            }
            if let Some(k) = found {
                self.advance();
                return Some(k);
            }
            let got = cur.ttype.debug_text();
            let note = concat3(
                "Wanted either ROLLBACK, ABORT, FAIL, IGNORE or REPLACE after ON CONFLICT, got ",
                got.as_str(),
                ".",
            );
            let mut err = self.err("Unexpected Keyword", note.as_str(), &cur, Rule::Syntax);
            err.doc_url = Some("https://www.sqlite.org/syntax/conflict-clause.html");
            self.push_error(err);
            self.advance();
        }
        None
    }
    /// The ON DELETE / ON UPDATE actions and the MATCH kind of a foreign key clause, in
    /// any number and order.
    pub(crate) fn foreign_key_clause_on_and_match(&mut self, fk: &mut ForeignKeyClause)
        requires
            old(self).wf(),
        ensures
            final(self).evolved_from(*old(self)),
            final(fk).foreign_table == old(fk).foreign_table,
            final(fk).references_columns == old(fk).references_columns,
            final(fk).deferrable == old(fk).deferrable,
            final(fk).initially_deferred == old(fk).initially_deferred,
            !(old(self).cur_spec().ttype == Type::Keyword(Keyword::ON) || old(self).cur_spec().ttype
                == Type::Keyword(Keyword::MATCH)) ==> *final(self) == *old(self) && *final(fk)
                == *old(fk),
            starts_fk_part(old(self).cur_spec().ttype) ==> final(self).pos > old(self).pos,
            ({
                let p = old(self).pos as int;
                &&& old(self).ty(p) == Type::Keyword(Keyword::MATCH) ==> (fk_match(old(self).ty(p + 1)) is Some
                    && !starts_fk_part(old(self).ty(p + 2)) ==> final(fk).match_type == fk_match(
                    old(self).ty(p + 1),
                ) && final(fk).on_delete == old(fk).on_delete && final(fk).on_update == old(fk).on_update
                    && final(self).pos == p + 2 && final(self).errors@ == old(self).errors@)
                &&& old(self).ty(p) == Type::Keyword(Keyword::MATCH) && fk_match(old(self).ty(p + 1)) is None
                    ==> final(self).errors@.len() > old(self).errors@.len()
                &&& old(self).ty(p) == Type::Keyword(Keyword::ON) && (old(self).ty(p + 1) == Type::Keyword(
                    Keyword::DELETE,
                ) || old(self).ty(p + 1) == Type::Keyword(Keyword::UPDATE)) ==> (fk_action(
                    old(self).ty(p + 2),
                    old(self).ty(p + 3),
                ) matches Some((a, n)) ==> (p + 2 + n <= old(self).tokens.len() && !starts_fk_part(
                    old(self).ty(p + 2 + n),
                ) ==> final(self).pos == p + 2 + n && final(self).errors@ == old(self).errors@
                    && final(fk).match_type == old(fk).match_type && (old(self).ty(p + 1) == Type::Keyword(
                    Keyword::DELETE,
                ) ==> final(fk).on_delete == Some(a) && final(fk).on_update == old(fk).on_update) && (old(
                    self,
                ).ty(p + 1) == Type::Keyword(Keyword::UPDATE) ==> final(fk).on_update == Some(a)
                    && final(fk).on_delete == old(fk).on_delete)))
                &&& old(self).ty(p) == Type::Keyword(Keyword::ON) && !(old(self).ty(p + 1) == Type::Keyword(
                    Keyword::DELETE,
                ) || old(self).ty(p + 1) == Type::Keyword(Keyword::UPDATE)) ==> final(self).errors@.len()
                    > old(self).errors@.len()
                &&& old(self).ty(p) == Type::Keyword(Keyword::ON) && fk_action(
                    old(self).ty(p + 2),
                    old(self).ty(p + 3),
                ) is None ==> final(self).errors@.len() > old(self).errors@.len()
            }),
        decreases old(self).remaining(),
    {
        if self.is_keyword(Keyword::ON) {
            self.advance();
            let mut is_delete = false;
            if self.is_keyword(Keyword::DELETE) {
                is_delete = true;
            } else if !self.is_keyword(Keyword::UPDATE) {
                let cur = self.cur().clone();
                let got = cur.ttype.debug_text();
                let note = concat3("Wanted DELETE or UPDATE, got ", got.as_str(), ".");
                let mut err = self.err("Unexpected Token", note.as_str(), &cur, Rule::Syntax);
                err.doc_url = Some("https://www.sqlite.org/syntax/foreign-key-clause.html");
                self.push_error(err);
            }
            self.advance();
            let action = if self.is_keyword(Keyword::CASCADE) {
                self.advance();
                Some(ForeignKeyAction::Cascade)
            } else if self.is_keyword(Keyword::RESTRICT) {
                self.advance();
                Some(ForeignKeyAction::Restrict)
            } else if self.is_keyword(Keyword::NO) {
                self.advance();
                self.consume_keyword(Keyword::ACTION);
                Some(ForeignKeyAction::NoAction)
            } else if self.is_keyword(Keyword::SET) {
                self.advance();
                let a = if self.is_keyword(Keyword::NULL) {
                    ForeignKeyAction::SetNull
                } else {
                    self.consume_keyword(Keyword::DEFAULT);
                    ForeignKeyAction::SetDefault
                };
                self.advance();
                Some(a)
            } else {
                let cur = self.cur().clone();
                let got = cur.ttype.debug_text();
                let note = concat3(
                    "Wanted SET, CASCADE, RESTRICT or NO after ON DELETE/UPDATE, got ",
                    got.as_str(),
                    ".",
                );
                let mut err = self.err("Unexpected Token", note.as_str(), &cur, Rule::Syntax);
                err.doc_url = Some("https://www.sqlite.org/syntax/foreign-key-clause.html");
                self.push_error(err);
                self.advance();
                None
            };
            if is_delete {
                fk.on_delete = action;
            } else {
                fk.on_update = action;
            }
            self.foreign_key_clause_on_and_match(fk);
        } else if self.is_keyword(Keyword::MATCH) {
            self.advance();
            if self.is_keyword(Keyword::FULL) {
                fk.match_type = Some(ForeignKeyMatch::Full);
            } else if self.is_keyword(Keyword::PARTIAL) {
                fk.match_type = Some(ForeignKeyMatch::Partial);
            } else if self.is_keyword(Keyword::SIMPLE) {
                fk.match_type = Some(ForeignKeyMatch::Simple);
            } else {
                let cur = self.cur().clone();
                let got = cur.ttype.debug_text();
                let note = concat3("Wanted FULL, PARTIAL or SIMPLE after MATCH, got ", got.as_str(), ".");
                let mut err = self.err("Unexpected Token", note.as_str(), &cur, Rule::Syntax);
                err.doc_url = Some("https://www.sqlite.org/syntax/foreign-key-clause.html");
                self.push_error(err);
            }
            self.advance();
            self.foreign_key_clause_on_and_match(fk);
        }
    }

    /// `REFERENCES foreign_table [(column_name, ...)] [ON ...|MATCH ...]* [[NOT] DEFERRABLE
    /// [INITIALLY DEFERRED|IMMEDIATE]]`, see
    /// <https://www.sqlite.org/syntax/foreign-key-clause.html>.
    pub(crate) fn foreign_key_clause(&mut self) -> (r: Option<ForeignKeyClause>)
        requires
            old(self).wf(),
        ensures
            final(self).evolved_from(*old(self)),
            final(self).pos > old(self).pos || old(self).pos == old(self).tokens.len(),
            r is None ==> final(self).errors@.len() > old(self).errors@.len(),
            r matches Some(fk) ==> old(self).ty(old(self).pos + 1) == Type::Ident(fk.foreign_table),
            r matches Some(fk) ==> (fk.initially_deferred ==> fk.deferrable),
    {
        let mut fk = ForeignKeyClause {
            foreign_table: String::new(),
            references_columns: Vec::new(),
            on_delete: None,
            on_update: None,
            match_type: None,
            deferrable: false,
            initially_deferred: false,
        };
        self.consume_keyword(Keyword::REFERENCES);
        fk.foreign_table = self.consume_ident(
            "https://www.sqlite.org/syntax/foreign-key-clause.html",
            "foreign_table",
        )?;
        let ghost named = fk.foreign_table;
        if self.is(Type::BraceLeft) {
            self.advance();
            loop
                invariant
                    self.evolved_from(*old(self)),
                    fk.foreign_table == named,
                    !fk.deferrable,
                    !fk.initially_deferred,
                decreases self.remaining(),
            {
                let ghost before = *self;
                let column = match self.consume_ident(
                    "https://www.sqlite.org/syntax/foreign-key-clause.html",
                    "column_name",
                ) {
                    Some(c) => c,
                    None => {
                        proof {
                            assert(before.errors@.len() >= old(self).errors@.len());
                        }
                        return None;
                    },
                };
                fk.references_columns.push(column);
                if self.is(Type::Comma) {
                    self.advance();
                } else {
                    break;
                }
            }
            self.consume(Type::BraceRight);
        }
        self.foreign_key_clause_on_and_match(&mut fk);
        if self.is_keyword(Keyword::NOT) || self.is_keyword(Keyword::DEFERRABLE) {
            fk.deferrable = true;
            if self.is_keyword(Keyword::NOT) {
                fk.deferrable = false;
                self.advance();
            }
            self.consume_keyword(Keyword::DEFERRABLE);
            if self.is_keyword(Keyword::INITIALLY) {
                self.advance();
                if self.is_keyword(Keyword::DEFERRED) {
                    fk.initially_deferred = true;
                } else if !self.is_keyword(Keyword::IMMEDIATE) {
                    let cur = self.cur().clone();
                    let got = cur.ttype.debug_text();
                    let note = concat3(
                        "Wanted DEFERRED or IMMEDIATE after DEFERRABLE INITIALLY, got ",
                        got.as_str(),
                        ".",
                    );
                    let mut err = self.err("Unexpected Keyword", note.as_str(), &cur, Rule::Syntax);
                    err.doc_url = Some("https://www.sqlite.org/syntax/foreign-key-clause.html");
                    self.push_error(err);
                }
                self.advance();
            }
            if !fk.deferrable {
                fk.initially_deferred = false;
            }
        }
        Some(fk)
    }

    /// Whether the current token starts a column constraint.
    fn at_constraint_start(&self) -> (r: bool)
        requires
            self.wf(),
        ensures
            r == starts_constraint(self.cur_spec().ttype),
    {
        self.is_keyword(Keyword::CONSTRAINT) || self.is_keyword(Keyword::PRIMARY)
            || self.is_keyword(Keyword::NOT) || self.is_keyword(Keyword::UNIQUE)
            || self.is_keyword(Keyword::CHECK) || self.is_keyword(Keyword::DEFAULT)
            || self.is_keyword(Keyword::COLLATE) || self.is_keyword(Keyword::REFERENCES)
            || self.is_keyword(Keyword::GENERATED) || self.is_keyword(Keyword::AS)
    }

    /// The type name's optional size, `(number [, number])`.
    fn type_name_size(&mut self)
        requires
            old(self).wf(),
            old(self).cur_spec().ttype == Type::BraceLeft,
        ensures
            final(self).evolved_from(*old(self)),
            final(self).pos > old(self).pos,
    {
        self.advance();
        if matches!(self.cur().ttype, Type::Number(_)) {
            self.advance();
        } else {
            let cur = self.cur().clone();
            let got = cur.ttype.debug_text();
            let note = concat3("Wanted a Number after Type::BraceLeft, got ", got.as_str(), ".");
            let mut err = self.err("Unexpected Token", note.as_str(), &cur, Rule::Syntax);
            err.doc_url = Some("https://www.sqlite.org/syntax/type-name.html");
            self.push_error(err);
            self.advance();
        }
        if self.is(Type::Comma) {
            self.advance();
            if matches!(self.cur().ttype, Type::Number(_)) {
                self.advance();
            } else {
                let cur = self.cur().clone();
                let got = cur.ttype.debug_text();
                let note = concat3(
                    "Wanted a Number after Type::BraceLeft, Type::Number and Type::Comma, got ",
                    got.as_str(),
                    ".",
                );
                let mut err = self.err("Unexpected Token", note.as_str(), &cur, Rule::Syntax);
                err.doc_url = Some("https://www.sqlite.org/syntax/type-name.html");
                self.push_error(err);
                self.advance();
            }
        }
        self.consume(Type::BraceRight);
    }

    /// One column constraint (<https://www.sqlite.org/syntax/column-constraint.html>), the
    /// current token being one that starts a constraint. `None` in the second place where
    /// a part of it failed to parse.
    fn column_constraint(&mut self) -> (r: (Option<ColumnConstraint>, bool))
        requires
            old(self).wf(),
            starts_constraint(old(self).cur_spec().ttype),
        ensures
            final(self).evolved_from(*old(self)),
            final(self).pos > old(self).pos,
            !r.1 ==> final(self).errors@.len() > old(self).errors@.len(),
            plain_constraint_in(old(self).tokens@, old(self).pos as int) matches Some((c, e)) ==> r == (Some(c), true)
                && final(self).pos == e && final(self).errors@ == old(self).errors@,
    {
        if self.is_keyword(Keyword::CONSTRAINT) {
            self.advance();
            let _ = self.consume_ident("https://www.sqlite.org/syntax/column-constraint.html", "name");
        }
        let constraint = if self.is_keyword(Keyword::PRIMARY) {
            self.advance();
            self.consume_keyword(Keyword::KEY);
            let asc_desc = if self.is_keyword(Keyword::ASC) || self.is_keyword(Keyword::DESC) {
                let k = if self.is_keyword(Keyword::ASC) {
                    Keyword::ASC
                } else {
                    Keyword::DESC
                };
                self.advance();
                Some(k)
            } else {
                None
            };
            let on_conflict = self.conflict_clause();
            let autoincrement = if self.is_keyword(Keyword::AUTOINCREMENT) {
                self.advance();
                true
            } else {
                false
            };
            Some(ColumnConstraint::PrimaryKey { asc_desc, on_conflict, autoincrement })
        } else if self.is_keyword(Keyword::NOT) {
            self.advance();
            self.consume_keyword(Keyword::NULL);
            Some(ColumnConstraint::NotNull { on_conflict: self.conflict_clause() })
        } else if self.is_keyword(Keyword::UNIQUE) {
            self.advance();
            Some(ColumnConstraint::Unique { on_conflict: self.conflict_clause() })
        } else if self.is_keyword(Keyword::CHECK) {
            self.advance();
            self.consume(Type::BraceLeft);
            let e = match self.expr() {
                Some(e) => e,
                None => return (None, false),
            };
            self.consume(Type::BraceRight);
            Some(ColumnConstraint::Check(e))
        } else if self.is_keyword(Keyword::DEFAULT) {
            self.advance();
            if self.is(Type::BraceLeft) {
                self.advance();
                let expr = self.expr();
                self.consume(Type::BraceRight);
                Some(ColumnConstraint::Default { literal: None, expr })
            } else {
                let literal = self.literal_value();
                Some(ColumnConstraint::Default { literal, expr: None })
            }
        } else if self.is_keyword(Keyword::COLLATE) {
            self.advance();
            match self.consume_ident(
                "https://www.sqlite.org/syntax/column-constraint.html",
                "collation_name",
            ) {
                Some(name) => Some(ColumnConstraint::Collate(name)),
                None => return (None, false),
            }
        } else if self.is_keyword(Keyword::REFERENCES) {
            match self.foreign_key_clause() {
                Some(fk) => Some(ColumnConstraint::ForeignKey(fk)),
                None => return (None, false),
            }
        } else if self.is_keyword(Keyword::GENERATED) || self.is_keyword(Keyword::AS) {
            let mut is_generated = false;
            if self.is_keyword(Keyword::GENERATED) {
                is_generated = true;
                self.advance();
                self.consume_keyword(Keyword::ALWAYS);
            }
            self.consume_keyword(Keyword::AS);
            self.consume(Type::BraceLeft);
            let expr = match self.expr() {
                Some(e) => e,
                None => return (None, false),
            };
            self.consume(Type::BraceRight);
            let stored_virtual = if self.is_keyword(Keyword::STORED) || self.is_keyword(
                Keyword::VIRTUAL,
            ) {
                let k = if self.is_keyword(Keyword::STORED) {
                    Keyword::STORED
                } else {
                    Keyword::VIRTUAL
                };
                self.advance();
                Some(k)
            } else {
                None
            };
            if is_generated {
                Some(ColumnConstraint::Generated { expr, stored_virtual })
            } else {
                Some(ColumnConstraint::As { expr, stored_virtual })
            }
        } else {
            None
        };
        (constraint, true)
    }

    /// A column definition: `name [type_name [(n [, n])]] [column_constraint ...]`, see
    /// <https://www.sqlite.org/syntax/column-def.html>. A type name that is not one of
    /// SQLite's canonical ones, or a missing one, is reported as a quirk.
    pub(crate) fn column_def(&mut self) -> (r: Option<ColumnDef>)
        requires
            old(self).wf(),
        ensures
            final(self).evolved_from(*old(self)),
            final(self).pos > old(self).pos || old(self).pos == old(self).tokens.len(),
            r is None ==> final(self).errors@.len() > old(self).errors@.len(),
            !(old(self).cur_spec().ttype is Ident) ==> (r is None) && final(self).one_more_error(
                *old(self),
                old(self).cur_spec(),
                Rule::Syntax,
            ),
            r matches Some(d) ==> {
                &&& old(self).cur_spec().ttype == Type::Ident(d.name)
                &&& d.t == old(self).cur_spec()
                &&& d.storage_class == declared_class(old(self).ty(old(self).pos + 1))
            },
            old(self).cur_spec().ttype is Ident && quirky_type(old(self).ty(old(self).pos + 1)) ==> {
                &&& final(self).errors@.len() > old(self).errors@.len()
                &&& final(self).errors@[old(self).errors@.len() as int].rule == Rule::Quirk
                &&& final(self).errors@[old(self).errors@.len() as int].msg@ == quirk_msg(old(self).ty(old(self).pos + 1))
            },
            ({
                let p = old(self).pos as int;
                old(self).ty(p) is Ident && !quirky_type(old(self).ty(p + 1)) && old(self).ty(p + 2)
                    != Type::BraceLeft && !starts_constraint(old(self).ty(p + 2)) ==> (r matches Some(d)
                    && d.constraints@.len() == 0) && final(self).pos == p + 2 && final(self).errors@ == old(
                    self,
                ).errors@
            }),
            ({
                let p = old(self).pos as int;
                old(self).ty(p) is Ident && !quirky_type(old(self).ty(p + 1)) && old(self).ty(p + 2)
                    != Type::BraceLeft ==> (plain_constraints_from(old(self).tokens@, p + 2) matches Some((cs, e)) ==> (r matches Some(d)
                    && d.constraints@ == cs) && final(self).pos == e && final(self).errors@ == old(self).errors@)
            }),
    {
        let t = self.cur().clone();
        let name = self.consume_ident("https://www.sqlite.org/syntax/column-def.html", "name")?;
        let ghost named = *self;
        let mut storage_class: Option<SqliteStorageClass> = None;
        if let Type::Ident(declared) = &self.cur().ttype {
            let declared = declared.clone();
            let class = SqliteStorageClass::from_str(declared.as_str());
            storage_class = Some(class);
            if SqliteStorageClass::from_str_strict(declared.as_str()).is_none() {
                let cur = self.cur().clone();
                let msg = concat3("non-canonical SQLite type name `", declared.as_str(), "`");
                let mut note = concat3(
                    "SQLite will assign ",
                    class.as_str(),
                    " affinity to this column based on it being declared as type ",
                );
                note.append(declared.as_str());
                note.append(
                    ". Consider using a canonical sqlite type: TEXT, BLOB, REAL or INTEGER instead.",
                );
                let mut e = self.err(msg.as_str(), note.as_str(), &cur, Rule::Quirk);
                e.doc_url = Some("https://www.sqlite.org/datatype3.html");
                self.push_error(e);
            }
            let ghost pushed = *self;
            self.advance();
            if self.is(Type::BraceLeft) {
                self.type_name_size();
            }
            assert(pushed.errors@.len() > named.errors@.len() ==> self.errors@[named.errors@.len()
                as int] == pushed.errors@[named.errors@.len() as int]);
        } else {
            let prev = self.tokens[self.pos - 1].clone();
            proof {
                let i = self.pos - 1;
                assert(self.tokens@[i].line == prev.line);
            }
            let mut e = self.err(
                "Possibly unintended flexible typed column",
                "SQLite allows columns without a declared type. Such columns use dynamic typing and type affinity is not enforced. Consider adding TEXT, BLOB, REAL, or INTEGER if this is unintended.",
                &prev,
                Rule::Quirk,
            );
            e.doc_url = Some("https://www.sqlite.org/quirks.html#the_datatype_is_optional");
            self.push_error(e);
        }
        let ghost typed = *self;
        let ghost k = old(self).errors@.len() as int;
        assert(quirky_type(old(self).ty(old(self).pos + 1)) ==> typed.errors@.len() > k
            && typed.errors@[k].rule == Rule::Quirk && typed.errors@[k].msg@ == quirk_msg(old(self).ty(old(self).pos + 1)));
        let mut def = ColumnDef { t, name, storage_class, constraints: Vec::new() };
        let ghost toks = old(self).tokens@;
        let ghost p = old(self).pos as int;
        let ghost pc = old(self).ty(p) is Ident && !quirky_type(old(self).ty(p + 1)) && old(self).ty(p + 2)
            != Type::BraceLeft && plain_constraints_from(toks, p + 2) is Some;
        let ghost cs = plain_constraints_from(toks, p + 2)->Some_0.0;
        let ghost e = plain_constraints_from(toks, p + 2)->Some_0.1;
        proof {
            if pc {
                assert(self.pos == p + 2);
                assert(def.constraints@ + cs =~= cs);
            }
        }
        proof {
            let p = old(self).pos as int;
            if old(self).ty(p) is Ident && !quirky_type(old(self).ty(p + 1)) && old(self).ty(p + 2)
                != Type::BraceLeft && !starts_constraint(old(self).ty(p + 2)) {
                assert(self.pos == p + 2);
                assert(self.errors@ == old(self).errors@);
            }
        }
        while !self.is_eof() && self.at_constraint_start()
            invariant
                self.evolved_from(typed),
                typed.evolved_from(*old(self)),
                def.t == old(self).cur_spec(),
                old(self).cur_spec().ttype == Type::Ident(def.name),
                def.storage_class == declared_class(old(self).ty(old(self).pos + 1)),
                k == old(self).errors@.len(),
                quirky_type(old(self).ty(old(self).pos + 1)) ==> self.errors@.len() > k
                    && self.errors@[k].rule == Rule::Quirk && self.errors@[k].msg@ == quirk_msg(
                    old(self).ty(old(self).pos + 1),
                ),
                old(self).ty(old(self).pos as int) is Ident && !quirky_type(old(self).ty(old(self).pos + 1))
                    && old(self).ty(old(self).pos + 2) != Type::BraceLeft && !starts_constraint(old(self).ty(
                    old(self).pos + 2,
                )) ==> self.pos == old(self).pos + 2 && self.errors@ == old(self).errors@
                    && def.constraints@.len() == 0,
                toks == old(self).tokens@,
                self.tokens@ == toks,
                p == old(self).pos,
                pc == (old(self).ty(p) is Ident && !quirky_type(old(self).ty(p + 1)) && old(self).ty(p + 2)
                    != Type::BraceLeft && plain_constraints_from(toks, p + 2) is Some),
                cs == plain_constraints_from(toks, p + 2)->Some_0.0,
                e == plain_constraints_from(toks, p + 2)->Some_0.1,
                pc ==> plain_constraints_from(toks, self.pos as int) is Some && plain_constraints_from(
                    toks,
                    self.pos as int,
                )->Some_0.1 == e && def.constraints@ + plain_constraints_from(toks, self.pos as int)->Some_0.0
                    == cs && self.errors@ == old(self).errors@,
            decreases self.remaining(),
        {
            let ghost before = *self;
            let ghost done = def.constraints@;
            proof {
                if pc {
                    let i = self.pos as int;
                    assert(kind_at(toks, i) == self.cur_spec().ttype);
                    assert(plain_constraint_in(toks, i) is Some);
                }
            }
            let (constraint, ok) = self.column_constraint();
            proof {
                if quirky_type(old(self).ty(old(self).pos + 1)) {
                    assert(self.errors@[k] == before.errors@[k]);
                }
            }
            if !ok {
                return None;
            }
            if let Some(c) = constraint {
                def.constraints.push(c);
            }
            proof {
                if pc {
                    let i = before.pos as int;
                    let rest = plain_constraints_from(toks, self.pos as int)->Some_0.0;
                    assert(plain_constraints_from(toks, i)->Some_0.0 == seq![plain_constraint_in(toks, i)->Some_0.0]
                        + rest);
                    assert(def.constraints@ + rest =~= done + plain_constraints_from(toks, i)->Some_0.0);
                }
            }
        }
        proof {
            if pc {
                assert(plain_constraints_from(toks, self.pos as int)->Some_0.0.len() == 0);
                assert(def.constraints@ =~= cs);
            }
        }
        Some(def)
    }
}

} // verus!
