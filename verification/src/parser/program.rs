//! Statements and statement lists (<https://www.sqlite.org/syntax/sql-stmt-list.html>).

use vstd::prelude::*;

use super::{all_point_into, appended, Parser};
use super::stmt::{
    explain_skip, kind_at, lemma_next_semicolon, next_semicolon, plain_body_ok, plain_full_end,
    plain_stmt_end, plain_stmt_ok, plain_stmts,
};
use super::column::{is_literal, is_literal_type};
use crate::error::Suggestion;
use crate::nodes::Stmt;
use crate::lev::closest_within;
use crate::types::{
    concat2, concat3, concat4, keyword_distances, keyword_nth, keyword_text, upper_seq, Keyword, Rule,
    Token, Type, SUGGESTION_NAME_LIMIT,
};

verus! {

/// Whether `k` starts a statement that the parser understands.
pub open spec fn starts_statement(k: Keyword) -> bool {
    ||| k == Keyword::SELECT
    ||| k == Keyword::WITH
    ||| k == Keyword::VALUES
    ||| k == Keyword::PRAGMA
    ||| k == Keyword::ALTER
    ||| k == Keyword::ATTACH
    ||| k == Keyword::REINDEX
    ||| k == Keyword::RELEASE
    ||| k == Keyword::SAVEPOINT
    ||| k == Keyword::DROP
    ||| k == Keyword::ANALYZE
    ||| k == Keyword::DETACH
    ||| k == Keyword::ROLLBACK
    ||| k == Keyword::COMMIT
    ||| k == Keyword::END
    ||| k == Keyword::BEGIN
    ||| k == Keyword::VACUUM
    ||| k == Keyword::CREATE
    ||| k == Keyword::INSERT
    ||| k == Keyword::REPLACE
    ||| k == Keyword::UPDATE
    ||| k == Keyword::DELETE
}

/// Whether statement `s` is of the kind that keyword `k` starts.
pub open spec fn stmt_of_kind(k: Keyword, s: Stmt) -> bool {
    if k == Keyword::SELECT || k == Keyword::WITH || k == Keyword::VALUES {
        s is Select
    } else if k == Keyword::PRAGMA {
        s is Pragma
    } else if k == Keyword::ALTER {
        s is Alter
    } else if k == Keyword::ATTACH {
        s is Attach
    } else if k == Keyword::REINDEX {
        s is Reindex
    } else if k == Keyword::RELEASE {
        s is Release
    } else if k == Keyword::SAVEPOINT {
        s is Savepoint
    } else if k == Keyword::DROP {
        s is Drop
    } else if k == Keyword::ANALYZE {
        s is Analyze
    } else if k == Keyword::DETACH {
        s is Detach
    } else if k == Keyword::ROLLBACK {
        s is Rollback
    } else if k == Keyword::COMMIT || k == Keyword::END {
        s is Commit
    } else if k == Keyword::BEGIN {
        s is Begin
    } else if k == Keyword::VACUUM {
        s is Vacuum
    } else if k == Keyword::CREATE {
        s is CreateTable
    } else if k == Keyword::INSERT || k == Keyword::REPLACE {
        s is Insert
    } else if k == Keyword::UPDATE {
        s is Update
    } else {
        s is Delete
    }
}

/// Whether `fix` is the fix offered for `name` where a statement should start: none
/// where no keyword is close to `name`, else the replacement by the closest keyword (as
/// `Keyword::suggestions` orders them).
pub open spec fn keyword_fix(name: Seq<char>, fix: Option<Suggestion>) -> bool {
    if name.len() > SUGGESTION_NAME_LIMIT {
        fix is None
    } else {
        exists|idx: Seq<usize>|
            #![trigger closest_within(keyword_distances(upper_seq(name)), 2, 3, idx)]
            {
                &&& closest_within(keyword_distances(upper_seq(name)), 2, 3, idx)
                &&& idx.len() == 0 ==> fix is None
                &&& idx.len() > 0 ==> (fix matches Some(f) && f.replacement@ == keyword_text(
                    keyword_nth(idx[0] as int),
                ))
            }
    }
}

/// Whether the tokens from `from` up to `to` end with a semicolon, or are none.
pub open spec fn ends_terminated(toks: Seq<Token>, from: int, to: int) -> bool {
    to == from || (0 < to <= toks.len() && toks[to - 1].ttype == Type::Semicolon)
}

impl<'a> Parser<'a> {
    /// A SELECT statement and its end.
    pub(crate) fn select_stmt(&mut self) -> (r: Option<Stmt>)
        requires
            old(self).wf(),
            super::query::starts_select(old(self).cur_spec().ttype),
        ensures
            final(self).evolved_from(*old(self)),
            final(self).pos > old(self).pos,
            r is None ==> final(self).errors@.len() > old(self).errors@.len(),
            r matches Some(s) ==> s is Select,
            super::query::plain_select_stmt_end(old(self).tokens@, old(self).pos as int) >= 0 ==> (r matches Some(
                Stmt::Select(sel),
            ) && super::query::plain_select_tree(old(self).tokens@, old(self).pos as int, sel)) && final(self).errors@
                == old(self).errors@ && final(self).pos == super::query::plain_select_stmt_end(
                old(self).tokens@,
                old(self).pos as int,
            ),
    {
        let select = self.select_stmt_inner()?;
        self.expect_end("https://www.sqlite.org/lang_select.html");
        Some(Stmt::Select(select))
    }

    /// Reports an identifier where a statement should start: as an unknown keyword, with
    /// the closest keywords as hints and the closest one as a fix, where there are any.
    fn unknown_keyword(&mut self, name: &String)
        requires
            old(self).wf(),
            old(self).cur_spec().ttype == Type::Ident(*name),
        ensures
            final(self).evolved_from(*old(self)),
            final(self).pos == old(self).pos,
            final(self).one_more_error(*old(self), old(self).cur_spec(), Rule::UnknownKeyword),
            keyword_fix(name@, final(self).errors@.last().suggestion),
    {
        let cur = self.cur().clone();
        let suggestions = Keyword::suggestions(name.as_str());
        let ghost idx = choose|idx: Seq<usize>|
            {
                &&& closest_within(keyword_distances(upper_seq(name@)), 2, 3, idx)
                &&& suggestions@.len() == idx.len()
                &&& forall|k: int|
                    0 <= k < idx.len() ==> (#[trigger] suggestions@[k])@ == keyword_text(
                        keyword_nth(idx[k] as int),
                    )
            };
        if suggestions.len() > 0 {
            let mut listed = String::new();
            let mut i: usize = 0;
            while i < suggestions.len()
                invariant
                    i <= suggestions.len(),
                decreases suggestions.len() - i,
            {
                if i > 0 {
                    listed.append(", ");
                }
                listed.append(suggestions[i].as_str());
                i += 1;
            }
            let note = concat4(
                "'",
                name.as_str(),
                "' is not an SQL keyword, did you mean one of: ",
                listed.as_str(),
            );
            let mut err = self.err("Unknown Keyword", note.as_str(), &cur, Rule::UnknownKeyword);
            err.doc_url = Some("https://sqlite.org/lang_keywords.html");
            let message = concat4("Replace `", name.as_str(), "` with `", suggestions[0].as_str());
            let mut message = message;
            message.append("`");
            err.suggestion = Some(
                Suggestion {
                    message,
                    replacement: suggestions[0].clone(),
                    start_line: cur.line,
                    start_col: cur.start,
                    end_line: cur.line,
                    end_col: cur.end,
                },
            );
            self.push_error(err);
            proof {
                assert(self.errors@.drop_last() =~= old(self).errors@);
                assert(idx.len() > 0);
                assert(suggestions@[0]@ == keyword_text(keyword_nth(idx[0] as int)));
                assert(closest_within(keyword_distances(upper_seq(name@)), 2, 3, idx));
            }
        } else {
            let note = concat3("'", name.as_str(), "' is not a keyword");
            self.push_err("Unknown Keyword", note.as_str(), &cur, Rule::UnknownKeyword);
            proof {
                if name@.len() <= SUGGESTION_NAME_LIMIT {
                    assert(closest_within(keyword_distances(upper_seq(name@)), 2, 3, idx));
                }
            }
        }
    }

    /// A statement (<https://www.sqlite.org/syntax/sql-stmt.html>), chosen by its first
    /// token. A semicolon, a literal, an identifier or a keyword that starts no supported
    /// statement is reported and skipped; any other token is reported and the rest of the
    /// statement skipped.
    pub(crate) fn sql_stmt(&mut self) -> (r: Option<Stmt>)
        requires
            old(self).wf(),
        ensures
            final(self).evolved_from(*old(self)),
            final(self).pos > old(self).pos || old(self).pos == old(self).tokens.len(),
            r is None ==> final(self).errors@.len() > old(self).errors@.len(),
            ({
                let t = old(self).cur_spec().ttype;
                &&& t matches Type::Keyword(k) ==> (starts_statement(k) ==> (r matches Some(s) ==> stmt_of_kind(k, s)))
                &&& t matches Type::Keyword(k) ==> (!starts_statement(k) && !is_literal_type(t) ==> (r is None
                    && final(self).pos == old(self).pos + 1 && final(self).one_more_error(
                    *old(self),
                    old(self).cur_spec(),
                    Rule::Unimplemented,
                )))
                &&& t == Type::Semicolon ==> r is None && final(self).pos == old(self).pos + 1
                    && final(self).one_more_error(*old(self), old(self).cur_spec(), Rule::Syntax)
                    && final(self).errors@.last().msg@ == "Unexpected Token"@
                &&& is_literal_type(t) ==> r is None && final(self).pos == old(self).pos + 1
                    && final(self).one_more_error(*old(self), old(self).cur_spec(), Rule::Syntax)
                &&& t is Ident ==> r is None && final(self).pos == old(self).pos + 1
                    && final(self).one_more_error(*old(self), old(self).cur_spec(), Rule::UnknownKeyword)
                &&& t matches Type::Ident(name) ==> keyword_fix(name@, final(self).errors@.last().suggestion)
            }),
            plain_stmt_end(old(self).tokens@, old(self).pos as int) >= 0 ==> r is Some && final(self).errors@
                == old(self).errors@ && final(self).pos == plain_stmt_end(old(self).tokens@, old(self).pos as int)
                && plain_body_ok(old(self).tokens@, old(self).pos as int, r->Some_0),
    {
        let cur = self.cur().clone();
        if let Type::Keyword(k) = &cur.ttype {
            let k = *k;
            if k == Keyword::SELECT || k == Keyword::WITH || k == Keyword::VALUES {
                return self.select_stmt();
            } else if k == Keyword::PRAGMA {
                return self.pragma_stmt();
            } else if k == Keyword::ALTER {
                return self.alter_stmt();
            } else if k == Keyword::ATTACH {
                return self.attach_stmt();
            } else if k == Keyword::REINDEX {
                return self.reindex_stmt();
            } else if k == Keyword::RELEASE {
                return self.release_stmt();
            } else if k == Keyword::SAVEPOINT {
                return self.savepoint_stmt();
            } else if k == Keyword::DROP {
                return self.drop_stmt();
            } else if k == Keyword::ANALYZE {
                return self.analyse_stmt();
            } else if k == Keyword::DETACH {
                return self.detach_stmt();
            } else if k == Keyword::ROLLBACK {
                return self.rollback_stmt();
            } else if k == Keyword::COMMIT || k == Keyword::END {
                return self.commit_stmt();
            } else if k == Keyword::BEGIN {
                return self.begin_stmt();
            } else if k == Keyword::VACUUM {
                return self.vacuum_stmt();
            } else if k == Keyword::CREATE {
                return self.create_stmt();
            } else if k == Keyword::INSERT || k == Keyword::REPLACE {
                return self.insert_stmt();
            } else if k == Keyword::UPDATE {
                return self.update_stmt();
            } else if k == Keyword::DELETE {
                return self.delete_stmt();
            }
        }
        if matches!(cur.ttype, Type::Semicolon) {
            self.push_err(
                "Unexpected Token",
                "Semicolon makes no sense at this point, Semicolons are used to terminate statements",
                &cur,
                Rule::Syntax,
            );
            self.advance();
            return None;
        }
        if is_literal(&cur.ttype) {
            let got = cur.ttype.debug_text();
            let note = concat3("Literal ", got.as_str(), " can not start a statement");
            let mut err = self.err("Unexpected Literal", note.as_str(), &cur, Rule::Syntax);
            err.doc_url = Some("https://www.sqlite.org/syntax/sql-stmt.html");
            self.push_error(err);
            proof {
                assert(self.errors@.drop_last() =~= old(self).errors@);
            }
            self.advance();
            return None;
        }
        match &cur.ttype {
            Type::Ident(name) => {
                self.unknown_keyword(name);
                self.advance();
                None
            },
            Type::Keyword(_) => {
                let got = cur.ttype.debug_text();
                let note = concat2("sqleibniz can not yet analyse the token ", got.as_str());
                self.push_err("Unimplemented", note.as_str(), &cur, Rule::Unimplemented);
                self.advance();
                None
            },
            _ => {
                let got = cur.ttype.debug_text();
                let note = concat3(
                    "sqleibniz does not understand the token ",
                    got.as_str(),
                    ", skipping ahead to next statement",
                );
                self.push_err("Unknown Token", note.as_str(), &cur, Rule::Unimplemented);
                self.skip_until_semicolon_or_eof();
                None
            },
        }
    }

    /// A statement, possibly prefixed by `EXPLAIN [QUERY PLAN]`.
    pub(crate) fn sql_stmt_prefix(&mut self) -> (r: Option<Stmt>)
        requires
            old(self).wf(),
        ensures
            final(self).evolved_from(*old(self)),
            final(self).pos > old(self).pos || old(self).pos == old(self).tokens.len(),
            r is None ==> final(self).errors@.len() > old(self).errors@.len(),
            old(self).cur_spec().ttype == Type::Keyword(Keyword::EXPLAIN) ==> (r matches Some(s) ==> s is Explain),
            old(self).cur_spec().ttype matches Type::Keyword(k) ==> (starts_statement(k) ==> (r matches Some(s)
                ==> stmt_of_kind(k, s))),
            plain_full_end(old(self).tokens@, old(self).pos as int) >= 0 ==> r is Some && final(self).errors@
                == old(self).errors@ && final(self).pos == plain_full_end(old(self).tokens@, old(self).pos as int)
                && plain_stmt_ok(old(self).tokens@, old(self).pos as int, r->Some_0),
    {
        if self.is_keyword(Keyword::EXPLAIN) {
            let t = self.cur().clone();
            self.advance();
            if self.is_keyword(Keyword::QUERY) {
                self.advance();
                self.consume_keyword(Keyword::PLAN);
            }
            let child = self.sql_stmt()?;
            Some(Stmt::Explain { t, child: Box::new(child) })
        } else {
            self.sql_stmt()
        }
    }

    /// Statements up to the end of the input, each terminated by a semicolon. An
    /// `--@sqleibniz::expect` instruction makes the parser skip the statement after it.
    #[verifier::rlimit(100)]
    pub(crate) fn sql_stmt_list(&mut self) -> (r: Vec<Stmt>)
        requires
            old(self).wf(),
        ensures
            final(self).evolved_from(*old(self)),
            final(self).pos == final(self).tokens.len(),
            r@.len() <= final(self).pos - old(self).pos,
            old(self).pos == old(self).tokens.len() ==> *final(self) == *old(self) && r@.len() == 0,
            final(self).errors@.len() == old(self).errors@.len() ==> (old(self).cur_spec().ttype matches Type::Keyword(k)
                ==> (starts_statement(k) ==> r@.len() > 0 && stmt_of_kind(k, r@[0]))),
            final(self).errors@.len() == old(self).errors@.len() ==> ends_terminated(
                final(self).tokens@,
                old(self).pos as int,
                final(self).pos as int,
            ),
            plain_stmts(old(self).tokens@, old(self).pos as int) matches Some(starts) ==> r@.len() == starts.len()
                && final(self).errors@ == old(self).errors@ && forall|k: int|
                0 <= k < starts.len() ==> plain_stmt_ok(old(self).tokens@, starts[k], #[trigger] r@[k]),
    {
        let mut r: Vec<Stmt> = Vec::new();
        while !self.is_eof()
            invariant
                self.evolved_from(*old(self)),
                r@.len() <= self.pos - old(self).pos,
                old(self).pos == old(self).tokens.len() ==> *self == *old(self) && r@.len() == 0,
                self.pos > old(self).pos && self.errors@.len() == old(self).errors@.len() ==> (old(self).cur_spec().ttype
                    matches Type::Keyword(k) ==> (starts_statement(k) ==> r@.len() > 0 && stmt_of_kind(k, r@[0]))),
                self.errors@.len() == old(self).errors@.len() ==> ends_terminated(
                    self.tokens@,
                    old(self).pos as int,
                    self.pos as int,
                ),
                self.tokens@ == old(self).tokens@,
                plain_stmts(old(self).tokens@, old(self).pos as int) matches Some(all) ==> {
                    &&& plain_stmts(self.tokens@, self.pos as int) matches Some(rest)
                    &&& r@.len() + rest.len() == all.len()
                    &&& all.subrange(r@.len() as int, all.len() as int) == rest
                    &&& self.errors@ == old(self).errors@
                    &&& forall|k: int| 0 <= k < r@.len() ==> plain_stmt_ok(self.tokens@, all[k], #[trigger] r@[k])
                },
            decreases self.remaining(),
        {
            let ghost start = *self;
            let ghost plain = plain_stmts(old(self).tokens@, old(self).pos as int) is Some;
            if self.is(Type::InstructionExpect) {
                self.skip_until_semicolon_or_eof();
                proof {
                    if plain {
                        lemma_next_semicolon(self.tokens@, start.pos as int, self.pos as int);
                    }
                }
                if !self.is_eof() {
                    self.consume(Type::Semicolon);
                    continue;
                }
            }
            proof {
                if plain {
                    let e = plain_full_end(self.tokens@, self.pos as int);
                    assert(self.pos < e < self.tokens@.len());
                    assert(kind_at(self.tokens@, self.pos as int) != Type::InstructionExpect);
                }
            }
            let ghost before_r = r@;
            if let Some(stmt) = self.sql_stmt_prefix() {
                r.push(stmt);
            }
            proof {
                if plain {
                    assert(self.pos == plain_full_end(self.tokens@, start.pos as int));
                    assert(self.cur_spec().ttype == Type::Semicolon);
                    let all = plain_stmts(old(self).tokens@, old(self).pos as int)->Some_0;
                    let rest0 = plain_stmts(self.tokens@, start.pos as int)->Some_0;
                    assert(rest0[0] == start.pos);
                    assert(all[before_r.len() as int] == rest0[0]);
                    assert forall|k: int| 0 <= k < r@.len() implies plain_stmt_ok(self.tokens@, all[k], #[trigger] r@[k]) by {
                        if k < before_r.len() {
                            assert(r@[k] == before_r[k]);
                        }
                    }
                }
            }
            self.consume(Type::Semicolon);
            proof {
                if plain {
                    let all = plain_stmts(old(self).tokens@, old(self).pos as int)->Some_0;
                    let rest0 = plain_stmts(self.tokens@, start.pos as int)->Some_0;
                    assert(all.subrange(r@.len() as int, all.len() as int) =~= rest0.subrange(1, rest0.len() as int));
                }
            }
            assert(self.pos > start.pos);
        }
        r
    }

    /// Parses the whole input into statements, collecting diagnostics.
    ///
    /// Every diagnostic names the parser's file and points at a token of the input (or at
    /// its end); the whole input is read; there are no more statements than tokens; the
    /// input passes without a diagnostic only where it is empty or its last token is a
    /// semicolon; where it passes and starts with a statement's keyword, the first
    /// statement is of that kind; and input made up of plain statements (`plain_stmts`)
    /// passes with one statement for each, whose tree `plain_stmt_ok` gives.
    pub fn parse(&mut self) -> (r: Vec<Stmt>)
        requires
            old(self).wf(),
        ensures
            final(self).wf(),
            final(self).input() == old(self).input(),
            final(self).file() == old(self).file(),
            final(self).position() == final(self).input().len(),
            appended(old(self).diagnostics(), final(self).diagnostics()),
            all_point_into(final(self).diagnostics(), final(self).input(), final(self).file()),
            r@.len() <= old(self).input().len() - old(self).position(),
            old(self).position() == old(self).input().len() ==> r@.len() == 0
                && final(self).diagnostics() == old(self).diagnostics(),
            final(self).diagnostics().len() == old(self).diagnostics().len() ==> ends_terminated(
                old(self).input(),
                old(self).position(),
                old(self).input().len() as int,
            ),
            final(self).diagnostics().len() == old(self).diagnostics().len() && old(self).position() < old(self).input().len()
                ==> (old(self).input()[old(self).position()].ttype matches Type::Keyword(k) ==> (starts_statement(k)
                ==> r@.len() > 0 && stmt_of_kind(k, r@[0]))),
            plain_stmts(old(self).input(), old(self).position()) matches Some(starts) ==> r@.len() == starts.len()
                && final(self).diagnostics() == old(self).diagnostics() && forall|k: int|
                0 <= k < starts.len() ==> plain_stmt_ok(old(self).input(), starts[k], #[trigger] r@[k]),
    {
        self.sql_stmt_list()
    }
}

} // verus!
