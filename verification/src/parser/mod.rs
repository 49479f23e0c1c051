//! A recursive-descent parser for SQLite's SQL, following the syntax diagrams of
//! <https://www.sqlite.org/lang.html>. It never stops at the first problem: each
//! production reports what it did not expect and goes on, so that one run finds as
//! many diagnostics as it can.

use vstd::prelude::*;

use crate::error::{Error, ImprovedLine, Suggestion};
pub mod column;
pub mod dml;
pub mod program;
pub mod query;
pub mod stmt;

use crate::types::{concat2, concat4, is_plain, same_kind, same_type, type_is, Keyword, Rule, Token, Type};

verus! {

/// The token that the parser sees once the input is used up.
pub open spec fn eof_token() -> Token {
    Token { ttype: Type::Eof, start: 0, end: 0, line: 0 }
}

/// Whether `(line, start, end)` is the place of a token of `toks`, or the end of the input.
pub open spec fn located(toks: Seq<Token>, line: usize, start: usize, end: usize) -> bool {
    ||| (line == 0 && start == 0 && end == 0)
    ||| exists|i: int|
        0 <= i < toks.len() && #[trigger] toks[i].line == line && toks[i].start == start
            && toks[i].end == end
}

/// Whether a diagnostic names `file` and points at a token of `toks` (or at the end of the input).
pub open spec fn points_into(e: Error, toks: Seq<Token>, file: Seq<char>) -> bool {
    &&& e.file@ == file
    &&& located(toks, e.line, e.start, e.end)
}

/// Whether every diagnostic of `errs` names `file` and points into `toks`.
pub open spec fn all_point_into(errs: Seq<Error>, toks: Seq<Token>, file: Seq<char>) -> bool {
    forall|j: int| 0 <= j < errs.len() ==> points_into(#[trigger] errs[j], toks, file)
}

/// Whether `new` is `old` with diagnostics appended.
pub open spec fn appended(old: Seq<Error>, new: Seq<Error>) -> bool {
    &&& old.len() <= new.len()
    &&& forall|k: int| 0 <= k < old.len() ==> #[trigger] new[k] == old[k]
}

/// Parses a token sequence into statements, collecting diagnostics in `errors`.
pub struct Parser<'a> {
    pub(crate) pos: usize,
    pub(crate) tokens: Vec<Token>,
    pub(crate) name: &'a str,
    pub(crate) eof: Token,
    pub errors: Vec<Error>,
}

impl<'a> Parser<'a> {
    /// The parser's invariant: the position is within the input, and every diagnostic
    /// names the file and points at an input token or at the end of the input.
    pub closed spec fn wf(&self) -> bool {
        &&& self.pos <= self.tokens.len()
        &&& self.eof == eof_token()
        &&& all_point_into(self.errors@, self.tokens@, self.name@)
    }

    /// A well-formed parser reads within its input, and each of its diagnostics names its
    /// file and points at an input token (or at the end of the input).
    pub proof fn lemma_wf(&self)
        requires
            self.wf(),
        ensures
            0 <= self.position() <= self.input().len(),
            all_point_into(self.diagnostics(), self.input(), self.file()),
            forall|k: int| 0 <= k < self.diagnostics().len() ==> (#[trigger] self.diagnostics()[k]).file@ == self.file(),
    {
        assert forall|k: int| 0 <= k < self.diagnostics().len() implies (#[trigger] self.diagnostics()[k]).file@
            == self.file() by {
            assert(points_into(self.errors@[k], self.tokens@, self.name@));
        }
    }

    /// The tokens being parsed.
    pub closed spec fn input(&self) -> Seq<Token> {
        self.tokens@
    }

    /// The index of the next token to read.
    pub closed spec fn position(&self) -> int {
        self.pos as int
    }

    /// The file name that diagnostics carry.
    pub closed spec fn file(&self) -> Seq<char> {
        self.name@
    }

    /// The diagnostics found so far.
    pub closed spec fn diagnostics(&self) -> Seq<Error> {
        self.errors@
    }

    /// How many tokens are left.
    pub(crate) open spec fn remaining(&self) -> int {
        self.tokens.len() - self.pos
    }

    /// The token at the current position (the end-of-input token past the end).
    pub(crate) open spec fn cur_spec(&self) -> Token {
        if self.pos < self.tokens.len() {
            self.tokens@[self.pos as int]
        } else {
            eof_token()
        }
    }

    /// The token `offset` places after the current one, if there is one.
    pub(crate) open spec fn peek_spec(&self, offset: int) -> Option<Token> {
        if 0 <= self.pos + offset < self.tokens.len() {
            Some(self.tokens@[self.pos + offset])
        } else {
            None
        }
    }

    /// `self` is `old` after some parsing: same input, position moved forward,
    /// diagnostics only appended, invariant kept.
    pub(crate) open spec fn evolved_from(&self, old: Self) -> bool {
        &&& self.wf()
        &&& self.tokens@ == old.tokens@
        &&& self.name == old.name
        &&& old.pos <= self.pos
        &&& appended(old.errors@, self.errors@)
    }

    /// Whether the token's place is the place of an input token or the end of the input.
    pub(crate) open spec fn locates(&self, t: Token) -> bool {
        located(self.tokens@, t.line, t.start, t.end)
    }

    /// A diagnostic of this parser about token `t`: names the file and carries `t`'s place.
    pub(crate) open spec fn diag_at(&self, e: Error, t: Token, rule: Rule) -> bool {
        &&& e.file@ == self.name@
        &&& e.line == t.line
        &&& e.start == t.start
        &&& e.end == t.end
        &&& e.rule == rule
    }

    proof fn lemma_cur_located(&self)
        requires
            self.pos <= self.tokens.len(),
        ensures
            self.locates(self.cur_spec()),
    {
        if self.pos < self.tokens.len() {
            let t = self.tokens@[self.pos as int];
            assert(self.tokens@[self.pos as int].line == t.line);
        }
    }

    proof fn lemma_push_keeps(&self, errs: Seq<Error>, e: Error)
        requires
            all_point_into(errs, self.tokens@, self.name@),
            points_into(e, self.tokens@, self.name@),
        ensures
            all_point_into(errs.push(e), self.tokens@, self.name@),
    {
        assert forall|j: int| 0 <= j < errs.push(e).len() implies points_into(
            #[trigger] errs.push(e)[j],
            self.tokens@,
            self.name@,
        ) by {
            if j < errs.len() as int {
                assert(errs.push(e)[j] == errs[j]);
            }
        }
    }

    /// A parser at the start of `tokens`, with no diagnostics yet.
    pub fn new(tokens: Vec<Token>, name: &'a str) -> (r: Parser<'a>)
        ensures
            r.wf(),
            r.input() == tokens@,
            r.position() == 0,
            r.file() == name@,
            r.diagnostics() == Seq::<Error>::empty(),
    {
        Parser { pos: 0, name, tokens, eof: Token::new(Type::Eof), errors: Vec::new() }
    }

    /// The current token (the end-of-input token past the end).
    pub(crate) fn cur(&self) -> (r: &Token)
        requires
            self.wf(),
        ensures
            *r == self.cur_spec(),
            self.locates(*r),
    {
        proof {
            self.lemma_cur_located();
        }
        if self.pos < self.tokens.len() {
            &self.tokens[self.pos]
        } else {
            &self.eof
        }
    }

    /// A diagnostic about token `start`.
    pub(crate) fn err(&self, msg: &str, note: &str, start: &Token, rule: Rule) -> (r: Error)
        ensures
            self.diag_at(r, *start, rule),
            r.msg@ == msg@,
            r.note@ == note@,
            r.improved_line is None,
            r.doc_url is None,
            r.suggestion is None,
    {
        Error {
            improved_line: None,
            file: String::from_str(self.name),
            line: start.line,
            rule,
            note: String::from_str(note),
            msg: String::from_str(msg),
            start: start.start,
            end: start.end,
            doc_url: None,
            suggestion: None,
        }
    }

    /// Records diagnostic `e`, which must point into the input.
    pub(crate) fn push_error(&mut self, e: Error)
        requires
            old(self).wf(),
            points_into(e, old(self).tokens@, old(self).name@),
        ensures
            final(self).wf(),
            final(self).evolved_from(*old(self)),
            final(self).tokens@ == old(self).tokens@,
            final(self).name == old(self).name,
            final(self).pos == old(self).pos,
            final(self).errors@ == old(self).errors@.push(e),
    {
        proof {
            self.lemma_push_keeps(self.errors@, e);
        }
        self.errors.push(e);
        proof {
            assert forall|k: int| 0 <= k < old(self).errors@.len() implies #[trigger] self.errors@[k]
                == old(self).errors@[k] by {
                assert(self.errors@ == old(self).errors@.push(e));
            }
        }
    }

    /// Records a diagnostic about token `start`, a token of the input.
    pub(crate) fn push_err(&mut self, msg: &str, note: &str, start: &Token, rule: Rule)
        requires
            old(self).wf(),
            old(self).locates(*start),
        ensures
            final(self).wf(),
            final(self).evolved_from(*old(self)),
            final(self).tokens@ == old(self).tokens@,
            final(self).name == old(self).name,
            final(self).pos == old(self).pos,
            final(self).errors@.len() == old(self).errors@.len() + 1,
            final(self).errors@.drop_last() == old(self).errors@,
            old(self).diag_at(final(self).errors@.last(), *start, rule),
            final(self).errors@.last().msg@ == msg@,
            final(self).errors@.last().note@ == note@,
            final(self).errors@.last().suggestion is None,
    {
        let e = self.err(msg, note, start, rule);
        self.push_error(e);
        proof {
            assert(self.errors@.drop_last() =~= old(self).errors@);
        }
    }

    /// Whether the input is used up.
    pub(crate) fn is_eof(&self) -> (r: bool)
        ensures
            r == (self.pos >= self.tokens.len()),
    {
        self.pos >= self.tokens.len()
    }

    /// Moves to the next token, unless the input is used up.
    pub(crate) fn advance(&mut self)
        requires
            old(self).wf(),
        ensures
            final(self).evolved_from(*old(self)),
            final(self).errors@ == old(self).errors@,
            final(self).pos == if old(self).pos < old(self).tokens.len() {
                old(self).pos + 1
            } else {
                old(self).pos as int
            },
    {
        if self.pos < self.tokens.len() {
            self.pos = self.pos + 1;
        }
    }

    /// Whether the current token is of kind `t` (with the same text, for a kind that
    /// carries text).
    pub(crate) fn is(&self, t: Type) -> (r: bool)
        requires
            self.wf(),
        ensures
            r == same_kind(self.cur_spec().ttype, t),
            is_plain(t) ==> r == (self.cur_spec().ttype == t),
    {
        same_type(&self.cur().ttype, &t)
    }

    /// Whether the current token is the keyword `keyword`.
    pub(crate) fn is_keyword(&self, keyword: Keyword) -> (r: bool)
        requires
            self.wf(),
        ensures
            r == (self.cur_spec().ttype == Type::Keyword(keyword)),
    {
        self.is(Type::Keyword(keyword))
    }

    /// Skips to the next semicolon or to the end of the input.
    pub(crate) fn skip_until_semicolon_or_eof(&mut self)
        requires
            old(self).wf(),
        ensures
            final(self).evolved_from(*old(self)),
            final(self).errors@ == old(self).errors@,
            final(self).pos >= final(self).tokens.len() || final(self).cur_spec().ttype
                == Type::Semicolon,
            forall|i: int|
                old(self).pos <= i < final(self).pos ==> (#[trigger] final(self).tokens@[i]).ttype
                    != Type::Semicolon,
    {
        while !self.is_eof() && !self.is(Type::Semicolon)
            invariant
                self.evolved_from(*old(self)),
                self.errors@ == old(self).errors@,
                forall|i: int|
                    old(self).pos <= i < self.pos ==> (#[trigger] self.tokens@[i]).ttype
                        != Type::Semicolon,
            decreases self.remaining(),
        {
            self.advance();
        }
    }

    /// The token after the current one is of kind `t` (with the same text, for a kind that
    /// carries text).
    pub(crate) fn next_is(&self, t: Type) -> (r: bool)
        requires
            self.wf(),
        ensures
            r == (self.peek_spec(1) matches Some(tok) && same_kind(tok.ttype, t)),
            is_plain(t) ==> r == (self.peek_spec(1) matches Some(tok) && tok.ttype == t),
    {
        if self.pos < self.tokens.len() && self.pos + 1 < self.tokens.len() {
            same_type(&self.tokens[self.pos + 1].ttype, &t)
        } else {
            false
        }
    }

    /// The token `offset` places after the current one, if there is one.
    pub(crate) fn peek_at(&self, offset: usize) -> (r: Option<&Token>)
        requires
            self.wf(),
        ensures
            r matches Some(t) ==> self.peek_spec(offset as int) == Some(*t),
            r is None ==> self.peek_spec(offset as int) is None,
    {
        if offset < self.tokens.len() - self.pos {
            Some(&self.tokens[self.pos + offset])
        } else {
            None
        }
    }
    /// The token at index `i` (the end-of-input token outside the input).
    pub(crate) open spec fn tok(&self, i: int) -> Token {
        if 0 <= i < self.tokens.len() {
            self.tokens@[i]
        } else {
            eof_token()
        }
    }

    /// The kind of the token at index `i` (the end-of-input kind outside the input).
    pub(crate) open spec fn ty(&self, i: int) -> Type {
        if 0 <= i < self.tokens.len() {
            self.tokens@[i].ttype
        } else {
            Type::Eof
        }
    }

    /// The position after `advance`.
    pub(crate) open spec fn next_pos(&self) -> int {
        if self.pos < self.tokens.len() {
            self.pos + 1
        } else {
            self.pos as int
        }
    }

    /// `self` is `old` with one diagnostic about `t` of rule `rule` appended.
    pub(crate) open spec fn one_more_error(&self, old: Self, t: Token, rule: Rule) -> bool {
        &&& self.errors@.len() == old.errors@.len() + 1
        &&& self.errors@.drop_last() == old.errors@
        &&& old.diag_at(self.errors@.last(), t, rule)
    }

    /// Moves past a token of kind `t`; where the current token is of another kind (or
    /// carries other text), reports it (a missing semicolon with a fix) and moves past it
    /// all the same.
    pub(crate) fn consume(&mut self, t: Type)
        requires
            old(self).wf(),
        ensures
            final(self).evolved_from(*old(self)),
            final(self).pos == old(self).next_pos(),
            same_kind(old(self).cur_spec().ttype, t) ==> final(self).errors@ == old(self).errors@,
            !same_kind(old(self).cur_spec().ttype, t) ==> {
                &&& final(self).one_more_error(
                    *old(self),
                    old(self).cur_spec(),
                    if t == Type::Semicolon {
                        Rule::Semicolon
                    } else {
                        Rule::Syntax
                    },
                )
                &&& final(self).errors@.last().msg@ == if t == Type::Semicolon {
                    "Missing semicolon"@
                } else if old(self).cur_spec().ttype == Type::Eof {
                    "Unexpected End of input"@
                } else {
                    "Unexpected Token"@
                }
                &&& (final(self).errors@.last().suggestion is Some) == (t == Type::Semicolon)
                &&& t == Type::Semicolon ==> (final(self).errors@.last().suggestion matches Some(f)
                    && f.replacement@ == seq![';'] && f.start_line == old(self).cur_spec().line
                    && f.end_line == old(self).cur_spec().line && f.start_col == old(self).cur_spec().start
                    && f.end_col == old(self).cur_spec().start)
                &&& final(self).errors@.last().doc_url == Some("https://www.sqlite.org/syntax/sql-stmt.html")
            },
    {
        let cur = self.cur().clone();
        if !same_type(&cur.ttype, &t) {
            let is_semicolon = type_is(&t, &Type::Semicolon);
            let msg = if is_semicolon {
                "Missing semicolon"
            } else if matches!(cur.ttype, Type::Eof) {
                "Unexpected End of input"
            } else {
                "Unexpected Token"
            };
            let wanted = t.debug_text();
            let got = cur.ttype.debug_text();
            let mut note = concat4("Wanted ", wanted.as_str(), ", got ", got.as_str());
            let rule = if is_semicolon {
                note.append(", terminate statements with ';'");
                Rule::Semicolon
            } else {
                Rule::Syntax
            };
            let mut err = self.err(msg, note.as_str(), &cur, rule);
            if is_semicolon {
                err.improved_line = Some(ImprovedLine { snippet: ";", start: cur.end });
                proof {
                    reveal_strlit(";");
                }
                err.suggestion = Some(
                    Suggestion {
                        message: String::from_str("Add `;` to terminate the statement"),
                        replacement: String::from_str(";"),
                        start_line: cur.line,
                        start_col: cur.start,
                        end_line: cur.line,
                        end_col: cur.start,
                    },
                );
            }
            err.doc_url = Some("https://www.sqlite.org/syntax/sql-stmt.html");
            self.push_error(err);
            proof {
                assert(self.errors@.drop_last() =~= old(self).errors@);
            }
        }
        self.advance();
    }

    /// `consume` for a keyword.
    pub(crate) fn consume_keyword(&mut self, keyword: Keyword)
        requires
            old(self).wf(),
        ensures
            final(self).evolved_from(*old(self)),
            final(self).pos == old(self).next_pos(),
            old(self).cur_spec().ttype == Type::Keyword(keyword) ==> final(self).errors@ == old(
                self,
            ).errors@,
            old(self).cur_spec().ttype != Type::Keyword(keyword) ==> final(self).one_more_error(
                *old(self),
                old(self).cur_spec(),
                Rule::Syntax,
            ),
    {
        self.consume(Type::Keyword(keyword));
    }

    /// Where the current token is not a semicolon, reports it as a continuation of a
    /// statement that should have ended, and moves past it.
    pub(crate) fn expect_end(&mut self, doc: &'static str)
        requires
            old(self).wf(),
        ensures
            final(self).evolved_from(*old(self)),
            old(self).cur_spec().ttype == Type::Semicolon ==> *final(self) == *old(self),
            old(self).cur_spec().ttype != Type::Semicolon ==> {
                &&& final(self).pos == old(self).next_pos()
                &&& final(self).one_more_error(*old(self), old(self).cur_spec(), Rule::Syntax)
                &&& final(self).errors@.last().msg@ == "Unexpected Statement Continuation"@
                &&& final(self).errors@.last().doc_url == if doc@.len() == 0 {
                    None
                } else {
                    Some(doc)
                }
            },
    {
        if !self.is(Type::Semicolon) {
            let cur = self.cur().clone();
            let got = cur.ttype.debug_text();
            let note = concat2("Expected statement end via Semicolon, got ", got.as_str());
            let mut err = self.err("Unexpected Statement Continuation", note.as_str(), &cur, Rule::Syntax);
            if !doc.is_empty() {
                err.doc_url = Some(doc);
            }
            self.push_error(err);
            proof {
                assert(self.errors@.drop_last() =~= old(self).errors@);
            }
            self.advance();
        }
    }

    /// Reads an identifier; anything else is reported (naming `expected_ident_name`)
    /// and skipped.
    pub(crate) fn consume_ident(&mut self, doc: &'static str, expected_ident_name: &'static str) -> (r:
        Option<String>)
        requires
            old(self).wf(),
        ensures
            final(self).evolved_from(*old(self)),
            final(self).pos == old(self).next_pos(),
            old(self).cur_spec().ttype matches Type::Ident(s) ==> r == Some(s) && final(self).errors@
                == old(self).errors@,
            !(old(self).cur_spec().ttype is Ident) ==> r is None && final(self).one_more_error(
                *old(self),
                old(self).cur_spec(),
                Rule::Syntax,
            ) && final(self).errors@.last().doc_url == Some(doc),
    {
        if let Type::Ident(ident) = &self.cur().ttype {
            let i = ident.clone();
            self.advance();
            Some(i)
        } else {
            let cur = self.cur().clone();
            let got = cur.ttype.debug_text();
            let note = concat4("Expected Ident(<", expected_ident_name, ">), got ", got.as_str());
            let mut err = self.err("Unexpected Token", note.as_str(), &cur, Rule::Syntax);
            err.doc_url = Some(doc);
            self.push_error(err);
            proof {
                assert(self.errors@.drop_last() =~= old(self).errors@);
            }
            self.advance();
            None
        }
    }
}

} // verus!
