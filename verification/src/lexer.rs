//! The tokenizer: SQL source bytes to tokens, with diagnostics for what it cannot read.
//!
//! Lines count from 0; a token's `start` and `end` are the byte columns (end exclusive) of
//! its first and last byte on the line it starts on.

use vstd::prelude::*;

use crate::error::{Error, Suggestion};
use crate::types::{
    concat2, concat3, keyword_text, push_char, to_upper, upper_seq, Keyword, Rule, Token, Type,
};

verus! {

/// The text that `bytes` decode to as UTF-8 (invalid sequences replaced).
pub uninterp spec fn utf8_text(bytes: Seq<u8>) -> Seq<char>;

/// The characters of ASCII bytes.
pub open spec fn ascii_chars(bytes: Seq<u8>) -> Seq<char> {
    Seq::new(bytes.len(), |i: int| bytes[i] as char)
}

/// Whether every byte is ASCII.
pub open spec fn all_ascii(bytes: Seq<u8>) -> bool {
    forall|i: int| 0 <= i < bytes.len() ==> bytes[i] < 128
}

/// Decodes `bytes` as UTF-8 into a string.
///
/// Calls `String::from_utf8_lossy`, which std documents as decoding valid UTF-8 and
/// replacing invalid sequences by U+FFFD. The contract names the result and states the
/// one fact the tokenizer relies on, that ASCII decodes to the same characters; what
/// other byte sequences decode to is left unsaid.
#[verifier::external_body]
fn decode_utf8(bytes: &Vec<u8>) -> (r: String)
    ensures
        r@ == utf8_text(bytes@),
        all_ascii(bytes@) ==> r@ == ascii_chars(bytes@),
{
    String::from_utf8_lossy(bytes.as_slice()).into_owned()
}

/// Whitespace between tokens: space, tab, newline, carriage return.
pub open spec fn is_space(b: u8) -> bool {
    b == 32 || b == 9 || b == 10 || b == 13
}

/// An ASCII digit.
pub open spec fn is_digit(b: u8) -> bool {
    48 <= b <= 57
}

/// An ASCII hex digit.
pub open spec fn is_hex(b: u8) -> bool {
    is_digit(b) || (65 <= b <= 70) || (97 <= b <= 102)
}

/// A byte that may start an identifier: an ASCII letter or an underscore.
pub open spec fn is_ident_start(b: u8) -> bool {
    (65 <= b <= 90) || (97 <= b <= 122) || b == 95
}

/// A byte that may continue an identifier.
pub open spec fn is_ident_byte(b: u8) -> bool {
    is_ident_start(b) || is_digit(b)
}

/// The content of a string literal quoted by `q` from index `i` on (after its opening
/// quote), a doubled quote standing for one, and the index after its closing quote; none
/// where it is not closed.
pub open spec fn quoted_rest(bytes: Seq<u8>, i: int, q: u8) -> Option<(Seq<u8>, int)>
    decreases bytes.len() - i,
{
    if i < 0 || i >= bytes.len() {
        None
    } else if bytes[i] == q {
        if i + 1 < bytes.len() && bytes[i + 1] == q {
            match quoted_rest(bytes, i + 2, q) {
                Some((c, e)) => Some((seq![q] + c, e)),
                None => None,
            }
        } else {
            Some((Seq::empty(), i + 1))
        }
    } else {
        match quoted_rest(bytes, i + 1, q) {
            Some((c, e)) => Some((seq![bytes[i]] + c, e)),
            None => None,
        }
    }
}

/// The token kind of a punctuation byte of plain source: `;`, `,`, `(`, `)` or `*`.
pub open spec fn plain_symbol(b: u8) -> Option<Type> {
    if b == 59 {
        Some(Type::Semicolon)
    } else if b == 44 {
        Some(Type::Comma)
    } else if b == 40 {
        Some(Type::BraceLeft)
    } else if b == 41 {
        Some(Type::BraceRight)
    } else if b == 42 {
        Some(Type::Asterisk)
    } else {
        None
    }
}

/// The comparison or bit operator at index `i` of `bytes`, with its length in bytes: `<`,
/// `<=`, `<>`, `<<`, `>`, `>=`, `>>`, `=`, `==`, `!=`, `|`, `||` or `&`.
pub open spec fn operator_at(bytes: Seq<u8>, i: int) -> Option<(Type, int)> {
    let c = bytes[i];
    let n: u8 = if i + 1 < bytes.len() {
        bytes[i + 1]
    } else {
        0
    };
    if c == 0x3c {
        if n == 0x3d {
            Some((Type::LessEqual, 2))
        } else if n == 0x3e {
            Some((Type::LessGreater, 2))
        } else if n == 0x3c {
            Some((Type::ShiftLeft, 2))
        } else {
            Some((Type::Less, 1))
        }
    } else if c == 0x3e {
        if n == 0x3d {
            Some((Type::GreaterEqual, 2))
        } else if n == 0x3e {
            Some((Type::ShiftRight, 2))
        } else {
            Some((Type::Greater, 1))
        }
    } else if c == 0x3d {
        if n == 0x3d {
            Some((Type::Equal, 2))
        } else {
            Some((Type::Equal, 1))
        }
    } else if c == 0x21 && n == 0x3d {
        Some((Type::BangEqual, 2))
    } else if c == 0x7c {
        if n == 0x7c {
            Some((Type::PipePipe, 2))
        } else {
            Some((Type::Pipe, 1))
        }
    } else if c == 0x26 {
        Some((Type::Ampersand, 1))
    } else {
        None
    }
}

/// Where the identifier bytes that start at index `i` end.
pub open spec fn word_end(bytes: Seq<u8>, i: int) -> int
    decreases bytes.len() - i,
{
    if 0 <= i < bytes.len() && is_ident_byte(bytes[i]) {
        word_end(bytes, i + 1)
    } else {
        i
    }
}

/// Whether `t` is the kind of the word `text`: a boolean for TRUE or FALSE, the keyword
/// it spells, or else an identifier holding it (case is ignored for the first two).
pub open spec fn word_kind(t: Type, text: Seq<char>) -> bool {
    let up = upper_seq(text);
    if up == seq!['T', 'R', 'U', 'E'] {
        t == Type::Boolean(true)
    } else if up == seq!['F', 'A', 'L', 'S', 'E'] {
        t == Type::Boolean(false)
    } else if exists|k: Keyword| keyword_text(k) == up {
        t matches Type::Keyword(k) && keyword_text(k) == up
    } else {
        t matches Type::Ident(s) && s@ == text
    }
}

/// The spans `(start, end)` of the tokens of plain source from index `i` on: words
/// (identifiers, keywords, booleans), string literals in single quotes and the
/// punctuation of `plain_symbol`, the operators of `operator_at`, separated by white
/// space; none where the bytes there are not plain source.
pub open spec fn plain_lex(bytes: Seq<u8>, i: int) -> Option<Seq<(int, int)>>
    decreases bytes.len() - i, 0int,
{
    if i < 0 {
        None
    } else if i >= bytes.len() {
        Some(Seq::empty())
    } else if is_space(bytes[i]) {
        plain_lex(bytes, i + 1)
    } else if bytes[i] == 39 {
        match quoted_rest(bytes, i + 1, 39) {
            Some((c, e)) => if i < e <= bytes.len() {
                match plain_lex(bytes, e) {
                    Some(rest) => Some(seq![(i, e)] + rest),
                    None => None,
                }
            } else {
                None
            },
            None => None,
        }
    } else if plain_symbol(bytes[i]) is Some {
        match plain_lex(bytes, i + 1) {
            Some(rest) => Some(seq![(i, i + 1)] + rest),
            None => None,
        }
    } else if operator_at(bytes, i) is Some {
        let e = i + operator_at(bytes, i)->Some_0.1;
        match plain_lex(bytes, e) {
            Some(rest) => Some(seq![(i, e)] + rest),
            None => None,
        }
    } else if is_ident_start(bytes[i]) && !((bytes[i] == 88 || bytes[i] == 120) && i + 1 < bytes.len()
        && bytes[i + 1] == 39) {
        let e = word_end(bytes, i + 1);
        if i < e <= bytes.len() {
            match plain_lex(bytes, e) {
                Some(rest) => Some(seq![(i, e)] + rest),
                None => None,
            }
        } else {
            None
        }
    } else {
        None
    }
}

/// Whether `t` is the kind of the plain-source token spanning `span` of `bytes`.
pub open spec fn plain_token_kind(t: Type, bytes: Seq<u8>, span: (int, int)) -> bool {
    if bytes[span.0] == 39 {
        t matches Type::String(s) && s@ == utf8_text(quoted_rest(bytes, span.0 + 1, 39)->Some_0.0)
    } else if plain_symbol(bytes[span.0]) is Some {
        t == plain_symbol(bytes[span.0])->Some_0
    } else if operator_at(bytes, span.0) is Some {
        t == operator_at(bytes, span.0)->Some_0.0
    } else {
        word_kind(t, ascii_chars(bytes.subrange(span.0, span.1)))
    }
}

/// A byte that may continue a malformed number: a letter, digit, `_`, `.`, `+` or `-`.
pub open spec fn number_rest_byte(b: u8) -> bool {
    is_ident_byte(b) || b == 46 || b == 43 || b == 45
}

/// Whether place `(l1, c1)` comes before place `(l2, c2)` in the source.
pub open spec fn place_before(l1: int, c1: int, l2: int, c2: int) -> bool {
    l1 < l2 || (l1 == l2 && c1 < c2)
}

/// Whether the tokens are in source order, each starting after the one before.
pub open spec fn in_source_order(toks: Seq<Token>) -> bool {
    forall|i: int, j: int|
        0 <= i < j < toks.len() ==> place_before(
            toks[i].line as int,
            toks[i].start as int,
            toks[j].line as int,
            toks[j].start as int,
        )
}

/// Whether an identifier token's text is not a keyword nor a boolean, in any case.
pub open spec fn plain_ident(s: Seq<char>) -> bool {
    &&& forall|k: Keyword| keyword_text(k) != upper_seq(s)
    &&& upper_seq(s) != "TRUE"@
    &&& upper_seq(s) != "FALSE"@
}

/// Whether every identifier token is a plain identifier, and no token is the end marker.
pub open spec fn well_kinded(toks: Seq<Token>) -> bool {
    forall|i: int|
        0 <= i < toks.len() ==> (#[trigger] toks[i].ttype matches Type::Ident(s) ==> plain_ident(s@))
            && toks[i].ttype != Type::Eof
}

/// Whether `bytes` from index `at` on hold the ASCII text `pat`.
pub open spec fn holds_at(bytes: Seq<u8>, at: int, pat: Seq<char>) -> bool {
    &&& 0 <= at
    &&& at + pat.len() <= bytes.len()
    &&& forall|j: int| 0 <= j < pat.len() ==> #[trigger] bytes[at + j] as char == pat[j]
}

/// Turns SQL source into tokens.
pub struct Lexer<'a> {
    pub(crate) input: &'a Vec<u8>,
    pub(crate) name: String,
    pub(crate) pos: usize,
    pub(crate) line: usize,
    pub(crate) line_start: usize,
    pub errors: Vec<Error>,
}

impl<'a> Lexer<'a> {
    /// The tokenizer's invariant: its place is within the input, and every diagnostic
    /// names its file.
    pub closed spec fn wf(&self) -> bool {
        &&& self.pos <= self.input.len()
        &&& self.line_start <= self.pos
        &&& self.line <= self.pos
        &&& forall|i: int| 0 <= i < self.errors@.len() ==> (#[trigger] self.errors@[i]).file@ == self.name@
    }

    /// A well-formed tokenizer reads within its source, and each of its diagnostics names
    /// its file.
    pub proof fn lemma_wf(&self)
        requires
            self.wf(),
        ensures
            0 <= self.offset() <= self.source().len(),
            forall|k: int| 0 <= k < self.diagnostics().len() ==> (#[trigger] self.diagnostics()[k]).file@ == self.file(),
    {
    }

    /// The source being read.
    pub closed spec fn source(&self) -> Seq<u8> {
        self.input@
    }

    /// The file name that diagnostics carry.
    pub closed spec fn file(&self) -> Seq<char> {
        self.name@
    }

    /// The index of the next byte to read.
    pub closed spec fn offset(&self) -> int {
        self.pos as int
    }

    /// The diagnostics found so far.
    pub closed spec fn diagnostics(&self) -> Seq<Error> {
        self.errors@
    }

    /// The byte `off` places after the current one, or 0 past the end.
    pub(crate) open spec fn byte(&self, off: int) -> u8 {
        if 0 <= self.pos + off < self.input.len() {
            self.input@[self.pos + off]
        } else {
            0
        }
    }

    /// The current column.
    pub(crate) open spec fn col(&self) -> int {
        self.pos - self.line_start
    }

    /// `self` is `old` after reading on: same input and file, diagnostics only appended,
    /// the place moved forward (or kept).
    pub(crate) open spec fn read_on(&self, old: Self) -> bool {
        &&& self.wf()
        &&& self.input == old.input
        &&& self.name == old.name
        &&& old.errors@.len() <= self.errors@.len()
        &&& forall|k: int| 0 <= k < old.errors@.len() ==> #[trigger] self.errors@[k] == old.errors@[k]
        &&& old.pos <= self.pos
        &&& (old.pos < self.pos ==> place_before(old.line as int, old.col(), self.line as int, self.col()))
        &&& (old.pos == self.pos ==> old.line == self.line && old.line_start == self.line_start)
    }

    /// A tokenizer at the start of `source`.
    pub fn new(source: &'a Vec<u8>, name: &str) -> (r: Lexer<'a>)
        ensures
            r.wf(),
            r.source() == source@,
            r.file() == name@,
            r.offset() == 0,
            r.diagnostics() == Seq::<Error>::empty(),
    {
        Lexer { input: source, name: String::from_str(name), pos: 0, line: 0, line_start: 0, errors: Vec::new() }
    }

    /// The byte `off` places after the current one, or 0 past the end.
    fn at(&self, off: usize) -> (r: u8)
        requires
            self.wf(),
        ensures
            r == self.byte(off as int),
    {
        if off < self.input.len() - self.pos {
            self.input[self.pos + off]
        } else {
            0
        }
    }

    /// Moves past the current byte, onto the next line after a newline.
    fn advance(&mut self)
        requires
            old(self).wf(),
            old(self).pos < old(self).input.len(),
        ensures
            final(self).read_on(*old(self)),
            final(self).pos == old(self).pos + 1,
            final(self).errors == old(self).errors,
    {
        if self.input[self.pos] == 10 {
            self.line = self.line + 1;
            self.line_start = self.pos + 1;
        }
        self.pos = self.pos + 1;
    }

    /// Moves past `n` bytes, or to the end of the input.
    fn advance_by(&mut self, n: usize)
        requires
            old(self).wf(),
        ensures
            final(self).read_on(*old(self)),
            final(self).errors == old(self).errors,
            final(self).pos == if old(self).pos + n <= old(self).input.len() {
                old(self).pos + n
            } else {
                old(self).input.len() as int
            },
    {
        let mut i: usize = 0;
        while i < n && self.pos < self.input.len()
            invariant
                self.read_on(*old(self)),
                self.errors == old(self).errors,
                i <= n,
                self.pos == old(self).pos + i,
            decreases n - i,
        {
            self.advance();
            i += 1;
        }
    }

    /// Whether the input from `off` places after the current byte on holds `pat`.
    fn holds(&self, off: usize, pat: &str) -> (r: bool)
        requires
            self.wf(),
        ensures
            r == holds_at(self.input@, self.pos + off, pat@),
    {
        let n = pat.unicode_len();
        if off > self.input.len() - self.pos || n > self.input.len() - self.pos - off {
            return false;
        }
        let mut j: usize = 0;
        while j < n
            invariant
                self.wf(),
                n == pat@.len(),
                self.pos + off + n <= self.input.len(),
                j <= n,
                forall|k: int| 0 <= k < j ==> #[trigger] self.input@[self.pos + off + k] as char == pat@[k],
            decreases n - j,
        {
            if self.input[self.pos + off + j] as char != pat.get_char(j) {
                return false;
            }
            j += 1;
        }
        true
    }

    /// A diagnostic at `(line, start..end)`.
    fn error(&self, msg: &str, note: &str, line: usize, start: usize, end: usize, rule: Rule) -> (r: Error)
        ensures
            r.file@ == self.name@,
            r.rule == rule,
            r.line == line,
            r.suggestion is None,
    {
        Error {
            improved_line: None,
            file: String::from_str(self.name.as_str()),
            line,
            rule,
            note: String::from_str(note),
            msg: String::from_str(msg),
            start,
            end,
            doc_url: None,
            suggestion: None,
        }
    }

    /// Records `e`, which names this tokenizer's file.
    fn push_error(&mut self, e: Error)
        requires
            old(self).wf(),
            e.file@ == old(self).name@,
        ensures
            final(self).read_on(*old(self)),
            final(self).pos == old(self).pos,
            final(self).errors@ == old(self).errors@.push(e),
    {
        self.errors.push(e);
        proof {
            assert forall|k: int| 0 <= k < old(self).errors@.len() implies #[trigger] self.errors@[k]
                == old(self).errors@[k] by {
                assert(self.errors@ == old(self).errors@.push(e));
            }
            assert forall|i: int| 0 <= i < self.errors@.len() implies (#[trigger] self.errors@[i]).file@
                == self.name@ by {
                assert(self.errors@ == old(self).errors@.push(e));
                if i < old(self).errors@.len() {
                    assert(self.errors@[i] == old(self).errors@[i]);
                }
            }
        }
    }

    /// Reports what starts at `(line, start)` and ends at the current column.
    fn report(&mut self, msg: &str, note: &str, line: usize, start: usize, rule: Rule, suggestion: Option<Suggestion>)
        requires
            old(self).wf(),
        ensures
            final(self).read_on(*old(self)),
            final(self).pos == old(self).pos,
            final(self).errors@.len() == old(self).errors@.len() + 1,
            final(self).errors@.last().rule == rule,
            final(self).errors@.last().suggestion == suggestion,
    {
        let end = self.pos - self.line_start;
        let mut e = self.error(msg, note, line, start, end, rule);
        e.suggestion = suggestion;
        self.push_error(e);
    }

    /// The bytes from `from` to the current position, as ASCII text.
    fn ascii_since(&self, from: usize) -> (r: String)
        requires
            self.wf(),
            from <= self.pos,
        ensures
            r@ == ascii_chars(self.input@.subrange(from as int, self.pos as int)),
    {
        let mut out = String::new();
        let mut i: usize = from;
        while i < self.pos
            invariant
                self.wf(),
                from <= i <= self.pos,
                out@ =~= ascii_chars(self.input@.subrange(from as int, i as int)),
            decreases self.pos - i,
        {
            push_char(&mut out, self.input[i] as char);
            i += 1;
        }
        out
    }

    /// Skips to the end of the line (not past the newline).
    fn skip_line(&mut self)
        requires
            old(self).wf(),
        ensures
            final(self).read_on(*old(self)),
            final(self).errors == old(self).errors,
            final(self).pos == final(self).input.len() || final(self).input@[final(self).pos as int] == 10,
            forall|q: int| old(self).pos <= q < final(self).pos ==> #[trigger] final(self).input@[q] != 10,
    {
        while self.pos < self.input.len() && self.input[self.pos] != 10
            invariant
                self.read_on(*old(self)),
                self.errors == old(self).errors,
                forall|q: int| old(self).pos <= q < self.pos ==> #[trigger] self.input@[q] != 10,
            decreases self.input.len() - self.pos,
        {
            self.advance();
        }
    }

    /// A comment after `--`, where the current bytes are `--`: `--@sqleibniz::expect`
    /// (spaces may follow `--`) gives the instruction token, another `--@sqleibniz` instruction is reported, and
    /// anything else is skipped to the end of the line.
    fn line_comment(&mut self, line: usize, start: usize) -> (r: Option<Type>)
        requires
            old(self).wf(),
            old(self).byte(0) == 45,
            old(self).byte(1) == 45,
        ensures
            final(self).read_on(*old(self)),
            final(self).pos > old(self).pos,
            r matches Some(t) ==> t == Type::InstructionExpect,
            r is Some ==> final(self).errors == old(self).errors,
            r is None && final(self).errors != old(self).errors ==> final(self).errors@.len()
                == old(self).errors@.len() + 1 && final(self).errors@.last().rule
                == Rule::BadSqleibnizInstruction,
    {
        self.advance_by(2);
        while self.pos < self.input.len() && (self.input[self.pos] == 32 || self.input[self.pos] == 9)
            invariant
                self.read_on(*old(self)),
                self.pos > old(self).pos,
                self.errors == old(self).errors,
            decreases self.input.len() - self.pos,
        {
            self.advance();
        }
        let expect = self.holds(0, "@sqleibniz::expect") && (self.at(18) == 0 || self.at(18) == 32
            || self.at(18) == 9 || self.at(18) == 10 || self.at(18) == 13);
        if expect {
            self.skip_line();
            return Some(Type::InstructionExpect);
        }
        if !self.holds(0, "@sqleibniz") {
            self.skip_line();
            return None;
        }
        self.skip_line();
        self.report(
            "Bad sqleibniz instruction",
            "sqleibniz only knows the instruction `--@sqleibniz::expect`",
            line,
            start,
            Rule::BadSqleibnizInstruction,
            None,
        );
        None
    }

    /// A block comment, where the current bytes are `/*`; skipped up to and including `*/`,
    /// or to the end of the input.
    fn block_comment(&mut self)
        requires
            old(self).wf(),
            old(self).byte(0) == 47,
            old(self).byte(1) == 42,
        ensures
            final(self).read_on(*old(self)),
            final(self).pos > old(self).pos,
            final(self).errors == old(self).errors,
    {
        self.advance_by(2);
        while self.pos < self.input.len() && !(self.at(0) == 42 && self.at(1) == 47)
            invariant
                self.read_on(*old(self)),
                self.pos > old(self).pos,
                self.errors == old(self).errors,
            decreases self.input.len() - self.pos,
        {
            self.advance();
        }
        self.advance_by(2);
    }

    /// A quoted string, where the current byte is the quote `q` (`'` or `"`); a doubled
    /// quote stands for one. `None` where the input ends first, reported as an unterminated
    /// string with a fix that closes it. A double-quoted string is read as a string and
    /// reported, with a fix that quotes it in single quotes.
    fn quoted(&mut self, q: u8, line: usize, start: usize) -> (r: Option<Type>)
        requires
            old(self).wf(),
            q == 39 || q == 34,
            old(self).byte(0) == q,
        ensures
            final(self).read_on(*old(self)),
            final(self).pos > old(self).pos,
            r matches Some(t) ==> t is String,
            r is None ==> final(self).errors@.len() > old(self).errors@.len()
                && final(self).errors@[old(self).errors@.len() as int].rule == Rule::UnterminatedString,
            q == 39 && r is Some ==> final(self).errors == old(self).errors,
            q == 34 && r is Some ==> final(self).errors@.len() == old(self).errors@.len() + 1
                && final(self).errors@.last().rule == Rule::Syntax,
            quoted_rest(old(self).input@, old(self).pos + 1, q) matches Some((c, e)) ==> (r matches Some(
                Type::String(s),
            ) && s@ == utf8_text(c)) && final(self).pos == e,
            quoted_rest(old(self).input@, old(self).pos + 1, q) is None ==> r is None,
    {
        self.advance();
        let mut content: Vec<u8> = Vec::new();
        let mut closed = false;
        while self.pos < self.input.len()
            invariant_except_break
                !closed,
                quoted_rest(old(self).input@, old(self).pos + 1, q) == (match quoted_rest(
                    self.input@,
                    self.pos as int,
                    q,
                ) {
                    Some((c, e)) => Some((content@ + c, e)),
                    None => None::<(Seq<u8>, int)>,
                }),
            invariant
                self.read_on(*old(self)),
                self.pos > old(self).pos,
                self.errors == old(self).errors,
                q == 39 || q == 34,
            ensures
                self.read_on(*old(self)),
                self.pos > old(self).pos,
                self.errors == old(self).errors,
                closed ==> quoted_rest(old(self).input@, old(self).pos + 1, q) == Some((content@, self.pos as int)),
                !closed ==> quoted_rest(old(self).input@, old(self).pos + 1, q) is None,
            decreases self.input.len() - self.pos,
        {
            let b = self.input[self.pos];
            let ghost at = self.pos as int;
            let ghost before = content@;
            if b == q {
                if self.at(1) == q {
                    content.push(q);
                    self.advance();
                    self.advance();
                    proof {
                        match quoted_rest(self.input@, self.pos as int, q) {
                            Some((c, e)) => {
                                assert(before + (seq![q] + c) =~= content@ + c);
                            },
                            None => {},
                        }
                    }
                } else {
                    self.advance();
                    closed = true;
                    proof {
                        assert(before + Seq::<u8>::empty() =~= content@);
                    }
                    break;
                }
            } else {
                content.push(b);
                self.advance();
                proof {
                    match quoted_rest(self.input@, self.pos as int, q) {
                        Some((c, e)) => {
                            assert(before + (seq![b] + c) =~= content@ + c);
                        },
                        None => {},
                    }
                }
            }
        }
        let quote = if q == 39 {
            "'"
        } else {
            "\""
        };
        if !closed {
            let sugg = Suggestion {
                message: concat3("Add a closing ", quote, " to terminate the string"),
                replacement: String::from_str(quote),
                start_line: self.line,
                start_col: self.pos - self.line_start,
                end_line: self.line,
                end_col: self.pos - self.line_start,
            };
            self.report(
                "Unterminated String",
                "Consider adding a closing quote at the end of the string",
                line,
                start,
                Rule::UnterminatedString,
                Some(sugg),
            );
            return None;
        }
        let text = decode_utf8(&content);
        if q == 34 {
            let quoted = concat3("'", text.as_str(), "'");
            let sugg = Suggestion {
                message: concat2("Use single quotes for string literals: ", quoted.as_str()),
                replacement: quoted.clone(),
                start_line: line,
                start_col: start,
                end_line: self.line,
                end_col: self.pos - self.line_start,
            };
            self.report(
                "Double quoted string",
                "SQL strings are written in single quotes; double quotes are for identifiers",
                line,
                start,
                Rule::Syntax,
                Some(sugg),
            );
        }
        Some(Type::String(text))
    }

    /// Skips what is left of a malformed number: digits, letters, `_`, `.`, `+` and `-`.
    fn skip_number_rest(&mut self)
        requires
            old(self).wf(),
        ensures
            final(self).read_on(*old(self)),
            final(self).errors == old(self).errors,
            final(self).pos < final(self).input.len() ==> !number_rest_byte(final(self).input@[final(self).pos as int]),
            forall|q: int| old(self).pos <= q < final(self).pos ==> number_rest_byte(#[trigger] final(self).input@[q]),
    {
        while self.pos < self.input.len() && (is_ident_byte_exec(self.input[self.pos]) || self.input[self.pos]
            == 46 || self.input[self.pos] == 43 || self.input[self.pos] == 45)
            invariant
                self.read_on(*old(self)),
                self.errors == old(self).errors,
                forall|q: int| old(self).pos <= q < self.pos ==> number_rest_byte(#[trigger] self.input@[q]),
            decreases self.input.len() - self.pos,
        {
            self.advance();
        }
    }

    /// Skips digits and underscores; whether there was at least one digit.
    fn digits(&mut self, hex: bool) -> (r: bool)
        requires
            old(self).wf(),
        ensures
            final(self).read_on(*old(self)),
            final(self).errors == old(self).errors,
            r ==> final(self).pos > old(self).pos,
            !(is_digit(old(self).byte(0)) || old(self).byte(0) == 95 || (hex && is_hex(old(self).byte(0))))
                ==> final(self).pos == old(self).pos,
            is_digit(old(self).byte(0)) ==> r,
    {
        let mut any = false;
        while self.pos < self.input.len() && (is_digit_exec(self.input[self.pos]) || self.input[self.pos]
            == 95 || (hex && is_hex_exec(self.input[self.pos])))
            invariant
                self.read_on(*old(self)),
                self.errors == old(self).errors,
                any ==> self.pos > old(self).pos,
                is_digit(old(self).byte(0)) && self.pos > old(self).pos ==> any,
                self.pos == old(self).pos || is_digit(old(self).byte(0)) || old(self).byte(0) == 95 || (hex
                    && is_hex(old(self).byte(0))),
            decreases self.input.len() - self.pos,
        {
            if self.input[self.pos] != 95 {
                any = true;
            }
            self.advance();
        }
        any
    }

    /// The digits of a decimal number and its fraction; whether there is a digit.
    fn mantissa(&mut self) -> (r: bool)
        requires
            old(self).wf(),
            is_digit(old(self).byte(0)) || old(self).byte(0) == 46,
        ensures
            final(self).read_on(*old(self)),
            final(self).errors == old(self).errors,
            final(self).pos > old(self).pos,
    {
        let int_part = self.digits(false);
        let mut frac_part = false;
        if self.at(0) == 46 {
            self.advance();
            frac_part = self.digits(false);
        }
        int_part || frac_part
    }

    /// A number: `0x` followed by hex digits, or digits with an optional fraction and
    /// exponent, `_` allowed between digits. A malformed number is reported and skipped.
    fn number(&mut self, line: usize, start: usize) -> (r: Option<Type>)
        requires
            old(self).wf(),
            is_digit(old(self).byte(0)) || old(self).byte(0) == 46,
        ensures
            final(self).read_on(*old(self)),
            final(self).pos > old(self).pos,
            r matches Some(t) ==> t is Number && final(self).errors == old(self).errors,
            r matches Some(Type::Number(text)) ==> text@ == ascii_chars(
                old(self).input@.subrange(old(self).pos as int, final(self).pos as int),
            ),
            r is None ==> final(self).errors@.len() == old(self).errors@.len() + 1
                && final(self).errors@.last().rule == Rule::InvalidNumber,
    {
        let from = self.pos;
        if self.at(0) == 48 && (self.at(1) == 120 || self.at(1) == 88) {
            self.advance_by(2);
            if !is_hex_exec(self.at(0)) {
                self.skip_number_rest();
                self.report(
                    "Invalid Number",
                    "A hexadecimal number needs at least one hex digit after 0x",
                    line,
                    start,
                    Rule::InvalidNumber,
                    None,
                );
                return None;
            }
            self.digits(true);
            return Some(Type::Number(self.ascii_since(from)));
        }
        let has_digits = self.mantissa();
        if !has_digits {
            self.skip_number_rest();
            self.report(
                "Invalid Number",
                "A number needs at least one digit before its exponent",
                line,
                start,
                Rule::InvalidNumber,
                None,
            );
            return None;
        }
        if self.at(0) == 101 || self.at(0) == 69 {
            self.advance();
            if self.at(0) == 43 || self.at(0) == 45 {
                self.advance();
            }
            if !is_digit_exec(self.at(0)) {
                self.skip_number_rest();
                self.report(
                    "Invalid Number",
                    "An exponent needs at least one digit after e and its sign",
                    line,
                    start,
                    Rule::InvalidNumber,
                    None,
                );
                return None;
            }
            self.digits(false);
        }
        Some(Type::Number(self.ascii_since(from)))
    }

    /// A blob literal, where the current bytes are `X'` or `x'`: hex digits up to the
    /// closing quote. A missing quote or a non-hex byte is reported.
    fn blob(&mut self, line: usize, start: usize) -> (r: Option<Type>)
        requires
            old(self).wf(),
            old(self).byte(0) == 88 || old(self).byte(0) == 120,
            old(self).byte(1) == 39,
        ensures
            final(self).read_on(*old(self)),
            final(self).pos > old(self).pos,
            r matches Some(t) ==> t is Blob && final(self).errors == old(self).errors,
            r is None ==> final(self).errors@.len() == old(self).errors@.len() + 1
                && final(self).errors@.last().rule == Rule::InvalidBlob,
    {
        self.advance_by(2);
        let from = self.pos;
        let mut bad = false;
        let mut closed = false;
        while self.pos < self.input.len()
            invariant_except_break
                !closed,
            invariant
                self.read_on(*old(self)),
                self.pos > old(self).pos,
                from <= self.pos,
                self.errors == old(self).errors,
            ensures
                self.read_on(*old(self)),
                self.pos > old(self).pos,
                from <= self.pos,
                self.errors == old(self).errors,
                closed ==> self.pos < self.input.len(),
            decreases self.input.len() - self.pos,
        {
            let b = self.input[self.pos];
            if b == 39 {
                closed = true;
                break;
            }
            if !is_hex_exec(b) {
                bad = true;
            }
            self.advance();
        }
        if !closed {
            self.report(
                "Unterminated Blob",
                "A blob literal has to end with a closing quote",
                line,
                start,
                Rule::InvalidBlob,
                None,
            );
            return None;
        }
        let digits = self.ascii_since(from);
        self.advance();
        if bad {
            self.report(
                "Invalid Blob",
                "A blob literal may only hold hexadecimal digits",
                line,
                start,
                Rule::InvalidBlob,
                None,
            );
            return None;
        }
        Some(Type::Blob(digits))
    }

    /// An identifier, keyword or boolean, where the current byte starts an identifier.
    fn word(&mut self) -> (r: Type)
        requires
            old(self).wf(),
            is_ident_start(old(self).byte(0)),
        ensures
            final(self).read_on(*old(self)),
            final(self).pos > old(self).pos,
            final(self).errors == old(self).errors,
            r matches Type::Ident(s) ==> plain_ident(s@),
            r is Keyword || r is Ident || r is Boolean,
            final(self).pos == word_end(old(self).input@, old(self).pos as int),
            word_kind(r, ascii_chars(old(self).input@.subrange(old(self).pos as int, final(self).pos as int))),
    {
        let from = self.pos;
        while self.pos < self.input.len() && is_ident_byte_exec(self.input[self.pos])
            invariant
                self.read_on(*old(self)),
                from == old(self).pos,
                self.errors == old(self).errors,
                self.pos > old(self).pos ==> word_end(self.input@, self.pos as int) == word_end(
                    self.input@,
                    old(self).pos as int,
                ),
                self.pos == old(self).pos ==> is_ident_byte(self.input@[self.pos as int]),
            decreases self.input.len() - self.pos,
        {
            self.advance();
        }
        proof {
            assert(word_end(self.input@, self.pos as int) == self.pos);
        }
        let text = self.ascii_since(from);
        let upper = to_upper(text.as_str());
        proof {
            reveal_strlit("TRUE");
            reveal_strlit("FALSE");
            assert("TRUE"@ =~= seq!['T', 'R', 'U', 'E']);
            assert("FALSE"@ =~= seq!['F', 'A', 'L', 'S', 'E']);
        }
        if crate::types::str_eq(upper.as_str(), "TRUE") {
            return Type::Boolean(true);
        }
        if crate::types::str_eq(upper.as_str(), "FALSE") {
            return Type::Boolean(false);
        }
        match Keyword::from_upper(upper.as_str()) {
            Some(k) => Type::Keyword(k),
            None => Type::Ident(text),
        }
    }

    /// An operator or punctuation token at the current byte, if it is one; `!` without
    /// `=` is reported with a fix, and any other byte as an unknown character.
    fn symbol(&mut self, line: usize, start: usize) -> (r: Option<Type>)
        requires
            old(self).wf(),
            old(self).pos < old(self).input.len(),
            start <= old(self).pos,
        ensures
            final(self).read_on(*old(self)),
            final(self).pos > old(self).pos,
            r is Some ==> final(self).errors == old(self).errors,
            r is None ==> final(self).errors@.len() == old(self).errors@.len() + 1
                && final(self).errors@.last().rule == Rule::UnknownCharacter,
            r matches Some(t) ==> !(t is Ident || t is String || t is Number || t is Blob || t is Boolean
                || t is Keyword || t == Type::Eof || t == Type::InstructionExpect),
            plain_symbol(old(self).byte(0)) is Some ==> r == plain_symbol(old(self).byte(0)) && final(self).pos
                == old(self).pos + 1 && final(self).errors == old(self).errors,
            ({
                let c = old(self).byte(0);
                let n = old(self).byte(1);
                let p = old(self).pos;
                &&& c == 0x3e && n != 0x3e && n != 0x3d ==> r == Some(Type::Greater) && final(self).pos == p + 1
                &&& c == 0x3e && n == 0x3d ==> r == Some(Type::GreaterEqual) && final(self).pos == p + 2
                &&& c == 0x3e && n == 0x3e ==> r == Some(Type::ShiftRight) && final(self).pos == p + 2
                &&& c == 0x3c && n != 0x3c && n != 0x3d && n != 0x3e ==> r == Some(Type::Less) && final(self).pos == p + 1
                &&& c == 0x3c && n == 0x3d ==> r == Some(Type::LessEqual) && final(self).pos == p + 2
                &&& c == 0x3c && n == 0x3e ==> r == Some(Type::LessGreater) && final(self).pos == p + 2
                &&& c == 0x3c && n == 0x3c ==> r == Some(Type::ShiftLeft) && final(self).pos == p + 2
                &&& c == 0x3d && n == 0x3d ==> r == Some(Type::Equal) && final(self).pos == p + 2
                &&& c == 0x3d && n != 0x3d ==> r == Some(Type::Equal) && final(self).pos == p + 1
                &&& c == 0x21 && n == 0x3d ==> r == Some(Type::BangEqual) && final(self).pos == p + 2
                &&& c == 0x21 && n != 0x3d ==> r is None && final(self).pos == p + 1
                &&& c == 0x7c && n == 0x7c ==> r == Some(Type::PipePipe) && final(self).pos == p + 2
                &&& c == 0x7c && n != 0x7c ==> r == Some(Type::Pipe) && final(self).pos == p + 1
                &&& c == 0x26 ==> r == Some(Type::Ampersand) && final(self).pos == p + 1
                &&& c == 0x25 ==> r == Some(Type::Percent) && final(self).pos == p + 1
                &&& c == 0x2b ==> r == Some(Type::Plus) && final(self).pos == p + 1
                &&& c == 0x2d ==> r == Some(Type::Minus) && final(self).pos == p + 1
                &&& c == 0x2f ==> r == Some(Type::Slash) && final(self).pos == p + 1
                &&& c == 0x7e ==> r == Some(Type::Tilde) && final(self).pos == p + 1
                &&& c == 0x2e ==> r == Some(Type::Dot) && final(self).pos == p + 1
                &&& c == 0x40 ==> r == Some(Type::At) && final(self).pos == p + 1
                &&& c == 0x3a ==> r == Some(Type::Colon) && final(self).pos == p + 1
                &&& c == 0x24 ==> r == Some(Type::Dollar) && final(self).pos == p + 1
                &&& c == 0x3f ==> r == Some(Type::Question) && final(self).pos == p + 1
            }),
    {
        let c = self.at(0);
        let n = self.at(1);
        let (t, len): (Option<Type>, usize) = if c == 42 {
            (Some(Type::Asterisk), 1)
        } else if c == 59 {
            (Some(Type::Semicolon), 1)
        } else if c == 44 {
            (Some(Type::Comma), 1)
        } else if c == 37 {
            (Some(Type::Percent), 1)
        } else if c == 61 {
            if n == 61 {
                (Some(Type::Equal), 2)
            } else {
                (Some(Type::Equal), 1)
            }
        } else if c == 64 {
            (Some(Type::At), 1)
        } else if c == 58 {
            (Some(Type::Colon), 1)
        } else if c == 36 {
            (Some(Type::Dollar), 1)
        } else if c == 63 {
            (Some(Type::Question), 1)
        } else if c == 40 {
            (Some(Type::BraceLeft), 1)
        } else if c == 41 {
            (Some(Type::BraceRight), 1)
        } else if c == 43 {
            (Some(Type::Plus), 1)
        } else if c == 45 {
            (Some(Type::Minus), 1)
        } else if c == 47 {
            (Some(Type::Slash), 1)
        } else if c == 126 {
            (Some(Type::Tilde), 1)
        } else if c == 46 {
            (Some(Type::Dot), 1)
        } else if c == 124 {
            if n == 124 {
                (Some(Type::PipePipe), 2)
            } else {
                (Some(Type::Pipe), 1)
            }
        } else if c == 38 {
            (Some(Type::Ampersand), 1)
        } else if c == 60 {
            if n == 60 {
                (Some(Type::ShiftLeft), 2)
            } else if n == 61 {
                (Some(Type::LessEqual), 2)
            } else if n == 62 {
                (Some(Type::LessGreater), 2)
            } else {
                (Some(Type::Less), 1)
            }
        } else if c == 62 {
            if n == 62 {
                (Some(Type::ShiftRight), 2)
            } else if n == 61 {
                (Some(Type::GreaterEqual), 2)
            } else {
                (Some(Type::Greater), 1)
            }
        } else if c == 33 && n == 61 {
            (Some(Type::BangEqual), 2)
        } else {
            (None, 1)
        };
        self.advance_by(len);
        if t.is_none() {
            if c == 33 {
                let sugg = Suggestion {
                    message: String::from_str("Did you mean `!=`? SQL has no `!` operator"),
                    replacement: String::from_str("!="),
                    start_line: line,
                    start_col: start,
                    end_line: line,
                    end_col: start + 1,
                };
                self.report(
                    "Unknown Character",
                    "`!` is only known as part of `!=`",
                    line,
                    start,
                    Rule::UnknownCharacter,
                    Some(sugg),
                );
            } else {
                self.report(
                    "Unknown Character",
                    "sqleibniz does not know this character",
                    line,
                    start,
                    Rule::UnknownCharacter,
                    None,
                );
            }
        }
        t
    }

    /// Whether a `.` at the current byte starts a number: it does where a digit, `e` or
    /// `E` follows, unless an identifier or a closing bracket stands right before it (then
    /// it is the dot of a qualified name).
    fn dot_starts_number(&self) -> (r: bool)
        requires
            self.wf(),
            self.byte(0) == 46,
        ensures
            r == ((is_digit(self.byte(1)) || self.byte(1) == 101 || self.byte(1) == 69) && (self.pos == 0
                || !(is_ident_byte(self.input@[self.pos - 1]) || self.input@[self.pos - 1] == 41))),
    {
        let n = self.at(1);
        if !(is_digit_exec(n) || n == 101 || n == 69) {
            return false;
        }
        if self.pos == 0 {
            return true;
        }
        let before = self.input[self.pos - 1];
        !(is_ident_byte_exec(before) || before == 41)
    }

    /// The tokens of the whole input. Where there are none, that is reported. Plain source
    /// (`plain_lex`: words, single-quoted strings, punctuation and comparison or bit
    /// operators) gives one token per span, of the kind `plain_token_kind` names.
    pub fn run(&mut self) -> (r: Vec<Token>)
        requires
            old(self).wf(),
        ensures
            final(self).wf(),
            final(self).source() == old(self).source(),
            final(self).file() == old(self).file(),
            old(self).diagnostics().len() <= final(self).diagnostics().len(),
            forall|k: int| 0 <= k < old(self).diagnostics().len() ==> #[trigger] final(self).diagnostics()[k]
                == old(self).diagnostics()[k],
            forall|k: int| 0 <= k < final(self).diagnostics().len() ==> (#[trigger] final(self).diagnostics()[k]).file@
                == final(self).file(),
            in_source_order(r@),
            well_kinded(r@),
            r@.len() <= old(self).source().len(),
            r@.len() == 0 ==> final(self).diagnostics().len() > old(self).diagnostics().len()
                && final(self).diagnostics().last().rule == Rule::NoContent,
            plain_lex(old(self).source(), old(self).offset()) matches Some(spans) ==> {
                &&& r@.len() == spans.len()
                &&& forall|k: int|
                    0 <= k < spans.len() ==> plain_token_kind(#[trigger] r@[k].ttype, old(self).source(), spans[k])
                &&& spans.len() > 0 ==> final(self).diagnostics() == old(self).diagnostics()
            },
    {
        let mut toks: Vec<Token> = Vec::new();
        let ghost plain = plain_lex(self.input@, self.pos as int) is Some;
        let ghost all: Seq<(int, int)> = if plain {
            plain_lex(self.input@, self.pos as int)->Some_0
        } else {
            Seq::empty()
        };
        while self.pos < self.input.len()
            invariant
                plain == (plain_lex(old(self).input@, old(self).pos as int) is Some),
                plain ==> plain_lex(old(self).input@, old(self).pos as int) == Some(all),
                plain ==> {
                    &&& self.errors == old(self).errors
                    &&& plain_lex(self.input@, self.pos as int) matches Some(rest)
                    &&& toks@.len() + rest.len() == all.len()
                    &&& all.subrange(toks@.len() as int, all.len() as int) == rest
                    &&& forall|k: int|
                        0 <= k < toks@.len() ==> plain_token_kind(#[trigger] toks@[k].ttype, self.input@, all[k])
                },
                self.read_on(*old(self)),
                in_source_order(toks@),
                well_kinded(toks@),
                toks@.len() <= self.pos - old(self).pos,
                toks@.len() > 0 ==> place_before(
                    toks@.last().line as int,
                    toks@.last().start as int,
                    self.line as int,
                    self.col(),
                ),
            decreases self.input.len() - self.pos,
        {
            let line = self.line;
            let start = self.pos - self.line_start;
            let c = self.input[self.pos];
            let ghost at = self.pos as int;
            let ghost before_toks = toks@;
            let kind: Option<Type> = if is_space_exec(c) {
                self.advance();
                None
            } else if c == 45 && self.at(1) == 45 {
                self.line_comment(line, start)
            } else if c == 47 && self.at(1) == 42 {
                self.block_comment();
                None
            } else if c == 39 || c == 34 {
                self.quoted(c, line, start)
            } else if is_digit_exec(c) || (c == 46 && self.dot_starts_number()) {
                self.number(line, start)
            } else if (c == 88 || c == 120) && self.at(1) == 39 {
                self.blob(line, start)
            } else if is_ident_start_exec(c) {
                Some(self.word())
            } else {
                self.symbol(line, start)
            };
            if let Some(ttype) = kind {
                let end = if self.line == line {
                    self.pos - self.line_start
                } else {
                    start + 1
                };
                let tok = Token { ttype, line, start, end };
                proof {
                    assert(place_before(line as int, start as int, self.line as int, self.col()));
                    assert forall|i: int, j: int| 0 <= i < j < toks@.push(tok).len() implies place_before(
                        toks@.push(tok)[i].line as int,
                        toks@.push(tok)[i].start as int,
                        toks@.push(tok)[j].line as int,
                        toks@.push(tok)[j].start as int,
                    ) by {
                        if j == toks@.len() {
                            if i < toks@.len() - 1 {
                                assert(place_before(
                                    toks@[i].line as int,
                                    toks@[i].start as int,
                                    toks@.last().line as int,
                                    toks@.last().start as int,
                                ));
                            }
                        }
                    }
                }
                toks.push(tok);
                proof {
                    if plain {
                        assert(self.input@[at] == 39 || plain_symbol(self.input@[at]) is Some || operator_at(
                            self.input@,
                            at,
                        ) is Some || word_end(self.input@, at) == self.pos);
                        let rest0 = plain_lex(self.input@, at)->Some_0;
                        assert(all.subrange(before_toks.len() as int, all.len() as int) == rest0);
                        assert(rest0[0] == all[before_toks.len() as int]);
                        assert forall|k: int|
                            0 <= k < toks@.len() implies plain_token_kind(#[trigger] toks@[k].ttype, self.input@, all[k]) by {
                            if k < before_toks.len() {
                                assert(toks@[k] == before_toks[k]);
                            }
                        }
                        assert(all.subrange(toks@.len() as int, all.len() as int) =~= rest0.subrange(1, rest0.len() as int));
                    }
                }
                proof {
                    assert forall|i: int| 0 <= i < toks@.len() implies (#[trigger] toks@[i].ttype matches Type::Ident(s) ==> plain_ident(s@))
                        && toks@[i].ttype != Type::Eof by {
                        if i < toks@.len() - 1 {
                            assert(toks@[i] == toks@.drop_last()[i]);
                        }
                    }
                }
            }
        }
        if toks.len() == 0 {
            let e = self.error(
                "No content found",
                "The source holds no SQL statements, only whitespace and comments",
                0,
                0,
                0,
                Rule::NoContent,
            );
            self.push_error(e);
        }
        toks
    }
}

/// Whether `b` is whitespace between tokens.
pub fn is_space_exec(b: u8) -> (r: bool)
    ensures
        r == is_space(b),
{
    b == 32 || b == 9 || b == 10 || b == 13
}

/// Whether `b` is an ASCII digit.
pub fn is_digit_exec(b: u8) -> (r: bool)
    ensures
        r == is_digit(b),
{
    48 <= b && b <= 57
}

/// Whether `b` is an ASCII hex digit.
pub fn is_hex_exec(b: u8) -> (r: bool)
    ensures
        r == is_hex(b),
{
    is_digit_exec(b) || (65 <= b && b <= 70) || (97 <= b && b <= 102)
}

/// Whether `b` may start an identifier.
pub fn is_ident_start_exec(b: u8) -> (r: bool)
    ensures
        r == is_ident_start(b),
{
    (65 <= b && b <= 90) || (97 <= b && b <= 122) || b == 95
}

/// Whether `b` may continue an identifier.
pub fn is_ident_byte_exec(b: u8) -> (r: bool)
    ensures
        r == is_ident_byte(b),
{
    is_ident_start_exec(b) || is_digit_exec(b)
}

} // verus!
