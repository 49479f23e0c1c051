//! Tokens, keywords, diagnostic rules and SQLite's storage classes.

use vstd::prelude::*;
use vstd::string::*;

verus! {

/// Whether two strings hold the same characters.
pub fn str_eq(a: &str, b: &str) -> (r: bool)
    ensures
        r == (a@ == b@),
{
    let la = a.unicode_len();
    let lb = b.unicode_len();
    if la != lb {
        return false;
    }
    let mut i: usize = 0;
    while i < la
        invariant
            la == a@.len(),
            lb == b@.len(),
            la == lb,
            i <= la,
            forall|j: int| 0 <= j < i ==> a@[j] == b@[j],
        decreases la - i,
    {
        if a.get_char(i) != b.get_char(i) {
            return false;
        }
        i += 1;
    }
    assert(a@ =~= b@);
    true
}

/// Every keyword that the tokenizer recognises, named as it is written in SQL.
#[allow(non_camel_case_types)]
#[derive(Clone, Copy, Debug, PartialEq, Eq, Structural)]
pub enum Keyword {
    ABORT,
    ACTION,
    ADD,
    AFTER,
    ALL,
    ALTER,
    ALWAYS,
    ANALYZE,
    AND,
    AS,
    ASC,
    ATTACH,
    AUTOINCREMENT,
    BEFORE,
    BEGIN,
    BETWEEN,
    BY,
    CASCADE,
    CASE,
    CAST,
    CHECK,
    COLLATE,
    COLUMN,
    COMMIT,
    CONFLICT,
    CONSTRAINT,
    CREATE,
    CROSS,
    CURRENT,
    CURRENT_DATE,
    CURRENT_TIME,
    CURRENT_TIMESTAMP,
    DATABASE,
    DEFAULT,
    DEFERRABLE,
    DEFERRED,
    DELETE,
    DESC,
    DETACH,
    DISTINCT,
    DO,
    DROP,
    EACH,
    ELSE,
    END,
    ESCAPE,
    EXCEPT,
    EXCLUDE,
    EXCLUSIVE,
    EXISTS,
    EXPLAIN,
    FAIL,
    FILTER,
    FIRST,
    FOLLOWING,
    FOR,
    FOREIGN,
    FROM,
    FULL,
    GENERATED,
    GLOB,
    GROUP,
    GROUPS,
    HAVING,
    IF,
    IGNORE,
    IMMEDIATE,
    IN,
    INDEX,
    INDEXED,
    INITIALLY,
    INNER,
    INSERT,
    INSTEAD,
    INTERSECT,
    INTO,
    IS,
    ISNULL,
    JOIN,
    KEY,
    LAST,
    LEFT,
    LIKE,
    LIMIT,
    MATCH,
    MATERIALIZED,
    NATURAL,
    NO,
    NOT,
    NOTHING,
    NOTNULL,
    NULL,
    NULLS,
    OF,
    OFFSET,
    ON,
    OR,
    ORDER,
    OTHERS,
    OUTER,
    OVER,
    PARTIAL,
    PARTITION,
    PLAN,
    PRAGMA,
    PRECEDING,
    PRIMARY,
    QUERY,
    RAISE,
    RANGE,
    RECURSIVE,
    REFERENCES,
    REGEXP,
    REINDEX,
    RELEASE,
    RENAME,
    REPLACE,
    RESTRICT,
    RETURNING,
    RIGHT,
    ROLLBACK,
    ROW,
    ROWS,
    SAVEPOINT,
    SELECT,
    SET,
    SIMPLE,
    STORED,
    TABLE,
    TEMP,
    TEMPORARY,
    THEN,
    TIES,
    TO,
    TRANSACTION,
    TRIGGER,
    UNBOUNDED,
    UNION,
    UNIQUE,
    UPDATE,
    USING,
    VACUUM,
    VALUES,
    VIEW,
    VIRTUAL,
    WHEN,
    WHERE,
    WINDOW,
    WITH,
    WITHOUT,
}

/// The text of a keyword, in upper case.
pub open spec fn keyword_text(k: Keyword) -> Seq<char> {
    match k {
        Keyword::ABORT => "ABORT"@,
        Keyword::ACTION => "ACTION"@,
        Keyword::ADD => "ADD"@,
        Keyword::AFTER => "AFTER"@,
        Keyword::ALL => "ALL"@,
        Keyword::ALTER => "ALTER"@,
        Keyword::ALWAYS => "ALWAYS"@,
        Keyword::ANALYZE => "ANALYZE"@,
        Keyword::AND => "AND"@,
        Keyword::AS => "AS"@,
        Keyword::ASC => "ASC"@,
        Keyword::ATTACH => "ATTACH"@,
        Keyword::AUTOINCREMENT => "AUTOINCREMENT"@,
        Keyword::BEFORE => "BEFORE"@,
        Keyword::BEGIN => "BEGIN"@,
        Keyword::BETWEEN => "BETWEEN"@,
        Keyword::BY => "BY"@,
        Keyword::CASCADE => "CASCADE"@,
        Keyword::CASE => "CASE"@,
        Keyword::CAST => "CAST"@,
        Keyword::CHECK => "CHECK"@,
        Keyword::COLLATE => "COLLATE"@,
        Keyword::COLUMN => "COLUMN"@,
        Keyword::COMMIT => "COMMIT"@,
        Keyword::CONFLICT => "CONFLICT"@,
        Keyword::CONSTRAINT => "CONSTRAINT"@,
        Keyword::CREATE => "CREATE"@,
        Keyword::CROSS => "CROSS"@,
        Keyword::CURRENT => "CURRENT"@,
        Keyword::CURRENT_DATE => "CURRENT_DATE"@,
        Keyword::CURRENT_TIME => "CURRENT_TIME"@,
        Keyword::CURRENT_TIMESTAMP => "CURRENT_TIMESTAMP"@,
        Keyword::DATABASE => "DATABASE"@,
        Keyword::DEFAULT => "DEFAULT"@,
        Keyword::DEFERRABLE => "DEFERRABLE"@,
        Keyword::DEFERRED => "DEFERRED"@,
        Keyword::DELETE => "DELETE"@,
        Keyword::DESC => "DESC"@,
        Keyword::DETACH => "DETACH"@,
        Keyword::DISTINCT => "DISTINCT"@,
        Keyword::DO => "DO"@,
        Keyword::DROP => "DROP"@,
        Keyword::EACH => "EACH"@,
        Keyword::ELSE => "ELSE"@,
        Keyword::END => "END"@,
        Keyword::ESCAPE => "ESCAPE"@,
        Keyword::EXCEPT => "EXCEPT"@,
        Keyword::EXCLUDE => "EXCLUDE"@,
        Keyword::EXCLUSIVE => "EXCLUSIVE"@,
        Keyword::EXISTS => "EXISTS"@,
        Keyword::EXPLAIN => "EXPLAIN"@,
        Keyword::FAIL => "FAIL"@,
        Keyword::FILTER => "FILTER"@,
        Keyword::FIRST => "FIRST"@,
        Keyword::FOLLOWING => "FOLLOWING"@,
        Keyword::FOR => "FOR"@,
        Keyword::FOREIGN => "FOREIGN"@,
        Keyword::FROM => "FROM"@,
        Keyword::FULL => "FULL"@,
        Keyword::GENERATED => "GENERATED"@,
        Keyword::GLOB => "GLOB"@,
        Keyword::GROUP => "GROUP"@,
        Keyword::GROUPS => "GROUPS"@,
        Keyword::HAVING => "HAVING"@,
        Keyword::IF => "IF"@,
        Keyword::IGNORE => "IGNORE"@,
        Keyword::IMMEDIATE => "IMMEDIATE"@,
        Keyword::IN => "IN"@,
        Keyword::INDEX => "INDEX"@,
        Keyword::INDEXED => "INDEXED"@,
        Keyword::INITIALLY => "INITIALLY"@,
        Keyword::INNER => "INNER"@,
        Keyword::INSERT => "INSERT"@,
        Keyword::INSTEAD => "INSTEAD"@,
        Keyword::INTERSECT => "INTERSECT"@,
        Keyword::INTO => "INTO"@,
        Keyword::IS => "IS"@,
        Keyword::ISNULL => "ISNULL"@,
        Keyword::JOIN => "JOIN"@,
        Keyword::KEY => "KEY"@,
        Keyword::LAST => "LAST"@,
        Keyword::LEFT => "LEFT"@,
        Keyword::LIKE => "LIKE"@,
        Keyword::LIMIT => "LIMIT"@,
        Keyword::MATCH => "MATCH"@,
        Keyword::MATERIALIZED => "MATERIALIZED"@,
        Keyword::NATURAL => "NATURAL"@,
        Keyword::NO => "NO"@,
        Keyword::NOT => "NOT"@,
        Keyword::NOTHING => "NOTHING"@,
        Keyword::NOTNULL => "NOTNULL"@,
        Keyword::NULL => "NULL"@,
        Keyword::NULLS => "NULLS"@,
        Keyword::OF => "OF"@,
        Keyword::OFFSET => "OFFSET"@,
        Keyword::ON => "ON"@,
        Keyword::OR => "OR"@,
        Keyword::ORDER => "ORDER"@,
        Keyword::OTHERS => "OTHERS"@,
        Keyword::OUTER => "OUTER"@,
        Keyword::OVER => "OVER"@,
        Keyword::PARTIAL => "PARTIAL"@,
        Keyword::PARTITION => "PARTITION"@,
        Keyword::PLAN => "PLAN"@,
        Keyword::PRAGMA => "PRAGMA"@,
        Keyword::PRECEDING => "PRECEDING"@,
        Keyword::PRIMARY => "PRIMARY"@,
        Keyword::QUERY => "QUERY"@,
        Keyword::RAISE => "RAISE"@,
        Keyword::RANGE => "RANGE"@,
        Keyword::RECURSIVE => "RECURSIVE"@,
        Keyword::REFERENCES => "REFERENCES"@,
        Keyword::REGEXP => "REGEXP"@,
        Keyword::REINDEX => "REINDEX"@,
        Keyword::RELEASE => "RELEASE"@,
        Keyword::RENAME => "RENAME"@,
        Keyword::REPLACE => "REPLACE"@,
        Keyword::RESTRICT => "RESTRICT"@,
        Keyword::RETURNING => "RETURNING"@,
        Keyword::RIGHT => "RIGHT"@,
        Keyword::ROLLBACK => "ROLLBACK"@,
        Keyword::ROW => "ROW"@,
        Keyword::ROWS => "ROWS"@,
        Keyword::SAVEPOINT => "SAVEPOINT"@,
        Keyword::SELECT => "SELECT"@,
        Keyword::SET => "SET"@,
        Keyword::SIMPLE => "SIMPLE"@,
        Keyword::STORED => "STORED"@,
        Keyword::TABLE => "TABLE"@,
        Keyword::TEMP => "TEMP"@,
        Keyword::TEMPORARY => "TEMPORARY"@,
        Keyword::THEN => "THEN"@,
        Keyword::TIES => "TIES"@,
        Keyword::TO => "TO"@,
        Keyword::TRANSACTION => "TRANSACTION"@,
        Keyword::TRIGGER => "TRIGGER"@,
        Keyword::UNBOUNDED => "UNBOUNDED"@,
        Keyword::UNION => "UNION"@,
        Keyword::UNIQUE => "UNIQUE"@,
        Keyword::UPDATE => "UPDATE"@,
        Keyword::USING => "USING"@,
        Keyword::VACUUM => "VACUUM"@,
        Keyword::VALUES => "VALUES"@,
        Keyword::VIEW => "VIEW"@,
        Keyword::VIRTUAL => "VIRTUAL"@,
        Keyword::WHEN => "WHEN"@,
        Keyword::WHERE => "WHERE"@,
        Keyword::WINDOW => "WINDOW"@,
        Keyword::WITH => "WITH"@,
        Keyword::WITHOUT => "WITHOUT"@,
    }
}

impl Keyword {
    /// The keyword's text, in upper case.
    pub fn as_str(self) -> (r: &'static str)
        ensures r@ == keyword_text(self),
    {
        match self {
            Keyword::ABORT => "ABORT",
            Keyword::ACTION => "ACTION",
            Keyword::ADD => "ADD",
            Keyword::AFTER => "AFTER",
            Keyword::ALL => "ALL",
            Keyword::ALTER => "ALTER",
            Keyword::ALWAYS => "ALWAYS",
            Keyword::ANALYZE => "ANALYZE",
            Keyword::AND => "AND",
            Keyword::AS => "AS",
            Keyword::ASC => "ASC",
            Keyword::ATTACH => "ATTACH",
            Keyword::AUTOINCREMENT => "AUTOINCREMENT",
            Keyword::BEFORE => "BEFORE",
            Keyword::BEGIN => "BEGIN",
            Keyword::BETWEEN => "BETWEEN",
            Keyword::BY => "BY",
            Keyword::CASCADE => "CASCADE",
            Keyword::CASE => "CASE",
            Keyword::CAST => "CAST",
            Keyword::CHECK => "CHECK",
            Keyword::COLLATE => "COLLATE",
            Keyword::COLUMN => "COLUMN",
            Keyword::COMMIT => "COMMIT",
            Keyword::CONFLICT => "CONFLICT",
            Keyword::CONSTRAINT => "CONSTRAINT",
            Keyword::CREATE => "CREATE",
            Keyword::CROSS => "CROSS",
            Keyword::CURRENT => "CURRENT",
            Keyword::CURRENT_DATE => "CURRENT_DATE",
            Keyword::CURRENT_TIME => "CURRENT_TIME",
            Keyword::CURRENT_TIMESTAMP => "CURRENT_TIMESTAMP",
            Keyword::DATABASE => "DATABASE",
            Keyword::DEFAULT => "DEFAULT",
            Keyword::DEFERRABLE => "DEFERRABLE",
            Keyword::DEFERRED => "DEFERRED",
            Keyword::DELETE => "DELETE",
            Keyword::DESC => "DESC",
            Keyword::DETACH => "DETACH",
            Keyword::DISTINCT => "DISTINCT",
            Keyword::DO => "DO",
            Keyword::DROP => "DROP",
            Keyword::EACH => "EACH",
            Keyword::ELSE => "ELSE",
            Keyword::END => "END",
            Keyword::ESCAPE => "ESCAPE",
            Keyword::EXCEPT => "EXCEPT",
            Keyword::EXCLUDE => "EXCLUDE",
            Keyword::EXCLUSIVE => "EXCLUSIVE",
            Keyword::EXISTS => "EXISTS",
            Keyword::EXPLAIN => "EXPLAIN",
            Keyword::FAIL => "FAIL",
            Keyword::FILTER => "FILTER",
            Keyword::FIRST => "FIRST",
            Keyword::FOLLOWING => "FOLLOWING",
            Keyword::FOR => "FOR",
            Keyword::FOREIGN => "FOREIGN",
            Keyword::FROM => "FROM",
            Keyword::FULL => "FULL",
            Keyword::GENERATED => "GENERATED",
            Keyword::GLOB => "GLOB",
            Keyword::GROUP => "GROUP",
            Keyword::GROUPS => "GROUPS",
            Keyword::HAVING => "HAVING",
            Keyword::IF => "IF",
            Keyword::IGNORE => "IGNORE",
            Keyword::IMMEDIATE => "IMMEDIATE",
            Keyword::IN => "IN",
            Keyword::INDEX => "INDEX",
            Keyword::INDEXED => "INDEXED",
            Keyword::INITIALLY => "INITIALLY",
            Keyword::INNER => "INNER",
            Keyword::INSERT => "INSERT",
            Keyword::INSTEAD => "INSTEAD",
            Keyword::INTERSECT => "INTERSECT",
            Keyword::INTO => "INTO",
            Keyword::IS => "IS",
            Keyword::ISNULL => "ISNULL",
            Keyword::JOIN => "JOIN",
            Keyword::KEY => "KEY",
            Keyword::LAST => "LAST",
            Keyword::LEFT => "LEFT",
            Keyword::LIKE => "LIKE",
            Keyword::LIMIT => "LIMIT",
            Keyword::MATCH => "MATCH",
            Keyword::MATERIALIZED => "MATERIALIZED",
            Keyword::NATURAL => "NATURAL",
            Keyword::NO => "NO",
            Keyword::NOT => "NOT",
            Keyword::NOTHING => "NOTHING",
            Keyword::NOTNULL => "NOTNULL",
            Keyword::NULL => "NULL",
            Keyword::NULLS => "NULLS",
            Keyword::OF => "OF",
            Keyword::OFFSET => "OFFSET",
            Keyword::ON => "ON",
            Keyword::OR => "OR",
            Keyword::ORDER => "ORDER",
            Keyword::OTHERS => "OTHERS",
            Keyword::OUTER => "OUTER",
            Keyword::OVER => "OVER",
            Keyword::PARTIAL => "PARTIAL",
            Keyword::PARTITION => "PARTITION",
            Keyword::PLAN => "PLAN",
            Keyword::PRAGMA => "PRAGMA",
            Keyword::PRECEDING => "PRECEDING",
            Keyword::PRIMARY => "PRIMARY",
            Keyword::QUERY => "QUERY",
            Keyword::RAISE => "RAISE",
            Keyword::RANGE => "RANGE",
            Keyword::RECURSIVE => "RECURSIVE",
            Keyword::REFERENCES => "REFERENCES",
            Keyword::REGEXP => "REGEXP",
            Keyword::REINDEX => "REINDEX",
            Keyword::RELEASE => "RELEASE",
            Keyword::RENAME => "RENAME",
            Keyword::REPLACE => "REPLACE",
            Keyword::RESTRICT => "RESTRICT",
            Keyword::RETURNING => "RETURNING",
            Keyword::RIGHT => "RIGHT",
            Keyword::ROLLBACK => "ROLLBACK",
            Keyword::ROW => "ROW",
            Keyword::ROWS => "ROWS",
            Keyword::SAVEPOINT => "SAVEPOINT",
            Keyword::SELECT => "SELECT",
            Keyword::SET => "SET",
            Keyword::SIMPLE => "SIMPLE",
            Keyword::STORED => "STORED",
            Keyword::TABLE => "TABLE",
            Keyword::TEMP => "TEMP",
            Keyword::TEMPORARY => "TEMPORARY",
            Keyword::THEN => "THEN",
            Keyword::TIES => "TIES",
            Keyword::TO => "TO",
            Keyword::TRANSACTION => "TRANSACTION",
            Keyword::TRIGGER => "TRIGGER",
            Keyword::UNBOUNDED => "UNBOUNDED",
            Keyword::UNION => "UNION",
            Keyword::UNIQUE => "UNIQUE",
            Keyword::UPDATE => "UPDATE",
            Keyword::USING => "USING",
            Keyword::VACUUM => "VACUUM",
            Keyword::VALUES => "VALUES",
            Keyword::VIEW => "VIEW",
            Keyword::VIRTUAL => "VIRTUAL",
            Keyword::WHEN => "WHEN",
            Keyword::WHERE => "WHERE",
            Keyword::WINDOW => "WINDOW",
            Keyword::WITH => "WITH",
            Keyword::WITHOUT => "WITHOUT",
        }
    }

    /// The keyword whose text equals `s` (which the caller has put in upper case).
    pub fn from_upper(s: &str) -> (r: Option<Keyword>)
        ensures
            r matches Some(k) ==> keyword_text(k) == s@,
            r is None ==> forall|k: Keyword| keyword_text(k) != s@,
    {
        if str_eq(s, "ABORT") { return Some(Keyword::ABORT); }
        if str_eq(s, "ACTION") { return Some(Keyword::ACTION); }
        if str_eq(s, "ADD") { return Some(Keyword::ADD); }
        if str_eq(s, "AFTER") { return Some(Keyword::AFTER); }
        if str_eq(s, "ALL") { return Some(Keyword::ALL); }
        if str_eq(s, "ALTER") { return Some(Keyword::ALTER); }
        if str_eq(s, "ALWAYS") { return Some(Keyword::ALWAYS); }
        if str_eq(s, "ANALYZE") { return Some(Keyword::ANALYZE); }
        if str_eq(s, "AND") { return Some(Keyword::AND); }
        if str_eq(s, "AS") { return Some(Keyword::AS); }
        if str_eq(s, "ASC") { return Some(Keyword::ASC); }
        if str_eq(s, "ATTACH") { return Some(Keyword::ATTACH); }
        if str_eq(s, "AUTOINCREMENT") { return Some(Keyword::AUTOINCREMENT); }
        if str_eq(s, "BEFORE") { return Some(Keyword::BEFORE); }
        if str_eq(s, "BEGIN") { return Some(Keyword::BEGIN); }
        if str_eq(s, "BETWEEN") { return Some(Keyword::BETWEEN); }
        if str_eq(s, "BY") { return Some(Keyword::BY); }
        if str_eq(s, "CASCADE") { return Some(Keyword::CASCADE); }
        if str_eq(s, "CASE") { return Some(Keyword::CASE); }
        if str_eq(s, "CAST") { return Some(Keyword::CAST); }
        if str_eq(s, "CHECK") { return Some(Keyword::CHECK); }
        if str_eq(s, "COLLATE") { return Some(Keyword::COLLATE); }
        if str_eq(s, "COLUMN") { return Some(Keyword::COLUMN); }
        if str_eq(s, "COMMIT") { return Some(Keyword::COMMIT); }
        if str_eq(s, "CONFLICT") { return Some(Keyword::CONFLICT); }
        if str_eq(s, "CONSTRAINT") { return Some(Keyword::CONSTRAINT); }
        if str_eq(s, "CREATE") { return Some(Keyword::CREATE); }
        if str_eq(s, "CROSS") { return Some(Keyword::CROSS); }
        if str_eq(s, "CURRENT") { return Some(Keyword::CURRENT); }
        if str_eq(s, "CURRENT_DATE") { return Some(Keyword::CURRENT_DATE); }
        if str_eq(s, "CURRENT_TIME") { return Some(Keyword::CURRENT_TIME); }
        if str_eq(s, "CURRENT_TIMESTAMP") { return Some(Keyword::CURRENT_TIMESTAMP); }
        if str_eq(s, "DATABASE") { return Some(Keyword::DATABASE); }
        if str_eq(s, "DEFAULT") { return Some(Keyword::DEFAULT); }
        if str_eq(s, "DEFERRABLE") { return Some(Keyword::DEFERRABLE); }
        if str_eq(s, "DEFERRED") { return Some(Keyword::DEFERRED); }
        if str_eq(s, "DELETE") { return Some(Keyword::DELETE); }
        if str_eq(s, "DESC") { return Some(Keyword::DESC); }
        if str_eq(s, "DETACH") { return Some(Keyword::DETACH); }
        if str_eq(s, "DISTINCT") { return Some(Keyword::DISTINCT); }
        if str_eq(s, "DO") { return Some(Keyword::DO); }
        if str_eq(s, "DROP") { return Some(Keyword::DROP); }
        if str_eq(s, "EACH") { return Some(Keyword::EACH); }
        if str_eq(s, "ELSE") { return Some(Keyword::ELSE); }
        if str_eq(s, "END") { return Some(Keyword::END); }
        if str_eq(s, "ESCAPE") { return Some(Keyword::ESCAPE); }
        if str_eq(s, "EXCEPT") { return Some(Keyword::EXCEPT); }
        if str_eq(s, "EXCLUDE") { return Some(Keyword::EXCLUDE); }
        if str_eq(s, "EXCLUSIVE") { return Some(Keyword::EXCLUSIVE); }
        if str_eq(s, "EXISTS") { return Some(Keyword::EXISTS); }
        if str_eq(s, "EXPLAIN") { return Some(Keyword::EXPLAIN); }
        if str_eq(s, "FAIL") { return Some(Keyword::FAIL); }
        if str_eq(s, "FILTER") { return Some(Keyword::FILTER); }
        if str_eq(s, "FIRST") { return Some(Keyword::FIRST); }
        if str_eq(s, "FOLLOWING") { return Some(Keyword::FOLLOWING); }
        if str_eq(s, "FOR") { return Some(Keyword::FOR); }
        if str_eq(s, "FOREIGN") { return Some(Keyword::FOREIGN); }
        if str_eq(s, "FROM") { return Some(Keyword::FROM); }
        if str_eq(s, "FULL") { return Some(Keyword::FULL); }
        if str_eq(s, "GENERATED") { return Some(Keyword::GENERATED); }
        if str_eq(s, "GLOB") { return Some(Keyword::GLOB); }
        if str_eq(s, "GROUP") { return Some(Keyword::GROUP); }
        if str_eq(s, "GROUPS") { return Some(Keyword::GROUPS); }
        if str_eq(s, "HAVING") { return Some(Keyword::HAVING); }
        if str_eq(s, "IF") { return Some(Keyword::IF); }
        if str_eq(s, "IGNORE") { return Some(Keyword::IGNORE); }
        if str_eq(s, "IMMEDIATE") { return Some(Keyword::IMMEDIATE); }
        if str_eq(s, "IN") { return Some(Keyword::IN); }
        if str_eq(s, "INDEX") { return Some(Keyword::INDEX); }
        if str_eq(s, "INDEXED") { return Some(Keyword::INDEXED); }
        if str_eq(s, "INITIALLY") { return Some(Keyword::INITIALLY); }
        if str_eq(s, "INNER") { return Some(Keyword::INNER); }
        if str_eq(s, "INSERT") { return Some(Keyword::INSERT); }
        if str_eq(s, "INSTEAD") { return Some(Keyword::INSTEAD); }
        if str_eq(s, "INTERSECT") { return Some(Keyword::INTERSECT); }
        if str_eq(s, "INTO") { return Some(Keyword::INTO); }
        if str_eq(s, "IS") { return Some(Keyword::IS); }
        if str_eq(s, "ISNULL") { return Some(Keyword::ISNULL); }
        if str_eq(s, "JOIN") { return Some(Keyword::JOIN); }
        if str_eq(s, "KEY") { return Some(Keyword::KEY); }
        if str_eq(s, "LAST") { return Some(Keyword::LAST); }
        if str_eq(s, "LEFT") { return Some(Keyword::LEFT); }
        if str_eq(s, "LIKE") { return Some(Keyword::LIKE); }
        if str_eq(s, "LIMIT") { return Some(Keyword::LIMIT); }
        if str_eq(s, "MATCH") { return Some(Keyword::MATCH); }
        if str_eq(s, "MATERIALIZED") { return Some(Keyword::MATERIALIZED); }
        if str_eq(s, "NATURAL") { return Some(Keyword::NATURAL); }
        if str_eq(s, "NO") { return Some(Keyword::NO); }
        if str_eq(s, "NOT") { return Some(Keyword::NOT); }
        if str_eq(s, "NOTHING") { return Some(Keyword::NOTHING); }
        if str_eq(s, "NOTNULL") { return Some(Keyword::NOTNULL); }
        if str_eq(s, "NULL") { return Some(Keyword::NULL); }
        if str_eq(s, "NULLS") { return Some(Keyword::NULLS); }
        if str_eq(s, "OF") { return Some(Keyword::OF); }
        if str_eq(s, "OFFSET") { return Some(Keyword::OFFSET); }
        if str_eq(s, "ON") { return Some(Keyword::ON); }
        if str_eq(s, "OR") { return Some(Keyword::OR); }
        if str_eq(s, "ORDER") { return Some(Keyword::ORDER); }
        if str_eq(s, "OTHERS") { return Some(Keyword::OTHERS); }
        if str_eq(s, "OUTER") { return Some(Keyword::OUTER); }
        if str_eq(s, "OVER") { return Some(Keyword::OVER); }
        if str_eq(s, "PARTIAL") { return Some(Keyword::PARTIAL); }
        if str_eq(s, "PARTITION") { return Some(Keyword::PARTITION); }
        if str_eq(s, "PLAN") { return Some(Keyword::PLAN); }
        if str_eq(s, "PRAGMA") { return Some(Keyword::PRAGMA); }
        if str_eq(s, "PRECEDING") { return Some(Keyword::PRECEDING); }
        if str_eq(s, "PRIMARY") { return Some(Keyword::PRIMARY); }
        if str_eq(s, "QUERY") { return Some(Keyword::QUERY); }
        if str_eq(s, "RAISE") { return Some(Keyword::RAISE); }
        if str_eq(s, "RANGE") { return Some(Keyword::RANGE); }
        if str_eq(s, "RECURSIVE") { return Some(Keyword::RECURSIVE); }
        if str_eq(s, "REFERENCES") { return Some(Keyword::REFERENCES); }
        if str_eq(s, "REGEXP") { return Some(Keyword::REGEXP); }
        if str_eq(s, "REINDEX") { return Some(Keyword::REINDEX); }
        if str_eq(s, "RELEASE") { return Some(Keyword::RELEASE); }
        if str_eq(s, "RENAME") { return Some(Keyword::RENAME); }
        if str_eq(s, "REPLACE") { return Some(Keyword::REPLACE); }
        if str_eq(s, "RESTRICT") { return Some(Keyword::RESTRICT); }
        if str_eq(s, "RETURNING") { return Some(Keyword::RETURNING); }
        if str_eq(s, "RIGHT") { return Some(Keyword::RIGHT); }
        if str_eq(s, "ROLLBACK") { return Some(Keyword::ROLLBACK); }
        if str_eq(s, "ROW") { return Some(Keyword::ROW); }
        if str_eq(s, "ROWS") { return Some(Keyword::ROWS); }
        if str_eq(s, "SAVEPOINT") { return Some(Keyword::SAVEPOINT); }
        if str_eq(s, "SELECT") { return Some(Keyword::SELECT); }
        if str_eq(s, "SET") { return Some(Keyword::SET); }
        if str_eq(s, "SIMPLE") { return Some(Keyword::SIMPLE); }
        if str_eq(s, "STORED") { return Some(Keyword::STORED); }
        if str_eq(s, "TABLE") { return Some(Keyword::TABLE); }
        if str_eq(s, "TEMP") { return Some(Keyword::TEMP); }
        if str_eq(s, "TEMPORARY") { return Some(Keyword::TEMPORARY); }
        if str_eq(s, "THEN") { return Some(Keyword::THEN); }
        if str_eq(s, "TIES") { return Some(Keyword::TIES); }
        if str_eq(s, "TO") { return Some(Keyword::TO); }
        if str_eq(s, "TRANSACTION") { return Some(Keyword::TRANSACTION); }
        if str_eq(s, "TRIGGER") { return Some(Keyword::TRIGGER); }
        if str_eq(s, "UNBOUNDED") { return Some(Keyword::UNBOUNDED); }
        if str_eq(s, "UNION") { return Some(Keyword::UNION); }
        if str_eq(s, "UNIQUE") { return Some(Keyword::UNIQUE); }
        if str_eq(s, "UPDATE") { return Some(Keyword::UPDATE); }
        if str_eq(s, "USING") { return Some(Keyword::USING); }
        if str_eq(s, "VACUUM") { return Some(Keyword::VACUUM); }
        if str_eq(s, "VALUES") { return Some(Keyword::VALUES); }
        if str_eq(s, "VIEW") { return Some(Keyword::VIEW); }
        if str_eq(s, "VIRTUAL") { return Some(Keyword::VIRTUAL); }
        if str_eq(s, "WHEN") { return Some(Keyword::WHEN); }
        if str_eq(s, "WHERE") { return Some(Keyword::WHERE); }
        if str_eq(s, "WINDOW") { return Some(Keyword::WINDOW); }
        if str_eq(s, "WITH") { return Some(Keyword::WITH); }
        if str_eq(s, "WITHOUT") { return Some(Keyword::WITHOUT); }
        None
    }

    /// The number of keywords.
    pub const COUNT: usize = 150;

    /// The `i`-th keyword in alphabetical order.
    pub fn nth(i: usize) -> (r: Keyword)
        requires i < 150,
        ensures r == keyword_nth(i as int),
    {
        match i {
            0 => Keyword::ABORT,
            1 => Keyword::ACTION,
            2 => Keyword::ADD,
            3 => Keyword::AFTER,
            4 => Keyword::ALL,
            5 => Keyword::ALTER,
            6 => Keyword::ALWAYS,
            7 => Keyword::ANALYZE,
            8 => Keyword::AND,
            9 => Keyword::AS,
            10 => Keyword::ASC,
            11 => Keyword::ATTACH,
            12 => Keyword::AUTOINCREMENT,
            13 => Keyword::BEFORE,
            14 => Keyword::BEGIN,
            15 => Keyword::BETWEEN,
            16 => Keyword::BY,
            17 => Keyword::CASCADE,
            18 => Keyword::CASE,
            19 => Keyword::CAST,
            20 => Keyword::CHECK,
            21 => Keyword::COLLATE,
            22 => Keyword::COLUMN,
            23 => Keyword::COMMIT,
            24 => Keyword::CONFLICT,
            25 => Keyword::CONSTRAINT,
            26 => Keyword::CREATE,
            27 => Keyword::CROSS,
            28 => Keyword::CURRENT,
            29 => Keyword::CURRENT_DATE,
            30 => Keyword::CURRENT_TIME,
            31 => Keyword::CURRENT_TIMESTAMP,
            32 => Keyword::DATABASE,
            33 => Keyword::DEFAULT,
            34 => Keyword::DEFERRABLE,
            35 => Keyword::DEFERRED,
            36 => Keyword::DELETE,
            37 => Keyword::DESC,
            38 => Keyword::DETACH,
            39 => Keyword::DISTINCT,
            40 => Keyword::DO,
            41 => Keyword::DROP,
            42 => Keyword::EACH,
            43 => Keyword::ELSE,
            44 => Keyword::END,
            45 => Keyword::ESCAPE,
            46 => Keyword::EXCEPT,
            47 => Keyword::EXCLUDE,
            48 => Keyword::EXCLUSIVE,
            49 => Keyword::EXISTS,
            50 => Keyword::EXPLAIN,
            51 => Keyword::FAIL,
            52 => Keyword::FILTER,
            53 => Keyword::FIRST,
            54 => Keyword::FOLLOWING,
            55 => Keyword::FOR,
            56 => Keyword::FOREIGN,
            57 => Keyword::FROM,
            58 => Keyword::FULL,
            59 => Keyword::GENERATED,
            60 => Keyword::GLOB,
            61 => Keyword::GROUP,
            62 => Keyword::GROUPS,
            63 => Keyword::HAVING,
            64 => Keyword::IF,
            65 => Keyword::IGNORE,
            66 => Keyword::IMMEDIATE,
            67 => Keyword::IN,
            68 => Keyword::INDEX,
            69 => Keyword::INDEXED,
            70 => Keyword::INITIALLY,
            71 => Keyword::INNER,
            72 => Keyword::INSERT,
            73 => Keyword::INSTEAD,
            74 => Keyword::INTERSECT,
            75 => Keyword::INTO,
            76 => Keyword::IS,
            77 => Keyword::ISNULL,
            78 => Keyword::JOIN,
            79 => Keyword::KEY,
            80 => Keyword::LAST,
            81 => Keyword::LEFT,
            82 => Keyword::LIKE,
            83 => Keyword::LIMIT,
            84 => Keyword::MATCH,
            85 => Keyword::MATERIALIZED,
            86 => Keyword::NATURAL,
            87 => Keyword::NO,
            88 => Keyword::NOT,
            89 => Keyword::NOTHING,
            90 => Keyword::NOTNULL,
            91 => Keyword::NULL,
            92 => Keyword::NULLS,
            93 => Keyword::OF,
            94 => Keyword::OFFSET,
            95 => Keyword::ON,
            96 => Keyword::OR,
            97 => Keyword::ORDER,
            98 => Keyword::OTHERS,
            99 => Keyword::OUTER,
            100 => Keyword::OVER,
            101 => Keyword::PARTIAL,
            102 => Keyword::PARTITION,
            103 => Keyword::PLAN,
            104 => Keyword::PRAGMA,
            105 => Keyword::PRECEDING,
            106 => Keyword::PRIMARY,
            107 => Keyword::QUERY,
            108 => Keyword::RAISE,
            109 => Keyword::RANGE,
            110 => Keyword::RECURSIVE,
            111 => Keyword::REFERENCES,
            112 => Keyword::REGEXP,
            113 => Keyword::REINDEX,
            114 => Keyword::RELEASE,
            115 => Keyword::RENAME,
            116 => Keyword::REPLACE,
            117 => Keyword::RESTRICT,
            118 => Keyword::RETURNING,
            119 => Keyword::RIGHT,
            120 => Keyword::ROLLBACK,
            121 => Keyword::ROW,
            122 => Keyword::ROWS,
            123 => Keyword::SAVEPOINT,
            124 => Keyword::SELECT,
            125 => Keyword::SET,
            126 => Keyword::SIMPLE,
            127 => Keyword::STORED,
            128 => Keyword::TABLE,
            129 => Keyword::TEMP,
            130 => Keyword::TEMPORARY,
            131 => Keyword::THEN,
            132 => Keyword::TIES,
            133 => Keyword::TO,
            134 => Keyword::TRANSACTION,
            135 => Keyword::TRIGGER,
            136 => Keyword::UNBOUNDED,
            137 => Keyword::UNION,
            138 => Keyword::UNIQUE,
            139 => Keyword::UPDATE,
            140 => Keyword::USING,
            141 => Keyword::VACUUM,
            142 => Keyword::VALUES,
            143 => Keyword::VIEW,
            144 => Keyword::VIRTUAL,
            145 => Keyword::WHEN,
            146 => Keyword::WHERE,
            147 => Keyword::WINDOW,
            148 => Keyword::WITH,
            149 => Keyword::WITHOUT,
            _ => Keyword::WITHOUT,
        }
    }
}

/// The `i`-th keyword in alphabetical order.
pub open spec fn keyword_nth(i: int) -> Keyword {
    if i == 0 { Keyword::ABORT }
    else if i == 1 { Keyword::ACTION }
    else if i == 2 { Keyword::ADD }
    else if i == 3 { Keyword::AFTER }
    else if i == 4 { Keyword::ALL }
    else if i == 5 { Keyword::ALTER }
    else if i == 6 { Keyword::ALWAYS }
    else if i == 7 { Keyword::ANALYZE }
    else if i == 8 { Keyword::AND }
    else if i == 9 { Keyword::AS }
    else if i == 10 { Keyword::ASC }
    else if i == 11 { Keyword::ATTACH }
    else if i == 12 { Keyword::AUTOINCREMENT }
    else if i == 13 { Keyword::BEFORE }
    else if i == 14 { Keyword::BEGIN }
    else if i == 15 { Keyword::BETWEEN }
    else if i == 16 { Keyword::BY }
    else if i == 17 { Keyword::CASCADE }
    else if i == 18 { Keyword::CASE }
    else if i == 19 { Keyword::CAST }
    else if i == 20 { Keyword::CHECK }
    else if i == 21 { Keyword::COLLATE }
    else if i == 22 { Keyword::COLUMN }
    else if i == 23 { Keyword::COMMIT }
    else if i == 24 { Keyword::CONFLICT }
    else if i == 25 { Keyword::CONSTRAINT }
    else if i == 26 { Keyword::CREATE }
    else if i == 27 { Keyword::CROSS }
    else if i == 28 { Keyword::CURRENT }
    else if i == 29 { Keyword::CURRENT_DATE }
    else if i == 30 { Keyword::CURRENT_TIME }
    else if i == 31 { Keyword::CURRENT_TIMESTAMP }
    else if i == 32 { Keyword::DATABASE }
    else if i == 33 { Keyword::DEFAULT }
    else if i == 34 { Keyword::DEFERRABLE }
    else if i == 35 { Keyword::DEFERRED }
    else if i == 36 { Keyword::DELETE }
    else if i == 37 { Keyword::DESC }
    else if i == 38 { Keyword::DETACH }
    else if i == 39 { Keyword::DISTINCT }
    else if i == 40 { Keyword::DO }
    else if i == 41 { Keyword::DROP }
    else if i == 42 { Keyword::EACH }
    else if i == 43 { Keyword::ELSE }
    else if i == 44 { Keyword::END }
    else if i == 45 { Keyword::ESCAPE }
    else if i == 46 { Keyword::EXCEPT }
    else if i == 47 { Keyword::EXCLUDE }
    else if i == 48 { Keyword::EXCLUSIVE }
    else if i == 49 { Keyword::EXISTS }
    else if i == 50 { Keyword::EXPLAIN }
    else if i == 51 { Keyword::FAIL }
    else if i == 52 { Keyword::FILTER }
    else if i == 53 { Keyword::FIRST }
    else if i == 54 { Keyword::FOLLOWING }
    else if i == 55 { Keyword::FOR }
    else if i == 56 { Keyword::FOREIGN }
    else if i == 57 { Keyword::FROM }
    else if i == 58 { Keyword::FULL }
    else if i == 59 { Keyword::GENERATED }
    else if i == 60 { Keyword::GLOB }
    else if i == 61 { Keyword::GROUP }
    else if i == 62 { Keyword::GROUPS }
    else if i == 63 { Keyword::HAVING }
    else if i == 64 { Keyword::IF }
    else if i == 65 { Keyword::IGNORE }
    else if i == 66 { Keyword::IMMEDIATE }
    else if i == 67 { Keyword::IN }
    else if i == 68 { Keyword::INDEX }
    else if i == 69 { Keyword::INDEXED }
    else if i == 70 { Keyword::INITIALLY }
    else if i == 71 { Keyword::INNER }
    else if i == 72 { Keyword::INSERT }
    else if i == 73 { Keyword::INSTEAD }
    else if i == 74 { Keyword::INTERSECT }
    else if i == 75 { Keyword::INTO }
    else if i == 76 { Keyword::IS }
    else if i == 77 { Keyword::ISNULL }
    else if i == 78 { Keyword::JOIN }
    else if i == 79 { Keyword::KEY }
    else if i == 80 { Keyword::LAST }
    else if i == 81 { Keyword::LEFT }
    else if i == 82 { Keyword::LIKE }
    else if i == 83 { Keyword::LIMIT }
    else if i == 84 { Keyword::MATCH }
    else if i == 85 { Keyword::MATERIALIZED }
    else if i == 86 { Keyword::NATURAL }
    else if i == 87 { Keyword::NO }
    else if i == 88 { Keyword::NOT }
    else if i == 89 { Keyword::NOTHING }
    else if i == 90 { Keyword::NOTNULL }
    else if i == 91 { Keyword::NULL }
    else if i == 92 { Keyword::NULLS }
    else if i == 93 { Keyword::OF }
    else if i == 94 { Keyword::OFFSET }
    else if i == 95 { Keyword::ON }
    else if i == 96 { Keyword::OR }
    else if i == 97 { Keyword::ORDER }
    else if i == 98 { Keyword::OTHERS }
    else if i == 99 { Keyword::OUTER }
    else if i == 100 { Keyword::OVER }
    else if i == 101 { Keyword::PARTIAL }
    else if i == 102 { Keyword::PARTITION }
    else if i == 103 { Keyword::PLAN }
    else if i == 104 { Keyword::PRAGMA }
    else if i == 105 { Keyword::PRECEDING }
    else if i == 106 { Keyword::PRIMARY }
    else if i == 107 { Keyword::QUERY }
    else if i == 108 { Keyword::RAISE }
    else if i == 109 { Keyword::RANGE }
    else if i == 110 { Keyword::RECURSIVE }
    else if i == 111 { Keyword::REFERENCES }
    else if i == 112 { Keyword::REGEXP }
    else if i == 113 { Keyword::REINDEX }
    else if i == 114 { Keyword::RELEASE }
    else if i == 115 { Keyword::RENAME }
    else if i == 116 { Keyword::REPLACE }
    else if i == 117 { Keyword::RESTRICT }
    else if i == 118 { Keyword::RETURNING }
    else if i == 119 { Keyword::RIGHT }
    else if i == 120 { Keyword::ROLLBACK }
    else if i == 121 { Keyword::ROW }
    else if i == 122 { Keyword::ROWS }
    else if i == 123 { Keyword::SAVEPOINT }
    else if i == 124 { Keyword::SELECT }
    else if i == 125 { Keyword::SET }
    else if i == 126 { Keyword::SIMPLE }
    else if i == 127 { Keyword::STORED }
    else if i == 128 { Keyword::TABLE }
    else if i == 129 { Keyword::TEMP }
    else if i == 130 { Keyword::TEMPORARY }
    else if i == 131 { Keyword::THEN }
    else if i == 132 { Keyword::TIES }
    else if i == 133 { Keyword::TO }
    else if i == 134 { Keyword::TRANSACTION }
    else if i == 135 { Keyword::TRIGGER }
    else if i == 136 { Keyword::UNBOUNDED }
    else if i == 137 { Keyword::UNION }
    else if i == 138 { Keyword::UNIQUE }
    else if i == 139 { Keyword::UPDATE }
    else if i == 140 { Keyword::USING }
    else if i == 141 { Keyword::VACUUM }
    else if i == 142 { Keyword::VALUES }
    else if i == 143 { Keyword::VIEW }
    else if i == 144 { Keyword::VIRTUAL }
    else if i == 145 { Keyword::WHEN }
    else if i == 146 { Keyword::WHERE }
    else if i == 147 { Keyword::WINDOW }
    else if i == 148 { Keyword::WITH }
    else { Keyword::WITHOUT }
}
/// The diagnostic rule that an error belongs to.
#[derive(Clone, Copy, Debug, PartialEq, Eq, Structural)]
pub enum Rule {
    NoContent,
    Unimplemented,
    UnknownKeyword,
    BadSqleibnizInstruction,
    UnterminatedString,
    UnknownCharacter,
    InvalidNumber,
    InvalidBlob,
    Syntax,
    Semicolon,
    TrailingComma,
    Quirk,
    UnknownTable,
    UnknownColumn,
    InsertValueCountMismatch,
    TypeMismatch,
    EqualNull,
    LikeNoWildcards,
    ReversedBetween,
    MissingWhere,
}

/// The storage classes of SQLite.
#[derive(Clone, Copy, Debug, PartialEq, Eq, Structural)]
pub enum SqliteStorageClass {
    Null,
    Integer,
    Real,
    Text,
    Blob,
}

/// The kind of a token, with the text it carries where it carries any.
///
/// `Number` holds the literal as written; `Blob` holds the hex digits between the quotes.
#[derive(Debug, PartialEq)]
pub enum Type {
    Keyword(Keyword),
    Ident(String),
    String(String),
    Number(String),
    Blob(String),
    Boolean(bool),
    InstructionExpect,
    Dot,
    Asterisk,
    Semicolon,
    Comma,
    Percent,
    Equal,
    At,
    Colon,
    Dollar,
    Question,
    BraceLeft,
    BraceRight,
    Plus,
    Minus,
    Slash,
    Tilde,
    Pipe,
    PipePipe,
    Ampersand,
    ShiftLeft,
    ShiftRight,
    Less,
    LessEqual,
    Greater,
    GreaterEqual,
    BangEqual,
    LessGreater,
    Eof,
}

impl Clone for Type {
    fn clone(&self) -> (r: Self)
        ensures
            r == *self,
    {
        match self {
            Type::Keyword(k) => Type::Keyword(*k),
            Type::Ident(s) => Type::Ident(s.clone()),
            Type::String(s) => Type::String(s.clone()),
            Type::Number(s) => Type::Number(s.clone()),
            Type::Blob(s) => Type::Blob(s.clone()),
            Type::Boolean(b) => Type::Boolean(*b),
            Type::InstructionExpect => Type::InstructionExpect,
            Type::Dot => Type::Dot,
            Type::Asterisk => Type::Asterisk,
            Type::Semicolon => Type::Semicolon,
            Type::Comma => Type::Comma,
            Type::Percent => Type::Percent,
            Type::Equal => Type::Equal,
            Type::At => Type::At,
            Type::Colon => Type::Colon,
            Type::Dollar => Type::Dollar,
            Type::Question => Type::Question,
            Type::BraceLeft => Type::BraceLeft,
            Type::BraceRight => Type::BraceRight,
            Type::Plus => Type::Plus,
            Type::Minus => Type::Minus,
            Type::Slash => Type::Slash,
            Type::Tilde => Type::Tilde,
            Type::Pipe => Type::Pipe,
            Type::PipePipe => Type::PipePipe,
            Type::Ampersand => Type::Ampersand,
            Type::ShiftLeft => Type::ShiftLeft,
            Type::ShiftRight => Type::ShiftRight,
            Type::Less => Type::Less,
            Type::LessEqual => Type::LessEqual,
            Type::Greater => Type::Greater,
            Type::GreaterEqual => Type::GreaterEqual,
            Type::BangEqual => Type::BangEqual,
            Type::LessGreater => Type::LessGreater,
            Type::Eof => Type::Eof,
        }
    }
}

/// A type that carries no text: the kinds that the parser asks for by name.
pub open spec fn is_plain(t: Type) -> bool {
    !(t is Ident || t is String || t is Number || t is Blob || t is Boolean)
}

/// Whether token kinds `a` and `b` are the same: the same variant, and for a kind that
/// carries text or a value, the same text or value.
pub open spec fn same_kind(a: Type, b: Type) -> bool {
    match (a, b) {
        (Type::Ident(x), Type::Ident(y)) => x@ == y@,
        (Type::String(x), Type::String(y)) => x@ == y@,
        (Type::Number(x), Type::Number(y)) => x@ == y@,
        (Type::Blob(x), Type::Blob(y)) => x@ == y@,
        (Type::Boolean(x), Type::Boolean(y)) => x == y,
        _ => a == b,
    }
}

/// Whether token kinds `a` and `b` are the same (`same_kind`).
pub fn same_type(a: &Type, b: &Type) -> (r: bool)
    ensures
        r == same_kind(*a, *b),
{
    match (a, b) {
        (Type::Ident(x), Type::Ident(y)) => str_eq(x.as_str(), y.as_str()),
        (Type::String(x), Type::String(y)) => str_eq(x.as_str(), y.as_str()),
        (Type::Number(x), Type::Number(y)) => str_eq(x.as_str(), y.as_str()),
        (Type::Blob(x), Type::Blob(y)) => str_eq(x.as_str(), y.as_str()),
        (Type::Boolean(x), Type::Boolean(y)) => *x == *y,
        _ => {
            if matches!(b, Type::Ident(_) | Type::String(_) | Type::Number(_) | Type::Blob(_) | Type::Boolean(_)) {
                false
            } else {
                type_is(a, b)
            }
        },
    }
}

/// Whether the token kind `a` is the plain kind `b`.
pub fn type_is(a: &Type, b: &Type) -> (r: bool)
    requires
        is_plain(*b),
    ensures
        r == (*a == *b),
{
    match (a, b) {
        (Type::Keyword(x), Type::Keyword(y)) => *x == *y,
        (Type::InstructionExpect, Type::InstructionExpect) => true,
        (Type::Dot, Type::Dot) => true,
        (Type::Asterisk, Type::Asterisk) => true,
        (Type::Semicolon, Type::Semicolon) => true,
        (Type::Comma, Type::Comma) => true,
        (Type::Percent, Type::Percent) => true,
        (Type::Equal, Type::Equal) => true,
        (Type::At, Type::At) => true,
        (Type::Colon, Type::Colon) => true,
        (Type::Dollar, Type::Dollar) => true,
        (Type::Question, Type::Question) => true,
        (Type::BraceLeft, Type::BraceLeft) => true,
        (Type::BraceRight, Type::BraceRight) => true,
        (Type::Plus, Type::Plus) => true,
        (Type::Minus, Type::Minus) => true,
        (Type::Slash, Type::Slash) => true,
        (Type::Tilde, Type::Tilde) => true,
        (Type::Pipe, Type::Pipe) => true,
        (Type::PipePipe, Type::PipePipe) => true,
        (Type::Ampersand, Type::Ampersand) => true,
        (Type::ShiftLeft, Type::ShiftLeft) => true,
        (Type::ShiftRight, Type::ShiftRight) => true,
        (Type::Less, Type::Less) => true,
        (Type::LessEqual, Type::LessEqual) => true,
        (Type::Greater, Type::Greater) => true,
        (Type::GreaterEqual, Type::GreaterEqual) => true,
        (Type::BangEqual, Type::BangEqual) => true,
        (Type::LessGreater, Type::LessGreater) => true,
        (Type::Eof, Type::Eof) => true,
        _ => false,
    }
}

/// A token: its kind, the line it stands on and the columns it spans there.
#[derive(Debug, PartialEq)]
pub struct Token {
    pub ttype: Type,
    pub start: usize,
    pub end: usize,
    pub line: usize,
}

impl Clone for Token {
    fn clone(&self) -> (r: Self)
        ensures
            r == *self,
    {
        Token { ttype: self.ttype.clone(), start: self.start, end: self.end, line: self.line }
    }
}

impl Token {
    /// A token of the given kind at line 0, columns 0 to 0.
    pub fn new(ttype: Type) -> (r: Token)
        ensures
            r == (Token { ttype, start: 0, end: 0, line: 0 }),
    {
        Token { ttype, start: 0, end: 0, line: 0 }
    }
}

} // verus!

verus! {

/// `a` followed by `b`.
pub fn concat2(a: &str, b: &str) -> (r: String)
    ensures
        r@ == a@ + b@,
{
    let mut s = String::from_str(a);
    s.append(b);
    s
}

/// `a`, `b` and `c` one after the other.
pub fn concat3(a: &str, b: &str, c: &str) -> (r: String)
    ensures
        r@ == a@ + b@ + c@,
{
    let mut s = String::from_str(a);
    s.append(b);
    s.append(c);
    s
}

/// `a`, `b`, `c` and `d` one after the other.
pub fn concat4(a: &str, b: &str, c: &str, d: &str) -> (r: String)
    ensures
        r@ == a@ + b@ + c@ + d@,
{
    let mut s = String::from_str(a);
    s.append(b);
    s.append(c);
    s.append(d);
    s
}

/// The name of a plain token kind, as `{:?}` writes it.
pub open spec fn plain_type_name(t: Type) -> Seq<char> {
    match t {
        Type::InstructionExpect => "InstructionExpect"@,
        Type::Dot => "Dot"@,
        Type::Asterisk => "Asterisk"@,
        Type::Semicolon => "Semicolon"@,
        Type::Comma => "Comma"@,
        Type::Percent => "Percent"@,
        Type::Equal => "Equal"@,
        Type::At => "At"@,
        Type::Colon => "Colon"@,
        Type::Dollar => "Dollar"@,
        Type::Question => "Question"@,
        Type::BraceLeft => "BraceLeft"@,
        Type::BraceRight => "BraceRight"@,
        Type::Plus => "Plus"@,
        Type::Minus => "Minus"@,
        Type::Slash => "Slash"@,
        Type::Tilde => "Tilde"@,
        Type::Pipe => "Pipe"@,
        Type::PipePipe => "PipePipe"@,
        Type::Ampersand => "Ampersand"@,
        Type::ShiftLeft => "ShiftLeft"@,
        Type::ShiftRight => "ShiftRight"@,
        Type::Less => "Less"@,
        Type::LessEqual => "LessEqual"@,
        Type::Greater => "Greater"@,
        Type::GreaterEqual => "GreaterEqual"@,
        Type::BangEqual => "BangEqual"@,
        Type::LessGreater => "LessGreater"@,
        _ => "Eof"@,
    }
}

/// A token kind as `{:?}` writes it (text payloads in double quotes, unescaped).
pub open spec fn type_debug(t: Type) -> Seq<char> {
    match t {
        Type::Keyword(k) => "Keyword("@ + keyword_text(k) + ")"@,
        Type::Ident(s) => "Ident(\""@ + s@ + "\")"@,
        Type::String(s) => "String(\""@ + s@ + "\")"@,
        Type::Number(s) => "Number("@ + s@ + ")"@,
        Type::Blob(s) => "Blob(\""@ + s@ + "\")"@,
        Type::Boolean(b) => if b { "Boolean(true)"@ } else { "Boolean(false)"@ },
        _ => plain_type_name(t),
    }
}

impl Type {
    /// The kind as `{:?}` writes it.
    pub fn debug_text(&self) -> (r: String)
        ensures
            r@ == type_debug(*self),
    {
        match self {
            Type::Keyword(k) => concat3("Keyword(", k.as_str(), ")"),
            Type::Ident(s) => concat3("Ident(\"", s.as_str(), "\")"),
            Type::String(s) => concat3("String(\"", s.as_str(), "\")"),
            Type::Number(s) => concat3("Number(", s.as_str(), ")"),
            Type::Blob(s) => concat3("Blob(\"", s.as_str(), "\")"),
            Type::Boolean(b) => if *b {
                String::from_str("Boolean(true)")
            } else {
                String::from_str("Boolean(false)")
            },
            Type::InstructionExpect => String::from_str("InstructionExpect"),
            Type::Dot => String::from_str("Dot"),
            Type::Asterisk => String::from_str("Asterisk"),
            Type::Semicolon => String::from_str("Semicolon"),
            Type::Comma => String::from_str("Comma"),
            Type::Percent => String::from_str("Percent"),
            Type::Equal => String::from_str("Equal"),
            Type::At => String::from_str("At"),
            Type::Colon => String::from_str("Colon"),
            Type::Dollar => String::from_str("Dollar"),
            Type::Question => String::from_str("Question"),
            Type::BraceLeft => String::from_str("BraceLeft"),
            Type::BraceRight => String::from_str("BraceRight"),
            Type::Plus => String::from_str("Plus"),
            Type::Minus => String::from_str("Minus"),
            Type::Slash => String::from_str("Slash"),
            Type::Tilde => String::from_str("Tilde"),
            Type::Pipe => String::from_str("Pipe"),
            Type::PipePipe => String::from_str("PipePipe"),
            Type::Ampersand => String::from_str("Ampersand"),
            Type::ShiftLeft => String::from_str("ShiftLeft"),
            Type::ShiftRight => String::from_str("ShiftRight"),
            Type::Less => String::from_str("Less"),
            Type::LessEqual => String::from_str("LessEqual"),
            Type::Greater => String::from_str("Greater"),
            Type::GreaterEqual => String::from_str("GreaterEqual"),
            Type::BangEqual => String::from_str("BangEqual"),
            Type::LessGreater => String::from_str("LessGreater"),
            Type::Eof => String::from_str("Eof"),
        }
    }
}

} // verus!

verus! {

/// A character in upper case (ASCII letters only).
pub open spec fn upper_char(c: char) -> char {
    if 'a' <= c && c <= 'z' {
        ((c as u32) - 32) as char
    } else {
        c
    }
}

/// `c` in upper case (ASCII letters only).
pub fn to_upper_char(c: char) -> (r: char)
    ensures
        r == upper_char(c),
{
    if 'a' <= c && c <= 'z' {
        ((c as u8) - 32) as char
    } else {
        c
    }
}

/// Whether `s` at index `i` holds `pat`, ignoring the case of ASCII letters in `s`
/// (`pat` is in upper case).
pub open spec fn matches_at_ci(s: Seq<char>, i: int, pat: Seq<char>) -> bool {
    &&& 0 <= i
    &&& i + pat.len() <= s.len()
    &&& forall|j: int| 0 <= j < pat.len() ==> upper_char(#[trigger] s[i + j]) == pat[j]
}

/// Whether `s` contains `pat`, ignoring the case of ASCII letters in `s`.
pub open spec fn contains_ci(s: Seq<char>, pat: Seq<char>) -> bool {
    exists|i: int| matches_at_ci(s, i, pat)
}

/// Whether `s` equals `pat`, ignoring the case of ASCII letters in `s`.
pub open spec fn equals_ci(s: Seq<char>, pat: Seq<char>) -> bool {
    s.len() == pat.len() && matches_at_ci(s, 0, pat)
}

/// Whether `s` holds `pat` at index `i`, ignoring case in `s`.
pub fn matches_at_ci_exec(s: &str, i: usize, pat: &str) -> (r: bool)
    ensures
        r == matches_at_ci(s@, i as int, pat@),
{
    let ls = s.unicode_len();
    let lp = pat.unicode_len();
    if i > ls || lp > ls - i {
        return false;
    }
    let mut j: usize = 0;
    while j < lp
        invariant
            ls == s@.len(),
            lp == pat@.len(),
            i + lp <= ls,
            j <= lp,
            forall|k: int| 0 <= k < j ==> upper_char(#[trigger] s@[i + k]) == pat@[k],
        decreases lp - j,
    {
        if to_upper_char(s.get_char(i + j)) != pat.get_char(j) {
            return false;
        }
        j += 1;
    }
    true
}

/// Whether `s` contains `pat`, ignoring the case of ASCII letters in `s`.
pub fn contains_ci_exec(s: &str, pat: &str) -> (r: bool)
    ensures
        r == contains_ci(s@, pat@),
{
    let ls = s.unicode_len();
    let lp = pat.unicode_len();
    if lp > ls {
        assert forall|k: int| !matches_at_ci(s@, k, pat@) by {}
        return false;
    }
    let last = ls - lp;
    let mut i: usize = 0;
    while i < last
        invariant
            ls == s@.len(),
            lp == pat@.len(),
            last == ls - lp,
            i <= last,
            forall|k: int| 0 <= k < i ==> !matches_at_ci(s@, k, pat@),
        decreases last - i,
    {
        if matches_at_ci_exec(s, i, pat) {
            return true;
        }
        i += 1;
    }
    if matches_at_ci_exec(s, last, pat) {
        return true;
    }
    assert forall|k: int| !matches_at_ci(s@, k, pat@) by {
        if 0 <= k < i {
        } else if k == last {
        }
    }
    false
}

/// Whether `s` equals `pat`, ignoring the case of ASCII letters in `s`.
pub fn equals_ci_exec(s: &str, pat: &str) -> (r: bool)
    ensures
        r == equals_ci(s@, pat@),
{
    s.unicode_len() == pat.unicode_len() && matches_at_ci_exec(s, 0, pat)
}

/// The storage class that SQLite's affinity rules give a declared type name
/// (<https://www.sqlite.org/datatype3.html>, section 3.1); the NUMERIC affinity,
/// which has no storage class of its own, is given REAL.
pub open spec fn affinity(s: Seq<char>) -> SqliteStorageClass {
    if contains_ci(s, "INT"@) {
        SqliteStorageClass::Integer
    } else if contains_ci(s, "CHAR"@) || contains_ci(s, "CLOB"@) || contains_ci(s, "TEXT"@) {
        SqliteStorageClass::Text
    } else if contains_ci(s, "BLOB"@) || s.len() == 0 {
        SqliteStorageClass::Blob
    } else {
        SqliteStorageClass::Real
    }
}

/// The storage class a type name spells exactly (case aside): INTEGER, REAL, TEXT or BLOB.
pub open spec fn canonical_class(s: Seq<char>) -> Option<SqliteStorageClass> {
    if equals_ci(s, "INTEGER"@) {
        Some(SqliteStorageClass::Integer)
    } else if equals_ci(s, "REAL"@) {
        Some(SqliteStorageClass::Real)
    } else if equals_ci(s, "TEXT"@) {
        Some(SqliteStorageClass::Text)
    } else if equals_ci(s, "BLOB"@) {
        Some(SqliteStorageClass::Blob)
    } else {
        None
    }
}

impl SqliteStorageClass {
    /// The storage class SQLite's affinity rules give the declared type `s`.
    pub fn from_str(s: &str) -> (r: SqliteStorageClass)
        ensures
            r == affinity(s@),
    {
        if contains_ci_exec(s, "INT") {
            SqliteStorageClass::Integer
        } else if contains_ci_exec(s, "CHAR") || contains_ci_exec(s, "CLOB") || contains_ci_exec(
            s,
            "TEXT",
        ) {
            SqliteStorageClass::Text
        } else if contains_ci_exec(s, "BLOB") || s.unicode_len() == 0 {
            SqliteStorageClass::Blob
        } else {
            SqliteStorageClass::Real
        }
    }

    /// The storage class `s` names exactly, if it is one of TEXT, BLOB, REAL and INTEGER.
    pub fn from_str_strict(s: &str) -> (r: Option<SqliteStorageClass>)
        ensures
            r == canonical_class(s@),
    {
        if equals_ci_exec(s, "INTEGER") {
            Some(SqliteStorageClass::Integer)
        } else if equals_ci_exec(s, "REAL") {
            Some(SqliteStorageClass::Real)
        } else if equals_ci_exec(s, "TEXT") {
            Some(SqliteStorageClass::Text)
        } else if equals_ci_exec(s, "BLOB") {
            Some(SqliteStorageClass::Blob)
        } else {
            None
        }
    }

    /// The class's name in upper case.
    pub fn as_str(self) -> (r: &'static str)
        ensures
            r@ == storage_class_name(self),
    {
        match self {
            SqliteStorageClass::Null => "NULL",
            SqliteStorageClass::Integer => "INTEGER",
            SqliteStorageClass::Real => "REAL",
            SqliteStorageClass::Text => "TEXT",
            SqliteStorageClass::Blob => "BLOB",
        }
    }
}

/// A storage class's name in upper case.
pub open spec fn storage_class_name(c: SqliteStorageClass) -> Seq<char> {
    match c {
        SqliteStorageClass::Null => "NULL"@,
        SqliteStorageClass::Integer => "INTEGER"@,
        SqliteStorageClass::Real => "REAL"@,
        SqliteStorageClass::Text => "TEXT"@,
        SqliteStorageClass::Blob => "BLOB"@,
    }
}

} // verus!

verus! {

/// Appends `c` to `s`.
///
/// Calls `String::push`, which std documents as appending the character to the end of
/// the string; the contract claims exactly that of the string's characters.
#[verifier::external_body]
pub(crate) fn push_char(s: &mut String, c: char)
    ensures
        final(s)@ == old(s)@.push(c),
{
    s.push(c);
}

/// A character in lower case (ASCII letters only).
pub open spec fn ascii_lower_char(c: char) -> char {
    if 'A' <= c && c <= 'Z' {
        ((c as u32) + 32) as char
    } else {
        c
    }
}

/// `s` with its ASCII letters in upper case.
pub open spec fn upper_seq(s: Seq<char>) -> Seq<char> {
    Seq::new(s.len(), |i: int| upper_char(s[i]))
}

/// `s` with its ASCII letters in lower case.
pub open spec fn ascii_lower_seq(s: Seq<char>) -> Seq<char> {
    Seq::new(s.len(), |i: int| ascii_lower_char(s[i]))
}

/// `c` in lower case (ASCII letters only).
pub fn to_ascii_lower_char(c: char) -> (r: char)
    ensures
        r == ascii_lower_char(c),
{
    if 'A' <= c && c <= 'Z' {
        ((c as u8) + 32) as char
    } else {
        c
    }
}

/// `s` with its ASCII letters in upper case.
pub fn to_upper(s: &str) -> (r: String)
    ensures
        r@ == upper_seq(s@),
{
    let n = s.unicode_len();
    let mut out = String::new();
    let mut i: usize = 0;
    while i < n
        invariant
            n == s@.len(),
            i <= n,
            out@ =~= upper_seq(s@).take(i as int),
        decreases n - i,
    {
        push_char(&mut out, to_upper_char(s.get_char(i)));
        i += 1;
    }
    out
}

/// What std's `str::to_lowercase` gives for a string: its lower case by Unicode's
/// rules.
pub uninterp spec fn lowercase(s: Seq<char>) -> Seq<char>;

/// Whether every character of `s` is ASCII.
pub open spec fn ascii_text(s: Seq<char>) -> bool {
    forall|i: int| 0 <= i < s.len() ==> (#[trigger] s[i] as u32) < 128
}

/// `s` in lower case, by Unicode's rules.
///
/// Calls std's `str::to_lowercase`, which depends on the string alone; the contract
/// names its result `lowercase(s@)`. Of ASCII text it states what Unicode's case mapping
/// gives there: the letters `A`-`Z` become `a`-`z` and every other ASCII character stays.
/// What other characters map to is left unsaid.
#[verifier::external_body]
pub(crate) fn to_lowercase(s: &str) -> (r: String)
    ensures
        r@ == lowercase(s@),
        ascii_text(s@) ==> r@ == ascii_lower_seq(s@),
{
    s.to_lowercase()
}

/// `s` with its ASCII letters in lower case.
pub fn to_ascii_lower(s: &str) -> (r: String)
    ensures
        r@ == ascii_lower_seq(s@),
{
    let n = s.unicode_len();
    let mut out = String::new();
    let mut i: usize = 0;
    while i < n
        invariant
            n == s@.len(),
            i <= n,
            out@ =~= ascii_lower_seq(s@).take(i as int),
        decreases n - i,
    {
        push_char(&mut out, to_ascii_lower_char(s.get_char(i)));
        i += 1;
    }
    out
}

/// Whether `a` and `b` are equal, ignoring the case of ASCII letters.
pub open spec fn eq_ignore_case(a: Seq<char>, b: Seq<char>) -> bool {
    ascii_lower_seq(a) == ascii_lower_seq(b)
}

/// Whether `a` and `b` are equal, ignoring the case of ASCII letters.
pub fn eq_ignore_ascii_case(a: &str, b: &str) -> (r: bool)
    ensures
        r == eq_ignore_case(a@, b@),
{
    let la = to_ascii_lower(a);
    let lb = to_ascii_lower(b);
    str_eq(la.as_str(), lb.as_str())
}

/// Names longer than this get no keyword suggestions: no keyword is close to them.
pub const SUGGESTION_NAME_LIMIT: usize = 64;

/// The distances of `upper` (an upper-cased name) to every keyword, in alphabetical order.
pub open spec fn keyword_distances(upper: Seq<char>) -> Seq<usize> {
    Seq::new(150, |i: int| crate::lev::lev(upper, keyword_text(keyword_nth(i))) as usize)
}

/// The distance of `upper` to each keyword.
fn keyword_distances_exec(upper: &str) -> (r: Vec<usize>)
    requires
        upper@.len() <= SUGGESTION_NAME_LIMIT,
    ensures
        r@ =~= keyword_distances(upper@),
{
    let mut out: Vec<usize> = Vec::new();
    let mut i: usize = 0;
    while i < Keyword::COUNT
        invariant
            upper@.len() <= SUGGESTION_NAME_LIMIT,
            i <= 150,
            out@ =~= keyword_distances(upper@).take(i as int),
        decreases 150 - i,
    {
        let k = Keyword::nth(i);
        let text = k.as_str();
        proof {
            keyword_text_short(k);
        }
        let d = crate::lev::distance(upper, text);
        out.push(d);
        i += 1;
    }
    out
}

/// Every keyword is short.
proof fn keyword_text_short(k: Keyword)
    ensures
        keyword_text(k).len() <= 20,
{
    match k {
        Keyword::ABORT => reveal_strlit("ABORT"),
        Keyword::ACTION => reveal_strlit("ACTION"),
        Keyword::ADD => reveal_strlit("ADD"),
        Keyword::AFTER => reveal_strlit("AFTER"),
        Keyword::ALL => reveal_strlit("ALL"),
        Keyword::ALTER => reveal_strlit("ALTER"),
        Keyword::ALWAYS => reveal_strlit("ALWAYS"),
        Keyword::ANALYZE => reveal_strlit("ANALYZE"),
        Keyword::AND => reveal_strlit("AND"),
        Keyword::AS => reveal_strlit("AS"),
        Keyword::ASC => reveal_strlit("ASC"),
        Keyword::ATTACH => reveal_strlit("ATTACH"),
        Keyword::AUTOINCREMENT => reveal_strlit("AUTOINCREMENT"),
        Keyword::BEFORE => reveal_strlit("BEFORE"),
        Keyword::BEGIN => reveal_strlit("BEGIN"),
        Keyword::BETWEEN => reveal_strlit("BETWEEN"),
        Keyword::BY => reveal_strlit("BY"),
        Keyword::CASCADE => reveal_strlit("CASCADE"),
        Keyword::CASE => reveal_strlit("CASE"),
        Keyword::CAST => reveal_strlit("CAST"),
        Keyword::CHECK => reveal_strlit("CHECK"),
        Keyword::COLLATE => reveal_strlit("COLLATE"),
        Keyword::COLUMN => reveal_strlit("COLUMN"),
        Keyword::COMMIT => reveal_strlit("COMMIT"),
        Keyword::CONFLICT => reveal_strlit("CONFLICT"),
        Keyword::CONSTRAINT => reveal_strlit("CONSTRAINT"),
        Keyword::CREATE => reveal_strlit("CREATE"),
        Keyword::CROSS => reveal_strlit("CROSS"),
        Keyword::CURRENT => reveal_strlit("CURRENT"),
        Keyword::CURRENT_DATE => reveal_strlit("CURRENT_DATE"),
        Keyword::CURRENT_TIME => reveal_strlit("CURRENT_TIME"),
        Keyword::CURRENT_TIMESTAMP => reveal_strlit("CURRENT_TIMESTAMP"),
        Keyword::DATABASE => reveal_strlit("DATABASE"),
        Keyword::DEFAULT => reveal_strlit("DEFAULT"),
        Keyword::DEFERRABLE => reveal_strlit("DEFERRABLE"),
        Keyword::DEFERRED => reveal_strlit("DEFERRED"),
        Keyword::DELETE => reveal_strlit("DELETE"),
        Keyword::DESC => reveal_strlit("DESC"),
        Keyword::DETACH => reveal_strlit("DETACH"),
        Keyword::DISTINCT => reveal_strlit("DISTINCT"),
        Keyword::DO => reveal_strlit("DO"),
        Keyword::DROP => reveal_strlit("DROP"),
        Keyword::EACH => reveal_strlit("EACH"),
        Keyword::ELSE => reveal_strlit("ELSE"),
        Keyword::END => reveal_strlit("END"),
        Keyword::ESCAPE => reveal_strlit("ESCAPE"),
        Keyword::EXCEPT => reveal_strlit("EXCEPT"),
        Keyword::EXCLUDE => reveal_strlit("EXCLUDE"),
        Keyword::EXCLUSIVE => reveal_strlit("EXCLUSIVE"),
        Keyword::EXISTS => reveal_strlit("EXISTS"),
        Keyword::EXPLAIN => reveal_strlit("EXPLAIN"),
        Keyword::FAIL => reveal_strlit("FAIL"),
        Keyword::FILTER => reveal_strlit("FILTER"),
        Keyword::FIRST => reveal_strlit("FIRST"),
        Keyword::FOLLOWING => reveal_strlit("FOLLOWING"),
        Keyword::FOR => reveal_strlit("FOR"),
        Keyword::FOREIGN => reveal_strlit("FOREIGN"),
        Keyword::FROM => reveal_strlit("FROM"),
        Keyword::FULL => reveal_strlit("FULL"),
        Keyword::GENERATED => reveal_strlit("GENERATED"),
        Keyword::GLOB => reveal_strlit("GLOB"),
        Keyword::GROUP => reveal_strlit("GROUP"),
        Keyword::GROUPS => reveal_strlit("GROUPS"),
        Keyword::HAVING => reveal_strlit("HAVING"),
        Keyword::IF => reveal_strlit("IF"),
        Keyword::IGNORE => reveal_strlit("IGNORE"),
        Keyword::IMMEDIATE => reveal_strlit("IMMEDIATE"),
        Keyword::IN => reveal_strlit("IN"),
        Keyword::INDEX => reveal_strlit("INDEX"),
        Keyword::INDEXED => reveal_strlit("INDEXED"),
        Keyword::INITIALLY => reveal_strlit("INITIALLY"),
        Keyword::INNER => reveal_strlit("INNER"),
        Keyword::INSERT => reveal_strlit("INSERT"),
        Keyword::INSTEAD => reveal_strlit("INSTEAD"),
        Keyword::INTERSECT => reveal_strlit("INTERSECT"),
        Keyword::INTO => reveal_strlit("INTO"),
        Keyword::IS => reveal_strlit("IS"),
        Keyword::ISNULL => reveal_strlit("ISNULL"),
        Keyword::JOIN => reveal_strlit("JOIN"),
        Keyword::KEY => reveal_strlit("KEY"),
        Keyword::LAST => reveal_strlit("LAST"),
        Keyword::LEFT => reveal_strlit("LEFT"),
        Keyword::LIKE => reveal_strlit("LIKE"),
        Keyword::LIMIT => reveal_strlit("LIMIT"),
        Keyword::MATCH => reveal_strlit("MATCH"),
        Keyword::MATERIALIZED => reveal_strlit("MATERIALIZED"),
        Keyword::NATURAL => reveal_strlit("NATURAL"),
        Keyword::NO => reveal_strlit("NO"),
        Keyword::NOT => reveal_strlit("NOT"),
        Keyword::NOTHING => reveal_strlit("NOTHING"),
        Keyword::NOTNULL => reveal_strlit("NOTNULL"),
        Keyword::NULL => reveal_strlit("NULL"),
        Keyword::NULLS => reveal_strlit("NULLS"),
        Keyword::OF => reveal_strlit("OF"),
        Keyword::OFFSET => reveal_strlit("OFFSET"),
        Keyword::ON => reveal_strlit("ON"),
        Keyword::OR => reveal_strlit("OR"),
        Keyword::ORDER => reveal_strlit("ORDER"),
        Keyword::OTHERS => reveal_strlit("OTHERS"),
        Keyword::OUTER => reveal_strlit("OUTER"),
        Keyword::OVER => reveal_strlit("OVER"),
        Keyword::PARTIAL => reveal_strlit("PARTIAL"),
        Keyword::PARTITION => reveal_strlit("PARTITION"),
        Keyword::PLAN => reveal_strlit("PLAN"),
        Keyword::PRAGMA => reveal_strlit("PRAGMA"),
        Keyword::PRECEDING => reveal_strlit("PRECEDING"),
        Keyword::PRIMARY => reveal_strlit("PRIMARY"),
        Keyword::QUERY => reveal_strlit("QUERY"),
        Keyword::RAISE => reveal_strlit("RAISE"),
        Keyword::RANGE => reveal_strlit("RANGE"),
        Keyword::RECURSIVE => reveal_strlit("RECURSIVE"),
        Keyword::REFERENCES => reveal_strlit("REFERENCES"),
        Keyword::REGEXP => reveal_strlit("REGEXP"),
        Keyword::REINDEX => reveal_strlit("REINDEX"),
        Keyword::RELEASE => reveal_strlit("RELEASE"),
        Keyword::RENAME => reveal_strlit("RENAME"),
        Keyword::REPLACE => reveal_strlit("REPLACE"),
        Keyword::RESTRICT => reveal_strlit("RESTRICT"),
        Keyword::RETURNING => reveal_strlit("RETURNING"),
        Keyword::RIGHT => reveal_strlit("RIGHT"),
        Keyword::ROLLBACK => reveal_strlit("ROLLBACK"),
        Keyword::ROW => reveal_strlit("ROW"),
        Keyword::ROWS => reveal_strlit("ROWS"),
        Keyword::SAVEPOINT => reveal_strlit("SAVEPOINT"),
        Keyword::SELECT => reveal_strlit("SELECT"),
        Keyword::SET => reveal_strlit("SET"),
        Keyword::SIMPLE => reveal_strlit("SIMPLE"),
        Keyword::STORED => reveal_strlit("STORED"),
        Keyword::TABLE => reveal_strlit("TABLE"),
        Keyword::TEMP => reveal_strlit("TEMP"),
        Keyword::TEMPORARY => reveal_strlit("TEMPORARY"),
        Keyword::THEN => reveal_strlit("THEN"),
        Keyword::TIES => reveal_strlit("TIES"),
        Keyword::TO => reveal_strlit("TO"),
        Keyword::TRANSACTION => reveal_strlit("TRANSACTION"),
        Keyword::TRIGGER => reveal_strlit("TRIGGER"),
        Keyword::UNBOUNDED => reveal_strlit("UNBOUNDED"),
        Keyword::UNION => reveal_strlit("UNION"),
        Keyword::UNIQUE => reveal_strlit("UNIQUE"),
        Keyword::UPDATE => reveal_strlit("UPDATE"),
        Keyword::USING => reveal_strlit("USING"),
        Keyword::VACUUM => reveal_strlit("VACUUM"),
        Keyword::VALUES => reveal_strlit("VALUES"),
        Keyword::VIEW => reveal_strlit("VIEW"),
        Keyword::VIRTUAL => reveal_strlit("VIRTUAL"),
        Keyword::WHEN => reveal_strlit("WHEN"),
        Keyword::WHERE => reveal_strlit("WHERE"),
        Keyword::WINDOW => reveal_strlit("WINDOW"),
        Keyword::WITH => reveal_strlit("WITH"),
        Keyword::WITHOUT => reveal_strlit("WITHOUT"),
    }
}


impl Keyword {
    /// Keywords close to `name` for a "did you mean" hint: by Levenshtein distance to
    /// `name` in upper case, the up to three closest keywords within distance two, closest
    /// first (alphabetical among equally close ones). A name longer than
    /// `SUGGESTION_NAME_LIMIT` gets none.
    pub fn suggestions(name: &str) -> (r: Vec<String>)
        ensures
            name@.len() > SUGGESTION_NAME_LIMIT ==> r@.len() == 0,
            name@.len() <= SUGGESTION_NAME_LIMIT ==> exists|idx: Seq<usize>|
                {
                    &&& crate::lev::closest_within(keyword_distances(upper_seq(name@)), 2, 3, idx)
                    &&& r@.len() == idx.len()
                    &&& forall|k: int|
                        0 <= k < idx.len() ==> (#[trigger] r@[k])@ == keyword_text(
                            keyword_nth(idx[k] as int),
                        )
                },
    {
        let mut out: Vec<String> = Vec::new();
        if name.unicode_len() > SUGGESTION_NAME_LIMIT {
            return out;
        }
        let upper = to_upper(name);
        let dist = keyword_distances_exec(upper.as_str());
        let idx = crate::lev::closest(&dist, 2, 3);
        let mut k: usize = 0;
        while k < idx.len()
            invariant
                k <= idx.len(),
                crate::lev::closest_within(dist@, 2, 3, idx@),
                dist@.len() == 150,
                out@.len() == k,
                forall|t: int|
                    0 <= t < k ==> (#[trigger] out@[t])@ == keyword_text(keyword_nth(idx@[t] as int)),
            decreases idx.len() - k,
        {
            let i = idx[k];
            proof {
                assert(crate::lev::is_next_closest(dist@, idx@.take(k as int), idx@[k as int] as int));
            }
            out.push(String::from_str(Keyword::nth(i).as_str()));
            k += 1;
        }
        out
    }
}

} // verus!
