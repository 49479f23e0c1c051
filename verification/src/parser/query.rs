//! SELECT statements and the full expression grammar
//! (<https://www.sqlite.org/lang_select.html>, <https://www.sqlite.org/lang_expr.html>).
//!
//! The productions call each other recursively; each one either consumes input before
//! calling a production above it, or calls one below it. Every production that fails
//! reports why: a `None` always comes with at least one new diagnostic.

use vstd::prelude::*;

use super::Parser;
use super::stmt::kind_at;
use super::column::{is_literal, is_literal_type};
use crate::error::Suggestion;
use crate::nodes::{
    CommonTableExpr, CompoundOp, CompoundSelect, FrameBound, FrameExclude, FrameSpec, FromClause,
    IndexedBy, JoinConstraint, JoinItem, JoinType, NamedWindowDef, OrderingTerm, ResultColumn,
    SelectCore, SelectStmt, SqlExpr, TableRef, TableSource, WindowOver, WindowSpec,
};
use crate::types::{concat3, type_is, Keyword, Rule, Token, Type};

verus! {

/// Whether a token of kind `t` can begin no operand: it is no literal, no name, not `(`,
/// CAST, CASE or EXISTS, no bind parameter prefix (`?`, `:`, `@`, `$`) and not `*`.
pub open spec fn starts_no_operand(t: Type) -> bool {
    &&& !is_literal_type(t)
    &&& !(t is Ident)
    &&& t != Type::BraceLeft
    &&& t != Type::Keyword(Keyword::CAST)
    &&& t != Type::Keyword(Keyword::CASE)
    &&& t != Type::Keyword(Keyword::EXISTS)
    &&& t != Type::Question
    &&& t != Type::Colon
    &&& t != Type::At
    &&& t != Type::Dollar
    &&& t != Type::Asterisk
}

/// Whether a token of kind `t` can begin no expression: it begins no operand
/// (`starts_no_operand`) and is no prefix operator (`-`, `+`, `~`, NOT).
pub open spec fn starts_no_expr(t: Type) -> bool {
    &&& starts_no_operand(t)
    &&& t != Type::Minus
    &&& t != Type::Plus
    &&& t != Type::Tilde
    &&& t != Type::Keyword(Keyword::NOT)
}

/// Whether NOT before a token of kind `t` negates a predicate: IN, LIKE, GLOB, REGEXP,
/// MATCH or BETWEEN.
pub open spec fn negatable(t: Type) -> bool {
    ||| t == Type::Keyword(Keyword::IN)
    ||| t == Type::Keyword(Keyword::LIKE)
    ||| t == Type::Keyword(Keyword::GLOB)
    ||| t == Type::Keyword(Keyword::REGEXP)
    ||| t == Type::Keyword(Keyword::MATCH)
    ||| t == Type::Keyword(Keyword::BETWEEN)
}

/// The pattern operator that a token of kind `t` is, if it is one.
pub open spec fn pattern_keyword(t: Type) -> Option<Keyword> {
    if t == Type::Keyword(Keyword::LIKE) {
        Some(Keyword::LIKE)
    } else if t == Type::Keyword(Keyword::GLOB) {
        Some(Keyword::GLOB)
    } else if t == Type::Keyword(Keyword::REGEXP) {
        Some(Keyword::REGEXP)
    } else if t == Type::Keyword(Keyword::MATCH) {
        Some(Keyword::MATCH)
    } else {
        None
    }
}

/// Whether a token of kind `t` goes on a window definition after its base window:
/// PARTITION, ORDER, RANGE, ROWS or GROUPS.
pub open spec fn continues_window(t: Type) -> bool {
    ||| t == Type::Keyword(Keyword::PARTITION)
    ||| t == Type::Keyword(Keyword::ORDER)
    ||| t == Type::Keyword(Keyword::RANGE)
    ||| t == Type::Keyword(Keyword::ROWS)
    ||| t == Type::Keyword(Keyword::GROUPS)
}

/// How many single-token operands (literals or column names) stand from index `i` of
/// `toks` on, separated by commas and closed by `)`; none where the tokens there are not
/// such a list.
pub open spec fn operand_row_from(toks: Seq<Token>, i: int) -> Option<nat>
    decreases toks.len() - i,
{
    if 0 <= i && i + 1 < toks.len() && (is_literal_type(super::stmt::kind_at(toks, i)) || super::stmt::kind_at(
        toks,
        i,
    ) is Ident) {
        if super::stmt::kind_at(toks, i + 1) == Type::BraceRight {
            Some(1)
        } else if super::stmt::kind_at(toks, i + 1) == Type::Comma {
            match operand_row_from(toks, i + 2) {
                Some(n) => Some(n + 1),
                None => None,
            }
        } else {
            None
        }
    } else {
        None
    }
}

/// The token at index `i` of `toks` (the end-of-input token outside them).
pub open spec fn tok_at(toks: Seq<Token>, i: int) -> Token {
    if 0 <= i < toks.len() {
        toks[i]
    } else {
        super::eof_token()
    }
}

/// The result column that a plain column at index `i` of `toks` stands for: `*`, or a
/// single-token operand with no alias.
pub open spec fn plain_result_column_in(toks: Seq<Token>, i: int) -> Option<ResultColumn> {
    if kind_at(toks, i) == Type::Asterisk {
        Some(ResultColumn::Star)
    } else if single_operand(kind_at(toks, i), kind_at(toks, i + 1)) {
        Some(ResultColumn::Expr { expr: single_expr(tok_at(toks, i)), alias: None })
    } else {
        None
    }
}

/// Whether the tokens from index `i` of `toks` are `a = b` (or `!=`, `<>`) with
/// single-token operands.
pub open spec fn simple_comparison_in(toks: Seq<Token>, i: int) -> bool {
    &&& single_operand(kind_at(toks, i), kind_at(toks, i + 1))
    &&& is_equality(kind_at(toks, i + 1))
    &&& single_operand(kind_at(toks, i + 2), kind_at(toks, i + 3))
}

/// Whether the tokens from index `i` of `toks` are `a = b` (or `!=`, `<>`) with
/// single-token operands, followed by a semicolon.
pub open spec fn simple_equality_in(toks: Seq<Token>, i: int) -> bool {
    &&& simple_comparison_in(toks, i)
    &&& kind_at(toks, i + 3) == Type::Semicolon
}

/// Whether a token of kind `t` ends a plain SELECT core: a semicolon or LIMIT.
pub open spec fn ends_plain_core(t: Type) -> bool {
    t == Type::Semicolon || t == Type::Keyword(Keyword::LIMIT)
}

/// Whether a token of kind `t` starts a compound operator: UNION, INTERSECT or EXCEPT.
pub open spec fn starts_compound(t: Type) -> bool {
    t == Type::Keyword(Keyword::UNION) || t == Type::Keyword(Keyword::INTERSECT) || t == Type::Keyword(
        Keyword::EXCEPT,
    )
}

/// The compound operator at index `e` of `toks`, if one stands there, and the index after
/// it: UNION ALL, UNION, INTERSECT or EXCEPT.
pub open spec fn compound_op_in(toks: Seq<Token>, e: int) -> Option<(CompoundOp, int)> {
    let k = kind_at(toks, e);
    if k == Type::Keyword(Keyword::UNION) {
        if kind_at(toks, e + 1) == Type::Keyword(Keyword::ALL) {
            Some((CompoundOp::UnionAll, e + 2))
        } else {
            Some((CompoundOp::Union, e + 1))
        }
    } else if k == Type::Keyword(Keyword::INTERSECT) {
        Some((CompoundOp::Intersect, e + 1))
    } else if k == Type::Keyword(Keyword::EXCEPT) {
        Some((CompoundOp::Except, e + 1))
    } else {
        None
    }
}

/// Whether the tokens of `toks` from index `p` are a plain SELECT core as for
/// `plain_select_core_in`, followed by a semicolon, LIMIT or a compound operator.
pub open spec fn plain_core_part_in(toks: Seq<Token>, p: int) -> bool {
    &&& kind_at(toks, p) == Type::Keyword(Keyword::SELECT)
    &&& plain_result_column_in(toks, p + 1) is Some
    &&& kind_at(toks, p + 2) == Type::Keyword(Keyword::FROM)
    &&& kind_at(toks, p + 3) is Ident
    &&& ((ends_plain_core(kind_at(toks, p + 4)) || starts_compound(kind_at(toks, p + 4))) || (kind_at(toks, p + 4)
        == Type::Keyword(Keyword::WHERE) && simple_comparison_in(toks, p + 5) && (ends_plain_core(
        kind_at(toks, p + 8),
    ) || starts_compound(kind_at(toks, p + 8)))))
}

/// The LIMIT and OFFSET expressions and the index of the semicolon of what follows a SELECT
/// core at index `e` of `toks`: nothing, `LIMIT x`, `LIMIT x OFFSET y` or `LIMIT y, x`
/// (the offset first), with single-token operands, then a semicolon.
pub open spec fn limit_form_in(toks: Seq<Token>, e: int) -> Option<(Option<SqlExpr>, Option<SqlExpr>, int)> {
    if kind_at(toks, e) == Type::Semicolon {
        Some((None, None, e))
    } else if kind_at(toks, e) == Type::Keyword(Keyword::LIMIT) && single_operand(kind_at(toks, e + 1), kind_at(toks, e + 2)) {
        let x = single_expr(tok_at(toks, e + 1));
        if kind_at(toks, e + 2) == Type::Semicolon {
            Some((Some(x), None, e + 2))
        } else if (kind_at(toks, e + 2) == Type::Comma || kind_at(toks, e + 2) == Type::Keyword(Keyword::OFFSET))
            && single_operand(kind_at(toks, e + 3), kind_at(toks, e + 4)) && kind_at(toks, e + 4)
            == Type::Semicolon {
            let y = single_expr(tok_at(toks, e + 3));
            if kind_at(toks, e + 2) == Type::Comma {
                Some((Some(y), Some(x), e + 4))
            } else {
                Some((Some(x), Some(y), e + 4))
            }
        } else {
            None
        }
    } else {
        None
    }
}

/// Where a plain SELECT statement from index `p` of `toks` ends (the index of its
/// semicolon): a plain core (`plain_select_core_in`) and a plain LIMIT part
/// (`limit_form_in`); -1 where there is none.
pub open spec fn plain_select_stmt_end(toks: Seq<Token>, p: int) -> int {
    if plain_select_core_in(toks, p) {
        match limit_form_in(toks, plain_select_end(toks, p)) {
            Some((_, _, e)) => e,
            None => -1,
        }
    } else {
        -1
    }
}

/// The comparison that `simple_equality_in(toks, i)` describes.
pub open spec fn equality_expr_in(toks: Seq<Token>, i: int) -> SqlExpr {
    SqlExpr::BinaryOp {
        left: Box::new(single_expr(tok_at(toks, i))),
        op: tok_at(toks, i + 1),
        right: Box::new(single_expr(tok_at(toks, i + 2))),
    }
}

/// Whether the tokens of `toks` from index `p` are a plain `SELECT column FROM name` with
/// one plain result column (`plain_result_column_in`) and a bare table name, optionally
/// `WHERE a = b` (`simple_comparison_in`), then a semicolon or LIMIT (`ends_plain_core`).
pub open spec fn plain_select_core_in(toks: Seq<Token>, p: int) -> bool {
    &&& kind_at(toks, p) == Type::Keyword(Keyword::SELECT)
    &&& plain_result_column_in(toks, p + 1) is Some
    &&& kind_at(toks, p + 2) == Type::Keyword(Keyword::FROM)
    &&& kind_at(toks, p + 3) is Ident
    &&& (ends_plain_core(kind_at(toks, p + 4)) || (kind_at(toks, p + 4) == Type::Keyword(Keyword::WHERE)
        && simple_comparison_in(toks, p + 5) && ends_plain_core(kind_at(toks, p + 8))))
}

/// Whether the tokens from index `p` of `toks` are `SELECT column, FROM name` with a plain
/// result column, followed by a semicolon or LIMIT: a plain SELECT core with a comma left
/// after its last column.
pub open spec fn trailing_comma_core_in(toks: Seq<Token>, p: int) -> bool {
    &&& kind_at(toks, p) == Type::Keyword(Keyword::SELECT)
    &&& plain_result_column_in(toks, p + 1) is Some
    &&& kind_at(toks, p + 2) == Type::Comma
    &&& kind_at(toks, p + 3) == Type::Keyword(Keyword::FROM)
    &&& kind_at(toks, p + 4) is Ident
    &&& ends_plain_core(kind_at(toks, p + 5))
}

/// Whether `c` is the tree of the plain SELECT core at index `p` of `toks`
/// (`plain_select_core_in`): its one result column, its table, and its WHERE comparison
/// if it has one.
pub open spec fn plain_core_tree(toks: Seq<Token>, p: int, c: SelectCore) -> bool {
    &&& c.distinct is None
    &&& c.columns@ == seq![plain_result_column_in(toks, p + 1)->Some_0]
    &&& c.from is Some
    &&& c.from->Some_0.first == TableRef {
        token: tok_at(toks, p + 3),
        source: TableSource::Table { schema: None, name: kind_at(toks, p + 3)->Ident_0 },
        alias: None,
        indexed: None,
    }
    &&& c.from->Some_0.joins@.len() == 0
    &&& c.group_by@.len() == 0
    &&& c.having is None
    &&& c.windows@.len() == 0
    &&& !c.is_values
    &&& c.where_clause == if kind_at(toks, p + 4) == Type::Keyword(Keyword::WHERE) {
        Some(equality_expr_in(toks, p + 5))
    } else {
        None
    }
}

/// Whether `sel` is the tree of the plain SELECT statement at index `p` of `toks`
/// (`plain_select_stmt_end`): one plain core (`plain_core_tree`), no WITH, no compound
/// part, no ORDER BY, and the LIMIT and OFFSET of `limit_form_in`.
pub open spec fn plain_select_tree(toks: Seq<Token>, p: int, sel: SelectStmt) -> bool {
    let (limit, offset, _e) = limit_form_in(toks, plain_select_end(toks, p))->Some_0;
    &&& sel.t == tok_at(toks, p)
    &&& sel.ctes@.len() == 0
    &&& plain_core_tree(toks, p, sel.body.first)
    &&& sel.body.rest@.len() == 0
    &&& sel.order_by@.len() == 0
    &&& sel.limit == limit
    &&& sel.offset == offset
}

/// UNION ALL, UNION, INTERSECT and EXCEPT give their own compound operators, and UNION
/// ALL is the one that keeps duplicate rows apart from UNION.
pub proof fn law_compound_operators(toks: Seq<Token>, e: int)
    ensures
        kind_at(toks, e) == Type::Keyword(Keyword::UNION) && kind_at(toks, e + 1) == Type::Keyword(Keyword::ALL)
            ==> compound_op_in(toks, e) == Some((CompoundOp::UnionAll, e + 2)),
        kind_at(toks, e) == Type::Keyword(Keyword::UNION) && kind_at(toks, e + 1) != Type::Keyword(Keyword::ALL)
            ==> compound_op_in(toks, e) == Some((CompoundOp::Union, e + 1)),
        kind_at(toks, e) == Type::Keyword(Keyword::INTERSECT) ==> compound_op_in(toks, e) == Some(
            (CompoundOp::Intersect, e + 1),
        ),
        kind_at(toks, e) == Type::Keyword(Keyword::EXCEPT) ==> compound_op_in(toks, e) == Some(
            (CompoundOp::Except, e + 1),
        ),
        !starts_compound(kind_at(toks, e)) ==> compound_op_in(toks, e) is None,
{
}

/// The compound parts after the plain core at index `p` of `toks` (`plain_core_part_in`):
/// for each, its operator (`compound_op_in`) and the index of its plain core, up to the
/// first core that no compound operator follows; none where the tokens there are not such
/// a chain.
pub open spec fn compound_parts_from(toks: Seq<Token>, p: int) -> Option<Seq<(CompoundOp, int)>>
    decreases toks.len() - p,
{
    if !(0 <= p < toks.len() && plain_core_part_in(toks, p)) {
        None
    } else {
        match compound_op_in(toks, plain_select_end(toks, p)) {
            None => Some(Seq::empty()),
            Some((op, q)) => if p < q <= toks.len() {
                match compound_parts_from(toks, q) {
                    Some(rest) => Some(seq![(op, q)] + rest),
                    None => None,
                }
            } else {
                None
            },
        }
    }
}

/// The index of the last plain core of the chain `parts` after the core at index `p`.
pub open spec fn last_core_start(p: int, parts: Seq<(CompoundOp, int)>) -> int {
    if parts.len() == 0 {
        p
    } else {
        parts.last().1
    }
}

/// Where the plain SELECT core of `plain_select_core_in(toks, p)` ends: at the semicolon
/// or LIMIT after it.
pub open spec fn plain_select_end(toks: Seq<Token>, p: int) -> int {
    if kind_at(toks, p + 4) == Type::Keyword(Keyword::WHERE) {
        p + 8
    } else {
        p + 4
    }
}

/// A plain table reference at index `p` of `toks`: `[schema.]name [[AS] alias]` with no argument list and
/// no INDEXED clause after it, as its source, its alias and the index after it.
pub open spec fn plain_table_ref_in(toks: Seq<Token>, p: int) -> Option<(TableSource, Option<String>, int)> {
    let n1 = super::stmt::name_of(kind_at(toks, p));
    let (source, q) = if kind_at(toks, p + 1) == Type::Dot {
        (TableSource::Table { schema: n1, name: super::stmt::name_of(kind_at(toks, p + 2))->Some_0 }, p + 3)
    } else {
        (TableSource::Table { schema: None, name: n1->Some_0 }, p + 1)
    };
    let (alias, e) = if kind_at(toks, q) == Type::Keyword(Keyword::AS) {
        (super::stmt::name_of(kind_at(toks, q + 1)), q + 2)
    } else if kind_at(toks, q) is Ident {
        (super::stmt::name_of(kind_at(toks, q)), q + 1)
    } else {
        (None, q)
    };
    if n1 is Some && (kind_at(toks, p + 1) == Type::Dot ==> super::stmt::name_of(kind_at(toks, p + 2)) is Some)
        && kind_at(toks, q) != Type::BraceLeft && (kind_at(toks, q) == Type::Keyword(Keyword::AS)
        ==> super::stmt::name_of(kind_at(toks, q + 1)) is Some) && kind_at(toks, e) != Type::Keyword(
        Keyword::INDEXED,
    ) && kind_at(toks, e) != Type::Keyword(Keyword::NOT) {
        Some((source, alias, e))
    } else {
        None
    }
}

/// Whether the tokens of `toks` from index `i` are `a * b` (or `/`, `%`) with
/// single-token operands, after which the expression at the multiplication level ends.
pub open spec fn simple_product_in(toks: Seq<Token>, i: int) -> bool {
    let op = kind_at(toks, i + 1);
    &&& single_operand(kind_at(toks, i), op)
    &&& (op == Type::Asterisk || op == Type::Slash || op == Type::Percent)
    &&& single_operand(kind_at(toks, i + 2), kind_at(toks, i + 3))
    &&& !continues_at(4, kind_at(toks, i + 3))
}

/// Whether a token of kind `t` is a binary operator of expression level `level`
/// (3: `||`, 4: `* / %`, 5: `+ -`, 6: `<< >> & |`, 7: `< <= > >=`, 10: AND, 11: OR).
pub open spec fn level_op(level: int, t: Type) -> bool {
    if level == 3 {
        t == Type::PipePipe
    } else if level == 4 {
        t == Type::Asterisk || t == Type::Slash || t == Type::Percent
    } else if level == 5 {
        t == Type::Plus || t == Type::Minus
    } else if level == 6 {
        t == Type::ShiftLeft || t == Type::ShiftRight || t == Type::Ampersand || t == Type::Pipe
    } else if level == 7 {
        t == Type::Less || t == Type::LessEqual || t == Type::Greater || t == Type::GreaterEqual
    } else if level == 10 {
        t == Type::Keyword(Keyword::AND)
    } else if level == 11 {
        t == Type::Keyword(Keyword::OR)
    } else {
        false
    }
}

/// How many operators follow the single-token operand at index `i` of `toks` in a chain
/// `a op b op c ...` of operators of level `level` (`level_op`) between single-token
/// operands, after which the expression at that level ends; none where the tokens there
/// are not such a chain.
pub open spec fn op_chain_from(toks: Seq<Token>, i: int, level: int) -> Option<nat>
    decreases toks.len() - i,
{
    if !(0 <= i && i + 2 <= toks.len() && single_operand(kind_at(toks, i), kind_at(toks, i + 1))) {
        None
    } else if level_op(level, kind_at(toks, i + 1)) {
        match op_chain_from(toks, i + 2, level) {
            Some(n) => Some(n + 1),
            None => None,
        }
    } else if !continues_at(level, kind_at(toks, i + 1)) {
        Some(0)
    } else {
        None
    }
}

/// The first `k` operators of a chain from index `i` of `toks` (`op_chain_from`) with
/// their operands, grouped to the left: `((a op b) op c) ...`.
pub open spec fn chain_expr(toks: Seq<Token>, i: int, k: nat) -> SqlExpr
    decreases k,
{
    if k == 0 {
        single_expr(tok_at(toks, i))
    } else {
        SqlExpr::BinaryOp {
            left: Box::new(chain_expr(toks, i, (k - 1) as nat)),
            op: tok_at(toks, i + 2 * k - 1),
            right: Box::new(single_expr(tok_at(toks, i + 2 * k))),
        }
    }
}

/// Binary operators of one level group to the left: `a o1 b o2 c` is `(a o1 b) o2 c`.
pub proof fn law_operators_group_left(toks: Seq<Token>, i: int)
    ensures
        chain_expr(toks, i, 2) == (SqlExpr::BinaryOp {
            left: Box::new(
                SqlExpr::BinaryOp {
                    left: Box::new(single_expr(tok_at(toks, i))),
                    op: tok_at(toks, i + 1),
                    right: Box::new(single_expr(tok_at(toks, i + 2))),
                },
            ),
            op: tok_at(toks, i + 3),
            right: Box::new(single_expr(tok_at(toks, i + 4))),
        }),
{
    reveal_with_fuel(chain_expr, 3);
}

/// The product that `simple_product_in(toks, i)` describes.
pub open spec fn product_expr_in(toks: Seq<Token>, i: int) -> SqlExpr {
    SqlExpr::BinaryOp {
        left: Box::new(single_expr(tok_at(toks, i))),
        op: tok_at(toks, i + 1),
        right: Box::new(single_expr(tok_at(toks, i + 2))),
    }
}

/// Whether the tokens of `toks` from index `i` are `a + b * c` (or `-`, and any of the
/// product operators) with single-token operands, after which the expression at the
/// addition level ends: the product binds tighter.
pub open spec fn sum_of_product_in(toks: Seq<Token>, i: int) -> bool {
    let op = kind_at(toks, i + 1);
    &&& single_operand(kind_at(toks, i), op)
    &&& (op == Type::Plus || op == Type::Minus)
    &&& simple_product_in(toks, i + 2)
    &&& !continues_at(5, kind_at(toks, i + 5))
}

/// The sum that `sum_of_product_in(toks, i)` describes.
pub open spec fn sum_of_product_expr_in(toks: Seq<Token>, i: int) -> SqlExpr {
    SqlExpr::BinaryOp {
        left: Box::new(single_expr(tok_at(toks, i))),
        op: tok_at(toks, i + 1),
        right: Box::new(product_expr_in(toks, i + 2)),
    }
}

/// The arguments of a plain function call whose `(` is at index `i` of `toks`:
/// `([DISTINCT] operands)` (`operand_row_from`) with no FILTER or OVER after it, as whether
/// it is DISTINCT, the index of its first argument and the number of arguments.
pub open spec fn call_args_in(toks: Seq<Token>, i: int) -> Option<(bool, int, nat)> {
    let d = kind_at(toks, i + 1) == Type::Keyword(Keyword::DISTINCT);
    let a = if d {
        i + 2
    } else {
        i + 1
    };
    match operand_row_from(toks, a) {
        Some(m) => {
            let q = a + 2 * m;
            if kind_at(toks, q) != Type::Keyword(Keyword::FILTER) && kind_at(toks, q) != Type::Keyword(
                Keyword::OVER,
            ) {
                Some((d, a, m))
            } else {
                None
            }
        },
        None => None,
    }
}

/// Whether `e` is the plain function call named `name` whose arguments `call_args_in`
/// describes as `(d, a, m)`.
pub open spec fn plain_call_expr(toks: Seq<Token>, e: SqlExpr, name: String, d: bool, a: int, m: nat) -> bool {
    e matches SqlExpr::FunctionCall { name: n, distinct, args } && n == name && distinct == d && args@.len() == m
        && forall|k: int| 0 <= k < m ==> #[trigger] args@[k] == single_expr(tok_at(toks, a + 2 * k))
}

/// Like `call_args_in`, for a call whose argument list OVER follows: whether DISTINCT
/// stands first, the index of the first argument and the number of arguments.
pub open spec fn over_call_in(toks: Seq<Token>, i: int) -> Option<(bool, int, nat)> {
    let d = kind_at(toks, i + 1) == Type::Keyword(Keyword::DISTINCT);
    let a = if d {
        i + 2
    } else {
        i + 1
    };
    match operand_row_from(toks, a) {
        Some(m) => if kind_at(toks, a + 2 * m) == Type::Keyword(Keyword::OVER) {
            Some((d, a, m))
        } else {
            None
        },
        None => None,
    }
}

/// Whether `e` is a call of the window function `name` with no FILTER, whose arguments
/// `over_call_in` describes.
pub open spec fn plain_window_call(toks: Seq<Token>, e: SqlExpr, name: String, d: bool, a: int, m: nat) -> bool {
    e matches SqlExpr::WindowFunctionCall { name: n, distinct, args, filter, .. } && n == name && distinct == d
        && filter is None && args@.len() == m && forall|k: int|
        0 <= k < m ==> #[trigger] args@[k] == single_expr(tok_at(toks, a + 2 * k))
}

/// Whether a token of kind `t` starts a SELECT statement.
pub open spec fn starts_select(t: Type) -> bool {
    t == Type::Keyword(Keyword::SELECT) || t == Type::Keyword(Keyword::WITH) || t == Type::Keyword(
        Keyword::VALUES,
    )
}

/// Whether a token of kind `t` starts a join.
pub open spec fn starts_join(t: Type) -> bool {
    ||| t == Type::Keyword(Keyword::JOIN)
    ||| t == Type::Keyword(Keyword::INNER)
    ||| t == Type::Keyword(Keyword::LEFT)
    ||| t == Type::Keyword(Keyword::RIGHT)
    ||| t == Type::Keyword(Keyword::FULL)
    ||| t == Type::Keyword(Keyword::CROSS)
    ||| t == Type::Keyword(Keyword::NATURAL)
}

/// Whether a token of kind `t`, after a comma of a result column list, shows that the
/// comma was a trailing one.
pub open spec fn ends_result_columns(t: Type) -> bool {
    ||| t == Type::Keyword(Keyword::FROM)
    ||| t == Type::Keyword(Keyword::WHERE)
    ||| t == Type::Keyword(Keyword::GROUP)
    ||| t == Type::Keyword(Keyword::ORDER)
    ||| t == Type::Keyword(Keyword::LIMIT)
    ||| t == Type::Keyword(Keyword::UNION)
    ||| t == Type::Keyword(Keyword::INTERSECT)
    ||| t == Type::Keyword(Keyword::EXCEPT)
    ||| t == Type::Keyword(Keyword::WINDOW)
    ||| t == Type::Semicolon
}


/// Whether a token of kind `t`, after an operand, is an operator or postfix that the
/// expression level `level` (1: COLLATE, 3: `||`, 4: `* / %`, 5: `+ -`, 6: `<< >> & |`,
/// 7: `< <= > >=`, 8: the equality level, 10: AND, 11: OR; each level takes those below
/// it) goes on with.
pub open spec fn continues_at(level: int, t: Type) -> bool {
    ||| t == Type::Keyword(Keyword::COLLATE)
    ||| (level >= 3 && t == Type::PipePipe)
    ||| (level >= 4 && (t == Type::Asterisk || t == Type::Slash || t == Type::Percent))
    ||| (level >= 5 && (t == Type::Plus || t == Type::Minus))
    ||| (level >= 6 && (t == Type::ShiftLeft || t == Type::ShiftRight || t == Type::Ampersand
        || t == Type::Pipe))
    ||| (level >= 7 && (t == Type::Less || t == Type::LessEqual || t == Type::Greater || t
        == Type::GreaterEqual))
    ||| (level >= 8 && (t == Type::Keyword(Keyword::IS) || t == Type::Keyword(Keyword::ISNULL) || t
        == Type::Keyword(Keyword::NOTNULL) || t == Type::Keyword(Keyword::NOT) || t == Type::Keyword(
        Keyword::IN) || t == Type::Keyword(Keyword::LIKE) || t == Type::Keyword(Keyword::GLOB) || t
        == Type::Keyword(Keyword::REGEXP) || t == Type::Keyword(Keyword::MATCH) || t == Type::Keyword(
        Keyword::BETWEEN) || t == Type::Equal || t == Type::BangEqual || t == Type::LessGreater))
    ||| (level >= 10 && t == Type::Keyword(Keyword::AND))
    ||| (level >= 11 && t == Type::Keyword(Keyword::OR))
}

/// Whether a token of kind `t` that follows `next` is an operand on its own: a literal,
/// or a column name that no `(` or `.` follows.
pub open spec fn single_operand(t: Type, next: Type) -> bool {
    is_literal_type(t) || (t is Ident && next != Type::BraceLeft && next != Type::Dot)
}

/// The number of `WHEN a THEN b` pairs with single-token operands from index `i` of `toks`
/// up to the first token that is not WHEN, if every WHEN there starts such a pair.
pub open spec fn when_pairs_from(toks: Seq<Token>, i: int) -> Option<nat>
    decreases toks.len() - i,
{
    if !(0 <= i < toks.len() && kind_at(toks, i) == Type::Keyword(Keyword::WHEN)) {
        Some(0)
    } else if single_operand(kind_at(toks, i + 1), kind_at(toks, i + 2)) && kind_at(toks, i + 2) == Type::Keyword(
        Keyword::THEN,
    ) && single_operand(kind_at(toks, i + 3), kind_at(toks, i + 4)) && !continues_at(11, kind_at(toks, i + 4)) {
        match when_pairs_from(toks, i + 4) {
            Some(m) => Some(m + 1),
            None => None,
        }
    } else {
        None
    }
}

/// A CASE expression with single-token operands at index `p` of `toks`:
/// `CASE [x] (WHEN a THEN b)* [ELSE c] END`, as the index of its first WHEN, the number of
/// its pairs and the index after END.
pub open spec fn plain_case_in(toks: Seq<Token>, p: int) -> Option<(int, nat, int)> {
    let q = if kind_at(toks, p + 1) == Type::Keyword(Keyword::WHEN) {
        p + 1
    } else {
        p + 2
    };
    if kind_at(toks, p) == Type::Keyword(Keyword::CASE) && (q == p + 1 || (single_operand(
        kind_at(toks, p + 1),
        kind_at(toks, p + 2),
    ) && !continues_at(11, kind_at(toks, p + 2)))) {
        match when_pairs_from(toks, q) {
            Some(m) => {
                let e = q + 4 * m;
                if kind_at(toks, e) == Type::Keyword(Keyword::END) {
                    Some((q, m, e + 1))
                } else if kind_at(toks, e) == Type::Keyword(Keyword::ELSE) && single_operand(
                    kind_at(toks, e + 1),
                    kind_at(toks, e + 2),
                ) && kind_at(toks, e + 2) == Type::Keyword(Keyword::END) {
                    Some((q, m, e + 3))
                } else {
                    None
                }
            },
            None => None,
        }
    } else {
        None
    }
}

/// The pairs of `plain_case_in`: `m` pairs from index `q` of `toks`.
pub open spec fn when_pairs(toks: Seq<Token>, q: int, m: nat) -> Seq<(SqlExpr, SqlExpr)> {
    Seq::new(m, |j: int| (single_expr(tok_at(toks, q + 4 * j + 1)), single_expr(tok_at(toks, q + 4 * j + 3))))
}

/// The CASE expression that `plain_case_in(toks, p) == Some((q, m, end))` describes.
pub open spec fn plain_case_expr(toks: Seq<Token>, p: int, q: int, m: nat, end: int, e: SqlExpr) -> bool {
    &&& e matches SqlExpr::Case { operand, when_clauses, else_clause }
    &&& operand == if q == p + 1 {
        None
    } else {
        Some(Box::new(single_expr(tok_at(toks, p + 1))))
    }
    &&& when_clauses@ == when_pairs(toks, q, m)
    &&& else_clause == if end == q + 4 * m + 1 {
        None
    } else {
        Some(Box::new(single_expr(tok_at(toks, q + 4 * m + 1))))
    }
}

/// An ordering term with a single-token operand at index `i` of `toks` (`x`, `x ASC`,
/// `x DESC`, with no COLLATE and no NULLS after it), as the term and the index after it.
pub open spec fn plain_term_in(toks: Seq<Token>, i: int) -> Option<(OrderingTerm, int)> {
    let k1 = kind_at(toks, i + 1);
    let (asc_desc, e) = if k1 == Type::Keyword(Keyword::ASC) {
        (Some(Keyword::ASC), i + 2)
    } else if k1 == Type::Keyword(Keyword::DESC) {
        (Some(Keyword::DESC), i + 2)
    } else {
        (None, i + 1)
    };
    if single_operand(kind_at(toks, i), k1) && !continues_at(11, k1) && kind_at(toks, e) != Type::Keyword(
        Keyword::NULLS,
    ) {
        Some((OrderingTerm { expr: single_expr(tok_at(toks, i)), collation: None, asc_desc, nulls: None }, e))
    } else {
        None
    }
}

/// Whether a token of kind `t` starts a window frame: RANGE, ROWS or GROUPS.
pub open spec fn starts_frame(t: Type) -> bool {
    t == Type::Keyword(Keyword::RANGE) || t == Type::Keyword(Keyword::ROWS) || t == Type::Keyword(Keyword::GROUPS)
}

/// A window definition at index `p` of `toks` with no base window and no PARTITION BY:
/// `ORDER BY term [frame]` with a plain term (`plain_term_in`) or a plain frame alone
/// (`plain_frame_in`), as its ordering terms, its frame and the index after it.
pub open spec fn plain_window_in(toks: Seq<Token>, p: int) -> Option<(Seq<OrderingTerm>, Option<FrameSpec>, int)> {
    if kind_at(toks, p) == Type::Keyword(Keyword::ORDER) && kind_at(toks, p + 1) == Type::Keyword(Keyword::BY) {
        match plain_term_in(toks, p + 2) {
            Some((t, e)) => if kind_at(toks, e) == Type::Comma {
                None
            } else if starts_frame(kind_at(toks, e)) {
                match plain_frame_in(toks, e) {
                    Some((f, e2)) => Some((seq![t], Some(f), e2)),
                    None => None,
                }
            } else {
                Some((seq![t], None, e))
            },
            None => None,
        }
    } else {
        match plain_frame_in(toks, p) {
            Some((f, e)) => Some((Seq::empty(), Some(f), e)),
            None => None,
        }
    }
}

/// A frame bound with a single-token operand at index `i` of `toks` (`UNBOUNDED
/// PRECEDING`, `UNBOUNDED FOLLOWING`, `CURRENT ROW`, `x PRECEDING`, `x FOLLOWING`), as the
/// bound and the index after it.
pub open spec fn plain_bound_in(toks: Seq<Token>, i: int) -> Option<(FrameBound, int)> {
    let (k0, k1) = (kind_at(toks, i), kind_at(toks, i + 1));
    if k0 == Type::Keyword(Keyword::UNBOUNDED) && k1 == Type::Keyword(Keyword::PRECEDING) {
        Some((FrameBound::UnboundedPreceding, i + 2))
    } else if k0 == Type::Keyword(Keyword::UNBOUNDED) && k1 == Type::Keyword(Keyword::FOLLOWING) {
        Some((FrameBound::UnboundedFollowing, i + 2))
    } else if k0 == Type::Keyword(Keyword::CURRENT) && k1 == Type::Keyword(Keyword::ROW) {
        Some((FrameBound::CurrentRow, i + 2))
    } else if single_operand(k0, k1) && k1 == Type::Keyword(Keyword::PRECEDING) {
        Some((FrameBound::Preceding(Box::new(single_expr(tok_at(toks, i)))), i + 2))
    } else if single_operand(k0, k1) && k1 == Type::Keyword(Keyword::FOLLOWING) {
        Some((FrameBound::Following(Box::new(single_expr(tok_at(toks, i)))), i + 2))
    } else {
        None
    }
}

/// A frame with plain bounds (`plain_bound_in`) and no EXCLUDE at index `p` of `toks`:
/// `RANGE|ROWS|GROUPS bound` or `RANGE|ROWS|GROUPS BETWEEN bound AND bound`, as the frame
/// and the index after it.
pub open spec fn plain_frame_in(toks: Seq<Token>, p: int) -> Option<(FrameSpec, int)> {
    let k = kind_at(toks, p);
    if k == Type::Keyword(Keyword::RANGE) || k == Type::Keyword(Keyword::ROWS) || k == Type::Keyword(
        Keyword::GROUPS,
    ) {
        let mode = k->Keyword_0;
        if kind_at(toks, p + 1) == Type::Keyword(Keyword::BETWEEN) {
            match plain_bound_in(toks, p + 2) {
                Some((s, e1)) => if kind_at(toks, e1) == Type::Keyword(Keyword::AND) {
                    match plain_bound_in(toks, e1 + 1) {
                        Some((t, e2)) => if kind_at(toks, e2) != Type::Keyword(Keyword::EXCLUDE) {
                            Some((FrameSpec { mode, start: Box::new(s), end: Some(Box::new(t)), exclude: None }, e2))
                        } else {
                            None
                        },
                        None => None,
                    }
                } else {
                    None
                },
                None => None,
            }
        } else {
            match plain_bound_in(toks, p + 1) {
                Some((s, e1)) => if kind_at(toks, e1) != Type::Keyword(Keyword::EXCLUDE) {
                    Some((FrameSpec { mode, start: Box::new(s), end: None, exclude: None }, e1))
                } else {
                    None
                },
                None => None,
            }
        }
    } else {
        None
    }
}

/// The expression a single-token operand stands for.
pub open spec fn single_expr(tok: Token) -> SqlExpr {
    if is_literal_type(tok.ttype) {
        SqlExpr::Literal(tok)
    } else {
        SqlExpr::ColumnRef { token: tok, schema: None, table: None, column: tok.ttype->Ident_0 }
    }
}

/// Whether a token of kind `t` is `=`, `!=` or `<>`.
pub open spec fn is_equality(t: Type) -> bool {
    t == Type::Equal || t == Type::BangEqual || t == Type::LessGreater
}

impl<'a> Parser<'a> {
    /// Whether the current token is an operand on its own that expression level `level`
    /// does not go on from.
    pub(crate) open spec fn single_operand_at(&self, level: int) -> bool {
        let p = self.pos as int;
        single_operand(self.ty(p), self.ty(p + 1)) && !continues_at(level, self.ty(p + 1))
    }

    /// Whether the input here is `a = b`, `a != b` or `a <> b` with single-token operands,
    /// after which the expression (at level `level`) ends.
    pub(crate) open spec fn simple_equality_at(&self, level: int) -> bool {
        let p = self.pos as int;
        &&& single_operand(self.ty(p), self.ty(p + 1))
        &&& is_equality(self.ty(p + 1))
        &&& single_operand(self.ty(p + 2), self.ty(p + 3))
        &&& !continues_at(level, self.ty(p + 3))
    }

    /// Whether the input here is `x [NOT] BETWEEN low AND high` with single-token operands,
    /// after which the expression (at level `level`) ends.
    pub(crate) open spec fn simple_between_at(&self, level: int) -> bool {
        let p = self.pos as int;
        let b = if self.ty(p + 1) == Type::Keyword(Keyword::NOT) {
            p + 2
        } else {
            p + 1
        };
        &&& level >= 8
        &&& single_operand(self.ty(p), self.ty(p + 1))
        &&& self.ty(b) == Type::Keyword(Keyword::BETWEEN)
        &&& single_operand(self.ty(b + 1), self.ty(b + 2))
        &&& self.ty(b + 2) == Type::Keyword(Keyword::AND)
        &&& single_operand(self.ty(b + 3), self.ty(b + 4))
        &&& !continues_at(level, self.ty(b + 4))
    }

    /// The index of the predicate keyword after the operand here, past a NOT.
    pub(crate) open spec fn pred_index(&self) -> int {
        let p = self.pos as int;
        if self.ty(p + 1) == Type::Keyword(Keyword::NOT) {
            p + 2
        } else {
            p + 1
        }
    }

    /// The number of values of `x [NOT] IN (operands)` here, with a single-token operand,
    /// after which the expression (at level `level`) ends.
    pub(crate) open spec fn simple_in_at(&self, level: int) -> Option<nat> {
        let p = self.pos as int;
        let b = self.pred_index();
        if level >= 8 && single_operand(self.ty(p), self.ty(p + 1)) && self.ty(b) == Type::Keyword(Keyword::IN)
            && self.ty(b + 1) == Type::BraceLeft {
            match operand_row_from(self.tokens@, b + 2) {
                Some(m) => if !continues_at(level, self.ty(b + 2 + 2 * m)) {
                    Some(m)
                } else {
                    None
                },
                None => None,
            }
        } else {
            None
        }
    }

    /// Whether `e` is the list test of `simple_in_at` with `m` values.
    pub(crate) open spec fn simple_in_expr(&self, e: SqlExpr, m: nat) -> bool {
        let p = self.pos as int;
        let b = self.pred_index();
        e matches SqlExpr::InList { expr, negated, values } && *expr == single_expr(self.tok(p)) && negated == (
        self.ty(p + 1) == Type::Keyword(Keyword::NOT)) && values@.len() == m && forall|k: int|
            0 <= k < m ==> #[trigger] values@[k] == single_expr(self.tok(b + 2 + 2 * k))
    }

    /// Whether the input here is `x [NOT] LIKE|GLOB|REGEXP|MATCH y` with single-token
    /// operands and no ESCAPE, after which the expression (at level `level`) ends.
    pub(crate) open spec fn simple_like_at(&self, level: int) -> bool {
        let p = self.pos as int;
        let b = self.pred_index();
        &&& level >= 8
        &&& single_operand(self.ty(p), self.ty(p + 1))
        &&& pattern_keyword(self.ty(b)) is Some
        &&& single_operand(self.ty(b + 1), self.ty(b + 2))
        &&& self.ty(b + 2) != Type::Keyword(Keyword::ESCAPE)
        &&& !continues_at(level, self.ty(b + 2))
    }

    /// The pattern test that `simple_like_at` describes.
    pub(crate) open spec fn simple_like_expr(&self) -> SqlExpr {
        let p = self.pos as int;
        let b = self.pred_index();
        SqlExpr::Like {
            expr: Box::new(single_expr(self.tok(p))),
            negated: self.ty(p + 1) == Type::Keyword(Keyword::NOT),
            op: pattern_keyword(self.ty(b))->Some_0,
            pattern: Box::new(single_expr(self.tok(b + 1))),
            escape: None,
        }
    }

    /// Where the input after `simple_isnull_at` ends.
    pub(crate) open spec fn simple_isnull_end(&self) -> int {
        let p = self.pos as int;
        if self.ty(p + 2) == Type::Keyword(Keyword::NOT) {
            p + 4
        } else {
            p + 3
        }
    }

    /// Whether the input here is `x IS [NOT] NULL` with a single-token operand, after which
    /// the expression (at level `level`) ends.
    pub(crate) open spec fn simple_isnull_at(&self, level: int) -> bool {
        let p = self.pos as int;
        &&& level >= 8
        &&& single_operand(self.ty(p), self.ty(p + 1))
        &&& self.ty(p + 1) == Type::Keyword(Keyword::IS)
        &&& self.ty(self.simple_isnull_end() - 1) == Type::Keyword(Keyword::NULL)
        &&& !continues_at(level, self.ty(self.simple_isnull_end()))
    }

    /// The NULL test that `simple_isnull_at` describes.
    pub(crate) open spec fn simple_isnull_expr(&self) -> SqlExpr {
        let p = self.pos as int;
        SqlExpr::IsNull {
            expr: Box::new(single_expr(self.tok(p))),
            negated: self.ty(p + 2) == Type::Keyword(Keyword::NOT),
        }
    }

    /// Where the input after `simple_between_at` ends.
    pub(crate) open spec fn simple_between_end(&self) -> int {
        let p = self.pos as int;
        if self.ty(p + 1) == Type::Keyword(Keyword::NOT) {
            p + 6
        } else {
            p + 5
        }
    }

    /// The range test that `simple_between_at` describes.
    pub(crate) open spec fn simple_between_expr(&self) -> SqlExpr {
        let p = self.pos as int;
        let b = if self.ty(p + 1) == Type::Keyword(Keyword::NOT) {
            p + 2
        } else {
            p + 1
        };
        SqlExpr::Between {
            expr: Box::new(single_expr(self.tok(p))),
            negated: self.ty(p + 1) == Type::Keyword(Keyword::NOT),
            low: Box::new(single_expr(self.tok(b + 1))),
            high: Box::new(single_expr(self.tok(b + 3))),
        }
    }

    /// A table function call here, `[schema.]name(operands)` with no alias or INDEXED clause
    /// after it: its schema, its name, the index of its first argument and the number of
    /// arguments.
    pub(crate) open spec fn table_function_at(&self) -> Option<(Option<String>, String, int, nat)> {
        let p = self.pos as int;
        let n1 = super::stmt::name_of(self.ty(p));
        let dotted = self.ty(p + 1) == Type::Dot;
        let a = if dotted {
            p + 4
        } else {
            p + 2
        };
        if n1 is Some && (dotted ==> super::stmt::name_of(self.ty(p + 2)) is Some) && self.ty(a - 1)
            == Type::BraceLeft {
            match operand_row_from(self.tokens@, a) {
                Some(m) => {
                    let q = a + 2 * m;
                    if !(self.ty(q) is Ident) && self.ty(q) != Type::Keyword(Keyword::AS) && self.ty(q)
                        != Type::Keyword(Keyword::INDEXED) && self.ty(q) != Type::Keyword(Keyword::NOT) {
                        if dotted {
                            Some((n1, super::stmt::name_of(self.ty(p + 2))->Some_0, a, m))
                        } else {
                            Some((None, n1->Some_0, a, m))
                        }
                    } else {
                        None
                    }
                },
                None => None,
            }
        } else {
            None
        }
    }

    /// A plain table reference here (`plain_table_ref_in`).
    pub(crate) open spec fn plain_table_ref_at(&self) -> Option<(TableSource, Option<String>, int)> {
        plain_table_ref_in(self.tokens@, self.pos as int)
    }

    /// How a join starts here: `[NATURAL] LEFT|RIGHT|FULL [OUTER] JOIN`, `[NATURAL]
    /// CROSS|INNER JOIN` or `[NATURAL] JOIN`, as whether it is natural, its kind and the index
    /// of its table.
    pub(crate) open spec fn join_head_at(&self) -> Option<(bool, JoinType, int)> {
        let p = self.pos as int;
        let natural = self.ty(p) == Type::Keyword(Keyword::NATURAL);
        let i = if natural {
            p + 1
        } else {
            p
        };
        let k = self.ty(i);
        if k == Type::Keyword(Keyword::LEFT) || k == Type::Keyword(Keyword::RIGHT) || k == Type::Keyword(
            Keyword::FULL,
        ) {
            let j = if self.ty(i + 1) == Type::Keyword(Keyword::OUTER) {
                i + 2
            } else {
                i + 1
            };
            if self.ty(j) == Type::Keyword(Keyword::JOIN) {
                Some(
                    (
                        natural,
                        if k == Type::Keyword(Keyword::LEFT) {
                            JoinType::Left
                        } else if k == Type::Keyword(Keyword::RIGHT) {
                            JoinType::Right
                        } else {
                            JoinType::Full
                        },
                        j + 1,
                    ),
                )
            } else {
                None
            }
        } else if k == Type::Keyword(Keyword::CROSS) || k == Type::Keyword(Keyword::INNER) {
            if self.ty(i + 1) == Type::Keyword(Keyword::JOIN) {
                Some(
                    (
                        natural,
                        if k == Type::Keyword(Keyword::CROSS) {
                            JoinType::Cross
                        } else {
                            JoinType::Inner
                        },
                        i + 2,
                    ),
                )
            } else {
                None
            }
        } else if k == Type::Keyword(Keyword::JOIN) {
            Some((natural, JoinType::Inner, i + 1))
        } else {
            None
        }
    }


    /// The result column that a plain column at index `i` stands for
    /// (`plain_result_column_in`).
    pub(crate) open spec fn plain_result_column(&self, i: int) -> Option<ResultColumn> {
        plain_result_column_in(self.tokens@, i)
    }

    /// Whether the input here is a plain SELECT core (`plain_select_core_in`).
    pub(crate) open spec fn plain_select_core_at(&self) -> bool {
        plain_select_core_in(self.tokens@, self.pos as int)
    }

    /// Whether the input here is a plain SELECT core that a compound operator may follow
    /// (`plain_core_part_in`).
    pub(crate) open spec fn plain_core_part_at(&self) -> bool {
        plain_core_part_in(self.tokens@, self.pos as int)
    }

    /// Whether the tokens from index `i` are a comparison and a semicolon
    /// (`simple_equality_in`).
    pub(crate) open spec fn simple_equality_from(&self, i: int) -> bool {
        simple_equality_in(self.tokens@, i)
    }

    /// The comparison that `simple_equality_from(i)` describes.
    pub(crate) open spec fn equality_expr_from(&self, i: int) -> SqlExpr {
        equality_expr_in(self.tokens@, i)
    }

    /// The comparison that `simple_equality_at` describes.
    pub(crate) open spec fn simple_equality_expr(&self) -> SqlExpr {
        let p = self.pos as int;
        SqlExpr::BinaryOp {
            left: Box::new(single_expr(self.tok(p))),
            op: self.tok(p + 1),
            right: Box::new(single_expr(self.tok(p + 2))),
        }
    }

    /// Reports the current token: `msg`, with a note made of `prefix`, the token's kind
    /// and `suffix`. Does not move.
    fn report_cur(&mut self, msg: &str, prefix: &str, suffix: &str)
        requires
            old(self).wf(),
        ensures
            final(self).evolved_from(*old(self)),
            final(self).pos == old(self).pos,
            final(self).one_more_error(*old(self), old(self).cur_spec(), Rule::Syntax),
            final(self).errors@.last().msg@ == msg@,
    {
        let cur = self.cur().clone();
        let got = cur.ttype.debug_text();
        let note = concat3(prefix, got.as_str(), suffix);
        self.push_err(msg, note.as_str(), &cur, Rule::Syntax);
    }

    /// Whether the current token starts a SELECT statement.
    fn at_select(&self) -> (r: bool)
        requires
            self.wf(),
        ensures
            r == starts_select(self.cur_spec().ttype),
    {
        self.is_keyword(Keyword::SELECT) || self.is_keyword(Keyword::WITH) || self.is_keyword(
            Keyword::VALUES,
        )
    }

    /// Whether the current token starts a join.
    fn is_join_start(&self) -> (r: bool)
        requires
            self.wf(),
        ensures
            r == starts_join(self.cur_spec().ttype),
    {
        self.is_keyword(Keyword::JOIN) || self.is_keyword(Keyword::INNER) || self.is_keyword(
            Keyword::LEFT,
        ) || self.is_keyword(Keyword::RIGHT) || self.is_keyword(Keyword::FULL) || self.is_keyword(
            Keyword::CROSS,
        ) || self.is_keyword(Keyword::NATURAL)
    }

    /// Whether the current token shows a preceding comma to be a trailing one.
    fn at_result_columns_end(&self) -> (r: bool)
        requires
            self.wf(),
        ensures
            r == ends_result_columns(self.cur_spec().ttype),
    {
        self.is_keyword(Keyword::FROM) || self.is_keyword(Keyword::WHERE) || self.is_keyword(
            Keyword::GROUP,
        ) || self.is_keyword(Keyword::ORDER) || self.is_keyword(Keyword::LIMIT) || self.is_keyword(
            Keyword::UNION,
        ) || self.is_keyword(Keyword::INTERSECT) || self.is_keyword(Keyword::EXCEPT)
            || self.is_keyword(Keyword::WINDOW) || self.is(Type::Semicolon)
    }

    /// The name an identifier or string token carries, if the current token is one.
    fn cur_name(&self) -> (r: Option<String>)
        requires
            self.wf(),
        ensures
            r == super::stmt::name_of(self.cur_spec().ttype),
    {
        match &self.cur().ttype {
            Type::Ident(n) => Some(n.clone()),
            Type::String(n) => Some(n.clone()),
            _ => None,
        }
    }

    /// The identifier the current token is, if it is one.
    fn cur_ident(&self) -> (r: Option<String>)
        requires
            self.wf(),
        ensures
            (self.cur_spec().ttype matches Type::Ident(s) && r == Some(s)) || (!(
            self.cur_spec().ttype is Ident) && r is None),
    {
        match &self.cur().ttype {
            Type::Ident(n) => Some(n.clone()),
            _ => None,
        }
    }

    /// A SELECT statement, without the statement end: `[WITH [RECURSIVE] cte, ...]
    /// select_core [compound_operator select_core]* [ORDER BY term, ...] [LIMIT expr
    /// [OFFSET expr | , expr]]`.
    pub(crate) fn select_stmt_inner(&mut self) -> (r: Option<SelectStmt>)
        requires
            old(self).wf(),
        ensures
            final(self).evolved_from(*old(self)),
            r is None ==> final(self).errors@.len() > old(self).errors@.len(),
            r is Some ==> final(self).pos > old(self).pos,
            r matches Some(s) ==> s.t == old(self).cur_spec(),
            starts_select(old(self).cur_spec().ttype) ==> final(self).pos > old(self).pos,
            old(self).plain_select_core_at() ==> (limit_form_in(
                old(self).tokens@,
                plain_select_end(old(self).tokens@, old(self).pos as int),
            ) matches Some((limit, offset, e)) ==> (r matches Some(sel) && sel.limit == limit && sel.offset == offset
                && plain_select_tree(old(self).tokens@, old(self).pos as int, sel)) && final(self).errors@ == old(
                self,
            ).errors@ && final(self).pos == e),
            compound_parts_from(old(self).tokens@, old(self).pos as int) matches Some(parts) ==> ({
                let toks = old(self).tokens@;
                let p = old(self).pos as int;
                let e = plain_select_end(toks, last_core_start(p, parts));
                kind_at(toks, e) == Type::Semicolon ==> (r matches Some(sel) && plain_core_tree(toks, p, sel.body.first)
                    && sel.body.rest@.len() == parts.len() && (forall|j: int|
                    0 <= j < parts.len() ==> (#[trigger] sel.body.rest@[j]).0 == parts[j].0 && plain_core_tree(
                        toks,
                        parts[j].1,
                        sel.body.rest@[j].1,
                    )) && sel.ctes@.len() == 0 && sel.order_by@.len() == 0 && sel.limit is None && sel.offset is None)
                    && final(self).errors@ == old(self).errors@ && final(self).pos == e
            }),
        decreases old(self).remaining(), 30int,
    {
        let t = self.cur().clone();
        let mut ctes: Vec<CommonTableExpr> = Vec::new();
        let mut recursive = false;
        if self.is_keyword(Keyword::WITH) {
            self.advance();
            if self.is_keyword(Keyword::RECURSIVE) {
                recursive = true;
                self.advance();
            }
            loop
                invariant
                    self.evolved_from(*old(self)),
                    self.pos > old(self).pos,
                    !old(self).plain_select_core_at(),
                    !(compound_parts_from(old(self).tokens@, old(self).pos as int) is Some),
                decreases self.remaining(),
            {
                let cte = self.common_table_expr()?;
                ctes.push(cte);
                if !self.is(Type::Comma) {
                    break;
                }
                self.advance();
            }
        }
        let ghost toks = old(self).tokens@;
        let ghost p = old(self).pos as int;
        let ghost cp = compound_parts_from(toks, p) is Some;
        let ghost parts = compound_parts_from(toks, p)->Some_0;
        proof {
            if cp {
                assert(self.pos == p);
                assert(old(self).plain_core_part_at());
            }
        }
        let first = self.select_core()?;
        let mut rest: Vec<(CompoundOp, SelectCore)> = Vec::new();
        let ghost mut cs = p;
        proof {
            if cp {
                assert(parts.skip(0) =~= parts);
            }
        }
        let ghost plain = old(self).plain_select_core_at();
        proof {
            if plain {
                assert(self.pos == plain_select_end(old(self).tokens@, old(self).pos as int));
                assert(ends_plain_core(self.cur_spec().ttype));
                assert(plain_core_tree(old(self).tokens@, old(self).pos as int, first));
            }
        }
        loop
            invariant
                self.evolved_from(*old(self)),
                self.pos > old(self).pos,
                self.tokens@ == old(self).tokens@,
                plain == old(self).plain_select_core_at(),
                plain ==> rest@.len() == 0 && plain_core_tree(old(self).tokens@, old(self).pos as int, first),
                plain ==> self.pos == plain_select_end(old(self).tokens@, old(self).pos as int)
                    && self.errors@ == old(self).errors@ && ends_plain_core(self.cur_spec().ttype),
                toks == old(self).tokens@,
                p == old(self).pos,
                cp == (compound_parts_from(toks, p) is Some),
                parts == compound_parts_from(toks, p)->Some_0,
                cp ==> {
                    &&& rest@.len() <= parts.len()
                    &&& plain_core_tree(toks, p, first)
                    &&& cs == last_core_start(p, parts.take(rest@.len() as int))
                    &&& compound_parts_from(toks, cs) == Some(parts.skip(rest@.len() as int))
                    &&& self.pos == plain_select_end(toks, cs)
                    &&& self.errors@ == old(self).errors@
                    &&& forall|j: int|
                        0 <= j < rest@.len() ==> (#[trigger] rest@[j]).0 == parts[j].0 && plain_core_tree(
                            toks,
                            parts[j].1,
                            rest@[j].1,
                        )
                },
            ensures
                self.evolved_from(*old(self)),
                self.pos > old(self).pos,
                self.tokens@ == old(self).tokens@,
                plain ==> rest@.len() == 0 && plain_core_tree(old(self).tokens@, old(self).pos as int, first),
                plain ==> self.pos == plain_select_end(old(self).tokens@, old(self).pos as int)
                    && self.errors@ == old(self).errors@ && ends_plain_core(self.cur_spec().ttype),
                cp ==> {
                    &&& rest@.len() == parts.len()
                    &&& plain_core_tree(toks, p, first)
                    &&& self.pos == plain_select_end(toks, last_core_start(p, parts))
                    &&& self.errors@ == old(self).errors@
                    &&& forall|j: int|
                        0 <= j < rest@.len() ==> (#[trigger] rest@[j]).0 == parts[j].0 && plain_core_tree(
                            toks,
                            parts[j].1,
                            rest@[j].1,
                        )
                },
            decreases self.remaining(),
        {
            let ghost len = rest@.len() as int;
            let ghost e0 = self.pos as int;
            proof {
                if cp {
                    assert(compound_parts_from(toks, cs) == Some(parts.skip(len)));
                }
            }
            let ghost before_rest = rest@;
            proof {
                if cp {
                    assert(kind_at(toks, self.pos as int) == self.cur_spec().ttype);
                    assert(kind_at(toks, self.pos + 1) == self.ty(self.pos + 1));
                }
            }
            let op = if self.is_keyword(Keyword::UNION) {
                self.advance();
                if self.is_keyword(Keyword::ALL) {
                    self.advance();
                    CompoundOp::UnionAll
                } else {
                    CompoundOp::Union
                }
            } else if self.is_keyword(Keyword::INTERSECT) {
                self.advance();
                CompoundOp::Intersect
            } else if self.is_keyword(Keyword::EXCEPT) {
                self.advance();
                CompoundOp::Except
            } else {
                proof {
                    if cp {
                        assert(compound_op_in(toks, e0) is None);
                        assert(parts.skip(len).len() == 0);
                        assert(parts.take(len) =~= parts);
                    }
                }
                break;
            };
            proof {
                if cp {
                    assert(compound_op_in(toks, e0) == Some((op, self.pos as int)));
                    assert(parts.skip(len).len() > 0);
                    assert(compound_parts_from(toks, self.pos as int) is Some);
                    assert(len < parts.len());
                    assert(parts.skip(len)[0] == parts[len]);
                    assert(op == parts[len].0);
                    assert(self.pos == parts[len].1);
                    assert(self.plain_core_part_at());
                }
            }
            let core = self.select_core()?;
            rest.push((op, core));
            proof {
                if cp {
                    cs = parts[len].1;
                    assert(parts.take(len + 1).last() == parts[len]);
                    assert(parts.skip(len + 1) =~= parts.skip(len).drop_first());
                    assert(forall|j: int| 0 <= j < len ==> rest@[j] == before_rest[j]);
                }
            }
        }
        let mut order_by: Vec<OrderingTerm> = Vec::new();
        if self.is_keyword(Keyword::ORDER) {
            self.advance();
            self.consume_keyword(Keyword::BY);
            loop
                invariant
                    self.evolved_from(*old(self)),
                    self.pos > old(self).pos,
                    !plain,
                    plain == old(self).plain_select_core_at(),
                    toks == old(self).tokens@,
                    p == old(self).pos,
                    cp == (compound_parts_from(toks, p) is Some),
                    parts == compound_parts_from(toks, p)->Some_0,
                    !(cp && kind_at(toks, plain_select_end(toks, last_core_start(p, parts))) == Type::Semicolon),
                decreases self.remaining(),
            {
                let term = self.ordering_term()?;
                order_by.push(term);
                if !self.is(Type::Comma) {
                    break;
                }
                self.advance();
            }
        }
        let mut limit: Option<SqlExpr> = None;
        let mut offset: Option<SqlExpr> = None;
        let ghost e = plain_select_end(old(self).tokens@, old(self).pos as int);
        let ghost lf = plain && limit_form_in(old(self).tokens@, e) is Some;
        proof {
            if lf {
                assert(self.pos == e);
                assert(self.errors@ == old(self).errors@);
            }
        }
        if self.is_keyword(Keyword::LIMIT) {
            self.advance();
            proof {
                if lf {
                    assert(self.single_operand_at(11));
                }
            }
            let first_limit = self.sql_expr()?;
            proof {
                if lf {
                    assert(self.pos == e + 2);
                    let i = self.pos as int;
                    assert(self.ty(i) == old(self).ty(i));
                    assert(self.ty(i + 1) == old(self).ty(i + 1));
                    assert(self.ty(i + 2) == old(self).ty(i + 2));
                }
            }
            if self.is_keyword(Keyword::OFFSET) {
                self.advance();
                limit = Some(first_limit);
                offset = Some(self.sql_expr()?);
            } else if self.is(Type::Comma) {
                self.advance();
                // LIMIT x, y means LIMIT y OFFSET x
                offset = Some(first_limit);
                limit = Some(self.sql_expr()?);
            } else {
                limit = Some(first_limit);
            }
        }
        Some(
            SelectStmt {
                t,
                ctes,
                recursive,
                body: CompoundSelect { first, rest },
                order_by,
                limit,
                offset,
            },
        )
    }

    /// A parenthesised list of expressions after its `(`: `expr, ...)`, or just `)`.
    pub(crate) fn expr_row(&mut self) -> (r: Option<Vec<SqlExpr>>)
        requires
            old(self).wf(),
        ensures
            final(self).evolved_from(*old(self)),
            r is None ==> final(self).errors@.len() > old(self).errors@.len(),
            r is Some ==> final(self).pos > old(self).pos,
            old(self).cur_spec().ttype == Type::BraceRight ==> (r matches Some(v) && v@.len() == 0)
                && final(self).pos == old(self).pos + 1 && final(self).errors@ == old(self).errors@,
            old(self).cur_spec().ttype != Type::BraceRight ==> (r matches Some(v) ==> v@.len() > 0),
            r is Some && final(self).errors@.len() == old(self).errors@.len() ==> final(self).ty(
                final(self).pos - 1,
            ) == Type::BraceRight,
            operand_row_from(old(self).tokens@, old(self).pos as int) matches Some(m) ==> (r matches Some(v)
                && v@.len() == m && forall|k: int|
                0 <= k < m ==> #[trigger] v@[k] == single_expr(old(self).tok(old(self).pos + 2 * k)))
                && final(self).pos == old(self).pos + 2 * m && final(self).errors@ == old(self).errors@,
        decreases old(self).remaining(), 18int,
    {
        let mut row: Vec<SqlExpr> = Vec::new();
        let ghost p = old(self).pos as int;
        let ghost plain = operand_row_from(old(self).tokens@, p) is Some;
        let ghost total: nat = if plain {
            operand_row_from(old(self).tokens@, p)->Some_0
        } else {
            0
        };
        if !self.is(Type::BraceRight) {
            proof {
                if plain {
                    assert(super::stmt::kind_at(self.tokens@, p) == self.ty(p));
                    assert(super::stmt::kind_at(self.tokens@, p + 1) == self.ty(p + 1));
                    assert(self.single_operand_at(11));
                }
            }
            let e = self.sql_expr()?;
            row.push(e);
            while self.is(Type::Comma)
                invariant
                    self.evolved_from(*old(self)),
                    self.pos > old(self).pos,
                    row@.len() > 0,
                    old(self).cur_spec().ttype != Type::BraceRight,
                    self.tokens@ == old(self).tokens@,
                    p == old(self).pos,
                    plain == (operand_row_from(old(self).tokens@, p) is Some),
                    plain ==> operand_row_from(old(self).tokens@, p) == Some(total),
                    plain ==> {
                        &&& self.errors@ == old(self).errors@
                        &&& row@.len() <= total
                        &&& self.pos == p + 2 * row@.len() - 1
                        &&& self.cur_spec().ttype == Type::Comma || self.cur_spec().ttype == Type::BraceRight
                        &&& self.cur_spec().ttype == Type::Comma ==> operand_row_from(self.tokens@, self.pos + 1)
                            == Some((total - row@.len()) as nat) && row@.len() < total
                        &&& self.cur_spec().ttype != Type::Comma ==> row@.len() == total
                        &&& forall|k: int|
                            0 <= k < row@.len() ==> #[trigger] row@[k] == single_expr(old(self).tok(p + 2 * k))
                    },
                decreases self.remaining(),
            {
                self.advance();
                proof {
                    if plain {
                        let i = self.pos as int;
                        assert(super::stmt::kind_at(self.tokens@, i) == self.ty(i));
                        assert(super::stmt::kind_at(self.tokens@, i + 1) == self.ty(i + 1));
                        assert(self.single_operand_at(11));
                    }
                }
                let e = self.sql_expr()?;
                row.push(e);
                proof {
                    if plain {
                        let i = self.pos as int;
                        assert(super::stmt::kind_at(self.tokens@, i) == self.ty(i));
                    }
                }
            }
        }
        self.consume(Type::BraceRight);
        Some(row)
    }

    /// One SELECT of a compound select (<https://www.sqlite.org/syntax/select-core.html>):
    /// `VALUES (expr, ...), ...` or `SELECT [DISTINCT|ALL] result_column, ... [FROM ...]
    /// [WHERE expr] [GROUP BY expr, ... [HAVING expr]] [WINDOW name AS (spec), ...]`.
    /// A trailing comma after the result columns is reported with a fix.
    pub(crate) fn select_core(&mut self) -> (r: Option<SelectCore>)
        requires
            old(self).wf(),
        ensures
            final(self).evolved_from(*old(self)),
            r is None ==> final(self).errors@.len() > old(self).errors@.len(),
            r is Some ==> final(self).pos > old(self).pos,
        old(self).cur_spec().ttype == Type::Keyword(Keyword::SELECT) || old(self).cur_spec().ttype
                == Type::Keyword(Keyword::VALUES) ==> final(self).pos > old(self).pos,
            old(self).plain_core_part_at() ==> {
                let p = old(self).pos as int;
                &&& final(self).errors@ == old(self).errors@
                &&& r matches Some(c)
                &&& c.distinct is None
                &&& c.columns@ == seq![old(self).plain_result_column(p + 1)->Some_0]
                &&& c.from matches Some(f)
                &&& f.first == TableRef {
                    token: old(self).tok(p + 3),
                    source: TableSource::Table { schema: None, name: old(self).ty(p + 3)->Ident_0 },
                    alias: None,
                    indexed: None,
                }
                &&& f.joins@.len() == 0
                &&& c.group_by@.len() == 0
                &&& c.having is None
                &&& c.windows@.len() == 0
                &&& !c.is_values
                &&& old(self).ty(p + 4) != Type::Keyword(Keyword::WHERE) ==> c.where_clause is None && final(self).pos == p + 4
                &&& old(self).ty(p + 4) == Type::Keyword(Keyword::WHERE) ==> c.where_clause == Some(
                    old(self).equality_expr_from(p + 5),
                ) && final(self).pos == p + 8
            },
            old(self).ty(old(self).pos as int) == Type::Keyword(Keyword::SELECT) && old(self).ty(old(self).pos + 1)
                == Type::Semicolon ==> r is None && final(self).errors@.len() == old(self).errors@.len() + 1
                && final(self).errors@.last().msg@ == "Unexpected Token in expression"@,
            old(self).ty(old(self).pos as int) == Type::Keyword(Keyword::SELECT) ==> (r matches Some(c) ==> c.distinct == if old(
                self,
            ).ty(old(self).pos + 1) == Type::Keyword(Keyword::DISTINCT) {
                Some(Keyword::DISTINCT)
            } else if old(self).ty(old(self).pos + 1) == Type::Keyword(Keyword::ALL) {
                Some(Keyword::ALL)
            } else {
                None
            }),
            trailing_comma_core_in(old(self).tokens@, old(self).pos as int) ==> {
                let p = old(self).pos as int;
                &&& final(self).one_more_error(*old(self), old(self).tok(p + 3), Rule::TrailingComma)
                &&& final(self).errors@.last().msg@ == "Trailing comma"@
                &&& final(self).errors@.last().suggestion matches Some(f) && f.replacement@ == Seq::<char>::empty()
                &&& final(self).pos == p + 5
                &&& r matches Some(c)
                &&& c.distinct is None
                &&& c.columns@ == seq![old(self).plain_result_column(p + 1)->Some_0]
                &&& c.from matches Some(f)
                &&& f.first == TableRef {
                    token: old(self).tok(p + 4),
                    source: TableSource::Table { schema: None, name: old(self).ty(p + 4)->Ident_0 },
                    alias: None,
                    indexed: None,
                }
                &&& f.joins@.len() == 0
                &&& c.where_clause is None
                &&& c.group_by@.len() == 0
                &&& c.having is None
                &&& c.windows@.len() == 0
                &&& !c.is_values
            },
        decreases old(self).remaining(), 28int,
    {
        if self.is_keyword(Keyword::VALUES) {
            self.advance();
            let mut rows: Vec<Vec<SqlExpr>> = Vec::new();
            loop
                invariant
                    self.evolved_from(*old(self)),
                    self.pos > old(self).pos,
                    !old(self).plain_core_part_at(),
                    !trailing_comma_core_in(old(self).tokens@, old(self).pos as int),
                    !(old(self).ty(old(self).pos as int) == Type::Keyword(Keyword::SELECT) && old(self).ty(old(self).pos + 1) == Type::Semicolon),
                decreases self.remaining(),
            {
                self.consume(Type::BraceLeft);
                let row = self.expr_row()?;
                rows.push(row);
                if !self.is(Type::Comma) {
                    break;
                }
                self.advance();
            }
            return Some(
                SelectCore {
                    distinct: None,
                    columns: Vec::new(),
                    from: None,
                    where_clause: None,
                    group_by: Vec::new(),
                    having: None,
                    windows: Vec::new(),
                    is_values: true,
                    values_rows: rows,
                },
            );
        }
        self.consume_keyword(Keyword::SELECT);
        let distinct = if self.is_keyword(Keyword::DISTINCT) {
            self.advance();
            Some(Keyword::DISTINCT)
        } else if self.is_keyword(Keyword::ALL) {
            self.advance();
            Some(Keyword::ALL)
        } else {
            None
        };
        let mut columns: Vec<ResultColumn> = Vec::new();
        let ghost plain = old(self).plain_core_part_at();
        let ghost tc = trailing_comma_core_in(old(self).tokens@, old(self).pos as int);
        let ghost p = old(self).pos as int;
        proof {
            if plain || tc {
                assert(self.pos == p + 1);
                assert(self.errors@ == old(self).errors@);
            }
        }
        loop
            invariant_except_break
                plain ==> self.pos == p + 1 && columns@.len() == 0 && self.errors@ == old(self).errors@,
                old(self).ty(p) == Type::Keyword(Keyword::SELECT) && old(self).ty(p + 1) == Type::Semicolon
                    ==> self.pos == p + 1 && columns@.len() == 0 && self.errors@ == old(self).errors@,
                tc ==> (self.pos == p + 1 && columns@.len() == 0 && self.errors@ == old(self).errors@) || (self.pos
                    == p + 3 && columns@ == seq![old(self).plain_result_column(p + 1)->Some_0] && self.errors@
                    == old(self).errors@),
            invariant
                self.evolved_from(*old(self)),
                columns.len() > 0 ==> self.pos > old(self).pos,
                old(self).cur_spec().ttype == Type::Keyword(Keyword::SELECT) ==> self.pos > old(self).pos,
                old(self).cur_spec().ttype != Type::Keyword(Keyword::VALUES),
                self.tokens@ == old(self).tokens@,
                plain == old(self).plain_core_part_at(),
                tc == trailing_comma_core_in(old(self).tokens@, old(self).pos as int),
                p == old(self).pos,
            ensures
                self.evolved_from(*old(self)),
                self.pos > old(self).pos,
                !(old(self).ty(old(self).pos as int) == Type::Keyword(Keyword::SELECT) && old(self).ty(old(self).pos + 1) == Type::Semicolon),
                plain ==> self.pos == p + 2 && self.errors@ == old(self).errors@ && columns@ == seq![
                    old(self).plain_result_column(p + 1)->Some_0,
                ],
                tc ==> self.pos == p + 3 && columns@ == seq![old(self).plain_result_column(p + 1)->Some_0]
                    && self.one_more_error(*old(self), old(self).tok(p + 3), Rule::TrailingComma)
                    && self.errors@.last().msg@ == "Trailing comma"@ && (self.errors@.last().suggestion matches Some(
                    f,
                ) && f.replacement@ == Seq::<char>::empty()),
            decreases self.remaining(),
        {
            proof {
                if plain || tc {
                    assert(self.ty(p + 2) == old(self).ty(p + 2));
                    assert(!continues_at(11, self.ty(p + 2)));
                }
            }
            if columns.len() > 0 && self.at_result_columns_end() {
                let cur = self.cur().clone();
                let mut err = self.err(
                    "Trailing comma",
                    "Remove the trailing comma before this keyword",
                    &cur,
                    Rule::TrailingComma,
                );
                let start_col = if cur.start >= 2 {
                    cur.start - 2
                } else {
                    0
                };
                err.suggestion = Some(
                    Suggestion {
                        message: String::from_str("Remove the trailing comma"),
                        replacement: String::new(),
                        start_line: cur.line,
                        start_col,
                        end_line: cur.line,
                        end_col: cur.start,
                    },
                );
                proof {
                    if tc {
                        assert(self.pos == p + 3);
                        assert(cur == old(self).tok(p + 3));
                    }
                }
                self.push_error(err);
                proof {
                    if tc {
                        assert(self.errors@.drop_last() == old(self).errors@);
                        assert(old(self).diag_at(self.errors@.last(), old(self).tok(p + 3), Rule::TrailingComma));
                        assert(self.errors@.last().msg@ == "Trailing comma"@);
                        assert(columns@ == seq![old(self).plain_result_column(p + 1)->Some_0]);
                    }
                }
                break;
            }
            let column = match self.result_column() {
                Some(c) => c,
                None => {
                    return None;
                },
            };
            columns.push(column);
            if !self.is(Type::Comma) {
                break;
            }
            self.advance();
        }
        let from = if self.is_keyword(Keyword::FROM) {
            self.advance();
            proof {
                if plain {
                    assert(self.pos == p + 3);
                    assert(self.plain_table_ref_at() == Some(
                        (
                            TableSource::Table { schema: None, name: old(self).ty(p + 3)->Ident_0 },
                            None::<String>,
                            p + 4,
                        ),
                    ));
                    assert(self.cur_spec() == old(self).tok(p + 3));
                }
            }
            proof {
                if tc {
                    assert(self.pos == p + 4);
                    assert(self.plain_table_ref_at() == Some(
                        (
                            TableSource::Table { schema: None, name: old(self).ty(p + 4)->Ident_0 },
                            None::<String>,
                            p + 5,
                        ),
                    ));
                    assert(self.cur_spec() == old(self).tok(p + 4));
                }
            }
            Some(self.from_clause()?)
        } else {
            None
        };
        let where_clause = if self.is_keyword(Keyword::WHERE) {
            self.advance();
            proof {
                if plain {
                    assert(self.pos == p + 5);
                    assert(self.simple_equality_at(11));
                    assert(self.simple_equality_expr() == old(self).equality_expr_from(p + 5));
                }
            }
            Some(self.sql_expr()?)
        } else {
            None
        };
        let mut group_by: Vec<SqlExpr> = Vec::new();
        let mut having: Option<SqlExpr> = None;
        if self.is_keyword(Keyword::GROUP) {
            self.advance();
            self.consume_keyword(Keyword::BY);
            loop
                invariant
                    self.evolved_from(*old(self)),
                    self.pos > old(self).pos,
                    !plain,
                    plain == old(self).plain_core_part_at(),
                    !tc,
                    tc == trailing_comma_core_in(old(self).tokens@, old(self).pos as int),
                    !(old(self).ty(old(self).pos as int) == Type::Keyword(Keyword::SELECT) && old(self).ty(old(self).pos + 1) == Type::Semicolon),
                decreases self.remaining(),
            {
                let e = self.sql_expr()?;
                group_by.push(e);
                if !self.is(Type::Comma) {
                    break;
                }
                self.advance();
            }
            if self.is_keyword(Keyword::HAVING) {
                self.advance();
                having = Some(self.sql_expr()?);
            }
        }
        let mut windows: Vec<NamedWindowDef> = Vec::new();
        if self.is_keyword(Keyword::WINDOW) {
            self.advance();
            loop
                invariant
                    self.evolved_from(*old(self)),
                    self.pos > old(self).pos,
                    !plain,
                    plain == old(self).plain_core_part_at(),
                    !tc,
                    tc == trailing_comma_core_in(old(self).tokens@, old(self).pos as int),
                    !(old(self).ty(old(self).pos as int) == Type::Keyword(Keyword::SELECT) && old(self).ty(old(self).pos + 1) == Type::Semicolon),
                decreases self.remaining(),
            {
                let name = self.consume_ident("https://www.sqlite.org/lang_select.html", "window_name")?;
                self.consume_keyword(Keyword::AS);
                self.consume(Type::BraceLeft);
                let def = self.window_spec()?;
                self.consume(Type::BraceRight);
                windows.push(NamedWindowDef { name, def });
                if !self.is(Type::Comma) {
                    break;
                }
                self.advance();
            }
        }
        Some(
            SelectCore {
                distinct,
                columns,
                from,
                where_clause,
                group_by,
                having,
                windows,
                is_values: false,
                values_rows: Vec::new(),
            },
        )
    }

    /// `AS name` or a bare name after a result column's expression, if there is one; a
    /// missing name after AS is reported.
    fn result_alias(&mut self) -> (r: Option<String>)
        requires
            old(self).wf(),
        ensures
            final(self).evolved_from(*old(self)),
            old(self).cur_spec().ttype == Type::Keyword(Keyword::AS) ==> ({
                let q = old(self).pos + 1;
                &&& super::stmt::name_of(old(self).ty(q)) is Some ==> r == super::stmt::name_of(
                    old(self).ty(q),
                ) && final(self).pos == q + 1 && final(self).errors@ == old(self).errors@
                &&& super::stmt::name_of(old(self).ty(q)) is None ==> r is None && final(self).pos == q
                    && final(self).one_more_error(*old(self), old(self).tok(q), Rule::Syntax)
                    && final(self).errors@.last().msg@ == "Expected alias name"@
            }),
            old(self).cur_spec().ttype != Type::Keyword(Keyword::AS) ==> ({
                &&& old(self).cur_spec().ttype is Ident ==> r == super::stmt::name_of(
                    old(self).cur_spec().ttype,
                ) && final(self).pos == old(self).pos + 1 && final(self).errors@ == old(self).errors@
                &&& !(old(self).cur_spec().ttype is Ident) ==> r is None && *final(self) == *old(self)
            }),
    {
        if self.is_keyword(Keyword::AS) {
            self.advance();
            match self.cur_name() {
                Some(n) => {
                    self.advance();
                    Some(n)
                },
                None => {
                    self.report_cur("Expected alias name", "expected identifier after AS, got ", "");
                    None
                },
            }
        } else {
            match self.cur_ident() {
                Some(n) => {
                    self.advance();
                    Some(n)
                },
                None => None,
            }
        }
    }

    /// A result column: `*`, `table.*` or `expr [[AS] alias]`.
    pub(crate) fn result_column(&mut self) -> (r: Option<ResultColumn>)
        requires
            old(self).wf(),
        ensures
            final(self).evolved_from(*old(self)),
            r is None ==> final(self).errors@.len() > old(self).errors@.len(),
            r is Some ==> final(self).pos > old(self).pos,
            old(self).cur_spec().ttype == Type::Asterisk ==> r == Some(ResultColumn::Star)
                && final(self).pos == old(self).pos + 1 && final(self).errors@ == old(self).errors@,
            old(self).single_operand_at(11) && !(old(self).ty(old(self).pos + 1) is Ident) && old(self).ty(
                old(self).pos + 1,
            ) != Type::Keyword(Keyword::AS) ==> r == Some(
                ResultColumn::Expr { expr: single_expr(old(self).cur_spec()), alias: None },
            ) && final(self).pos == old(self).pos + 1 && final(self).errors@ == old(self).errors@,
            ({
                let p = old(self).pos as int;
                &&& old(self).single_operand_at(11) && old(self).ty(p + 1) == Type::Keyword(Keyword::AS)
                    && super::stmt::name_of(old(self).ty(p + 2)) is Some ==> r == Some(
                    ResultColumn::Expr {
                        expr: single_expr(old(self).cur_spec()),
                        alias: super::stmt::name_of(old(self).ty(p + 2)),
                    },
                ) && final(self).pos == p + 3 && final(self).errors@ == old(self).errors@
                &&& old(self).single_operand_at(11) && old(self).ty(p + 1) is Ident ==> r == Some(
                    ResultColumn::Expr {
                        expr: single_expr(old(self).cur_spec()),
                        alias: super::stmt::name_of(old(self).ty(p + 1)),
                    },
                ) && final(self).pos == p + 2 && final(self).errors@ == old(self).errors@
                &&& old(self).ty(p) is Ident && old(self).ty(p + 1) == Type::Dot && old(self).ty(p + 2)
                    == Type::Asterisk ==> r == Some(ResultColumn::TableStar(old(self).ty(p)->Ident_0))
                    && final(self).pos == p + 3 && final(self).errors@ == old(self).errors@
            }),
            starts_no_expr(old(self).cur_spec().ttype) ==> r is None && final(self).pos == old(self).pos
                && final(self).one_more_error(*old(self), old(self).cur_spec(), Rule::Syntax)
                && final(self).errors@.last().msg@ == "Unexpected Token in expression"@,
        decreases old(self).remaining(), 27int,
    {
        if self.is(Type::Asterisk) {
            self.advance();
            return Some(ResultColumn::Star);
        }
        if let Some(name) = self.cur_ident() {
            if self.next_is(Type::Dot) {
                let star = match self.peek_at(2) {
                    Some(tok) => type_is(&tok.ttype, &Type::Asterisk),
                    None => false,
                };
                if star {
                    self.advance();
                    self.advance();
                    self.advance();
                    return Some(ResultColumn::TableStar(name));
                }
            }
        }
        let expr = self.sql_expr()?;
        let alias = self.result_alias();
        Some(ResultColumn::Expr { expr, alias })
    }

    /// A FROM clause: a table reference followed by joins, written with commas or JOIN.
    pub(crate) fn from_clause(&mut self) -> (r: Option<FromClause>)
        requires
            old(self).wf(),
        ensures
            final(self).evolved_from(*old(self)),
            r is None ==> final(self).errors@.len() > old(self).errors@.len(),
            r is Some ==> final(self).pos > old(self).pos,
            old(self).plain_table_ref_at() matches Some((source, alias, q)) ==> (old(self).ty(q) != Type::Comma
                && !starts_join(old(self).ty(q)) ==> (r matches Some(f) && f.first == TableRef {
                token: old(self).cur_spec(),
                source,
                alias,
                indexed: None,
            } && f.joins@.len() == 0) && final(self).pos == q && final(self).errors@ == old(self).errors@),
        decreases old(self).remaining(), 26int,
    {
        let first = self.table_ref()?;
        let mut joins: Vec<JoinItem> = Vec::new();
        let ghost plain = old(self).plain_table_ref_at() matches Some((source, alias, q)) && old(self).ty(q)
            != Type::Comma && !starts_join(old(self).ty(q));
        loop
            invariant
                self.evolved_from(*old(self)),
                self.pos > old(self).pos,
                self.tokens@ == old(self).tokens@,
                plain == (old(self).plain_table_ref_at() matches Some((source, alias, q)) && old(self).ty(q)
                    != Type::Comma && !starts_join(old(self).ty(q))),
                plain ==> joins@.len() == 0 && self.errors@ == old(self).errors@ && self.pos
                    == old(self).plain_table_ref_at()->Some_0.2,
            decreases self.remaining(),
        {
            if self.is(Type::Comma) {
                self.advance();
                let table = self.table_ref()?;
                joins.push(JoinItem { natural: false, join_type: JoinType::Comma, table, constraint: None });
            } else if self.is_join_start() {
                let item = self.join_item()?;
                joins.push(item);
            } else {
                break;
            }
        }
        Some(FromClause { first, joins })
    }

    /// `[OUTER] JOIN` after LEFT, RIGHT or FULL.
    fn outer_join(&mut self)
        requires
            old(self).wf(),
        ensures
            final(self).evolved_from(*old(self)),
            final(self).pos >= old(self).pos,
            ({
                let q = if old(self).cur_spec().ttype == Type::Keyword(Keyword::OUTER) {
                    old(self).pos + 1
                } else {
                    old(self).pos as int
                };
                &&& final(self).pos == if q < old(self).tokens.len() {
                    q + 1
                } else {
                    q
                }
                &&& old(self).ty(q) == Type::Keyword(Keyword::JOIN) ==> final(self).errors@ == old(
                    self,
                ).errors@
                &&& old(self).ty(q) != Type::Keyword(Keyword::JOIN) ==> final(self).one_more_error(
                    *old(self),
                    old(self).tok(q),
                    Rule::Syntax,
                )
            }),
    {
        if self.is_keyword(Keyword::OUTER) {
            self.advance();
        }
        self.consume_keyword(Keyword::JOIN);
    }

    /// A join: `[NATURAL] [LEFT|RIGHT|FULL [OUTER] | CROSS | INNER] JOIN table_ref
    /// [ON expr | USING (column, ...)]`.
    pub(crate) fn join_item(&mut self) -> (r: Option<JoinItem>)
        requires
            old(self).wf(),
        ensures
            final(self).evolved_from(*old(self)),
            r is None ==> final(self).errors@.len() > old(self).errors@.len(),
            r is Some ==> final(self).pos > old(self).pos,
            old(self).join_head_at() matches Some((natural, join_type, tp)) ==> (plain_table_ref_in(
                old(self).tokens@,
                tp,
            ) matches Some((source, alias, q)) ==> (old(self).ty(q) != Type::Keyword(Keyword::ON) && old(self).ty(q)
                != Type::Keyword(Keyword::USING) ==> r == Some(
                JoinItem {
                    natural,
                    join_type,
                    table: TableRef { token: old(self).tok(tp), source, alias, indexed: None },
                    constraint: None,
                },
            ) && final(self).pos == q && final(self).errors@ == old(self).errors@)),
        decreases old(self).remaining(), 25int,
    {
        let natural = if self.is_keyword(Keyword::NATURAL) {
            self.advance();
            true
        } else {
            false
        };
        let join_type = if self.is_keyword(Keyword::LEFT) {
            self.advance();
            self.outer_join();
            JoinType::Left
        } else if self.is_keyword(Keyword::RIGHT) {
            self.advance();
            self.outer_join();
            JoinType::Right
        } else if self.is_keyword(Keyword::FULL) {
            self.advance();
            self.outer_join();
            JoinType::Full
        } else if self.is_keyword(Keyword::CROSS) {
            self.advance();
            self.consume_keyword(Keyword::JOIN);
            JoinType::Cross
        } else if self.is_keyword(Keyword::INNER) {
            self.advance();
            self.consume_keyword(Keyword::JOIN);
            JoinType::Inner
        } else if self.is_keyword(Keyword::JOIN) {
            self.advance();
            JoinType::Inner
        } else {
            self.report_cur("Expected JOIN keyword", "got ", "");
            self.advance();
            JoinType::Inner
        };
        proof {
            if old(self).join_head_at() is Some {
                assert(self.pos == old(self).join_head_at()->Some_0.2);
                assert(self.errors@ == old(self).errors@);
            }
        }
        let table = self.table_ref()?;
        let constraint = if self.is_keyword(Keyword::ON) {
            self.advance();
            Some(JoinConstraint::On(self.sql_expr()?))
        } else if self.is_keyword(Keyword::USING) {
            self.advance();
            self.consume(Type::BraceLeft);
            let mut cols: Vec<String> = Vec::new();
            loop
                invariant
                    self.evolved_from(*old(self)),
                    !(old(self).join_head_at() matches Some((natural, join_type, tp)) && plain_table_ref_in(
                        old(self).tokens@,
                        tp,
                    ) matches Some((source, alias, q)) && old(self).ty(q) != Type::Keyword(Keyword::ON)
                        && old(self).ty(q) != Type::Keyword(Keyword::USING)),
                decreases self.remaining(),
            {
                let c = self.consume_ident("https://www.sqlite.org/lang_select.html", "column_name")?;
                cols.push(c);
                if !self.is(Type::Comma) {
                    break;
                }
                self.advance();
            }
            self.consume(Type::BraceRight);
            Some(JoinConstraint::Using(cols))
        } else {
            None
        };
        Some(JoinItem { natural, join_type, table, constraint })
    }

    /// A table reference: `[schema.]table`, `[schema.]function(args)`, `(select)` or
    /// `(from_clause)`, then `[[AS] alias]` and `[INDEXED BY name | NOT INDEXED]`.
    pub(crate) fn table_ref(&mut self) -> (r: Option<TableRef>)
        requires
            old(self).wf(),
        ensures
            final(self).evolved_from(*old(self)),
            r is None ==> final(self).errors@.len() > old(self).errors@.len(),
            r is Some ==> final(self).pos > old(self).pos,
            r matches Some(t) ==> t.token == old(self).cur_spec(),
            old(self).plain_table_ref_at() matches Some((source, alias, q)) ==> r == Some(
                TableRef { token: old(self).cur_spec(), source, alias, indexed: None },
            ) && final(self).pos == q && final(self).errors@ == old(self).errors@,
            old(self).table_function_at() matches Some((schema, name, a, m)) ==> (r matches Some(t) && t.token
                == old(self).cur_spec() && t.alias is None && t.indexed is None && (t.source matches TableSource::TableFunction {
                schema: s2,
                name: n2,
                args,
            } && s2 == schema && n2 == name && args@.len() == m && forall|k: int|
                0 <= k < m ==> #[trigger] args@[k] == single_expr(old(self).tok(a + 2 * k))))
                && final(self).pos == a + 2 * m && final(self).errors@ == old(self).errors@,
        decreases old(self).remaining(), 24int,
    {
        let token = self.cur().clone();
        let source = if self.is(Type::BraceLeft) {
            self.advance();
            if self.at_select() {
                let sel = self.select_stmt_inner()?;
                self.consume(Type::BraceRight);
                TableSource::Subquery(Box::new(sel))
            } else {
                let inner = self.from_clause()?;
                self.consume(Type::BraceRight);
                TableSource::ParenFrom(Box::new(inner))
            }
        } else {
            let name1 = match self.cur_name() {
                Some(n) => n,
                None => {
                    self.report_cur("Expected table name", "expected table name, got ", "");
                    self.advance();
                    return None;
                },
            };
            self.advance();
            if self.is(Type::Dot) {
                self.advance();
                let name2 = match self.cur_name() {
                    Some(n) => n,
                    None => {
                        self.report_cur("Expected table name after schema", "got ", "");
                        self.advance();
                        return None;
                    },
                };
                self.advance();
                if self.is(Type::BraceLeft) {
                    self.advance();
                    let args = self.expr_row()?;
                    TableSource::TableFunction { schema: Some(name1), name: name2, args }
                } else {
                    TableSource::Table { schema: Some(name1), name: name2 }
                }
            } else if self.is(Type::BraceLeft) {
                self.advance();
                let args = self.expr_row()?;
                TableSource::TableFunction { schema: None, name: name1, args }
            } else {
                TableSource::Table { schema: None, name: name1 }
            }
        };
        let alias = if self.is_keyword(Keyword::AS) {
            self.advance();
            match self.cur_name() {
                Some(n) => {
                    self.advance();
                    Some(n)
                },
                None => None,
            }
        } else {
            match self.cur_ident() {
                Some(n) => {
                    self.advance();
                    Some(n)
                },
                None => None,
            }
        };
        let indexed = if self.is_keyword(Keyword::INDEXED) {
            self.advance();
            self.consume_keyword(Keyword::BY);
            let idx = self.consume_ident("https://www.sqlite.org/lang_select.html", "index_name")?;
            Some(IndexedBy::Indexed(idx))
        } else if self.is_keyword(Keyword::NOT) && self.next_is(Type::Keyword(Keyword::INDEXED)) {
            self.advance();
            self.advance();
            Some(IndexedBy::NotIndexed)
        } else {
            None
        };
        Some(TableRef { token, source, alias, indexed })
    }

    /// An ordering term: `expr [COLLATE name] [ASC|DESC] [NULLS FIRST|LAST]`.
    pub(crate) fn ordering_term(&mut self) -> (r: Option<OrderingTerm>)
        requires
            old(self).wf(),
        ensures
            final(self).evolved_from(*old(self)),
            r is None ==> final(self).errors@.len() > old(self).errors@.len(),
            r is Some ==> final(self).pos > old(self).pos,
            plain_term_in(old(self).tokens@, old(self).pos as int) matches Some((t, e)) ==> r == Some(t)
                && final(self).pos == e && final(self).errors@ == old(self).errors@,
        decreases old(self).remaining(), 19int,
    {
        let expr = self.sql_expr()?;
        let collation = if self.is_keyword(Keyword::COLLATE) {
            self.advance();
            Some(self.consume_ident("https://www.sqlite.org/lang_select.html", "collation_name")?)
        } else {
            None
        };
        let asc_desc = if self.is_keyword(Keyword::ASC) {
            self.advance();
            Some(Keyword::ASC)
        } else if self.is_keyword(Keyword::DESC) {
            self.advance();
            Some(Keyword::DESC)
        } else {
            None
        };
        let nulls = if self.is_keyword(Keyword::NULLS) {
            self.advance();
            if self.is_keyword(Keyword::FIRST) {
                self.advance();
                Some(Keyword::FIRST)
            } else if self.is_keyword(Keyword::LAST) {
                self.advance();
                Some(Keyword::LAST)
            } else {
                self.report_cur("Expected FIRST or LAST", "got ", " after NULLS");
                None
            }
        } else {
            None
        };
        Some(OrderingTerm { expr, collation, asc_desc, nulls })
    }

    /// A common table expression: `name [(column, ...)] AS [[NOT] MATERIALIZED] (select)`.
    pub(crate) fn common_table_expr(&mut self) -> (r: Option<CommonTableExpr>)
        requires
            old(self).wf(),
        ensures
            final(self).evolved_from(*old(self)),
            r is None ==> final(self).errors@.len() > old(self).errors@.len(),
            r is Some ==> final(self).pos > old(self).pos,
        decreases old(self).remaining(), 29int,
    {
        let name = self.consume_ident("https://www.sqlite.org/lang_select.html", "cte_name")?;
        let mut columns: Vec<String> = Vec::new();
        if self.is(Type::BraceLeft) {
            self.advance();
            loop
                invariant
                    self.evolved_from(*old(self)),
                    self.pos > old(self).pos,
                decreases self.remaining(),
            {
                let c = self.consume_ident("https://www.sqlite.org/lang_select.html", "column_name")?;
                columns.push(c);
                if !self.is(Type::Comma) {
                    break;
                }
                self.advance();
            }
            self.consume(Type::BraceRight);
        }
        self.consume_keyword(Keyword::AS);
        let materialized = if self.is_keyword(Keyword::NOT) {
            self.advance();
            self.consume_keyword(Keyword::MATERIALIZED);
            Some(false)
        } else if self.is_keyword(Keyword::MATERIALIZED) {
            self.advance();
            Some(true)
        } else {
            None
        };
        self.consume(Type::BraceLeft);
        let select = self.select_stmt_inner()?;
        self.consume(Type::BraceRight);
        Some(CommonTableExpr { name, columns, materialized, select: Box::new(select) })
    }

    /// `(window_spec)` or a window's name, after OVER.
    pub(crate) fn window_over(&mut self) -> (r: Option<WindowOver>)
        requires
            old(self).wf(),
        ensures
            final(self).evolved_from(*old(self)),
            r is None ==> final(self).errors@.len() > old(self).errors@.len(),
            r is Some ==> final(self).pos > old(self).pos,
            old(self).cur_spec().ttype matches Type::Ident(n) ==> r == Some(WindowOver::Name(n)) && final(self).pos
                == old(self).pos + 1 && final(self).errors@ == old(self).errors@,
            ({
                let p = old(self).pos as int;
                old(self).ty(p) == Type::BraceLeft ==> (plain_window_in(old(self).tokens@, p + 1) matches Some(
                    (terms, frame, e),
                ) ==> (old(self).ty(e) == Type::BraceRight ==> (r matches Some(WindowOver::Spec(w))
                    && w.base_window is None && w.partition_by@.len() == 0 && w.order_by@ == terms && w.frame
                    == frame) && final(self).pos == e + 1 && final(self).errors@ == old(self).errors@))
            }),
        decreases old(self).remaining(), 22int,
    {
        if self.is(Type::BraceLeft) {
            self.advance();
            let spec = self.window_spec()?;
            self.consume(Type::BraceRight);
            Some(WindowOver::Spec(spec))
        } else if let Some(name) = self.cur_ident() {
            self.advance();
            Some(WindowOver::Name(name))
        } else {
            self.report_cur("Expected window specification", "got ", "");
            None
        }
    }

    /// A window definition: `[base_window] [PARTITION BY expr, ...] [ORDER BY term, ...]
    /// [frame_spec]`.
    pub(crate) fn window_spec(&mut self) -> (r: Option<WindowSpec>)
        requires
            old(self).wf(),
        ensures
            final(self).evolved_from(*old(self)),
            r is None ==> final(self).errors@.len() > old(self).errors@.len(),
            ({
                let b = if old(self).cur_spec().ttype is Ident {
                    old(self).pos + 1
                } else {
                    old(self).pos as int
                };
                &&& r matches Some(w) ==> (old(self).cur_spec().ttype is Ident ==> w.base_window
                    == super::stmt::name_of(old(self).cur_spec().ttype))
                &&& r matches Some(w) ==> (!(old(self).cur_spec().ttype is Ident) ==> w.base_window is None)
                &&& r matches Some(w) ==> (w.partition_by@.len() > 0 <==> old(self).ty(b) == Type::Keyword(
                    Keyword::PARTITION,
                ))
                &&& !continues_window(old(self).ty(b)) ==> (r matches Some(w) && w.partition_by@.len() == 0
                    && w.order_by@.len() == 0 && w.frame is None) && final(self).pos == b
                    && final(self).errors@ == old(self).errors@
            }),
            plain_window_in(old(self).tokens@, old(self).pos as int) matches Some((terms, frame, e)) ==> (r matches Some(
                w,
            ) && w.base_window is None && w.partition_by@.len() == 0 && w.order_by@ == terms && w.frame == frame)
                && final(self).pos == e && final(self).errors@ == old(self).errors@,
        decreases old(self).remaining(), 23int,
    {
        let base_window = match self.cur_ident() {
            Some(n) => {
                self.advance();
                Some(n)
            },
            None => None,
        };
        let ghost after_base = self.pos;
        let mut partition_by: Vec<SqlExpr> = Vec::new();
        if self.is_keyword(Keyword::PARTITION) {
            self.advance();
            self.consume_keyword(Keyword::BY);
            loop
                invariant
                    self.evolved_from(*old(self)),
                    continues_window(old(self).ty(after_base as int)),
                    after_base == if old(self).cur_spec().ttype is Ident {
                        old(self).pos + 1
                    } else {
                        old(self).pos as int
                    },
                    !(plain_window_in(old(self).tokens@, old(self).pos as int) is Some),
                ensures
                    partition_by@.len() > 0,
                decreases self.remaining(),
            {
                let e = self.sql_expr()?;
                partition_by.push(e);
                if !self.is(Type::Comma) {
                    break;
                }
                self.advance();
            }
        }
        let mut order_by: Vec<OrderingTerm> = Vec::new();
        let ghost pw = plain_window_in(old(self).tokens@, old(self).pos as int) is Some;
        let ghost p = old(self).pos as int;
        proof {
            if pw {
                assert(self.pos == p);
                assert(self.errors@ == old(self).errors@);
            }
        }
        if self.is_keyword(Keyword::ORDER) {
            self.advance();
            self.consume_keyword(Keyword::BY);
            loop
                invariant_except_break
                    pw ==> order_by@.len() == 0 && self.pos == p + 2 && self.errors@ == old(self).errors@,
                invariant
                    self.evolved_from(*old(self)),
                    continues_window(old(self).ty(after_base as int)),
                    after_base == if old(self).cur_spec().ttype is Ident {
                        old(self).pos + 1
                    } else {
                        old(self).pos as int
                    },
                    self.tokens@ == old(self).tokens@,
                    pw == plain_window_in(old(self).tokens@, old(self).pos as int) is Some,
                    p == old(self).pos,
                    pw ==> old(self).ty(p) == Type::Keyword(Keyword::ORDER),
                ensures
                    pw ==> order_by@ == seq![plain_term_in(old(self).tokens@, p + 2)->Some_0.0] && self.pos
                        == plain_term_in(old(self).tokens@, p + 2)->Some_0.1 && self.errors@ == old(self).errors@,
                decreases self.remaining(),
            {
                let term = self.ordering_term()?;
                order_by.push(term);
                if !self.is(Type::Comma) {
                    proof {
                        if pw {
                            assert(order_by@ =~= seq![plain_term_in(old(self).tokens@, p + 2)->Some_0.0]);
                        }
                    }
                    break;
                }
                self.advance();
            }
        }
        let frame = if self.is_keyword(Keyword::RANGE) || self.is_keyword(Keyword::ROWS)
            || self.is_keyword(Keyword::GROUPS) {
            Some(self.frame_spec()?)
        } else {
            None
        };
        Some(WindowSpec { base_window, partition_by, order_by, frame })
    }

    /// A window frame: `RANGE|ROWS|GROUPS [BETWEEN bound AND bound | bound] [EXCLUDE NO
    /// OTHERS | CURRENT ROW | GROUP | TIES]`.
    pub(crate) fn frame_spec(&mut self) -> (r: Option<FrameSpec>)
        requires
            old(self).wf(),
        ensures
            final(self).evolved_from(*old(self)),
            r is None ==> final(self).errors@.len() > old(self).errors@.len(),
            r is Some ==> final(self).pos > old(self).pos,
            plain_frame_in(old(self).tokens@, old(self).pos as int) matches Some((f, e)) ==> r == Some(f)
                && final(self).pos == e && final(self).errors@ == old(self).errors@,
        decreases old(self).remaining(), 21int,
    {
        let mode = if self.is_keyword(Keyword::RANGE) {
            Keyword::RANGE
        } else if self.is_keyword(Keyword::ROWS) {
            Keyword::ROWS
        } else if self.is_keyword(Keyword::GROUPS) {
            Keyword::GROUPS
        } else {
            self.report_cur("Expected RANGE, ROWS, or GROUPS", "got ", "");
            return None;
        };
        self.advance();
        let (start, end) = if self.is_keyword(Keyword::BETWEEN) {
            self.advance();
            let s = self.frame_bound()?;
            self.consume_keyword(Keyword::AND);
            let e = self.frame_bound()?;
            (Box::new(s), Some(Box::new(e)))
        } else {
            let s = self.frame_bound()?;
            (Box::new(s), None)
        };
        let exclude = if self.is_keyword(Keyword::EXCLUDE) {
            self.advance();
            if self.is_keyword(Keyword::NO) {
                self.advance();
                self.consume_keyword(Keyword::OTHERS);
                Some(FrameExclude::NoOthers)
            } else if self.is_keyword(Keyword::CURRENT) {
                self.advance();
                self.consume_keyword(Keyword::ROW);
                Some(FrameExclude::CurrentRow)
            } else if self.is_keyword(Keyword::GROUP) {
                self.advance();
                Some(FrameExclude::Group)
            } else if self.is_keyword(Keyword::TIES) {
                self.advance();
                Some(FrameExclude::Ties)
            } else {
                self.report_cur("Expected EXCLUDE option", "got ", "");
                None
            }
        } else {
            None
        };
        Some(FrameSpec { mode, start, end, exclude })
    }

    /// A frame bound: `UNBOUNDED PRECEDING|FOLLOWING`, `CURRENT ROW` or `expr
    /// PRECEDING|FOLLOWING`.
    pub(crate) fn frame_bound(&mut self) -> (r: Option<FrameBound>)
        requires
            old(self).wf(),
        ensures
            final(self).evolved_from(*old(self)),
            r is None ==> final(self).errors@.len() > old(self).errors@.len(),
            r is Some ==> final(self).pos > old(self).pos,
            plain_bound_in(old(self).tokens@, old(self).pos as int) matches Some((b, e)) ==> r == Some(b)
                && final(self).pos == e && final(self).errors@ == old(self).errors@,
        decreases old(self).remaining(), 20int,
    {
        if self.is_keyword(Keyword::UNBOUNDED) {
            self.advance();
            if self.is_keyword(Keyword::PRECEDING) {
                self.advance();
                Some(FrameBound::UnboundedPreceding)
            } else if self.is_keyword(Keyword::FOLLOWING) {
                self.advance();
                Some(FrameBound::UnboundedFollowing)
            } else {
                self.report_cur("Expected PRECEDING or FOLLOWING", "got ", "");
                None
            }
        } else if self.is_keyword(Keyword::CURRENT) {
            self.advance();
            self.consume_keyword(Keyword::ROW);
            Some(FrameBound::CurrentRow)
        } else {
            let expr = self.sql_expr()?;
            if self.is_keyword(Keyword::PRECEDING) {
                self.advance();
                Some(FrameBound::Preceding(Box::new(expr)))
            } else if self.is_keyword(Keyword::FOLLOWING) {
                self.advance();
                Some(FrameBound::Following(Box::new(expr)))
            } else {
                self.report_cur("Expected PRECEDING or FOLLOWING", "got ", "");
                None
            }
        }
    }

    /// An expression (<https://www.sqlite.org/lang_expr.html>), by precedence climbing
    /// from OR down to the atoms.
    pub(crate) fn sql_expr(&mut self) -> (r: Option<SqlExpr>)
        requires
            old(self).wf(),
        ensures
            final(self).evolved_from(*old(self)),
            r is None ==> final(self).errors@.len() > old(self).errors@.len(),
            r is Some ==> final(self).pos > old(self).pos,
            old(self).single_operand_at(11) ==> r == Some(single_expr(old(self).cur_spec()))
                && final(self).pos == old(self).pos + 1 && final(self).errors@ == old(self).errors@,
            old(self).simple_equality_at(11) ==> r == Some(old(self).simple_equality_expr())
                && final(self).pos == old(self).pos + 3 && final(self).errors@ == old(self).errors@,
            starts_no_expr(old(self).cur_spec().ttype) ==> r is None && final(self).pos == old(self).pos
                && final(self).one_more_error(*old(self), old(self).cur_spec(), Rule::Syntax)
                && final(self).errors@.last().msg@ == "Unexpected Token in expression"@,
        decreases old(self).remaining(), 15int,
    {
        self.sql_expr_or()
    }

    /// `and_expr [OR and_expr]*`.
    pub(crate) fn sql_expr_or(&mut self) -> (r: Option<SqlExpr>)
        requires
            old(self).wf(),
        ensures
            final(self).evolved_from(*old(self)),
            r is None ==> final(self).errors@.len() > old(self).errors@.len(),
            r is Some ==> final(self).pos > old(self).pos,
            op_chain_from(old(self).tokens@, old(self).pos as int, 11) matches Some(n) ==> r == Some(
                chain_expr(old(self).tokens@, old(self).pos as int, n),
            ) && final(self).pos == old(self).pos + 2 * n + 1 && final(self).errors@ == old(self).errors@,
            old(self).single_operand_at(11) ==> r == Some(single_expr(old(self).cur_spec()))
                && final(self).pos == old(self).pos + 1 && final(self).errors@ == old(self).errors@,
            old(self).simple_equality_at(11) ==> r == Some(old(self).simple_equality_expr())
                && final(self).pos == old(self).pos + 3 && final(self).errors@ == old(self).errors@,
            starts_no_expr(old(self).cur_spec().ttype) ==> r is None && final(self).pos == old(self).pos
                && final(self).one_more_error(*old(self), old(self).cur_spec(), Rule::Syntax)
                && final(self).errors@.last().msg@ == "Unexpected Token in expression"@,
        decreases old(self).remaining(), 14int,
    {
        let ghost toks = old(self).tokens@;
        let ghost p = old(self).pos as int;
        let ghost ch = op_chain_from(toks, p, 11) is Some;
        let ghost n: nat = op_chain_from(toks, p, 11)->Some_0;
        proof {
            if ch {
                assert(kind_at(toks, p) == old(self).ty(p));
                assert(kind_at(toks, p + 1) == old(self).ty(p + 1));
            }
        }
        let mut left = self.sql_expr_and()?;
        let ghost mut k: nat = 0;
        while self.is_keyword(Keyword::OR)
            invariant
                toks == old(self).tokens@,
                p == old(self).pos,
                ch == (op_chain_from(toks, p, 11) is Some),
                n == op_chain_from(toks, p, 11)->Some_0,
                ch ==> k <= n && self.pos == p + 2 * k + 1 && left == chain_expr(toks, p, k)
                    && op_chain_from(toks, p + 2 * k, 11) == Some((n - k) as nat) && self.errors@
                    == old(self).errors@,
                self.evolved_from(*old(self)),
                !starts_no_expr(old(self).cur_spec().ttype),
                self.pos > old(self).pos,
                old(self).single_operand_at(11) ==> self.pos == old(self).pos + 1 && left == single_expr(
                    old(self).cur_spec(),
                ) && self.errors@ == old(self).errors@,
                old(self).simple_equality_at(11) ==> self.pos == old(self).pos + 3 && left
                    == old(self).simple_equality_expr() && self.errors@ == old(self).errors@,
            decreases self.remaining(),
        {
            let ghost i = p + 2 * k;
            proof {
                if ch {
                    assert(kind_at(toks, i + 2) == self.ty(i + 2));
                    assert(kind_at(toks, i + 3) == self.ty(i + 3));
                    assert(k < n);
                    assert(level_op(11, kind_at(toks, i + 1)));
                    assert(op_chain_from(toks, i + 2, 11) is Some);
                    assert(single_operand(kind_at(toks, i + 2), kind_at(toks, i + 3)));
                    assert(!continues_at(10, kind_at(toks, i + 3)));
                }
            }
            let op = self.cur().clone();
            self.advance();
            let right = self.sql_expr_and()?;
            left = SqlExpr::BinaryOp { left: Box::new(left), op, right: Box::new(right) };
            proof {
                k = k + 1;
            }
        }
        proof {
            if ch {
                assert(k == n);
            }
        }
        Some(left)
    }

    /// `not_expr [AND not_expr]*`.
    pub(crate) fn sql_expr_and(&mut self) -> (r: Option<SqlExpr>)
        requires
            old(self).wf(),
        ensures
            final(self).evolved_from(*old(self)),
            r is None ==> final(self).errors@.len() > old(self).errors@.len(),
            r is Some ==> final(self).pos > old(self).pos,
            op_chain_from(old(self).tokens@, old(self).pos as int, 10) matches Some(n) ==> r == Some(
                chain_expr(old(self).tokens@, old(self).pos as int, n),
            ) && final(self).pos == old(self).pos + 2 * n + 1 && final(self).errors@ == old(self).errors@,
            old(self).single_operand_at(10) ==> r == Some(single_expr(old(self).cur_spec()))
                && final(self).pos == old(self).pos + 1 && final(self).errors@ == old(self).errors@,
            old(self).simple_equality_at(10) ==> r == Some(old(self).simple_equality_expr())
                && final(self).pos == old(self).pos + 3 && final(self).errors@ == old(self).errors@,
            starts_no_expr(old(self).cur_spec().ttype) ==> r is None && final(self).pos == old(self).pos
                && final(self).one_more_error(*old(self), old(self).cur_spec(), Rule::Syntax)
                && final(self).errors@.last().msg@ == "Unexpected Token in expression"@,
        decreases old(self).remaining(), 13int,
    {
        let ghost toks = old(self).tokens@;
        let ghost p = old(self).pos as int;
        let ghost ch = op_chain_from(toks, p, 10) is Some;
        let ghost n: nat = op_chain_from(toks, p, 10)->Some_0;
        proof {
            if ch {
                assert(kind_at(toks, p) == old(self).ty(p));
                assert(kind_at(toks, p + 1) == old(self).ty(p + 1));
            }
        }
        let mut left = self.sql_expr_not()?;
        let ghost mut k: nat = 0;
        while self.is_keyword(Keyword::AND)
            invariant
                toks == old(self).tokens@,
                p == old(self).pos,
                ch == (op_chain_from(toks, p, 10) is Some),
                n == op_chain_from(toks, p, 10)->Some_0,
                ch ==> k <= n && self.pos == p + 2 * k + 1 && left == chain_expr(toks, p, k)
                    && op_chain_from(toks, p + 2 * k, 10) == Some((n - k) as nat) && self.errors@
                    == old(self).errors@,
                self.evolved_from(*old(self)),
                !starts_no_expr(old(self).cur_spec().ttype),
                self.pos > old(self).pos,
                old(self).single_operand_at(10) ==> self.pos == old(self).pos + 1 && left == single_expr(
                    old(self).cur_spec(),
                ) && self.errors@ == old(self).errors@,
                old(self).simple_equality_at(10) ==> self.pos == old(self).pos + 3 && left
                    == old(self).simple_equality_expr() && self.errors@ == old(self).errors@,
            decreases self.remaining(),
        {
            let ghost i = p + 2 * k;
            proof {
                if ch {
                    assert(kind_at(toks, i + 2) == self.ty(i + 2));
                    assert(kind_at(toks, i + 3) == self.ty(i + 3));
                    assert(k < n);
                    assert(level_op(10, kind_at(toks, i + 1)));
                    assert(op_chain_from(toks, i + 2, 10) is Some);
                    assert(single_operand(kind_at(toks, i + 2), kind_at(toks, i + 3)));
                    assert(!continues_at(9, kind_at(toks, i + 3)));
                }
            }
            let op = self.cur().clone();
            self.advance();
            let right = self.sql_expr_not()?;
            left = SqlExpr::BinaryOp { left: Box::new(left), op, right: Box::new(right) };
            proof {
                k = k + 1;
            }
        }
        proof {
            if ch {
                assert(k == n);
            }
        }
        Some(left)
    }

    /// `NOT not_expr` or an equality expression.
    pub(crate) fn sql_expr_not(&mut self) -> (r: Option<SqlExpr>)
        requires
            old(self).wf(),
        ensures
            final(self).evolved_from(*old(self)),
            r is None ==> final(self).errors@.len() > old(self).errors@.len(),
            r is Some ==> final(self).pos > old(self).pos,
            old(self).single_operand_at(9) ==> r == Some(single_expr(old(self).cur_spec()))
                && final(self).pos == old(self).pos + 1 && final(self).errors@ == old(self).errors@,
            ({
                let p = old(self).pos as int;
                old(self).ty(p) == Type::Keyword(Keyword::NOT) && single_operand(old(self).ty(p + 1), old(self).ty(p + 2))
                    && !continues_at(9, old(self).ty(p + 2)) ==> r == Some(
                    SqlExpr::UnaryOp { op: old(self).tok(p), operand: Box::new(single_expr(old(self).tok(p + 1))) },
                ) && final(self).pos == p + 2 && final(self).errors@ == old(self).errors@
            }),
            old(self).simple_equality_at(9) ==> r == Some(old(self).simple_equality_expr())
                && final(self).pos == old(self).pos + 3 && final(self).errors@ == old(self).errors@,
            starts_no_expr(old(self).cur_spec().ttype) ==> r is None && final(self).pos == old(self).pos
                && final(self).one_more_error(*old(self), old(self).cur_spec(), Rule::Syntax)
                && final(self).errors@.last().msg@ == "Unexpected Token in expression"@,
        decreases old(self).remaining(), 12int,
    {
        if self.is_keyword(Keyword::NOT) {
            let op = self.cur().clone();
            self.advance();
            let operand = self.sql_expr_not()?;
            return Some(SqlExpr::UnaryOp { op, operand: Box::new(operand) });
        }
        self.sql_expr_equality()
    }

    /// Whether the current token is NOT and the one after it makes it the negation of
    /// IN, LIKE, GLOB, REGEXP, MATCH or BETWEEN.
    fn at_negated_predicate(&self) -> (r: bool)
        requires
            self.wf(),
        ensures
            r == (self.cur_spec().ttype == Type::Keyword(Keyword::NOT) && negatable(self.ty(self.pos + 1))),
            r ==> self.pos + 1 < self.tokens.len(),
    {
        if !self.is_keyword(Keyword::NOT) {
            return false;
        }
        match self.peek_at(1) {
            Some(tok) => match &tok.ttype {
                Type::Keyword(k) => *k == Keyword::IN || *k == Keyword::LIKE || *k == Keyword::GLOB
                    || *k == Keyword::REGEXP || *k == Keyword::MATCH || *k == Keyword::BETWEEN,
                _ => false,
            },
            None => false,
        }
    }

    /// The pattern operator at the current token: LIKE, GLOB, REGEXP or MATCH.
    fn pattern_op(&self) -> (r: Option<Keyword>)
        requires
            self.wf(),
        ensures
            r == pattern_keyword(self.cur_spec().ttype),
            r matches Some(k) ==> self.cur_spec().ttype == Type::Keyword(k),
    {
        if self.is_keyword(Keyword::LIKE) {
            Some(Keyword::LIKE)
        } else if self.is_keyword(Keyword::GLOB) {
            Some(Keyword::GLOB)
        } else if self.is_keyword(Keyword::REGEXP) {
            Some(Keyword::REGEXP)
        } else if self.is_keyword(Keyword::MATCH) {
            Some(Keyword::MATCH)
        } else {
            None
        }
    }

    /// A comparison followed by any number of equality-level postfixes: `IS [NOT] NULL`,
    /// `IS [NOT] expr`, `ISNULL`, `NOTNULL`, `[NOT] IN (...)`, `[NOT] LIKE|GLOB|REGEXP|MATCH
    /// pattern [ESCAPE expr]`, `[NOT] BETWEEN low AND high` and `= == != <>`.
    pub(crate) fn sql_expr_equality(&mut self) -> (r: Option<SqlExpr>)
        requires
            old(self).wf(),
        ensures
            final(self).evolved_from(*old(self)),
            r is None ==> final(self).errors@.len() > old(self).errors@.len(),
            r is Some ==> final(self).pos > old(self).pos,
            old(self).single_operand_at(8) ==> r == Some(single_expr(old(self).cur_spec()))
                && final(self).pos == old(self).pos + 1 && final(self).errors@ == old(self).errors@,
            old(self).simple_equality_at(8) ==> r == Some(old(self).simple_equality_expr())
                && final(self).pos == old(self).pos + 3 && final(self).errors@ == old(self).errors@,
            old(self).simple_between_at(8) ==> r == Some(old(self).simple_between_expr())
                && final(self).pos == old(self).simple_between_end() && final(self).errors@ == old(self).errors@,
            old(self).simple_in_at(8) matches Some(m) ==> (r matches Some(e) && old(self).simple_in_expr(e, m))
                && final(self).pos == old(self).pred_index() + 2 + 2 * m && final(self).errors@ == old(self).errors@,
            old(self).simple_like_at(8) ==> r == Some(old(self).simple_like_expr()) && final(self).pos == old(
                self,
            ).pred_index() + 2 && final(self).errors@ == old(self).errors@,
            old(self).simple_isnull_at(8) ==> r == Some(old(self).simple_isnull_expr()) && final(self).pos == old(
                self,
            ).simple_isnull_end() && final(self).errors@ == old(self).errors@,
            starts_no_expr(old(self).cur_spec().ttype) ==> r is None && final(self).pos == old(self).pos
                && final(self).one_more_error(*old(self), old(self).cur_spec(), Rule::Syntax)
                && final(self).errors@.last().msg@ == "Unexpected Token in expression"@,
        decreases old(self).remaining(), 11int,
    {
        let mut left = self.sql_expr_comparison()?;
        loop
            invariant
                self.evolved_from(*old(self)),
                !starts_no_expr(old(self).cur_spec().ttype),
                self.pos > old(self).pos,
                old(self).simple_between_at(8) ==> self.errors@ == old(self).errors@ && ((self.pos
                    == old(self).pos + 1 && left == single_expr(old(self).cur_spec())) || (self.pos
                    == old(self).simple_between_end() && left == old(self).simple_between_expr())),
                old(self).simple_in_at(8) matches Some(m) ==> self.errors@ == old(self).errors@ && ((self.pos
                    == old(self).pos + 1 && left == single_expr(old(self).cur_spec())) || (self.pos
                    == old(self).pred_index() + 2 + 2 * m && old(self).simple_in_expr(left, m))),
                old(self).simple_like_at(8) ==> self.errors@ == old(self).errors@ && ((self.pos
                    == old(self).pos + 1 && left == single_expr(old(self).cur_spec())) || (self.pos
                    == old(self).pred_index() + 2 && left == old(self).simple_like_expr())),
                old(self).simple_isnull_at(8) ==> self.errors@ == old(self).errors@ && ((self.pos
                    == old(self).pos + 1 && left == single_expr(old(self).cur_spec())) || (self.pos
                    == old(self).simple_isnull_end() && left == old(self).simple_isnull_expr())),
                old(self).single_operand_at(8) ==> self.pos == old(self).pos + 1 && left == single_expr(
                    old(self).cur_spec(),
                ) && self.errors@ == old(self).errors@,
                old(self).simple_equality_at(8) ==> self.errors@ == old(self).errors@ && ((self.pos
                    == old(self).pos + 1 && left == single_expr(old(self).cur_spec())) || (self.pos
                    == old(self).pos + 3 && left == old(self).simple_equality_expr())),
            ensures
                self.evolved_from(*old(self)),
                self.pos > old(self).pos,
                old(self).single_operand_at(8) ==> self.pos == old(self).pos + 1 && left == single_expr(
                    old(self).cur_spec(),
                ) && self.errors@ == old(self).errors@,
                old(self).simple_equality_at(8) ==> self.errors@ == old(self).errors@ && self.pos
                    == old(self).pos + 3 && left == old(self).simple_equality_expr(),
                old(self).simple_between_at(8) ==> self.errors@ == old(self).errors@ && self.pos
                    == old(self).simple_between_end() && left == old(self).simple_between_expr(),
                old(self).simple_in_at(8) matches Some(m) ==> self.errors@ == old(self).errors@ && self.pos
                    == old(self).pred_index() + 2 + 2 * m && old(self).simple_in_expr(left, m),
                old(self).simple_like_at(8) ==> self.errors@ == old(self).errors@ && self.pos == old(
                    self,
                ).pred_index() + 2 && left == old(self).simple_like_expr(),
                old(self).simple_isnull_at(8) ==> self.errors@ == old(self).errors@ && self.pos == old(
                    self,
                ).simple_isnull_end() && left == old(self).simple_isnull_expr(),
            decreases self.remaining(),
        {
            if self.is_keyword(Keyword::IS) {
                self.advance();
                let negated = if self.is_keyword(Keyword::NOT) {
                    self.advance();
                    true
                } else {
                    false
                };
                if self.is_keyword(Keyword::NULL) {
                    self.advance();
                    left = SqlExpr::IsNull { expr: Box::new(left), negated };
                } else {
                    let right = self.sql_expr_comparison()?;
                    let at = self.cur().clone();
                    let kind = if negated {
                        Keyword::ISNULL
                    } else {
                        Keyword::IS
                    };
                    let op = Token { ttype: Type::Keyword(kind), start: at.start, end: at.end, line: at.line };
                    left = SqlExpr::BinaryOp { left: Box::new(left), op, right: Box::new(right) };
                }
                continue;
            }
            if self.is_keyword(Keyword::ISNULL) {
                self.advance();
                left = SqlExpr::IsNull { expr: Box::new(left), negated: false };
                continue;
            }
            if self.is_keyword(Keyword::NOTNULL) {
                self.advance();
                left = SqlExpr::IsNull { expr: Box::new(left), negated: true };
                continue;
            }
            let negated = if self.is_keyword(Keyword::NOT) {
                if self.at_negated_predicate() {
                    self.advance();
                    true
                } else {
                    break;
                }
            } else {
                false
            };
            if self.is_keyword(Keyword::IN) {
                self.advance();
                self.consume(Type::BraceLeft);
                if self.at_select() {
                    let sel = self.select_stmt_inner()?;
                    self.consume(Type::BraceRight);
                    left = SqlExpr::InSelect { expr: Box::new(left), negated, subquery: Box::new(sel) };
                } else {
                    let values = self.expr_row()?;
                    left = SqlExpr::InList { expr: Box::new(left), negated, values };
                }
                continue;
            }
            if let Some(op) = self.pattern_op() {
                self.advance();
                let pattern = self.sql_expr_comparison()?;
                let escape = if self.is_keyword(Keyword::ESCAPE) {
                    self.advance();
                    Some(Box::new(self.sql_expr_comparison()?))
                } else {
                    None
                };
                left = SqlExpr::Like { expr: Box::new(left), negated, op, pattern: Box::new(pattern), escape };
                continue;
            }
            if self.is_keyword(Keyword::BETWEEN) {
                self.advance();
                let low = self.sql_expr_comparison()?;
                self.consume_keyword(Keyword::AND);
                let high = self.sql_expr_comparison()?;
                left = SqlExpr::Between { expr: Box::new(left), negated, low: Box::new(low), high: Box::new(high) };
                continue;
            }
            if self.is(Type::Equal) || self.is(Type::BangEqual) || self.is(Type::LessGreater) {
                let op = self.cur().clone();
                self.advance();
                let right = self.sql_expr_comparison()?;
                left = SqlExpr::BinaryOp { left: Box::new(left), op, right: Box::new(right) };
                continue;
            }
            break;
        }
        Some(left)
    }

    /// `bitwise [< <= > >= bitwise]*`.
    pub(crate) fn sql_expr_comparison(&mut self) -> (r: Option<SqlExpr>)
        requires
            old(self).wf(),
        ensures
            final(self).evolved_from(*old(self)),
            r is None ==> final(self).errors@.len() > old(self).errors@.len(),
            r is Some ==> final(self).pos > old(self).pos,
            op_chain_from(old(self).tokens@, old(self).pos as int, 7) matches Some(n) ==> r == Some(
                chain_expr(old(self).tokens@, old(self).pos as int, n),
            ) && final(self).pos == old(self).pos + 2 * n + 1 && final(self).errors@ == old(self).errors@,
            old(self).single_operand_at(7) ==> r == Some(single_expr(old(self).cur_spec()))
                && final(self).pos == old(self).pos + 1 && final(self).errors@ == old(self).errors@,
            starts_no_expr(old(self).cur_spec().ttype) ==> r is None && final(self).pos == old(self).pos
                && final(self).one_more_error(*old(self), old(self).cur_spec(), Rule::Syntax)
                && final(self).errors@.last().msg@ == "Unexpected Token in expression"@,
        decreases old(self).remaining(), 10int,
    {
        let ghost toks = old(self).tokens@;
        let ghost p = old(self).pos as int;
        let ghost ch = op_chain_from(toks, p, 7) is Some;
        let ghost n: nat = op_chain_from(toks, p, 7)->Some_0;
        proof {
            if ch {
                assert(kind_at(toks, p) == old(self).ty(p));
                assert(kind_at(toks, p + 1) == old(self).ty(p + 1));
            }
        }
        let mut left = self.sql_expr_bitwise()?;
        let ghost mut k: nat = 0;
        while self.is(Type::Less) || self.is(Type::LessEqual) || self.is(Type::Greater) || self.is(Type::GreaterEqual)
            invariant
                toks == old(self).tokens@,
                p == old(self).pos,
                ch == (op_chain_from(toks, p, 7) is Some),
                n == op_chain_from(toks, p, 7)->Some_0,
                ch ==> k <= n && self.pos == p + 2 * k + 1 && left == chain_expr(toks, p, k)
                    && op_chain_from(toks, p + 2 * k, 7) == Some((n - k) as nat) && self.errors@
                    == old(self).errors@,
                self.evolved_from(*old(self)),
                !starts_no_expr(old(self).cur_spec().ttype),
                self.pos > old(self).pos,
                old(self).single_operand_at(7) ==> self.pos == old(self).pos + 1 && left == single_expr(
                    old(self).cur_spec(),
                ) && self.errors@ == old(self).errors@,
            decreases self.remaining(),
        {
            let ghost i = p + 2 * k;
            proof {
                if ch {
                    assert(kind_at(toks, i + 2) == self.ty(i + 2));
                    assert(kind_at(toks, i + 3) == self.ty(i + 3));
                    assert(k < n);
                    assert(level_op(7, kind_at(toks, i + 1)));
                    assert(op_chain_from(toks, i + 2, 7) is Some);
                    assert(single_operand(kind_at(toks, i + 2), kind_at(toks, i + 3)));
                    assert(!continues_at(6, kind_at(toks, i + 3)));
                }
            }
            let op = self.cur().clone();
            self.advance();
            let right = self.sql_expr_bitwise()?;
            left = SqlExpr::BinaryOp { left: Box::new(left), op, right: Box::new(right) };
            proof {
                k = k + 1;
            }
        }
        proof {
            if ch {
                assert(k == n);
            }
        }
        Some(left)
    }

    /// `addition [<< >> & | addition]*`.
    pub(crate) fn sql_expr_bitwise(&mut self) -> (r: Option<SqlExpr>)
        requires
            old(self).wf(),
        ensures
            final(self).evolved_from(*old(self)),
            r is None ==> final(self).errors@.len() > old(self).errors@.len(),
            r is Some ==> final(self).pos > old(self).pos,
            op_chain_from(old(self).tokens@, old(self).pos as int, 6) matches Some(n) ==> r == Some(
                chain_expr(old(self).tokens@, old(self).pos as int, n),
            ) && final(self).pos == old(self).pos + 2 * n + 1 && final(self).errors@ == old(self).errors@,
            old(self).single_operand_at(6) ==> r == Some(single_expr(old(self).cur_spec()))
                && final(self).pos == old(self).pos + 1 && final(self).errors@ == old(self).errors@,
            starts_no_expr(old(self).cur_spec().ttype) ==> r is None && final(self).pos == old(self).pos
                && final(self).one_more_error(*old(self), old(self).cur_spec(), Rule::Syntax)
                && final(self).errors@.last().msg@ == "Unexpected Token in expression"@,
        decreases old(self).remaining(), 9int,
    {
        let ghost toks = old(self).tokens@;
        let ghost p = old(self).pos as int;
        let ghost ch = op_chain_from(toks, p, 6) is Some;
        let ghost n: nat = op_chain_from(toks, p, 6)->Some_0;
        proof {
            if ch {
                assert(kind_at(toks, p) == old(self).ty(p));
                assert(kind_at(toks, p + 1) == old(self).ty(p + 1));
            }
        }
        let mut left = self.sql_expr_addition()?;
        let ghost mut k: nat = 0;
        while self.is(Type::ShiftLeft) || self.is(Type::ShiftRight) || self.is(Type::Ampersand) || self.is(Type::Pipe)
            invariant
                toks == old(self).tokens@,
                p == old(self).pos,
                ch == (op_chain_from(toks, p, 6) is Some),
                n == op_chain_from(toks, p, 6)->Some_0,
                ch ==> k <= n && self.pos == p + 2 * k + 1 && left == chain_expr(toks, p, k)
                    && op_chain_from(toks, p + 2 * k, 6) == Some((n - k) as nat) && self.errors@
                    == old(self).errors@,
                self.evolved_from(*old(self)),
                !starts_no_expr(old(self).cur_spec().ttype),
                self.pos > old(self).pos,
                old(self).single_operand_at(6) ==> self.pos == old(self).pos + 1 && left == single_expr(
                    old(self).cur_spec(),
                ) && self.errors@ == old(self).errors@,
            decreases self.remaining(),
        {
            let ghost i = p + 2 * k;
            proof {
                if ch {
                    assert(kind_at(toks, i + 2) == self.ty(i + 2));
                    assert(kind_at(toks, i + 3) == self.ty(i + 3));
                    assert(k < n);
                    assert(level_op(6, kind_at(toks, i + 1)));
                    assert(op_chain_from(toks, i + 2, 6) is Some);
                    assert(single_operand(kind_at(toks, i + 2), kind_at(toks, i + 3)));
                    assert(!continues_at(5, kind_at(toks, i + 3)));
                }
            }
            let op = self.cur().clone();
            self.advance();
            let right = self.sql_expr_addition()?;
            left = SqlExpr::BinaryOp { left: Box::new(left), op, right: Box::new(right) };
            proof {
                k = k + 1;
            }
        }
        proof {
            if ch {
                assert(k == n);
            }
        }
        Some(left)
    }

    /// `multiplication [+ - multiplication]*`.
    pub(crate) fn sql_expr_addition(&mut self) -> (r: Option<SqlExpr>)
        requires
            old(self).wf(),
        ensures
            final(self).evolved_from(*old(self)),
            r is None ==> final(self).errors@.len() > old(self).errors@.len(),
            r is Some ==> final(self).pos > old(self).pos,
            old(self).single_operand_at(5) ==> r == Some(single_expr(old(self).cur_spec()))
                && final(self).pos == old(self).pos + 1 && final(self).errors@ == old(self).errors@,
            sum_of_product_in(old(self).tokens@, old(self).pos as int) ==> r == Some(
                sum_of_product_expr_in(old(self).tokens@, old(self).pos as int),
            ) && final(self).pos == old(self).pos + 5 && final(self).errors@ == old(self).errors@,
            op_chain_from(old(self).tokens@, old(self).pos as int, 5) matches Some(n) ==> r == Some(
                chain_expr(old(self).tokens@, old(self).pos as int, n),
            ) && final(self).pos == old(self).pos + 2 * n + 1 && final(self).errors@ == old(self).errors@,
            starts_no_expr(old(self).cur_spec().ttype) ==> r is None && final(self).pos == old(self).pos
                && final(self).one_more_error(*old(self), old(self).cur_spec(), Rule::Syntax)
                && final(self).errors@.last().msg@ == "Unexpected Token in expression"@,
        decreases old(self).remaining(), 8int,
    {
        let ghost toks = old(self).tokens@;
        let ghost p = old(self).pos as int;
        let ghost ch = op_chain_from(toks, p, 5) is Some;
        let ghost n: nat = op_chain_from(toks, p, 5)->Some_0;
        proof {
            if ch {
                assert(kind_at(toks, p) == old(self).ty(p));
                assert(kind_at(toks, p + 1) == old(self).ty(p + 1));
            }
        }
        let mut left = self.sql_expr_multiplication()?;
        let ghost mut k: nat = 0;
        while self.is(Type::Plus) || self.is(Type::Minus)
            invariant
                toks == old(self).tokens@,
                p == old(self).pos,
                ch == (op_chain_from(toks, p, 5) is Some),
                n == op_chain_from(toks, p, 5)->Some_0,
                ch ==> k <= n && self.pos == p + 2 * k + 1 && left == chain_expr(toks, p, k)
                    && op_chain_from(toks, p + 2 * k, 5) == Some((n - k) as nat) && self.errors@
                    == old(self).errors@,
                self.evolved_from(*old(self)),
                !starts_no_expr(old(self).cur_spec().ttype),
                self.pos > old(self).pos,
                self.tokens@ == old(self).tokens@,
                old(self).single_operand_at(5) ==> self.pos == old(self).pos + 1 && left == single_expr(
                    old(self).cur_spec(),
                ) && self.errors@ == old(self).errors@,
                sum_of_product_in(old(self).tokens@, old(self).pos as int) ==> self.errors@ == old(self).errors@ && ((
                self.pos == old(self).pos + 1 && left == single_expr(old(self).cur_spec())) || (self.pos == old(
                    self,
                ).pos + 5 && left == sum_of_product_expr_in(old(self).tokens@, old(self).pos as int))),
            decreases self.remaining(),
        {
            let ghost i = p + 2 * k;
            proof {
                if ch {
                    assert(kind_at(toks, i + 2) == self.ty(i + 2));
                    assert(kind_at(toks, i + 3) == self.ty(i + 3));
                    assert(k < n);
                    assert(level_op(5, kind_at(toks, i + 1)));
                    assert(op_chain_from(toks, i + 2, 5) is Some);
                    assert(single_operand(kind_at(toks, i + 2), kind_at(toks, i + 3)));
                    assert(!continues_at(4, kind_at(toks, i + 3)));
                }
            }
            let op = self.cur().clone();
            self.advance();
            let right = self.sql_expr_multiplication()?;
            left = SqlExpr::BinaryOp { left: Box::new(left), op, right: Box::new(right) };
            proof {
                k = k + 1;
            }
        }
        proof {
            if ch {
                assert(k == n);
            }
        }
        Some(left)
    }

    /// `concat [* / % concat]*`.
    pub(crate) fn sql_expr_multiplication(&mut self) -> (r: Option<SqlExpr>)
        requires
            old(self).wf(),
        ensures
            final(self).evolved_from(*old(self)),
            r is None ==> final(self).errors@.len() > old(self).errors@.len(),
            r is Some ==> final(self).pos > old(self).pos,
            op_chain_from(old(self).tokens@, old(self).pos as int, 4) matches Some(n) ==> r == Some(
                chain_expr(old(self).tokens@, old(self).pos as int, n),
            ) && final(self).pos == old(self).pos + 2 * n + 1 && final(self).errors@ == old(self).errors@,
            old(self).single_operand_at(4) ==> r == Some(single_expr(old(self).cur_spec()))
                && final(self).pos == old(self).pos + 1 && final(self).errors@ == old(self).errors@,
            simple_product_in(old(self).tokens@, old(self).pos as int) ==> r == Some(
                product_expr_in(old(self).tokens@, old(self).pos as int),
            ) && final(self).pos == old(self).pos + 3 && final(self).errors@ == old(self).errors@,
            starts_no_expr(old(self).cur_spec().ttype) ==> r is None && final(self).pos == old(self).pos
                && final(self).one_more_error(*old(self), old(self).cur_spec(), Rule::Syntax)
                && final(self).errors@.last().msg@ == "Unexpected Token in expression"@,
        decreases old(self).remaining(), 7int,
    {
        let ghost toks = old(self).tokens@;
        let ghost p = old(self).pos as int;
        let ghost ch = op_chain_from(toks, p, 4) is Some;
        let ghost n: nat = op_chain_from(toks, p, 4)->Some_0;
        proof {
            if ch {
                assert(kind_at(toks, p) == old(self).ty(p));
                assert(kind_at(toks, p + 1) == old(self).ty(p + 1));
            }
        }
        let mut left = self.sql_expr_concat()?;
        let ghost mut k: nat = 0;
        while self.is(Type::Asterisk) || self.is(Type::Slash) || self.is(Type::Percent)
            invariant
                toks == old(self).tokens@,
                p == old(self).pos,
                ch == (op_chain_from(toks, p, 4) is Some),
                n == op_chain_from(toks, p, 4)->Some_0,
                ch ==> k <= n && self.pos == p + 2 * k + 1 && left == chain_expr(toks, p, k)
                    && op_chain_from(toks, p + 2 * k, 4) == Some((n - k) as nat) && self.errors@
                    == old(self).errors@,
                self.evolved_from(*old(self)),
                !starts_no_expr(old(self).cur_spec().ttype),
                self.pos > old(self).pos,
                self.tokens@ == old(self).tokens@,
                old(self).single_operand_at(4) ==> self.pos == old(self).pos + 1 && left == single_expr(
                    old(self).cur_spec(),
                ) && self.errors@ == old(self).errors@,
                simple_product_in(old(self).tokens@, old(self).pos as int) ==> self.errors@ == old(self).errors@ && ((
                self.pos == old(self).pos + 1 && left == single_expr(old(self).cur_spec())) || (self.pos == old(
                    self,
                ).pos + 3 && left == product_expr_in(old(self).tokens@, old(self).pos as int))),
            decreases self.remaining(),
        {
            let ghost i = p + 2 * k;
            proof {
                if ch {
                    assert(kind_at(toks, i + 2) == self.ty(i + 2));
                    assert(kind_at(toks, i + 3) == self.ty(i + 3));
                    assert(k < n);
                    assert(level_op(4, kind_at(toks, i + 1)));
                    assert(op_chain_from(toks, i + 2, 4) is Some);
                    assert(single_operand(kind_at(toks, i + 2), kind_at(toks, i + 3)));
                    assert(!continues_at(3, kind_at(toks, i + 3)));
                }
            }
            let op = self.cur().clone();
            self.advance();
            let right = self.sql_expr_concat()?;
            left = SqlExpr::BinaryOp { left: Box::new(left), op, right: Box::new(right) };
            proof {
                k = k + 1;
            }
        }
        proof {
            if ch {
                assert(k == n);
            }
        }
        Some(left)
    }

    /// `unary [|| unary]*`.
    pub(crate) fn sql_expr_concat(&mut self) -> (r: Option<SqlExpr>)
        requires
            old(self).wf(),
        ensures
            final(self).evolved_from(*old(self)),
            r is None ==> final(self).errors@.len() > old(self).errors@.len(),
            r is Some ==> final(self).pos > old(self).pos,
            op_chain_from(old(self).tokens@, old(self).pos as int, 3) matches Some(n) ==> r == Some(
                chain_expr(old(self).tokens@, old(self).pos as int, n),
            ) && final(self).pos == old(self).pos + 2 * n + 1 && final(self).errors@ == old(self).errors@,
            old(self).single_operand_at(3) ==> r == Some(single_expr(old(self).cur_spec()))
                && final(self).pos == old(self).pos + 1 && final(self).errors@ == old(self).errors@,
            starts_no_expr(old(self).cur_spec().ttype) ==> r is None && final(self).pos == old(self).pos
                && final(self).one_more_error(*old(self), old(self).cur_spec(), Rule::Syntax)
                && final(self).errors@.last().msg@ == "Unexpected Token in expression"@,
        decreases old(self).remaining(), 6int,
    {
        let ghost toks = old(self).tokens@;
        let ghost p = old(self).pos as int;
        let ghost ch = op_chain_from(toks, p, 3) is Some;
        let ghost n: nat = op_chain_from(toks, p, 3)->Some_0;
        proof {
            if ch {
                assert(kind_at(toks, p) == old(self).ty(p));
                assert(kind_at(toks, p + 1) == old(self).ty(p + 1));
            }
        }
        let mut left = self.sql_expr_unary()?;
        let ghost mut k: nat = 0;
        while self.is(Type::PipePipe)
            invariant
                toks == old(self).tokens@,
                p == old(self).pos,
                ch == (op_chain_from(toks, p, 3) is Some),
                n == op_chain_from(toks, p, 3)->Some_0,
                ch ==> k <= n && self.pos == p + 2 * k + 1 && left == chain_expr(toks, p, k)
                    && op_chain_from(toks, p + 2 * k, 3) == Some((n - k) as nat) && self.errors@
                    == old(self).errors@,
                self.evolved_from(*old(self)),
                !starts_no_expr(old(self).cur_spec().ttype),
                self.pos > old(self).pos,
                old(self).single_operand_at(3) ==> self.pos == old(self).pos + 1 && left == single_expr(
                    old(self).cur_spec(),
                ) && self.errors@ == old(self).errors@,
            decreases self.remaining(),
        {
            let ghost i = p + 2 * k;
            proof {
                if ch {
                    assert(kind_at(toks, i + 2) == self.ty(i + 2));
                    assert(kind_at(toks, i + 3) == self.ty(i + 3));
                    assert(k < n);
                    assert(level_op(3, kind_at(toks, i + 1)));
                    assert(op_chain_from(toks, i + 2, 3) is Some);
                    assert(single_operand(kind_at(toks, i + 2), kind_at(toks, i + 3)));
                    assert(!continues_at(2, kind_at(toks, i + 3)));
                }
            }
            let op = self.cur().clone();
            self.advance();
            let right = self.sql_expr_unary()?;
            left = SqlExpr::BinaryOp { left: Box::new(left), op, right: Box::new(right) };
            proof {
                k = k + 1;
            }
        }
        proof {
            if ch {
                assert(k == n);
            }
        }
        Some(left)
    }

    /// `- + ~` applied to a unary expression, or a postfix expression.
    pub(crate) fn sql_expr_unary(&mut self) -> (r: Option<SqlExpr>)
        requires
            old(self).wf(),
        ensures
            final(self).evolved_from(*old(self)),
            r is None ==> final(self).errors@.len() > old(self).errors@.len(),
            r is Some ==> final(self).pos > old(self).pos,
            old(self).single_operand_at(2) ==> r == Some(single_expr(old(self).cur_spec()))
                && final(self).pos == old(self).pos + 1 && final(self).errors@ == old(self).errors@,
            ({
                let p = old(self).pos as int;
                let t = old(self).ty(p);
                (t == Type::Minus || t == Type::Plus || t == Type::Tilde) && single_operand(old(self).ty(p + 1), old(
                    self,
                ).ty(p + 2)) && !continues_at(2, old(self).ty(p + 2)) ==> r == Some(
                    SqlExpr::UnaryOp { op: old(self).tok(p), operand: Box::new(single_expr(old(self).tok(p + 1))) },
                ) && final(self).pos == p + 2 && final(self).errors@ == old(self).errors@
            }),
            starts_no_expr(old(self).cur_spec().ttype) ==> r is None && final(self).pos == old(self).pos
                && final(self).one_more_error(*old(self), old(self).cur_spec(), Rule::Syntax)
                && final(self).errors@.last().msg@ == "Unexpected Token in expression"@,
        decreases old(self).remaining(), 5int,
    {
        if self.is(Type::Minus) || self.is(Type::Plus) || self.is(Type::Tilde) {
            let op = self.cur().clone();
            self.advance();
            let operand = self.sql_expr_unary()?;
            return Some(SqlExpr::UnaryOp { op, operand: Box::new(operand) });
        }
        self.sql_expr_postfix()
    }

    /// An atom followed by any number of `COLLATE name`.
    pub(crate) fn sql_expr_postfix(&mut self) -> (r: Option<SqlExpr>)
        requires
            old(self).wf(),
        ensures
            final(self).evolved_from(*old(self)),
            r is None ==> final(self).errors@.len() > old(self).errors@.len(),
            r is Some ==> final(self).pos > old(self).pos,
            old(self).single_operand_at(1) ==> r == Some(single_expr(old(self).cur_spec()))
                && final(self).pos == old(self).pos + 1 && final(self).errors@ == old(self).errors@,
            starts_no_expr(old(self).cur_spec().ttype) ==> r is None && final(self).pos == old(self).pos
                && final(self).one_more_error(*old(self), old(self).cur_spec(), Rule::Syntax)
                && final(self).errors@.last().msg@ == "Unexpected Token in expression"@,
        decreases old(self).remaining(), 4int,
    {
        let mut left = self.sql_expr_atom()?;
        while self.is_keyword(Keyword::COLLATE)
            invariant
                self.evolved_from(*old(self)),
                !starts_no_expr(old(self).cur_spec().ttype),
                self.pos > old(self).pos,
                old(self).single_operand_at(1) ==> self.pos == old(self).pos + 1 && left == single_expr(
                    old(self).cur_spec(),
                ) && self.errors@ == old(self).errors@,
            decreases self.remaining(),
        {
            self.advance();
            let collation = self.consume_ident("https://www.sqlite.org/lang_expr.html", "collation_name")?;
            left = SqlExpr::Collate { expr: Box::new(left), collation };
        }
        Some(left)
    }

    /// An atom: a literal, a column reference (`column`, `table.column`,
    /// `schema.table.column`, `table.*`), a function call, `(expr)`, `(select)`,
    /// `CAST(expr AS type)`, `CASE ... END`, `EXISTS (select)`, a bind parameter or `*`.
    pub(crate) fn sql_expr_atom(&mut self) -> (r: Option<SqlExpr>)
        requires
            old(self).wf(),
        ensures
            final(self).evolved_from(*old(self)),
            r is None ==> final(self).errors@.len() > old(self).errors@.len(),
            r is Some ==> final(self).pos > old(self).pos,
            is_literal_type(old(self).cur_spec().ttype) ==> r == Some(SqlExpr::Literal(old(self).cur_spec()))
                && final(self).pos == old(self).pos + 1 && final(self).errors@ == old(self).errors@,
            single_operand(old(self).ty(old(self).pos as int), old(self).ty(old(self).pos + 1)) ==> r == Some(
                single_expr(old(self).cur_spec()),
            ) && final(self).pos == old(self).pos + 1 && final(self).errors@ == old(self).errors@,
            ({
                let p = old(self).pos as int;
                old(self).ty(p) matches Type::Ident(name) ==> (old(self).ty(p + 1) != Type::BraceLeft
                    && old(self).ty(p + 1) != Type::Dot ==> r == Some(
                    SqlExpr::ColumnRef {
                        token: old(self).cur_spec(),
                        schema: None,
                        table: None,
                        column: name,
                    },
                ) && final(self).pos == p + 1 && final(self).errors@ == old(self).errors@)
            }),
            ({
                let p = old(self).pos as int;
                &&& old(self).ty(p) matches Type::Ident(a) ==> (old(self).ty(p + 1) == Type::Dot ==> (old(
                    self,
                ).ty(p + 2) matches Type::Ident(b) ==> (old(self).ty(p + 3) != Type::Dot ==> r == Some(
                    SqlExpr::ColumnRef { token: old(self).tok(p + 2), schema: None, table: Some(a), column: b },
                ) && final(self).pos == p + 3 && final(self).errors@ == old(self).errors@)))
                &&& old(self).ty(p) matches Type::Ident(a) ==> (old(self).ty(p + 1) == Type::Dot ==> (old(
                    self,
                ).ty(p + 2) matches Type::Ident(b) ==> (old(self).ty(p + 3) == Type::Dot ==> (old(self).ty(
                    p + 4,
                ) matches Type::Ident(c) ==> r == Some(
                    SqlExpr::ColumnRef {
                        token: old(self).tok(p + 4),
                        schema: Some(a),
                        table: Some(b),
                        column: c,
                    },
                ) && final(self).pos == p + 5 && final(self).errors@ == old(self).errors@))))
            }),
            ({
                let p = old(self).pos as int;
                old(self).ty(p) matches Type::Ident(n) ==> (old(self).ty(p + 1) == Type::BraceLeft ==> (call_args_in(
                    old(self).tokens@,
                    p + 1,
                ) matches Some((d, a, m)) ==> (r matches Some(e) && plain_call_expr(old(self).tokens@, e, n, d, a, m))
                    && final(self).pos == a + 2 * m && final(self).errors@ == old(self).errors@))
            }),
            ({
                let p = old(self).pos as int;
                plain_case_in(old(self).tokens@, p) matches Some((q, m, end)) ==> (r matches Some(e)
                    && plain_case_expr(old(self).tokens@, p, q, m, end, e)) && final(self).pos == end
                    && final(self).errors@ == old(self).errors@
            }),
            ({
                let p = old(self).pos as int;
                old(self).ty(p) == Type::BraceLeft && single_operand(old(self).ty(p + 1), old(self).ty(p + 2))
                    && old(self).ty(p + 2) == Type::BraceRight ==> r == Some(
                    SqlExpr::Paren(Box::new(single_expr(old(self).tok(p + 1)))),
                ) && final(self).pos == p + 3 && final(self).errors@ == old(self).errors@
            }),
            ({
                let p = old(self).pos as int;
                old(self).ty(p) == Type::Keyword(Keyword::CAST) && old(self).ty(p + 1) == Type::BraceLeft
                    && single_operand(old(self).ty(p + 2), old(self).ty(p + 3)) && old(self).ty(p + 3)
                    == Type::Keyword(Keyword::AS) && old(self).ty(p + 4) is Ident && old(self).ty(p + 5)
                    == Type::BraceRight ==> r == Some(
                    SqlExpr::Cast {
                        expr: Box::new(single_expr(old(self).tok(p + 2))),
                        target_type: old(self).ty(p + 4)->Ident_0,
                    },
                ) && final(self).pos == p + 6 && final(self).errors@ == old(self).errors@
            }),
            starts_no_operand(old(self).cur_spec().ttype) ==> r is None && final(self).pos == old(self).pos
                && final(self).one_more_error(*old(self), old(self).cur_spec(), Rule::Syntax)
                && final(self).errors@.last().msg@ == "Unexpected Token in expression"@,
        decreases old(self).remaining(), 3int,
    {
        let cur = self.cur().clone();
        if is_literal(&cur.ttype) {
            self.advance();
            return Some(SqlExpr::Literal(cur));
        }
        match &cur.ttype {
            Type::Ident(name) => {
                let name = name.clone();
                self.advance();
                if self.is(Type::BraceLeft) {
                    return self.sql_expr_function_call(name);
                }
                if self.is(Type::Dot) {
                    self.advance();
                    if let Some(name2) = self.cur_ident() {
                        let col_token = self.cur().clone();
                        self.advance();
                        if self.is(Type::Dot) {
                            self.advance();
                            if let Some(name3) = self.cur_ident() {
                                let col3_token = self.cur().clone();
                                self.advance();
                                return Some(
                                    SqlExpr::ColumnRef {
                                        token: col3_token,
                                        schema: Some(name),
                                        table: Some(name2),
                                        column: name3,
                                    },
                                );
                            }
                        }
                        return Some(
                            SqlExpr::ColumnRef {
                                token: col_token,
                                schema: None,
                                table: Some(name),
                                column: name2,
                            },
                        );
                    } else if self.is(Type::Asterisk) {
                        self.advance();
                        return Some(
                            SqlExpr::ColumnRef {
                                token: cur,
                                schema: None,
                                table: Some(name),
                                column: String::from_str("*"),
                            },
                        );
                    }
                }
                Some(SqlExpr::ColumnRef { token: cur, schema: None, table: None, column: name })
            },
            Type::BraceLeft => {
                self.advance();
                if self.at_select() {
                    let sel = self.select_stmt_inner()?;
                    self.consume(Type::BraceRight);
                    return Some(SqlExpr::Subquery(Box::new(sel)));
                }
                let expr = self.sql_expr()?;
                self.consume(Type::BraceRight);
                Some(SqlExpr::Paren(Box::new(expr)))
            },
            Type::Keyword(Keyword::CAST) => {
                self.advance();
                self.consume(Type::BraceLeft);
                let expr = self.sql_expr()?;
                self.consume_keyword(Keyword::AS);
                let target_type = self.consume_ident("https://www.sqlite.org/lang_expr.html", "type_name")?;
                self.consume(Type::BraceRight);
                Some(SqlExpr::Cast { expr: Box::new(expr), target_type })
            },
            Type::Keyword(Keyword::CASE) => {
                let ghost toks = old(self).tokens@;
                let ghost p = old(self).pos as int;
                let ghost plain = plain_case_in(toks, p) is Some;
                let ghost q = plain_case_in(toks, p)->Some_0.0;
                let ghost m = plain_case_in(toks, p)->Some_0.1;
                let ghost end = plain_case_in(toks, p)->Some_0.2;
                self.advance();
                let operand = if !self.is_keyword(Keyword::WHEN) {
                    Some(Box::new(self.sql_expr()?))
                } else {
                    None
                };
                let mut when_clauses: Vec<(SqlExpr, SqlExpr)> = Vec::new();
                proof {
                    if plain {
                        assert(self.pos == q);
                        assert(when_clauses@ =~= when_pairs(toks, q, 0));
                    }
                }
                while self.is_keyword(Keyword::WHEN)
                    invariant
                        self.evolved_from(*old(self)),
                        old(self).cur_spec().ttype != Type::Semicolon,
                        self.pos > old(self).pos,
                        old(self).cur_spec().ttype == Type::Keyword(Keyword::CASE),
                        self.tokens@ == toks,
                        toks == old(self).tokens@,
                        plain == (plain_case_in(toks, p) is Some),
                        p == old(self).pos,
                        plain ==> when_clauses@.len() <= m && self.pos == q + 4 * when_clauses@.len()
                            && when_pairs_from(toks, self.pos as int) == Some((m - when_clauses@.len()) as nat)
                            && when_clauses@ == when_pairs(toks, q, when_clauses@.len()) && self.errors@
                            == old(self).errors@,
                    decreases self.remaining(),
                {
                    let ghost j = when_clauses@.len();
                    self.advance();
                    let w = self.sql_expr()?;
                    self.consume_keyword(Keyword::THEN);
                    let t = self.sql_expr()?;
                    when_clauses.push((w, t));
                    proof {
                        if plain {
                            assert(when_clauses@ =~= when_pairs(toks, q, j + 1));
                        }
                    }
                }
                proof {
                    if plain {
                        assert(when_clauses@.len() == m);
                        assert(self.pos == q + 4 * m);
                    }
                }
                let else_clause = if self.is_keyword(Keyword::ELSE) {
                    self.advance();
                    Some(Box::new(self.sql_expr()?))
                } else {
                    None
                };
                self.consume_keyword(Keyword::END);
                Some(SqlExpr::Case { operand, when_clauses, else_clause })
            },
            Type::Keyword(Keyword::EXISTS) => {
                self.advance();
                self.consume(Type::BraceLeft);
                let sel = self.select_stmt_inner()?;
                self.consume(Type::BraceRight);
                Some(SqlExpr::Exists { negated: false, subquery: Box::new(sel) })
            },
            Type::Question => {
                self.advance();
                let counter = if matches!(self.cur().ttype, Type::Number(_)) {
                    let c = self.cur().clone();
                    self.advance();
                    Some(c)
                } else {
                    None
                };
                Some(SqlExpr::BindParam { token: cur, name: None, counter })
            },
            Type::Colon | Type::At | Type::Dollar => {
                self.advance();
                if let Some(n) = self.cur_ident() {
                    self.advance();
                    Some(SqlExpr::BindParam { token: cur, name: Some(n), counter: None })
                } else {
                    self.report_cur(
                        "Invalid bind parameter",
                        "expected identifier after bind prefix, got ",
                        "",
                    );
                    None
                }
            },
            Type::Asterisk => {
                self.advance();
                Some(SqlExpr::Star)
            },
            _ => {
                self.report_cur("Unexpected Token in expression", "expected expression, got ", "");
                None
            },
        }
    }

    /// A function call after its name: `([DISTINCT] args | *) [FILTER (WHERE expr)]
    /// [OVER window]`.
    pub(crate) fn sql_expr_function_call(&mut self, name: String) -> (r: Option<SqlExpr>)
        requires
            old(self).wf(),
            old(self).cur_spec().ttype == Type::BraceLeft,
        ensures
            final(self).evolved_from(*old(self)),
            r is None ==> final(self).errors@.len() > old(self).errors@.len(),
            r is Some ==> final(self).pos > old(self).pos,
            call_args_in(old(self).tokens@, old(self).pos as int) matches Some((d, a, m)) ==> (r matches Some(e)
                && plain_call_expr(old(self).tokens@, e, name, d, a, m)) && final(self).pos == a + 2 * m
                && final(self).errors@ == old(self).errors@,
            over_call_in(old(self).tokens@, old(self).pos as int) matches Some((d, a, m)) ==> ({
                let toks = old(self).tokens@;
                let q = a + 2 * m;
                &&& kind_at(toks, q + 1) matches Type::Ident(w) ==> (r matches Some(e) && plain_window_call(
                    toks,
                    e,
                    name,
                    d,
                    a,
                    m,
                ) && *e->WindowFunctionCall_over == WindowOver::Name(w)) && final(self).pos == q + 2
                    && final(self).errors@ == old(self).errors@
                &&& kind_at(toks, q + 1) == Type::BraceLeft ==> (plain_window_in(toks, q + 2) matches Some(
                    (terms, frame, e),
                ) ==> (kind_at(toks, e) == Type::BraceRight ==> (r matches Some(x) && (plain_window_call(
                    toks,
                    x,
                    name,
                    d,
                    a,
                    m,
                ) && (*x->WindowFunctionCall_over matches WindowOver::Spec(w) && w.base_window is None
                    && w.partition_by@.len() == 0 && w.order_by@ == terms && w.frame == frame))) && final(self).pos
                    == e + 1 && final(self).errors@ == old(self).errors@))
            }),
        decreases old(self).remaining(), 2int,
    {
        self.advance();
        let distinct = if self.is_keyword(Keyword::DISTINCT) {
            self.advance();
            true
        } else {
            false
        };
        let mut args: Vec<SqlExpr> = Vec::new();
        if self.is(Type::Asterisk) {
            args.push(SqlExpr::Star);
            self.advance();
            self.consume(Type::BraceRight);
        } else {
            args = self.expr_row()?;
        }
        let filter = if self.is_keyword(Keyword::FILTER) {
            self.advance();
            self.consume(Type::BraceLeft);
            self.consume_keyword(Keyword::WHERE);
            let f = self.sql_expr()?;
            self.consume(Type::BraceRight);
            Some(Box::new(f))
        } else {
            None
        };
        if self.is_keyword(Keyword::OVER) {
            self.advance();
            let over = self.window_over()?;
            return Some(SqlExpr::WindowFunctionCall { name, distinct, args, filter, over: Box::new(over) });
        }
        Some(SqlExpr::FunctionCall { name, distinct, args })
    }
}

} // verus!
