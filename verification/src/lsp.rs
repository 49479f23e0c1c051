//! Quick fixes for an editor: which diagnostics' fixes to offer for a range of a file.

use vstd::prelude::*;

use crate::error::Error;

verus! {

/// A range of a file, from `(start_line, start_col)` to `(end_line, end_col)`.
#[derive(Clone, Copy, Debug, PartialEq, Eq, Structural)]
pub struct Span {
    pub start_line: usize,
    pub start_col: usize,
    pub end_line: usize,
    pub end_col: usize,
}

/// Whether `a` ends before `b` starts.
pub open spec fn ends_before(a: Span, b: Span) -> bool {
    a.end_line < b.start_line || (a.end_line == b.start_line && a.end_col < b.start_col)
}

/// Whether two ranges share a place (touching ends count).
pub open spec fn spans_overlap(a: Span, b: Span) -> bool {
    !ends_before(a, b) && !ends_before(b, a)
}

/// Whether two ranges share a place (touching ends count).
pub fn ranges_overlap(a: &Span, b: &Span) -> (r: bool)
    ensures
        r == spans_overlap(*a, *b),
{
    !(a.end_line < b.start_line || (a.end_line == b.start_line && a.end_col < b.start_col)
        || b.end_line < a.start_line || (b.end_line == a.start_line && b.end_col < a.start_col))
}

/// Overlap does not depend on the order of the two ranges.
pub proof fn lemma_overlap_symmetric(a: Span, b: Span)
    ensures
        spans_overlap(a, b) == spans_overlap(b, a),
{
}

/// The range a diagnostic covers: its columns on its line.
pub open spec fn diagnostic_span(e: Error) -> Span {
    Span { start_line: e.line, start_col: e.start, end_line: e.line, end_col: e.end }
}

/// Whether a diagnostic's fix only informs (adds no text): an empty replacement whose
/// message asks for a WHERE clause.
pub open spec fn informational(e: Error) -> bool {
    e.suggestion matches Some(s) && s.replacement@.len() == 0 && s.message@.len() >= 11
        && s.message@.subrange(0, 11) == "Add a WHERE"@
}

/// Whether the editor is offered the fix of diagnostic `e` for range `req`.
pub open spec fn offers_fix(e: Error, req: Span) -> bool {
    spans_overlap(diagnostic_span(e), req) && e.suggestion is Some && !informational(e)
}

/// A fix offered to the editor: replace `edit` by `new_text`, titled by the fix's message,
/// for diagnostic number `diagnostic`.
#[derive(Debug, PartialEq)]
pub struct QuickFix {
    pub title: String,
    pub edit: Span,
    pub new_text: String,
    pub diagnostic: usize,
}

/// The indices of the diagnostics among `errs` whose fixes are offered for `req`, in order.
pub open spec fn offered(errs: Seq<Error>, req: Span) -> Seq<int>
    decreases errs.len(),
{
    if errs.len() == 0 {
        Seq::empty()
    } else if offers_fix(errs.last(), req) {
        offered(errs.drop_last(), req).push(errs.len() - 1)
    } else {
        offered(errs.drop_last(), req)
    }
}

/// Whether a string starts with "Add a WHERE".
fn starts_with_add_where(s: &str) -> (r: bool)
    ensures
        r == (s@.len() >= 11 && s@.subrange(0, 11) == "Add a WHERE"@),
{
    let pat = "Add a WHERE";
    proof {
        reveal_strlit("Add a WHERE");
    }
    if s.unicode_len() < 11 {
        return false;
    }
    let mut i: usize = 0;
    while i < 11
        invariant
            s@.len() >= 11,
            pat@ == "Add a WHERE"@,
            pat@.len() == 11,
            i <= 11,
            forall|j: int| 0 <= j < i ==> s@[j] == pat@[j],
        decreases 11 - i,
    {
        if s.get_char(i) != pat.get_char(i) {
            return false;
        }
        i += 1;
    }
    assert(s@.subrange(0, 11) =~= pat@);
    true
}

/// The quick fixes for the diagnostics `errs` that overlap the requested range `req`:
/// each diagnostic with a fix that edits text, in order.
pub fn code_actions(errs: &Vec<Error>, req: &Span) -> (r: Vec<QuickFix>)
    ensures
        r@.len() == offered(errs@, *req).len(),
        forall|k: int|
            0 <= k < r@.len() ==> {
                let i = offered(errs@, *req)[k];
                let s = errs@[i].suggestion->Some_0;
                &&& (#[trigger] r@[k]).diagnostic == i
                &&& r@[k].title@ == s.message@
                &&& r@[k].new_text@ == s.replacement@
                &&& r@[k].edit == (Span {
                    start_line: s.start_line,
                    start_col: s.start_col,
                    end_line: s.end_line,
                    end_col: s.end_col,
                })
            },
{
    let mut out: Vec<QuickFix> = Vec::new();
    let mut i: usize = 0;
    while i < errs.len()
        invariant
            i <= errs@.len(),
            out@.len() == offered(errs@.take(i as int), *req).len(),
            forall|k: int|
                0 <= k < out@.len() ==> {
                    let j = offered(errs@.take(i as int), *req)[k];
                    let s = errs@[j].suggestion->Some_0;
                    &&& 0 <= j < i
                    &&& (#[trigger] out@[k]).diagnostic == j
                    &&& out@[k].title@ == s.message@
                    &&& out@[k].new_text@ == s.replacement@
                    &&& out@[k].edit == (Span {
                        start_line: s.start_line,
                        start_col: s.start_col,
                        end_line: s.end_line,
                        end_col: s.end_col,
                    })
                },
        decreases errs@.len() - i,
    {
        let e = &errs[i];
        let span = Span { start_line: e.line, start_col: e.start, end_line: e.line, end_col: e.end };
        proof {
            assert(errs@.take(i + 1).drop_last() =~= errs@.take(i as int));
            assert(errs@.take(i + 1).last() == errs@[i as int]);
            lemma_offered_in_range(errs@.take(i as int), *req);
        }
        if ranges_overlap(&span, req) {
            if let Some(s) = &e.suggestion {
                if !(s.replacement.unicode_len() == 0 && starts_with_add_where(s.message.as_str())) {
                    out.push(
                        QuickFix {
                            title: s.message.clone(),
                            edit: Span {
                                start_line: s.start_line,
                                start_col: s.start_col,
                                end_line: s.end_line,
                                end_col: s.end_col,
                            },
                            new_text: s.replacement.clone(),
                            diagnostic: i,
                        },
                    );
                }
            }
        }
        i += 1;
    }
    proof {
        assert(errs@.take(errs@.len() as int) =~= errs@);
    }
    out
}

/// Every index that `offered` gives is an index of the diagnostics.
proof fn lemma_offered_in_range(errs: Seq<Error>, req: Span)
    ensures
        forall|k: int| 0 <= k < offered(errs, req).len() ==> 0 <= #[trigger] offered(errs, req)[k] < errs.len(),
    decreases errs.len(),
{
    if errs.len() > 0 {
        lemma_offered_in_range(errs.drop_last(), req);
        let p = offered(errs.drop_last(), req);
        assert forall|k: int| 0 <= k < offered(errs, req).len() implies 0 <= #[trigger] offered(errs, req)[k]
            < errs.len() by {
            if k < p.len() {
                assert(offered(errs, req)[k] == p[k]);
            }
        }
    }
}

} // verus!
