use sqleibniz::analyzer::{suggest_from_list, types_compatible};
use sqleibniz::error::{Error, Suggestion};
use sqleibniz::lev::{byte_distance, closest, distance};
use sqleibniz::lsp::{code_actions, ranges_overlap, Span};
use sqleibniz::types::{Keyword, Rule, SqliteStorageClass};

fn span(a: usize, b: usize, c: usize, d: usize) -> Span {
    Span { start_line: a, start_col: b, end_line: c, end_col: d }
}

fn error_with(line: usize, start: usize, end: usize, fix: Option<(&str, &str)>) -> Error {
    Error {
        improved_line: None,
        file: String::from("f"),
        line,
        rule: Rule::Syntax,
        note: String::new(),
        msg: String::new(),
        start,
        end,
        doc_url: None,
        suggestion: fix.map(|(m, r)| Suggestion {
            message: String::from(m),
            replacement: String::from(r),
            start_line: line,
            start_col: start,
            end_line: line,
            end_col: end,
        }),
    }
}

#[test]
fn levenshtein_distances() {
    assert_eq!(distance("kitten", "sitting"), 3);
    assert_eq!(distance("", "abc"), 3);
    assert_eq!(distance("usres", "users"), 2);
    assert_eq!(distance("same", "same"), 0);
}

#[test]
fn byte_levenshtein_distances() {
    assert_eq!(byte_distance("kitten".as_bytes(), "sitting".as_bytes()), 3);
    assert_eq!(byte_distance("".as_bytes(), "abc".as_bytes()), 3);
    assert_eq!(byte_distance("same".as_bytes(), "same".as_bytes()), 0);
    // One character of two bytes against one of one byte: two byte edits.
    assert_eq!(byte_distance("é".as_bytes(), "e".as_bytes()), 2);
}

#[test]
fn long_names_still_get_hints() {
    let long = "a".repeat(5000);
    let names = vec![long.clone(), String::from("b")];
    assert_eq!(suggest_from_list(long.as_str(), &names), vec![long.clone()]);
    let upper = "A".repeat(5000);
    assert_eq!(suggest_from_list(upper.as_str(), &names), vec![long]);
}

#[test]
fn hints_lower_case_beyond_ascii() {
    let names = vec![String::from("ÉTUDE")];
    assert_eq!(suggest_from_list("étude", &names), vec![String::from("ÉTUDE")]);
}

#[test]
fn closest_candidates() {
    assert_eq!(closest(&vec![5, 1, 3, 1, 0], 3, 3), vec![4, 1, 3]);
    assert_eq!(closest(&vec![9, 8], 4, 3), Vec::<usize>::new());
    assert_eq!(closest(&vec![2, 7, 4], 4, 3), vec![0, 2]);
}

#[test]
fn suggestions_from_a_list() {
    let names = vec![String::from("id"), String::from("Name"), String::from("email")];
    assert_eq!(
        suggest_from_list("naem", &names),
        vec![String::from("Name"), String::from("id"), String::from("email")]
    );
    assert_eq!(suggest_from_list("zzzzzzzzz", &names), Vec::<String>::new());
}

#[test]
fn keyword_suggestions() {
    assert_eq!(Keyword::suggestions("selec")[0], "SELECT");
    assert!(Keyword::suggestions("qqqqqqqq").is_empty());
}

#[test]
fn storage_class_compatibility() {
    assert!(types_compatible(SqliteStorageClass::Integer, SqliteStorageClass::Real));
    assert!(types_compatible(SqliteStorageClass::Null, SqliteStorageClass::Blob));
    assert!(!types_compatible(SqliteStorageClass::Text, SqliteStorageClass::Integer));
    assert!(!types_compatible(SqliteStorageClass::Text, SqliteStorageClass::Blob));
}

#[test]
fn storage_class_affinity() {
    assert_eq!(SqliteStorageClass::from_str("VARCHAR(20)"), SqliteStorageClass::Text);
    assert_eq!(SqliteStorageClass::from_str("bigint"), SqliteStorageClass::Integer);
    assert_eq!(SqliteStorageClass::from_str("DOUBLE"), SqliteStorageClass::Real);
    assert_eq!(SqliteStorageClass::from_str_strict("text"), Some(SqliteStorageClass::Text));
    assert_eq!(SqliteStorageClass::from_str_strict("VARCHAR"), None);
}

#[test]
fn overlapping_ranges() {
    assert!(ranges_overlap(&span(0, 0, 0, 5), &span(0, 5, 0, 9)));
    assert!(!ranges_overlap(&span(0, 0, 0, 4), &span(0, 5, 0, 9)));
    assert!(ranges_overlap(&span(0, 0, 3, 0), &span(1, 2, 1, 3)));
    assert!(!ranges_overlap(&span(2, 0, 2, 1), &span(0, 0, 1, 9)));
}

#[test]
fn quick_fixes_for_a_range() {
    let errs = vec![
        error_with(0, 0, 4, Some(("Replace", "X"))),
        error_with(0, 10, 12, Some(("Far away", "Y"))),
        error_with(0, 2, 3, None),
        error_with(0, 1, 2, Some(("Add a WHERE clause", ""))),
        error_with(0, 3, 6, Some(("Second", "Z"))),
    ];
    let fixes = code_actions(&errs, &span(0, 2, 0, 3));
    assert_eq!(fixes.len(), 2);
    assert_eq!(fixes[0].diagnostic, 0);
    assert_eq!(fixes[0].title, "Replace");
    assert_eq!(fixes[0].new_text, "X");
    assert_eq!(fixes[1].diagnostic, 4);
    assert_eq!(fixes[1].edit, span(0, 3, 0, 6));
}
