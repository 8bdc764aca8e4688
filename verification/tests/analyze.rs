use crabsoup::analyze::{
    check_passed, chunk_location, label_span, should_report, AnalyzeLocation, AnalyzeResult,
};

fn result(is_error: bool) -> AnalyzeResult {
    AnalyzeResult {
        location: "x".to_string(),
        location_start: AnalyzeLocation::from_line_column(1, 2),
        location_end: AnalyzeLocation::from_line_column(3, 4),
        is_error,
        is_lint: false,
        message: "m".to_string(),
    }
}

#[test]
fn locations() {
    let l = AnalyzeLocation::from_line_column(7, 9);
    assert_eq!((l.line, l.column), (7, 9));
    assert_eq!(chunk_location("@foo.luau"), "foo.luau");
    assert_eq!(chunk_location("foo"), "foo");
    assert_eq!(chunk_location(""), "");
}

#[test]
fn reporting() {
    assert!(should_report(&result(true), false, true));
    assert!(!should_report(&result(true), true, false));
    assert!(should_report(&result(false), true, false));
    assert!(!should_report(&result(false), false, true));
    assert!(check_passed(&vec![result(false), result(false)]));
    assert!(!check_passed(&vec![result(false), result(true)]));
    assert!(check_passed(&Vec::new()));
}

#[test]
fn label_spans() {
    assert_eq!(label_span(10, 30, &result(true)), Some((12, 34)));
    assert_eq!(label_span(usize::MAX, 0, &result(false)), None);
    assert_eq!(label_span(0, usize::MAX - 4, &result(false)), Some((2, usize::MAX)));
}
