//! Results of the static analysis of scripts, and which of them are reported.
use vstd::prelude::*;
use crate::log::strip_prefix_or_keep;
use crate::text::chars_of;

verus! {

/// A place in a source file, counted from zero.
#[derive(Clone, Copy, Debug)]
pub struct AnalyzeLocation {
    pub line: usize,
    pub column: usize,
}

/// One finding of the analysis.
#[derive(Clone, Debug)]
pub struct AnalyzeResult {
    pub location: String,
    pub location_start: AnalyzeLocation,
    pub location_end: AnalyzeLocation,
    pub is_error: bool,
    pub is_lint: bool,
    pub message: String,
}

impl AnalyzeLocation {
    /// A location from the analyzer's line and column numbers.
    pub fn from_line_column(line: u32, column: u32) -> (r: AnalyzeLocation)
        ensures
            r.line == line,
            r.column == column,
    {
        AnalyzeLocation { line: line as usize, column: column as usize }
    }
}

/// The file name shown for a chunk: its name without a leading `@`.
pub fn chunk_location(name: &str) -> (r: String)
    ensures
        r@ == strip_prefix_or_keep(name@, "@"@),
{
    let chars = chars_of(name);
    if chars.len() > 0 && chars[0] == '@' {
        proof {
            reveal_strlit("@");
            assert(name@.take(1) == "@"@);
        }
        let mut s = String::new();
        let mut i: usize = 1;
        while i < chars.len()
            invariant
                1 <= i <= chars.len(),
                chars@ == name@,
                s@ == chars@.subrange(1, i as int),
            decreases chars.len() - i,
        {
            crate::text::push_char(&mut s, chars[i]);
            assert(chars@.subrange(1, i + 1) == chars@.subrange(1, i as int).push(chars@[i as int]));
            i = i + 1;
        }
        assert(chars@.subrange(1, chars@.len() as int) == name@.skip(1));
        s
    } else {
        proof {
            reveal_strlit("@");
            if name@.len() >= 1 {
                assert(name@.take(1)[0] == name@[0]);
            }
        }
        name.to_owned()
    }
}

/// Whether a finding is shown, given which log levels are enabled: warnings need the
/// warning level, errors the error level.
pub open spec fn is_reported(is_error: bool, warn_enabled: bool, error_enabled: bool) -> bool {
    !((!warn_enabled && !is_error) || (!error_enabled && is_error))
}

pub fn should_report(result: &AnalyzeResult, warn_enabled: bool, error_enabled: bool) -> (r: bool)
    ensures
        r == is_reported(result.is_error, warn_enabled, error_enabled),
        !result.is_error ==> r == warn_enabled,
        result.is_error ==> r == error_enabled,
{
    !((!warn_enabled && !result.is_error) || (!error_enabled && result.is_error))
}

/// Where a finding's label lies in the source: each location's column counted on from the
/// start of its line, given where its start line and its end line begin. `None` when a sum
/// does not fit in a `usize`.
pub fn label_span(start_line_begin: usize, end_line_begin: usize, result: &AnalyzeResult) -> (r:
    Option<(usize, usize)>)
    ensures
        r is Some <==> (start_line_begin + result.location_start.column <= usize::MAX
            && end_line_begin + result.location_end.column <= usize::MAX),
        r matches Some((a, b)) ==> a == start_line_begin + result.location_start.column && b
            == end_line_begin + result.location_end.column,
{
    match start_line_begin.checked_add(result.location_start.column) {
        Some(a) => match end_line_begin.checked_add(result.location_end.column) {
            Some(b) => Some((a, b)),
            None => None,
        },
        None => None,
    }
}

/// A warning is shown exactly when the warning level is enabled, and an error exactly when
/// the error level is enabled, whatever the other level.
pub proof fn law_report_by_own_level(is_error: bool, warn_enabled: bool, error_enabled: bool)
    ensures
        !is_error ==> (is_reported(is_error, warn_enabled, error_enabled) <==> warn_enabled),
        is_error ==> (is_reported(is_error, warn_enabled, error_enabled) <==> error_enabled),
{
}

/// Whether a check passed: none of its findings is an error.
pub fn check_passed(results: &Vec<AnalyzeResult>) -> (r: bool)
    ensures
        r == (forall|i: int| 0 <= i < results.len() ==> !(#[trigger] results@[i]).is_error),
{
    let mut i: usize = 0;
    while i < results.len()
        invariant
            i <= results.len(),
            forall|k: int| 0 <= k < i ==> !(#[trigger] results@[k]).is_error,
        decreases results.len() - i,
    {
        if results[i].is_error {
            return false;
        }
        i = i + 1;
    }
    true
}

} // verus!
